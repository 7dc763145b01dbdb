//! The store that owns the records and keeps them unique.

use vstd::prelude::*;
use crate::directory::Directory;
use crate::error::ErrorKind;
use crate::laws::{lemma_held_after_create, lemma_lookup_follows_create};
use crate::record::{UserModel, UserRecord};
use crate::validation::{is_acceptable_name, is_well_formed_address, lowercase, lowercased};

verus! {

/// A record together with the key under which it is found.
#[derive(Debug)]
struct Entry {
    key: String,
    record: UserRecord,
}

/// The records of a directory, held in memory. Records are only ever added.
#[derive(Debug)]
pub struct UserStore {
    entries: Vec<Entry>,
    next_id: u64,
}

impl View for UserStore {
    type V = Directory;

    closed spec fn view(&self) -> Directory {
        Directory {
            records: Seq::new(self.entries@.len(), |i: int| self.entries@[i].record@),
            next_id: self.next_id as nat,
        }
    }
}

impl UserStore {
    /// Holds of every store: its directory is well formed, and each entry is
    /// keyed by the lowercase form of its record's address.
    #[verifier::type_invariant]
    spec fn inv(self) -> bool {
        &&& self@.wf()
        &&& forall|i: int|
            #![trigger self.entries@[i]]
            0 <= i < self.entries@.len() ==> self.entries@[i].key@ == lowercase(
                self.entries@[i].record.email@,
            )
    }

    /// An empty store whose identifiers start at 1.
    pub fn new() -> (store: UserStore)
        ensures
            store@ == Directory::empty(1),
            store@.wf(),
    {
        UserStore::starting_at(1)
    }

    /// An empty store whose first record will receive `first_id`.
    pub fn starting_at(first_id: u64) -> (store: UserStore)
        ensures
            store@ == Directory::empty(first_id as nat),
            store@.wf(),
    {
        let store = UserStore { entries: Vec::new(), next_id: first_id };
        assert(store@.records =~= Seq::<UserModel>::empty());
        store
    }

    /// The number of records held.
    pub fn len(&self) -> (n: usize)
        ensures
            n == self@.records.len(),
            self@.wf(),
    {
        proof {
            use_type_invariant(self);
        }
        self.entries.len()
    }

    /// Whether no record is held.
    pub fn is_empty(&self) -> (r: bool)
        ensures
            r == (self@.records.len() == 0),
            self@.wf(),
    {
        proof {
            use_type_invariant(self);
        }
        self.entries.len() == 0
    }

    /// The place of the entry keyed by `key`.
    fn position(&self, key: &String) -> (place: Option<usize>)
        ensures
            match place {
                Some(i) => self@.keyed_at(key@, i as int),
                None => !self@.holds_key(key@),
            },
    {
        proof {
            use_type_invariant(self);
        }
        let mut i: usize = 0;
        while i < self.entries.len()
            invariant
                i <= self.entries@.len(),
                forall|j: int|
                    #![trigger self.entries@[j]]
                    0 <= j < self.entries@.len() ==> self.entries@[j].key@ == lowercase(
                        self.entries@[j].record.email@,
                    ),
                forall|j: int| 0 <= j < i ==> !self@.keyed_at(key@, j),
            decreases self.entries@.len() - i,
        {
            if self.entries[i].key == *key {
                return Some(i);
            }
            i += 1;
        }
        None
    }

    /// The record keyed by `key`, a lowercase form, if the store holds one.
    /// This is the step of `find_by_email` that follows the lowering of case.
    pub fn find_by_key(&self, key: &str) -> (found: Option<UserRecord>)
        ensures
            match found {
                Some(record) => self@.lookup_key(key@) == Some(record@),
                None => self@.lookup_key(key@) is None,
            },
            self@.wf(),
    {
        proof {
            use_type_invariant(self);
        }
        let key = key.to_owned();
        match self.position(&key) {
            Some(i) => {
                proof {
                    self@.lemma_lookup_at(key@, i as int);
                }
                Some(self.entries[i].record.clone())
            },
            None => None,
        }
    }

    /// The record whose address has the same lowercase form as `email`, if
    /// the store holds one. Nothing is changed.
    pub fn find_by_email(&self, email: &str) -> (found: Option<UserRecord>)
        ensures
            match found {
                Some(record) => self@.lookup(email@) == Some(record@),
                None => self@.lookup(email@) is None,
            },
            self@.wf(),
    {
        let key = lowercased(email);
        self.find_by_key(key.as_str())
    }

    /// Creates the record for `name` and `email` under `key`, the lowercase
    /// form of `email`, and returns a copy of it, or says why it was not
    /// created. This is the step of `create_user` that follows the lowering of
    /// case.
    pub fn create_user_keyed(&mut self, key: String, name: String, email: String) -> (res: Result<
        UserRecord,
        ErrorKind,
    >)
        requires
            key@ == lowercase(email@),
        ensures
            match res {
                Ok(record) => old(self)@.create_result(name@, email@) == Ok::<UserModel, ErrorKind>(
                    record@,
                ),
                Err(e) => old(self)@.create_result(name@, email@) == Err::<UserModel, ErrorKind>(e),
            },
            final(self)@ == old(self)@.after_create(name@, email@),
            final(self)@.wf(),
            res is Ok ==> final(self)@.lookup(email@) == Some(res->Ok_0@),
            res is Ok || old(self)@.holds(email@) ==> final(self)@.holds(email@),
    {
        proof {
            use_type_invariant(&*self);
            if old(self)@.create_result(name@, email@) is Ok {
                lemma_lookup_follows_create(old(self)@, name@, email@, email@);
            }
            lemma_held_after_create(old(self)@, name@, email@, email@);
        }
        if !is_well_formed_address(email.as_str()) {
            return Err(ErrorKind::InvalidInput);
        }
        if self.position(&key).is_some() {
            return Err(ErrorKind::DuplicateUser);
        }
        if !is_acceptable_name(name.as_str()) {
            return Err(ErrorKind::InvalidInput);
        }
        if self.next_id == u64::MAX {
            return Err(ErrorKind::StorageUnavailable);
        }
        let record = UserRecord { id: self.next_id, name, email };
        let copy = record.clone();
        proof {
            old(self)@.lemma_create_keeps_wf(name@, email@);
        }
        // The entries leave the store while they grow, so that the store is
        // whole at every step.
        let mut entries: Vec<Entry> = Vec::new();
        core::mem::swap(&mut self.entries, &mut entries);
        entries.push(Entry { key, record });
        self.next_id = self.next_id + 1;
        assert(Seq::new(entries@.len(), |i: int| entries@[i].record@) =~= old(self)@.records.push(
            copy@,
        ));
        self.entries = entries;
        Ok(copy)
    }

    /// Creates the record for `name` and `email` and returns a copy of it, or
    /// says why it was not created. A request that fails changes nothing.
    pub fn create_user(&mut self, name: String, email: String) -> (res: Result<
        UserRecord,
        ErrorKind,
    >)
        ensures
            match res {
                Ok(record) => old(self)@.create_result(name@, email@) == Ok::<UserModel, ErrorKind>(
                    record@,
                ),
                Err(e) => old(self)@.create_result(name@, email@) == Err::<UserModel, ErrorKind>(e),
            },
            final(self)@ == old(self)@.after_create(name@, email@),
            final(self)@.wf(),
            res is Ok ==> final(self)@.lookup(email@) == Some(res->Ok_0@),
            res is Ok || old(self)@.holds(email@) ==> final(self)@.holds(email@),
    {
        let key = lowercased(email.as_str());
        self.create_user_keyed(key, name, email)
    }
}

} // verus!
