//! The directory as mathematics: what it holds, and what a request to create
//! a record returns and leaves behind.

use vstd::prelude::*;
use crate::error::ErrorKind;
use crate::record::UserModel;
use crate::validation::{acceptable_name, lowercase, well_formed_address};

verus! {

/// The state of a directory.
pub struct Directory {
    /// The records held, oldest first.
    pub records: Seq<UserModel>,
    /// The identifier that the next record receives.
    pub next_id: nat,
}

impl Directory {
    /// A directory without records whose first record will receive `first_id`.
    pub open spec fn empty(first_id: nat) -> Directory {
        Directory { records: Seq::empty(), next_id: first_id }
    }

    /// The record at place `i` is the one keyed by `key`: `key` is the
    /// lowercase form of its address.
    pub open spec fn keyed_at(self, key: Seq<char>, i: int) -> bool {
        0 <= i < self.records.len() && lowercase(self.records[i].email) == key
    }

    /// A record is keyed by `key`.
    pub open spec fn holds_key(self, key: Seq<char>) -> bool {
        exists|i: int| self.keyed_at(key, i)
    }

    /// The record keyed by `key`, if there is one.
    pub open spec fn lookup_key(self, key: Seq<char>) -> Option<UserModel> {
        if self.holds_key(key) {
            Some(self.records[choose|i: int| self.keyed_at(key, i)])
        } else {
            None
        }
    }

    /// A record exists whose address has the same lowercase form as `email`.
    pub open spec fn holds(self, email: Seq<char>) -> bool {
        self.holds_key(lowercase(email))
    }

    /// The record whose address has the same lowercase form as `email`, if
    /// there is one.
    pub open spec fn lookup(self, email: Seq<char>) -> Option<UserModel> {
        self.lookup_key(lowercase(email))
    }

    /// No identifier is left to give out.
    pub open spec fn full(self) -> bool {
        self.next_id >= u64::MAX
    }

    /// What every directory satisfies: each record is valid, identifiers grow
    /// with age and lie below the next one, and no two records have addresses
    /// with the same lowercase form.
    pub open spec fn wf(self) -> bool {
        &&& self.next_id <= u64::MAX
        &&& forall|i: int|
            #![trigger self.records[i]]
            0 <= i < self.records.len() ==> {
                &&& acceptable_name(self.records[i].name)
                &&& well_formed_address(self.records[i].email)
                &&& self.records[i].id < self.next_id
            }
        &&& forall|i: int, j: int|
            #![trigger self.records[i], self.records[j]]
            0 <= i < j < self.records.len() ==> {
                &&& self.records[i].id < self.records[j].id
                &&& lowercase(self.records[i].email) != lowercase(self.records[j].email)
            }
    }

    /// What a request to create a record for `name` and `email` returns. A
    /// text that is no address is turned down at once; then the address is
    /// looked up, the name is judged, and an identifier is taken.
    pub open spec fn create_result(self, name: Seq<char>, email: Seq<char>) -> Result<
        UserModel,
        ErrorKind,
    > {
        if !well_formed_address(email) {
            Err(ErrorKind::InvalidInput)
        } else if self.holds(email) {
            Err(ErrorKind::DuplicateUser)
        } else if !acceptable_name(name) {
            Err(ErrorKind::InvalidInput)
        } else if self.full() {
            Err(ErrorKind::StorageUnavailable)
        } else {
            Ok(UserModel { id: self.next_id, name, email })
        }
    }

    /// The directory after that request: with the new record at the end where
    /// the request succeeds, the same as before where it fails.
    pub open spec fn after_create(self, name: Seq<char>, email: Seq<char>) -> Directory {
        match self.create_result(name, email) {
            Ok(record) => Directory {
                records: self.records.push(record),
                next_id: self.next_id + 1,
            },
            Err(_) => self,
        }
    }

    /// At most one place is keyed by a given key.
    pub proof fn lemma_key_unique(self, key: Seq<char>, i: int, j: int)
        requires
            self.wf(),
            self.keyed_at(key, i),
            self.keyed_at(key, j),
        ensures
            i == j,
    {
        if i < j {
            assert(lowercase(self.records[i].email) != lowercase(self.records[j].email));
        } else if j < i {
            assert(lowercase(self.records[j].email) != lowercase(self.records[i].email));
        }
    }

    /// A lookup returns the record at the place keyed by the key.
    pub proof fn lemma_lookup_at(self, key: Seq<char>, i: int)
        requires
            self.wf(),
            self.keyed_at(key, i),
        ensures
            self.lookup_key(key) == Some(self.records[i]),
    {
        let j = choose|j: int| self.keyed_at(key, j);
        self.lemma_key_unique(key, i, j);
    }

    /// Creating a record keeps the directory well formed.
    pub proof fn lemma_create_keeps_wf(self, name: Seq<char>, email: Seq<char>)
        requires
            self.wf(),
        ensures
            self.after_create(name, email).wf(),
    {
        let after = self.after_create(name, email);
        if self.create_result(name, email) is Ok {
            let n = self.records.len() as int;
            assert forall|i: int, j: int|
                #![trigger after.records[i], after.records[j]]
                0 <= i < j < after.records.len() implies after.records[i].id < after.records[j].id
                && lowercase(after.records[i].email) != lowercase(after.records[j].email) by {
                if j == n {
                    assert(after.records[i] == self.records[i]);
                    if lowercase(self.records[i].email) == lowercase(email) {
                        assert(self.keyed_at(lowercase(email), i));
                    }
                } else {
                    assert(after.records[i] == self.records[i]);
                    assert(after.records[j] == self.records[j]);
                }
            }
            assert forall|i: int|
                #![trigger after.records[i]]
                0 <= i < after.records.len() implies acceptable_name(after.records[i].name)
                && well_formed_address(after.records[i].email) && after.records[i].id
                < after.next_id by {
                if i < n {
                    assert(after.records[i] == self.records[i]);
                }
            }
        }
    }
}

} // verus!
