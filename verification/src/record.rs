//! The stored identity of a user.

use vstd::prelude::*;

verus! {

/// What a record says, as plain mathematics.
pub struct UserModel {
    pub id: nat,
    pub name: Seq<char>,
    pub email: Seq<char>,
}

/// One user as the directory holds it. The directory hands out copies: a
/// record inside it never changes.
#[derive(Debug)]
pub struct UserRecord {
    /// Assigned by the directory when the record is created.
    pub id: u64,
    /// The display name, as it was given.
    pub name: String,
    /// The address, in the casing in which it was given.
    pub email: String,
}

impl View for UserRecord {
    type V = UserModel;

    open spec fn view(&self) -> UserModel {
        UserModel { id: self.id as nat, name: self.name@, email: self.email@ }
    }
}

impl Clone for UserRecord {
    fn clone(&self) -> (copy: Self)
        ensures
            copy@ == self@,
    {
        UserRecord { id: self.id, name: self.name.clone(), email: self.email.clone() }
    }
}

impl PartialEq for UserRecord {
    fn eq(&self, other: &Self) -> (r: bool) {
        self.id == other.id && self.name == other.name && self.email == other.email
    }
}

impl vstd::std_specs::cmp::PartialEqSpecImpl for UserRecord {
    open spec fn obeys_eq_spec() -> bool {
        true
    }

    open spec fn eq_spec(&self, other: &Self) -> bool {
        self.id == other.id && self.name@ == other.name@ && self.email@ == other.email@
    }
}

impl Eq for UserRecord {

}

} // verus!
