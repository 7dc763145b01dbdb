//! The commands a front end calls. Each is a thin step over the store that is
//! handed to it: failures are classified by the store and passed on as they
//! are.

use vstd::prelude::*;
use crate::error::ErrorKind;
use crate::record::UserModel;
use crate::store::UserStore;

verus! {

/// What a caller makes of an address that is registered already.
#[derive(Clone, Copy, Debug, PartialEq, Eq, Structural)]
pub enum DuplicatePolicy {
    /// A duplicate is a failure.
    Reject,
    /// A duplicate counts as done: the user is there, as was asked.
    TreatAsSuccess,
}

impl DuplicatePolicy {
    /// `outcome` as the policy reads it.
    pub open spec fn settled(self, outcome: Result<(), ErrorKind>) -> Result<(), ErrorKind> {
        if self == DuplicatePolicy::TreatAsSuccess && outcome == Err::<(), ErrorKind>(
            ErrorKind::DuplicateUser,
        ) {
            Ok(())
        } else {
            outcome
        }
    }

    /// Reads the outcome of `save_user` under the policy: under
    /// `TreatAsSuccess` a duplicate becomes a success, everything else stays.
    pub fn settle(self, outcome: Result<(), ErrorKind>) -> (res: Result<(), ErrorKind>)
        ensures
            res == self.settled(outcome),
    {
        match (self, outcome) {
            (DuplicatePolicy::TreatAsSuccess, Err(ErrorKind::DuplicateUser)) => Ok(()),
            (_, other) => other,
        }
    }
}

/// The outcome of creating a record with the record left out.
pub open spec fn acknowledged(created: Result<UserModel, ErrorKind>) -> Result<(), ErrorKind> {
    match created {
        Ok(_) => Ok(()),
        Err(e) => Err(e),
    }
}

/// The greeting that `my_custom_command` returns.
pub open spec fn greeting() -> Seq<char> {
    "Hello from Rust!"@
}

/// Answers with a fixed greeting: a sign that the boundary is alive.
pub fn my_custom_command() -> (reply: String)
    ensures
        reply@ == greeting(),
{
    "Hello from Rust!".to_owned()
}

/// Registers a user in `store`. Succeeds exactly when the store creates the
/// record, which is then found by later lookups; fails with the store's own
/// classification, and then leaves the store as it was.
pub fn save_user(store: &mut UserStore, name: String, email: String) -> (res: Result<
    (),
    ErrorKind,
>)
    ensures
        res == acknowledged(old(store)@.create_result(name@, email@)),
        final(store)@ == old(store)@.after_create(name@, email@),
        final(store)@.wf(),
        res is Ok ==> final(store)@.lookup(email@) == Some(
            UserModel { id: old(store)@.next_id, name: name@, email: email@ },
        ),
        res is Ok || old(store)@.holds(email@) ==> final(store)@.holds(email@),
{
    match store.create_user(name, email) {
        Ok(_) => Ok(()),
        Err(e) => Err(e),
    }
}

} // verus!
