//! The ways in which a request to the directory can fail.

use vstd::prelude::*;

verus! {

/// Why a request was turned down.
#[derive(Clone, Copy, Debug, PartialEq, Eq, Structural)]
pub enum ErrorKind {
    /// The name is blank or the address is not of the form `local@domain`.
    /// The caller corrects the input and asks again.
    InvalidInput,
    /// A record whose address has the same lowercase form
    /// exists already.
    DuplicateUser,
    /// The store cannot take the write. The caller may ask again later.
    StorageUnavailable,
}

impl ErrorKind {
    /// The text that `message` renders.
    pub open spec fn text(self) -> Seq<char> {
        match self {
            ErrorKind::InvalidInput => "invalid input: the name is blank or the address is malformed"@,
            ErrorKind::DuplicateUser => "duplicate user: the address is already registered"@,
            ErrorKind::StorageUnavailable => "storage unavailable: the record could not be written"@,
        }
    }

    /// The failure as a sentence, for callers that take their errors as text.
    pub fn message(self) -> (msg: String)
        ensures
            msg@ == self.text(),
    {
        match self {
            ErrorKind::InvalidInput => {
                "invalid input: the name is blank or the address is malformed".to_owned()
            },
            ErrorKind::DuplicateUser => {
                "duplicate user: the address is already registered".to_owned()
            },
            ErrorKind::StorageUnavailable => {
                "storage unavailable: the record could not be written".to_owned()
            },
        }
    }

    /// Whether the same request may succeed when it is made again later.
    pub fn is_retryable(self) -> (r: bool)
        ensures
            r == (self == ErrorKind::StorageUnavailable),
    {
        match self {
            ErrorKind::StorageUnavailable => true,
            _ => false,
        }
    }
}

} // verus!
