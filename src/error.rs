use vstd::prelude::*;

verus! {

/// The failures of the mutation engine and of the token codec.
#[derive(Debug, Clone)]
pub enum Error {
    /// An argument does not have the form that the operation needs.
    IllegalArgument(String),
    /// The operation met a state it cannot work from.
    IllegalState(String),
    /// No entry exists under the given key.
    KeyNotFound(String),
}

impl Error {
    pub fn illegal_argument(msg: String) -> (r: Error)
        ensures
            r == Error::IllegalArgument(msg),
    {
        Error::IllegalArgument(msg)
    }

    pub fn illegal_state(msg: String) -> (r: Error)
        ensures
            r == Error::IllegalState(msg),
    {
        Error::IllegalState(msg)
    }

    pub fn key_not_found(msg: String) -> (r: Error)
        ensures
            r == Error::KeyNotFound(msg),
    {
        Error::KeyNotFound(msg)
    }
}

} // verus!
