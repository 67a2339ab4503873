//! Why a background worker could not start.
use vstd::prelude::*;

verus! {

/// The part of a worker's setup that failed, with the error's text.
#[derive(Debug, Clone, PartialEq, Eq)]
pub enum WorkerSetupError {
    Db(String),
    Client(String),
    Runtime(String),
}

impl WorkerSetupError {
    /// The error's text, whichever part failed.
    pub fn into_message(self) -> (r: String)
        ensures
            r == match self {
                WorkerSetupError::Db(m) => m,
                WorkerSetupError::Client(m) => m,
                WorkerSetupError::Runtime(m) => m,
            },
    {
        match self {
            WorkerSetupError::Db(message) => message,
            WorkerSetupError::Client(message) => message,
            WorkerSetupError::Runtime(message) => message,
        }
    }
}

} // verus!
