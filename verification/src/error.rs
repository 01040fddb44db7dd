//! The faults that a crawl can meet.

use vstd::prelude::*;

verus! {

/// What went wrong, with the message that came with it.
#[derive(Debug)]
pub enum CrablerError {
    /// An operation was attempted on a closed queue.
    QueueClosed,
    /// The network or HTTP layer failed.
    FetchFailed(String),
    /// A file could not be created or written.
    IoFailed(String),
    /// A handler of the scraper signalled a failure.
    CallbackFailed(String),
}

/// A fault as a mathematical value: its kind and the characters of its message.
pub enum Fault {
    QueueClosed,
    FetchFailed(Seq<char>),
    IoFailed(Seq<char>),
    CallbackFailed(Seq<char>),
}

impl View for CrablerError {
    type V = Fault;

    open spec fn view(&self) -> Fault {
        match *self {
            CrablerError::QueueClosed => Fault::QueueClosed,
            CrablerError::FetchFailed(message) => Fault::FetchFailed(message@),
            CrablerError::IoFailed(message) => Fault::IoFailed(message@),
            CrablerError::CallbackFailed(message) => Fault::CallbackFailed(message@),
        }
    }
}

} // verus!
