//! The errors that the application's commands report.
use vstd::prelude::*;

verus! {

/// An error reported to the front end, with its message.
#[derive(Debug, PartialEq, Eq)]
pub enum KashshafError {
    Search(String),
    Database(String),
    Index(String),
    Download(String),
    Network(String),
    CorpusNotReady(String),
    Other(String),
}

} // verus!
