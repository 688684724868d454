//! The errors that halt a batch.

use vstd::prelude::*;

verus! {

/// `serde_json::Error`: why a text is not JSON. It is handed on, never read.
#[verifier::external_type_specification]
#[verifier::external_body]
pub struct ExJsonError(serde_json::Error);

/// `regex::Error`: why an expression does not compile. It is handed on, never
/// read.
#[verifier::external_type_specification]
#[verifier::external_body]
pub struct ExRegexError(regex::Error);

/// Why a step of the pipeline failed.
#[derive(Debug)]
pub enum SyncError {
    /// A payload is not JSON text.
    JSONError(serde_json::Error),
    /// The configured expression does not compile.
    RegexError(regex::Error),
    /// A value that had to be present is absent.
    Option,
    /// A required setting is missing; the message names it.
    MissingParams(&'static str),
    /// A record lacks an attribute that a column is mapped to; the message names it.
    OptionParams(String),
}

/// What contracts say of a [`SyncError`]: its variant and its message.
pub enum Fault {
    JSONError,
    RegexError,
    Option,
    MissingParams(Seq<char>),
    OptionParams(Seq<char>),
}

impl View for SyncError {
    type V = Fault;

    open spec fn view(&self) -> Fault {
        match self {
            SyncError::JSONError(_) => Fault::JSONError,
            SyncError::RegexError(_) => Fault::RegexError,
            SyncError::Option => Fault::Option,
            SyncError::MissingParams(name) => Fault::MissingParams(name@),
            SyncError::OptionParams(name) => Fault::OptionParams(name@),
        }
    }
}

} // verus!
