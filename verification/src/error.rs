//! Error values raised at the decoding boundary.

use vstd::prelude::*;

verus! {

/// A failure while decoding metadata bytes or parsing an event-argument
/// string.
#[derive(Debug, PartialEq, Eq)]
pub enum Error {
    /// The four magic bytes at the front of an encoded metadata blob did
    /// not match the reserved sentinel.
    InvalidPrefix,
    /// The version byte named an unsupported metadata dialect.
    InvalidVersion,
    /// A dialect field arrived in a form that was not yet decoded.
    ExpectedDecoded,
    /// A wrapped SCALE decoding failure, with its message.
    Codec(String),
    /// An event-argument string did not follow the grammar: the offending
    /// input and the reason.
    InvalidEventArg(String, &'static str),
    /// Two spec-version override ranges of one chain overlap; found when
    /// the overrides are validated at load.
    OverlappingRanges,
}

} // verus!
