//! Why an event could not be assembled.

use vstd::prelude::*;

verus! {

/// The three places that take `key:value` arguments.
#[derive(Clone, Copy, Debug, PartialEq, Eq, Structural)]
pub enum PairKind {
    Tag,
    Extra,
    User,
}

/// A validation failure. Each one ends the assembly: no event is produced.
#[derive(Clone, Copy, Debug, PartialEq, Eq, Structural)]
pub enum EventError {
    /// A `key:value` argument of the given kind holds no colon.
    MissingValue(PairKind),
    /// The timestamp is in none of the accepted formats.
    InvalidTimestamp,
    /// The value given for the user's `ip_address` is no address.
    InvalidIpAddress,
}

/// The text that reports an error.
pub open spec fn error_text(error: EventError) -> Seq<char> {
    match error {
        EventError::MissingValue(PairKind::Tag) => "missing tag value"@,
        EventError::MissingValue(PairKind::Extra) => "missing extra value"@,
        EventError::MissingValue(PairKind::User) => "missing user value"@,
        EventError::InvalidTimestamp => "invalid timestamp"@,
        EventError::InvalidIpAddress => "invalid IP address"@,
    }
}

impl EventError {
    /// The text that reports this error.
    pub fn message(&self) -> (r: String)
        ensures
            r@ == error_text(*self),
    {
        match self {
            EventError::MissingValue(PairKind::Tag) => "missing tag value".to_owned(),
            EventError::MissingValue(PairKind::Extra) => "missing extra value".to_owned(),
            EventError::MissingValue(PairKind::User) => "missing user value".to_owned(),
            EventError::InvalidTimestamp => "invalid timestamp".to_owned(),
            EventError::InvalidIpAddress => "invalid IP address".to_owned(),
        }
    }
}

} // verus!
