//! Errors of the inspection library.
use vstd::prelude::*;
use surf::http::url::ParseError;

verus! {

/// `url::ParseError`, why a string is not an absolute URL.
#[verifier::external_type_specification]
#[verifier::external_body]
pub struct ExUrlParseError(ParseError);

/// `rand::Error`, a failure of a random source.
#[verifier::external_type_specification]
#[verifier::external_body]
pub struct ExRandError(rand::Error);

/// Errors of the inspection library.
pub enum InspectError {
    /// A service address is not a valid absolute URL; the parser's reason.
    InvalidUrl(ParseError),
    /// The operating system's random source failed.
    RandomSource(rand::Error),
    /// The system clock reads before the Unix epoch or past what a date can hold.
    ClockUnavailable,
}

} // verus!
