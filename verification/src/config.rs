//! Configuration values the service is built from: the epoch text and the
//! node id, with their process-wide defaults.

use crate::clock::Epoch;
use vstd::prelude::*;

verus! {

/// The default epoch, as RFC 3339 text.
pub const DEFAULT_EPOCH_TEXT: &'static str = "2016-01-01T00:00:00Z";

/// The default node id.
pub const DEFAULT_NODE_ID: u16 = 1;

/// A configuration value that cannot be used: generation must not start
/// without a valid epoch.
#[derive(Clone, Copy, Debug, PartialEq, Eq, Structural)]
pub enum ConfigError {
    InvalidEpoch,
}

/// `chrono`'s parse error, carried opaquely until it is mapped to
/// [`ConfigError`].
#[verifier::external_type_specification]
#[verifier::external_body]
pub struct ExParseError(chrono::format::ParseError);

/// Whether the RFC 3339 parser accepts the text: a fixed function of the
/// characters alone.
pub uninterp spec fn rfc3339_accepted(s: Seq<char>) -> bool;

/// Relies on `chrono::DateTime::parse_from_rfc3339`: acceptance depends
/// on the text alone, and which texts are accepted is the parser's
/// decision, named by [`rfc3339_accepted`].
#[verifier::external_body]
fn parse_rfc3339_epoch(text: &str) -> (r: Result<Epoch, chrono::format::ParseError>)
    ensures
        r is Ok <==> rfc3339_accepted(text@),
{
    match chrono::DateTime::parse_from_rfc3339(text) {
        Ok(dt) => Ok(Epoch { inner: dt }),
        Err(e) => Err(e),
    }
}

/// Parses the epoch configuration text as RFC 3339: exactly the accepted
/// texts yield an epoch, and malformed text is the one configuration
/// error the library itself reports.
pub fn parse_epoch(text: &str) -> (r: Result<Epoch, ConfigError>)
    ensures
        r is Ok <==> rfc3339_accepted(text@),
        r matches Err(e) ==> e == ConfigError::InvalidEpoch,
{
    match parse_rfc3339_epoch(text) {
        Ok(epoch) => Ok(epoch),
        Err(_) => Err(ConfigError::InvalidEpoch),
    }
}

} // verus!
