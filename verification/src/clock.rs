//! Elapsed milliseconds between the ambient wall clock and the configured
//! epoch. The epoch instant itself is a `chrono` value the library only
//! carries through; what the logic reads is the millisecond count.

use vstd::prelude::*;

verus! {

/// The fixed reference instant identifiers measure time from. It wraps
/// the parsed `chrono` value opaquely; `chrono::DateTime` itself cannot
/// be named in verified signatures, since its timezone type parameter
/// carries a trait bound Verus does not take.
#[verifier::external_body]
pub struct Epoch {
    pub(crate) inner: chrono::DateTime<chrono::FixedOffset>,
}

/// Relies on `chrono::Utc::now`, `chrono::DateTime::signed_duration_since`
/// and `chrono::TimeDelta::num_milliseconds`: the whole milliseconds
/// between the ambient wall clock and the epoch, negative when the clock
/// reads an instant before the epoch. A wall-clock reading depends on the
/// machine, so nothing is promised of the result. `Utc::now` aborts on a
/// host clock outside chrono's representable range — a condition of the
/// environment, not of any argument.
#[verifier::external_body]
fn millis_since_epoch(epoch: &Epoch) -> i64 {
    chrono::Utc::now().signed_duration_since(&epoch.inner).num_milliseconds()
}

/// The millisecond count a raw clock reading stands for: a reading before
/// the epoch is clamped to zero rather than converted with wraparound.
pub open spec fn spec_clamp_ms(raw: i64) -> u64 {
    if raw < 0 {
        0u64
    } else {
        raw as u64
    }
}

/// Turns a raw signed millisecond reading into the unsigned count the
/// identifiers use. A wall clock running behind the epoch would otherwise
/// wrap to an enormous count; it is clamped to zero instead, so such
/// readings sort as the epoch itself.
pub fn clamp_ms(raw: i64) -> (ms: u64)
    ensures
        ms == spec_clamp_ms(raw),
{
    if raw < 0 {
        0
    } else {
        raw as u64
    }
}

/// The whole milliseconds elapsed since the epoch, by the ambient wall
/// clock, clamped to zero for readings before the epoch. Whatever the
/// clock read, the count fits a signed reading.
pub fn now_in_ms(epoch: &Epoch) -> (ms: u64)
    ensures
        ms <= 0x7FFF_FFFF_FFFF_FFFFu64,
{
    clamp_ms(millis_since_epoch(epoch))
}

} // verus!
