//! The identifier value object and its fixed 64-bit packing layout.

use vstd::prelude::*;

verus! {

/// One identifier, built fresh per request: the milliseconds elapsed since
/// the configured epoch, the fixed per-process node id, and the
/// within-millisecond sequence number.
#[derive(Clone, Copy, Debug, PartialEq, Eq, Structural)]
pub struct Snowflake {
    pub epoch: u64,
    pub node_id: u16,
    pub sequence: u16,
}

/// The packed 64-bit form: the low 41 bits of the elapsed milliseconds
/// shifted left by 24, the low 10 bits of the node id shifted left by 12,
/// and the low 12 bits of the sequence, combined by bitwise or.
///
/// The 41-bit millisecond field shifted by 24 would need 65 bits, so its
/// top bit is silently discarded by the 64-bit container. That is the
/// layout every token already issued depends on, so it is kept exactly,
/// rather than corrected to the classical shift of 22.
pub open spec fn spec_pack(flake: Snowflake) -> u64 {
    let e = (flake.epoch & 0x1FF_FFFF_FFFFu64) << 24;
    let n = ((flake.node_id as u64) & 0x3FFu64) << 12;
    let s = (flake.sequence as u64) & 0xFFFu64;
    e | n | s
}

impl Snowflake {
    /// Packs the identifier into its 64-bit form, per the fixed bit layout.
    /// Out-of-range fields are masked, never rejected.
    pub fn as_u64(&self) -> (r: u64)
        ensures
            r == spec_pack(*self),
    {
        let e = (self.epoch & 0x1FF_FFFF_FFFFu64) << 24u64;
        let n = ((self.node_id as u64) & 0x3FFu64) << 12u64;
        let s = (self.sequence as u64) & 0xFFFu64;
        e | n | s
    }
}

/// Packing is a pure function: identical fields give identical 64-bit output.
pub proof fn lemma_pack_pure(a: Snowflake, b: Snowflake)
    requires
        a.epoch == b.epoch,
        a.node_id == b.node_id,
        a.sequence == b.sequence,
    ensures
        spec_pack(a) == spec_pack(b),
{
}

} // verus!
