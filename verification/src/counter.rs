//! The per-millisecond sequence counter: the one piece of mutable state.
//!
//! `Counter` records the last millisecond observed and how many identifiers
//! were issued within it. Each observation either resets the count for a
//! fresh millisecond or increments it. The count wraps at the width of
//! `u16`; it is masked to 12 bits at packing time in any case, so sequence
//! numbers past 4095 within one millisecond alias onto smaller ones. The
//! uniqueness lemmas below therefore carry an explicit headroom premise.

use vstd::prelude::*;

verus! {

/// The sequence state: the millisecond last observed and the number of
/// identifiers issued within it.
#[derive(Clone, Copy, Debug, PartialEq, Eq, Structural)]
pub struct Counter {
    pub count: u16,
    pub updated: u64,
}

/// One observation of the clock: a strictly newer millisecond resets the
/// count to zero and records that millisecond; any other reading keeps the
/// recorded millisecond and increments the count, wrapping at the width of
/// `u16`.
pub open spec fn spec_step(c: Counter, now: u64) -> Counter {
    if now > c.updated {
        Counter { count: 0u16, updated: now }
    } else {
        Counter {
            count: if c.count == 0xFFFFu16 {
                0u16
            } else {
                (c.count + 1) as u16
            },
            updated: c.updated,
        }
    }
}

/// The `(millisecond, sequence)` pair a counter state stands for.
pub open spec fn pair_of(c: Counter) -> (u64, u16) {
    (c.updated, c.count)
}

/// Strict order on `(millisecond, sequence)` pairs: by millisecond first,
/// then by sequence.
pub open spec fn pair_lt(a: (u64, u16), b: (u64, u16)) -> bool {
    a.0 < b.0 || (a.0 == b.0 && a.1 < b.1)
}

/// The pairs returned by a run of observations starting from `c`, one per
/// clock reading in `nows`.
pub open spec fn run_outputs(c: Counter, nows: Seq<u64>) -> Seq<(u64, u16)>
    decreases nows.len(),
{
    if nows.len() == 0 {
        Seq::empty()
    } else {
        let c1 = spec_step(c, nows[0]);
        seq![pair_of(c1)] + run_outputs(c1, nows.drop_first())
    }
}

impl Counter {
    /// Takes one clock reading and returns the fresh `(sequence,
    /// millisecond)` pair, exactly as `spec_step` describes.
    pub fn observe(&mut self, now: u64) -> (r: (u16, u64))
        ensures
            *final(self) == spec_step(*old(self), now),
            r.0 == final(self).count,
            r.1 == final(self).updated,
    {
        if now > self.updated {
            self.count = 0;
            self.updated = now;
        } else if self.count == 0xFFFFu16 {
            self.count = 0;
        } else {
            self.count = self.count + 1;
        }
        (self.count, self.updated)
    }
}

/// A call that observes a strictly newer millisecond than the one on
/// record gets sequence exactly zero.
pub proof fn lemma_fresh_millisecond_resets(c: Counter, now: u64)
    requires
        now > c.updated,
    ensures
        spec_step(c, now).count == 0,
        spec_step(c, now).updated == now,
{
}

/// Of two back-to-back observations whose returned milliseconds are equal,
/// the later one's sequence is strictly greater, as long as the sequence
/// space has headroom.
pub proof fn lemma_same_millisecond_increases(c: Counter, now1: u64, now2: u64)
    requires
        spec_step(c, now1).count < 0xFFFF,
        spec_step(spec_step(c, now1), now2).updated == spec_step(c, now1).updated,
    ensures
        spec_step(spec_step(c, now1), now2).count > spec_step(c, now1).count,
{
}

/// Every observation moves the `(millisecond, sequence)` pair strictly
/// upward, whatever the clock reads, as long as the sequence has headroom.
pub proof fn lemma_step_pair_increases(c: Counter, now: u64)
    requires
        c.count < 0xFFFF,
    ensures
        pair_lt(pair_of(c), pair_of(spec_step(c, now))),
{
}

/// Over a whole run of observations with enough sequence headroom, the
/// returned pairs are strictly increasing.
pub proof fn lemma_run_outputs_increasing(c: Counter, nows: Seq<u64>)
    requires
        c.count + nows.len() <= 0xFFFF,
    ensures
        run_outputs(c, nows).len() == nows.len(),
        forall|i: int, j: int|
            0 <= i < j < nows.len() ==> pair_lt(
                #[trigger] run_outputs(c, nows)[i],
                #[trigger] run_outputs(c, nows)[j],
            ),
        forall|i: int|
            0 <= i < nows.len() ==> (#[trigger] run_outputs(c, nows)[i]).1 <= c.count + i + 1,
    decreases nows.len(),
{
    if nows.len() > 0 {
        let c1 = spec_step(c, nows[0]);
        let rest = nows.drop_first();
        let out = run_outputs(c, nows);
        let tail = run_outputs(c1, rest);
        assert(c1.count <= c.count + 1);
        lemma_run_outputs_increasing(c1, rest);
        assert(out == seq![pair_of(c1)] + tail);
        assert(out[0] == pair_of(c1));
        assert(forall|i: int| 0 <= i < rest.len() ==> out[i + 1] == #[trigger] tail[i]);
        if rest.len() > 0 {
            assert(tail[0] == pair_of(spec_step(c1, rest[0])));
            lemma_step_pair_increases(c1, rest[0]);
            assert forall|j: int| 1 <= j < nows.len() implies pair_lt(out[0], out[j]) by {
                assert(out[j] == tail[j - 1]);
                if j > 1 {
                    assert(pair_lt(tail[0], tail[j - 1]));
                }
            }
        }
        assert forall|i: int, j: int| 0 <= i < j < nows.len() implies pair_lt(
            out[i],
            out[j],
        ) by {
            if i > 0 {
                assert(pair_lt(tail[i - 1], tail[j - 1]));
            }
        }
    }
}

/// In one run of observations with sequence headroom, of two calls whose
/// returned milliseconds are equal, the later call's sequence is strictly
/// greater.
pub proof fn lemma_run_same_millisecond_increases(c: Counter, nows: Seq<u64>, i: int, j: int)
    requires
        c.count + nows.len() <= 0xFFFF,
        0 <= i < j < nows.len(),
        run_outputs(c, nows)[i].0 == run_outputs(c, nows)[j].0,
    ensures
        run_outputs(c, nows)[i].1 < run_outputs(c, nows)[j].1,
{
    lemma_run_outputs_increasing(c, nows);
    assert(pair_lt(run_outputs(c, nows)[i], run_outputs(c, nows)[j]));
}

/// No two observations of a run ever return the same `(millisecond,
/// sequence)` pair, as long as the sequence space has headroom. The lock
/// around the counter serializes concurrent callers into exactly such a
/// run, with the clock readings in whatever order the calls won the lock.
pub proof fn lemma_run_outputs_distinct(c: Counter, nows: Seq<u64>)
    requires
        c.count + nows.len() <= 0xFFFF,
    ensures
        forall|i: int, j: int|
            0 <= i < nows.len() && 0 <= j < nows.len() && i != j ==> #[trigger] run_outputs(
                c,
                nows,
            )[i] != #[trigger] run_outputs(c, nows)[j],
{
    lemma_run_outputs_increasing(c, nows);
    let out = run_outputs(c, nows);
    assert forall|i: int, j: int|
        0 <= i < nows.len() && 0 <= j < nows.len() && i != j implies #[trigger] out[i]
        != #[trigger] out[j] by {
        if i < j {
            assert(pair_lt(out[i], out[j]));
        } else {
            assert(pair_lt(out[j], out[i]));
        }
    }
}

} // verus!
