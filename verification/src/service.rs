//! The identifier service: the lock-guarded counter, the fixed node id
//! and epoch, and the one decision the network boundary needs — a
//! retrieval request gets a fresh token as a JSON string, anything else
//! is refused.

use crate::clock::{now_in_ms, Epoch};
use crate::codec::{encode_token, spec_token};
use crate::counter::Counter;
use crate::flake::{spec_pack, Snowflake};
use vstd::prelude::*;
use vstd::rwlock::{RwLock, RwLockPredicate};
use vstd::string::StringExecFns;

verus! {

/// The request methods the boundary distinguishes. Only `Get` retrieves
/// an identifier.
#[derive(Clone, Copy, Debug, PartialEq, Eq, Structural)]
pub enum RequestMethod {
    Get,
    Head,
    Post,
    Put,
    Delete,
    Options,
    Other,
}

/// What the service answers: a response body carrying one token, or a
/// refusal with no body.
#[derive(Debug)]
pub enum ServiceResponse {
    Body(String),
    MethodNotAllowed,
}

/// The lock invariant on the counter: the recorded millisecond always
/// fits a signed clock reading, because every reading stored in it is a
/// clamped one. The uniqueness argument needs only that callers
/// serialize through the lock.
pub struct CounterPred {}

impl RwLockPredicate<Counter> for CounterPred {
    open spec fn inv(self, c: Counter) -> bool {
        c.updated <= 0x7FFF_FFFF_FFFF_FFFFu64
    }
}

/// A string rendered as a JSON string value, for text that needs no
/// escaping. Token characters are decimal digits and upper-case letters
/// ([`crate::codec::lemma_token_charset`]), so quoting is all JSON asks.
pub open spec fn json_string_lit(s: Seq<char>) -> Seq<char> {
    seq!['"'] + s + seq!['"']
}

/// Wraps token text in JSON string quotes.
pub fn json_string_body(token: &str) -> (r: String)
    ensures
        r@ == json_string_lit(token@),
{
    let mut r = String::new();
    r.append("\"");
    r.append(token);
    r.append("\"");
    proof {
        reveal_strlit("\"");
        assert(r@ =~= json_string_lit(token@));
    }
    r
}

/// The process-wide generator state: the lock-guarded sequence counter,
/// and the node id and epoch fixed at start.
pub struct SnowflakeState {
    pub counter: RwLock<Counter, CounterPred>,
    pub node_id: u16,
    pub epoch: Epoch,
}

impl SnowflakeState {
    /// Builds the generator: the counter starts at sequence zero in the
    /// millisecond the clock reads now.
    pub fn new(epoch: Epoch, node_id: u16) -> (s: Self)
        ensures
            s.node_id == node_id,
            s.epoch == epoch,
    {
        let start = now_in_ms(&epoch);
        let counter = RwLock::new(
            Counter { count: 0, updated: start },
            Ghost(CounterPred {}),
        );
        SnowflakeState { counter, node_id, epoch }
    }

    /// Takes the lock, reads the clock, and advances the counter by one
    /// observation, returning the fresh `(sequence, millisecond)` pair.
    /// The read-modify-write runs entirely under the lock, so concurrent
    /// callers serialize into one run of observations. The lock is vstd's
    /// verified one, which has no poisoned state to fail on: the critical
    /// section is verified free of panics. The returned millisecond fits
    /// a signed clock reading, by the lock invariant.
    pub fn get_sequence(&self) -> (r: (u16, u64))
        ensures
            r.1 <= 0x7FFF_FFFF_FFFF_FFFFu64,
    {
        let (mut counter, handle) = self.counter.acquire_write();
        let now = now_in_ms(&self.epoch);
        let r = counter.observe(now);
        handle.release_write(counter);
        r
    }

    /// Builds one fresh identifier carrying this process's node id; its
    /// millisecond field fits a signed clock reading.
    pub fn get_flake(&self) -> (f: Snowflake)
        ensures
            f.node_id == self.node_id,
            f.epoch <= 0x7FFF_FFFF_FFFF_FFFFu64,
    {
        let (sequence, now) = self.get_sequence();
        Snowflake { epoch: now, node_id: self.node_id, sequence }
    }

    /// One fresh token: a 13-character rendering of an identifier that
    /// carries this process's node id.
    pub fn token(&self) -> (t: String)
        ensures
            t@.len() == 13,
            exists|f: Snowflake|
                f.node_id == self.node_id && t@ == spec_token(spec_pack(f)),
    {
        let flake = self.get_flake();
        let packed = flake.as_u64();
        let t = encode_token(packed);
        proof {
            assert(flake.node_id == self.node_id && t@ == spec_token(spec_pack(flake)));
        }
        t
    }

    /// Answers one request: a retrieval gets a fresh token as a JSON
    /// string value; any other method is refused with no body.
    pub fn handle(&self, method: RequestMethod) -> (r: ServiceResponse)
        ensures
            method != RequestMethod::Get ==> r == ServiceResponse::MethodNotAllowed,
            method == RequestMethod::Get ==> (r matches ServiceResponse::Body(body)
                && body@.len() == 15 && exists|f: Snowflake|
                f.node_id == self.node_id && body@ == json_string_lit(
                    spec_token(spec_pack(f)),
                )),
    {
        match method {
            RequestMethod::Get => {
                let t = self.token();
                let body = json_string_body(t.as_str());
                proof {
                    let f = choose|f: Snowflake|
                        f.node_id == self.node_id && t@ == spec_token(spec_pack(f));
                    assert(body@ == json_string_lit(spec_token(spec_pack(f))));
                    assert(body@.len() == 15);
                }
                ServiceResponse::Body(body)
            },
            _ => ServiceResponse::MethodNotAllowed,
        }
    }
}

} // verus!
