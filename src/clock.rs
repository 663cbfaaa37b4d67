use vstd::prelude::*;

verus! {

/// Length of one simulation tick in nanoseconds: `1 / 256` of a second.
pub const TICK_NANOS: u64 = 3_906_250;

/// Fixed-timestep accumulator that decouples simulation ticks from frames.
/// Elapsed wall-clock time is added each frame; every whole tick in the sum
/// is handed out and the remainder, always below one tick, is kept.
pub struct TickClock {
    pending: u64,
}

impl TickClock {
    /// Time accumulated toward the next tick, in nanoseconds.
    pub closed spec fn pending_spec(&self) -> nat {
        self.pending as nat
    }

    /// Less than one tick is pending.
    pub closed spec fn wf(&self) -> bool {
        self.pending < TICK_NANOS
    }

    /// A clock with nothing accumulated.
    pub fn new() -> (r: TickClock)
        ensures
            r.wf(),
            r.pending_spec() == 0,
    {
        TickClock { pending: 0 }
    }

    /// Time accumulated toward the next tick, in nanoseconds.
    pub fn pending_nanos(&self) -> (r: u64)
        requires
            self.wf(),
        ensures
            r == self.pending_spec(),
            r < TICK_NANOS,
    {
        self.pending
    }

    /// Adds `elapsed_nanos` of wall-clock time and returns how many whole
    /// ticks are now due; what is left over stays pending.
    pub fn advance(&mut self, elapsed_nanos: u64) -> (ticks: u64)
        requires
            old(self).wf(),
        ensures
            final(self).wf(),
            ticks == (old(self).pending_spec() + elapsed_nanos) / (TICK_NANOS as int),
            final(self).pending_spec() == (old(self).pending_spec() + elapsed_nanos) % (
            TICK_NANOS as int),
    {
        let whole = elapsed_nanos / TICK_NANOS;
        let rest = elapsed_nanos % TICK_NANOS;
        let sum = self.pending + rest;
        let ghost p = self.pending as int;
        let ghost e = elapsed_nanos as int;
        let ghost t = TICK_NANOS as int;
        proof {
            vstd::arithmetic::div_mod::lemma_fundamental_div_mod(e, t);
        }
        if sum >= TICK_NANOS {
            proof {
                vstd::arithmetic::div_mod::lemma_fundamental_div_mod_converse(
                    p + e,
                    t,
                    whole + 1,
                    sum - t,
                );
            }
            self.pending = sum - TICK_NANOS;
            whole + 1
        } else {
            proof {
                vstd::arithmetic::div_mod::lemma_fundamental_div_mod_converse(p + e, t, whole as int, sum as int);
            }
            self.pending = sum;
            whole
        }
    }
}

/// Ticks are conserved: advancing by `a` and then by `b` hands out as many
/// ticks in all, and leaves the same remainder, as advancing once by `a + b`.
pub proof fn lemma_advance_additive(p: int, a: int, b: int)
    requires
        0 <= p < TICK_NANOS,
        0 <= a,
        0 <= b,
    ensures
        (p + a) / (TICK_NANOS as int) + ((p + a) % (TICK_NANOS as int) + b) / (TICK_NANOS as int)
            == (p + a + b) / (TICK_NANOS as int),
        ((p + a) % (TICK_NANOS as int) + b) % (TICK_NANOS as int) == (p + a + b) % (
        TICK_NANOS as int),
{
    let t = TICK_NANOS as int;
    let q1 = (p + a) / t;
    let r1 = (p + a) % t;
    vstd::arithmetic::div_mod::lemma_fundamental_div_mod(p + a, t);
    vstd::arithmetic::div_mod::lemma_fundamental_div_mod(r1 + b, t);
    vstd::arithmetic::div_mod::lemma_fundamental_div_mod_converse(
        p + a + b,
        t,
        q1 + (r1 + b) / t,
        (r1 + b) % t,
    );
}

} // verus!
