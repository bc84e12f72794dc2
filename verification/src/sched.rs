//! The bounded scheduler's admission gate: a counting gate that caps
//! how many fetch/decode units run at once, and the resolution of the
//! configured concurrency value.

use vstd::prelude::*;

verus! {

/// A counting admission gate.  A unit acquires a slot before its
/// network-and-decode phase and releases it when that phase ends,
/// whether it succeeded or failed; `in_flight` counts the units
/// currently inside.
#[derive(Debug, Clone, Copy, PartialEq, Eq, Structural)]
pub struct Gate {
    pub capacity: usize,
    pub in_flight: usize,
}

impl Gate {
    /// Well-formedness: the in-flight count never exceeds the
    /// capacity, and the capacity is positive.
    pub open spec fn wf(self) -> bool {
        1 <= self.capacity && self.in_flight <= self.capacity
    }

    pub fn new(capacity: usize) -> (r: Gate)
        requires
            capacity >= 1,
        ensures
            r.wf(),
            r.capacity == capacity,
            r.in_flight == 0,
    {
        Gate { capacity, in_flight: 0 }
    }

    /// Takes one slot when one is free; acquisition succeeds exactly
    /// when fewer units than the capacity are in flight.
    pub fn try_acquire(&mut self) -> (r: bool)
        requires
            old(self).wf(),
        ensures
            final(self).wf(),
            final(self).capacity == old(self).capacity,
            r == (old(self).in_flight < old(self).capacity),
            r ==> final(self).in_flight == old(self).in_flight + 1,
            !r ==> final(self).in_flight == old(self).in_flight,
    {
        if self.in_flight < self.capacity {
            self.in_flight = self.in_flight + 1;
            true
        } else {
            false
        }
    }

    /// Releases the slot of one completed unit.
    pub fn release(&mut self)
        requires
            old(self).wf(),
            old(self).in_flight >= 1,
        ensures
            final(self).wf(),
            final(self).capacity == old(self).capacity,
            final(self).in_flight == old(self).in_flight - 1,
    {
        self.in_flight = self.in_flight - 1;
    }
}

/// What the scheduler does next.
#[derive(Debug, Clone, Copy, PartialEq, Eq, Structural)]
pub enum SchedAction {
    /// Dispatch the next unit of work.
    Spawn,
    /// Wait for one in-flight unit to complete and release its slot.
    AwaitCompletion,
    /// Every unit was dispatched and every slot released.
    Done,
}

/// The scheduler's next step, given that `dispatched` of `total` units
/// have started: start one more when work is left and a slot is free,
/// otherwise wait for a completion while any unit is in flight,
/// otherwise the run is complete.
pub fn next_action(gate: &Gate, dispatched: usize, total: usize) -> (r: SchedAction)
    requires
        gate.wf(),
        dispatched <= total,
    ensures
        (r == SchedAction::Spawn) == (dispatched < total && gate.in_flight < gate.capacity),
        (r == SchedAction::AwaitCompletion) == (!(dispatched < total && gate.in_flight
            < gate.capacity) && gate.in_flight > 0),
        (r == SchedAction::Done) == (dispatched == total && gate.in_flight == 0),
{
    if dispatched < total && gate.in_flight < gate.capacity {
        SchedAction::Spawn
    } else if gate.in_flight > 0 {
        SchedAction::AwaitCompletion
    } else {
        SchedAction::Done
    }
}

/// At no instant does a well-formed gate let more concurrent units
/// through than its configured capacity; since every transition preserves
/// well-formedness, the bound holds throughout a run.
pub proof fn lemma_gate_bounded(g: Gate)
    requires
        g.wf(),
    ensures
        g.in_flight <= g.capacity,
{
}

/// The concurrency a run uses for a configured value: the host's
/// parallelism for the sentinel `auto`, the value itself for a positive
/// integer that fits the machine, and the host's parallelism again for
/// anything else.
pub open spec fn concurrency_of(s: Seq<char>, host: nat) -> nat {
    if s == seq!['a', 'u', 't', 'o'] {
        host
    } else {
        let p = crate::position::parse_int_spec(s);
        if p is Some && 1 <= p->0 <= i64::MAX && p->0 <= usize::MAX {
            p->0 as nat
        } else {
            host
        }
    }
}

/// Resolves the configured concurrency string against the host's
/// available parallelism.
pub fn resolve_concurrency(s: &str, host_parallelism: usize) -> (r: usize)
    requires
        host_parallelism >= 1,
    ensures
        r as nat == concurrency_of(s@, host_parallelism as nat),
        r >= 1,
{
    let chars = crate::text::chars_vec(s);
    if chars.len() == 4 && chars[0] == 'a' && chars[1] == 'u' && chars[2] == 't' && chars[3] == 'o'
    {
        proof {
            assert(s@ =~= seq!['a', 'u', 't', 'o']);
        }
        return host_parallelism;
    }
    proof {
        if s@ == seq!['a', 'u', 't', 'o'] {
            assert(s@[0] == 'a' && s@[1] == 'u' && s@[2] == 't' && s@[3] == 'o');
            assert(false);
        }
    }
    match crate::position::parse_i64(&chars) {
        Some(n) => {
            if n >= 1 && (n as u64) <= (usize::MAX as u64) {
                n as usize
            } else {
                host_parallelism
            }
        },
        None => host_parallelism,
    }
}

} // verus!
