use vstd::prelude::*;

use crate::signal::SimObject;
use crate::sim_if::SimIf;
use crate::trigger::{Multiplexer, TrigPoll, Trigger};

verus! {

/// Awaits a number of rising edges of a signal.
#[derive(Clone, Copy, Debug)]
pub struct ClockCycles {
    signal: SimObject,
    remaining: u32,
    current: Option<Trigger>,
}

/// A pollable wait for `n_cycles` rising edges of a signal.
pub fn clock_cycles(signal: SimObject, n_cycles: u32) -> (r: ClockCycles)
    ensures
        r.spec_remaining() == n_cycles,
{
    ClockCycles { signal, remaining: n_cycles, current: None }
}

impl ClockCycles {
    pub closed spec fn spec_remaining(self) -> u32 {
        self.remaining
    }

    /// One poll: ready once the requested number of edges fired; each
    /// firing consumes one freshly registered edge trigger.
    pub fn poll<B: SimIf>(&mut self, mux: &mut Multiplexer, sim: &mut B, tid: u64) -> (r: TrigPoll)
        ensures
            old(mux).wf() ==> final(mux).wf(),
            r is Ready ==> final(self).spec_remaining() == 0,
            final(self).spec_remaining() <= old(self).spec_remaining(),
    {
        loop
            invariant
                old(mux).wf() ==> mux.wf(),
                self.spec_remaining() <= old(self).spec_remaining(),
            decreases self.remaining as int + 1,
        {
            if self.remaining == 0 {
                return TrigPoll::Ready;
            }
            match self.current.take() {
                None => {
                    let mut t = Trigger::rising_edge(self.signal);
                    match t.poll(mux, sim, tid) {
                        TrigPoll::Pending => {
                            self.current = Some(t);
                            return TrigPoll::Pending;
                        }
                        _ => {
                            return TrigPoll::Rejected;
                        }
                    }
                }
                Some(t) => {
                    let mut t = t;
                    match t.poll(mux, sim, tid) {
                        TrigPoll::Ready => {
                            self.remaining = self.remaining - 1;
                        }
                        TrigPoll::Pending => {
                            self.current = Some(t);
                            return TrigPoll::Pending;
                        }
                        TrigPoll::Rejected => {
                            return TrigPoll::Rejected;
                        }
                    }
                }
            }
        }
    }
}

/// Relies on rand's random: an unsigned 32-bit value drawn from the
/// thread-local generator; nothing is assumed of its distribution or
/// value.
#[verifier::external_body]
fn rand_u32() -> u32 {
    rand::random::<u32>()
}

/// A pseudo-random value below `ceil`.
pub fn rand_int(ceil: u32) -> (r: u32)
    requires
        ceil > 0,
    ensures
        r < ceil,
{
    rand_u32() % ceil
}

} // verus!
