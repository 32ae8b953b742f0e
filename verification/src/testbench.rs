use vstd::prelude::*;
use std::collections::VecDeque;

use crate::executor::TaskBody;
use crate::runtime::{CoPoll, Cort, Runtime};
use crate::signal::SimObject;
use crate::trigger::{TrigPoll, Trigger};
use crate::sim_if::SimIf;
use crate::value::{SimpleResult, Val};

verus! {

/// How many of the first `min(a.len(), b.len())` pairs of two streams
/// agree.
pub open spec fn pairs_matched(a: Seq<u64>, b: Seq<u64>) -> nat
    decreases a.len(),
{
    if a.len() == 0 || b.len() == 0 {
        0
    } else {
        (if a[0] == b[0] {
            1nat
        } else {
            0nat
        }) + pairs_matched(a.drop_first(), b.drop_first())
    }
}

/// Compares an expected stream of transactions against a received one,
/// counting matches and mismatches as soon as both sides have data.
#[derive(Clone)]
pub struct Scoreboard {
    exp_q: VecDeque<u64>,
    recv_q: VecDeque<u64>,
    errors: u64,
    expected: u64,
    received: u64,
    matched: u64,
}

impl Scoreboard {
    pub closed spec fn spec_exp_q(self) -> Seq<u64> {
        self.exp_q@
    }

    pub closed spec fn spec_recv_q(self) -> Seq<u64> {
        self.recv_q@
    }

    pub closed spec fn spec_errors(self) -> u64 {
        self.errors
    }

    pub closed spec fn spec_expected(self) -> u64 {
        self.expected
    }

    pub closed spec fn spec_received(self) -> u64 {
        self.received
    }

    pub closed spec fn spec_matched(self) -> u64 {
        self.matched
    }

    /// The scoreboard's books balance: each expected transaction was
    /// either matched, counted as an error, or still queues; likewise for
    /// received ones.
    pub open spec fn balanced(self) -> bool {
        &&& self.spec_expected() as int == self.spec_matched() + self.spec_errors()
            + self.spec_exp_q().len()
        &&& self.spec_received() as int == self.spec_matched() + self.spec_errors()
            + self.spec_recv_q().len()
    }

    /// Between calls the books balance and at most one side still queues:
    /// comparison never leaves data waiting on both sides.
    pub open spec fn wf(self) -> bool {
        &&& self.balanced()
        &&& (self.spec_exp_q().len() == 0 || self.spec_recv_q().len() == 0)
    }

    pub fn new() -> (r: Self)
        ensures
            r.wf(),
            r.spec_exp_q().len() == 0,
            r.spec_recv_q().len() == 0,
            r.spec_errors() == 0,
            r.spec_expected() == 0,
            r.spec_received() == 0,
            r.spec_matched() == 0,
    {
        Scoreboard {
            exp_q: VecDeque::new(),
            recv_q: VecDeque::new(),
            errors: 0,
            expected: 0,
            received: 0,
            matched: 0,
        }
    }

    /// Consume pairs while both queues have data, counting a match for an
    /// equal pair and an error otherwise.
    fn compare(&mut self)
        ensures
            old(self).balanced() ==> final(self).wf(),
            final(self).spec_expected() == old(self).spec_expected(),
            final(self).spec_received() == old(self).spec_received(),
            old(self).balanced() ==> {
                let m = pairs_matched(old(self).spec_exp_q(), old(self).spec_recv_q());
                let n = if old(self).spec_exp_q().len() <= old(self).spec_recv_q().len() {
                    old(self).spec_exp_q().len()
                } else {
                    old(self).spec_recv_q().len()
                };
                &&& final(self).spec_matched() == old(self).spec_matched() + m
                &&& final(self).spec_errors() == old(self).spec_errors() + (n - m)
                &&& final(self).spec_exp_q() == old(self).spec_exp_q().skip(n as int)
                &&& final(self).spec_recv_q() == old(self).spec_recv_q().skip(n as int)
            },
    {
        let ghost e0 = old(self).spec_exp_q();
        let ghost r0 = old(self).spec_recv_q();
        let ghost n0: nat = if e0.len() <= r0.len() {
            e0.len()
        } else {
            r0.len()
        };
        while self.exp_q.len() > 0 && self.recv_q.len() > 0
            invariant
                self.spec_expected() == old(self).spec_expected(),
                self.spec_received() == old(self).spec_received(),
                n0 == if e0.len() <= r0.len() {
                    e0.len()
                } else {
                    r0.len()
                },
                e0 == old(self).spec_exp_q(),
                r0 == old(self).spec_recv_q(),
                old(self).balanced() ==> {
                    let done = e0.len() - self.spec_exp_q().len();
                    &&& self.balanced()
                    &&& 0 <= done <= n0
                    &&& done == r0.len() - self.spec_recv_q().len()
                    &&& self.spec_exp_q() == e0.skip(done)
                    &&& self.spec_recv_q() == r0.skip(done)
                    &&& self.spec_matched() + pairs_matched(self.spec_exp_q(), self.spec_recv_q())
                        == old(self).spec_matched() + pairs_matched(e0, r0)
                    &&& self.spec_errors() + ((n0 - done) - pairs_matched(
                        self.spec_exp_q(),
                        self.spec_recv_q(),
                    )) == old(self).spec_errors() + (n0 - pairs_matched(e0, r0))
                },
            decreases self.spec_exp_q().len() + self.spec_recv_q().len(),
        {
            let ghost pre = *self;
            let a = self.exp_q.pop_front();
            let b = self.recv_q.pop_front();
            proof {
                assert(pre.spec_exp_q().drop_first() =~= pre.spec_exp_q().skip(1));
                assert(pre.spec_recv_q().drop_first() =~= pre.spec_recv_q().skip(1));
                if old(self).balanced() {
                    let done = e0.len() - pre.spec_exp_q().len();
                    assert(e0.skip(done as int).skip(1) =~= e0.skip(done + 1));
                    assert(r0.skip(done as int).skip(1) =~= r0.skip(done + 1));
                    assert(pairs_matched(pre.spec_exp_q(), pre.spec_recv_q()) == (if pre
                        .spec_exp_q()[0] == pre.spec_recv_q()[0] {
                        1nat
                    } else {
                        0nat
                    }) + pairs_matched(
                        pre.spec_exp_q().drop_first(),
                        pre.spec_recv_q().drop_first(),
                    ));
                }
            }
            match (a, b) {
                (Some(x), Some(y)) => {
                    if x == y {
                        if self.matched < 0xffff_ffff_ffff_ffff {
                            self.matched = self.matched + 1;
                        }
                    } else {
                        if self.errors < 0xffff_ffff_ffff_ffff {
                            self.errors = self.errors + 1;
                        }
                    }
                }
                _ => {}
            }
        }
        proof {
            if old(self).balanced() {
                let done = e0.len() - self.spec_exp_q().len();
                assert(done == n0);
                assert(pairs_matched(self.spec_exp_q(), self.spec_recv_q()) == 0);
            }
        }
    }

    /// Record a transaction the design is expected to produce.
    pub fn add_exp(&mut self, data: u64)
        requires
            old(self).spec_expected() < 0xffff_ffff_ffff_ffff,
        ensures
            old(self).wf() ==> final(self).wf(),
            final(self).spec_expected() == old(self).spec_expected() + 1,
            final(self).spec_received() == old(self).spec_received(),
            old(self).wf() ==> {
                let exp = old(self).spec_exp_q().push(data);
                let m = pairs_matched(exp, old(self).spec_recv_q());
                let n = if exp.len() <= old(self).spec_recv_q().len() {
                    exp.len()
                } else {
                    old(self).spec_recv_q().len()
                };
                &&& final(self).spec_matched() == old(self).spec_matched() + m
                &&& final(self).spec_errors() == old(self).spec_errors() + (n - m)
                &&& final(self).spec_exp_q() == exp.skip(n as int)
                &&& final(self).spec_recv_q() == old(self).spec_recv_q().skip(n as int)
            },
    {
        self.exp_q.push_back(data);
        self.expected = self.expected + 1;
        self.compare();
    }

    /// Record a transaction the design actually produced.
    pub fn add_recv(&mut self, data: u64)
        requires
            old(self).spec_received() < 0xffff_ffff_ffff_ffff,
        ensures
            old(self).wf() ==> final(self).wf(),
            final(self).spec_received() == old(self).spec_received() + 1,
            final(self).spec_expected() == old(self).spec_expected(),
            old(self).wf() ==> {
                let recv = old(self).spec_recv_q().push(data);
                let m = pairs_matched(old(self).spec_exp_q(), recv);
                let n = if old(self).spec_exp_q().len() <= recv.len() {
                    old(self).spec_exp_q().len()
                } else {
                    recv.len()
                };
                &&& final(self).spec_matched() == old(self).spec_matched() + m
                &&& final(self).spec_errors() == old(self).spec_errors() + (n - m)
                &&& final(self).spec_exp_q() == old(self).spec_exp_q().skip(n as int)
                &&& final(self).spec_recv_q() == recv.skip(n as int)
            },
    {
        self.recv_q.push_back(data);
        self.received = self.received + 1;
        self.compare();
    }

    /// Whether the run passed: something was expected, everything expected
    /// arrived, every pair matched, and nothing is left over.
    pub fn passed(&self) -> (r: bool)
        ensures
            r == (self.spec_expected() > 0 && self.spec_received() == self.spec_expected()
                && self.spec_matched() == self.spec_received() && self.spec_errors() == 0
                && self.spec_exp_q().len() == 0 && self.spec_recv_q().len() == 0),
    {
        self.expected > 0 && self.received == self.expected && self.matched == self.received
            && self.errors == 0 && self.exp_q.len() == 0 && self.recv_q.len() == 0
    }

    /// A one-line account of the counters, for the log.
    pub fn result_str(&self) -> (r: String)
        ensures
            r@.len() > 0,
    {
        fmt_scoreboard(
            self.expected,
            self.received,
            self.matched,
            self.errors,
            self.exp_q.len(),
            self.recv_q.len(),
        )
    }

    /// The verdict as a result value carrying the account.
    pub fn result(&self) -> (r: Result<Val, Val>)
        ensures
            r is Ok <==> (self.spec_expected() > 0 && self.spec_received() == self.spec_expected()
                && self.spec_matched() == self.spec_received() && self.spec_errors() == 0
                && self.spec_exp_q().len() == 0 && self.spec_recv_q().len() == 0),
    {
        if self.passed() {
            Ok(Val::Text(self.result_str()))
        } else {
            Err(Val::Text(self.result_str()))
        }
    }
}

/// Relies on the format macro of std: renders the scoreboard counters as
/// one line of text.
#[verifier::external_body]
fn fmt_scoreboard(expected: u64, received: u64, matched: u64, errors: u64, exp_q: usize, recv_q: usize) -> (r: String)
    ensures
        r@.len() > 0,
{
    format!(
        "expected={}, received={}, matched={}, errors={}, expQ: {}, recvQ: {}",
        expected, received, matched, errors, exp_q, recv_q,
    )
}

/// Routes observed transactions to a scoreboard, to its expected or its
/// received side.
#[derive(Clone)]
pub struct Monitor {
    enable: bool,
    exp_not_recv: bool,
    has_scoreboard: bool,
}

impl Monitor {
    pub closed spec fn spec_exp_not_recv(self) -> bool {
        self.exp_not_recv
    }

    pub closed spec fn spec_has_scoreboard(self) -> bool {
        self.has_scoreboard
    }

    pub fn new() -> (r: Self)
        ensures
            !r.spec_has_scoreboard(),
    {
        Monitor { enable: true, exp_not_recv: true, has_scoreboard: false }
    }

    /// Choose which side of the scoreboard this monitor feeds.
    pub fn set_scoreboard(&mut self, exp_not_recv: bool)
        ensures
            final(self).spec_has_scoreboard(),
            final(self).spec_exp_not_recv() == exp_not_recv,
    {
        self.exp_not_recv = exp_not_recv;
        self.has_scoreboard = true;
    }

    /// Forward one transaction; fails if no scoreboard side was chosen.
    pub fn to_scoreboard(&self, sb: &mut Scoreboard, data: u64) -> (r: SimpleResult<()>)
        requires
            old(sb).spec_expected() < 0xffff_ffff_ffff_ffff,
            old(sb).spec_received() < 0xffff_ffff_ffff_ffff,
        ensures
            r is Ok <==> self.spec_has_scoreboard(),
            !self.spec_has_scoreboard() ==> *final(sb) == *old(sb),
            self.spec_has_scoreboard() && self.spec_exp_not_recv() ==> final(sb).spec_expected()
                == old(sb).spec_expected() + 1,
            self.spec_has_scoreboard() && !self.spec_exp_not_recv() ==> final(sb).spec_received()
                == old(sb).spec_received() + 1,
    {
        if self.has_scoreboard {
            if self.exp_not_recv {
                sb.add_exp(data);
            } else {
                sb.add_recv(data);
            }
            Ok(())
        } else {
            Err(())
        }
    }
}

/// A free-running clock driver: drive the signal low for the low span,
/// high for the high span, forever.
#[derive(Clone, Copy)]
pub struct ClockState {
    pub clk: SimObject,
    pub high_steps: u64,
    pub low_steps: u64,
    pub phase_high: bool,
    pub timer: Option<Trigger>,
}

pub(crate) fn clock_step<B: SimIf, C: Cort<B>>(
    st: &mut ClockState,
    rt: &mut Runtime<C>,
    sim: &mut B,
    tid: u64,
) -> (r: CoPoll)
    ensures
        old(rt).mux.wf() ==> final(rt).mux.wf(),
{
    match st.timer.take() {
        Some(t) => {
            let mut t = t;
            match t.poll(&mut rt.mux, sim, tid) {
                TrigPoll::Pending => {
                    st.timer = Some(t);
                    return CoPoll::Pending;
                }
                TrigPoll::Ready => {
                    st.phase_high = !st.phase_high;
                }
                TrigPoll::Rejected => {
                    return CoPoll::Ready(Err(Val::Error));
                }
            }
        }
        None => {}
    }
    let v: i32 = if st.phase_high {
        1
    } else {
        0
    };
    if st.clk.set(sim, v).is_err() {
        return CoPoll::Ready(Err(Val::Error));
    }
    let steps = if st.phase_high {
        st.high_steps
    } else {
        st.low_steps
    };
    let mut t = Trigger::timer_steps(steps);
    match t.poll(&mut rt.mux, sim, tid) {
        TrigPoll::Pending => {
            st.timer = Some(t);
            CoPoll::Pending
        }
        _ => CoPoll::Ready(Err(Val::Error)),
    }
}

/// Spawn a clock driver on a signal: low for half the period, high for
/// the rest. Fails when the period does not convert to steps or is too
/// short for a nonzero high span.
pub fn clock<B: SimIf, C: Cort<B>>(
    rt: &mut Runtime<C>,
    sim: &mut B,
    clk: SimObject,
    period: u64,
    unit: &str,
) -> (r: SimpleResult<crate::executor::JoinHandle>)
    ensures
        final(rt).asserts == old(rt).asserts,
        final(rt).mux == old(rt).mux,
        final(rt).tests == old(rt).tests,
        final(rt).signals == old(rt).signals,
        r is Err ==> final(rt).executor == old(rt).executor,
        r matches Ok(h) ==> {
            &&& h.spec_task() == old(rt).executor.tasks_seq().len()
            &&& final(rt).executor.tasks_seq().len() == old(rt).executor.tasks_seq().len() + 1
            &&& forall|i: int|
                0 <= i < old(rt).executor.tasks_seq().len() ==> final(rt).executor.tasks_seq()[i]
                    == old(rt).executor.tasks_seq()[i]
            &&& {
                let t = final(rt).executor.tasks_seq().last();
                &&& t.spec_state() == crate::executor::TaskState::Pending
                &&& t.spec_body() matches Some(TaskBody::Clock(st)) && st.clk == clk
                    && st.high_steps > 0 && st.high_steps + st.low_steps <= u64::MAX
                    && !st.phase_high && st.timer is None
            }
            &&& final(rt).executor.ready_seq() == old(rt).executor.ready_seq().push(h.spec_task())
        },
{
    let steps = match crate::sim_if::get_sim_steps(sim, period, unit) {
        Ok(s) => s,
        Err(_) => {
            return Err(());
        }
    };
    let high = steps / 2;
    let low = steps - high;
    if high == 0 {
        return Err(());
    }
    Ok(
        rt.executor.spawn(
            TaskBody::Clock(
                ClockState { clk, high_steps: high, low_steps: low, phase_high: false, timer: None },
            ),
        ),
    )
}

} // verus!
