use vstd::prelude::*;
use std::collections::VecDeque;

use crate::executor::{Executor, TaskBody};
use crate::sim_if::{SimCallback, SimIf};
use crate::trigger::{tasks_of, matches_edge, partition_waiters, EdgeKind, Multiplexer, TrigShared};
use crate::value::RstbResult;

verus! {

/// One poll of a coroutine: still waiting, or finished with a result.
pub enum CoPoll {
    Pending,
    Ready(RstbResult),
}

/// A user coroutine, written as an explicit state machine.
///
/// `poll` is called by the executor with the runtime, the simulator
/// backend and the coroutine's own task identifier; a pending poll must
/// have arranged its own eventual wake, normally by polling a `Trigger`.
/// Cloning hands out a fresh instance in its initial state, which is how
/// assertion conditions and checkers are re-armed on every firing.
pub trait Cort<B: SimIf>: Sized + Clone {
    fn poll(&mut self, rt: &mut Runtime<Self>, sim: &mut B, tid: u64) -> CoPoll;
}

/// The whole state of the runtime: the executor, the callback
/// multiplexer, the assertion engine, the test schedule and the signal
/// table. A simulator-embedded process would keep these in process-wide
/// registries; owning them as one value makes every transition a function
/// of it.
pub struct Runtime<C> {
    pub executor: Executor<TaskBody<C>>,
    pub mux: Multiplexer,
    pub asserts: crate::assertion::AssertionEngine<C>,
    pub tests: crate::test::RstbTests<C>,
    pub signals: crate::signal::SignalTable,
}

impl<C> Runtime<C> {
    pub fn new() -> (r: Self)
        ensures
            r.executor.ready_seq().len() == 0,
            r.executor.tasks_seq().len() == 0,
            r.mux.wf(),
            r.mux.all_clear(),
            r.asserts.items_seq().len() == 0,
            r.tests.tests_seq().len() == 0,
            r.tests.spec_current() is None,
            r.signals.wf(),
    {
        Runtime {
            executor: Executor::new(),
            mux: Multiplexer::new(),
            asserts: crate::assertion::AssertionEngine::new(),
            tests: crate::test::RstbTests::new(),
            signals: crate::signal::SignalTable::new(),
        }
    }
}

/// Poll one task body: dispatch to the user coroutine or to one of the
/// library's own state machines.
pub(crate) fn poll_body<B: SimIf, C: Cort<B>>(
    body: &mut TaskBody<C>,
    rt: &mut Runtime<C>,
    sim: &mut B,
    tid: u64,
) -> CoPoll {
    match body {
        TaskBody::User(c) => c.poll(rt, sim, tid),
        TaskBody::Clock(st) => crate::testbench::clock_step(st, rt, sim, tid),
        TaskBody::Runner(st) => crate::assertion::runner_step(st, rt, sim, tid),
        TaskBody::Sampler(st) => crate::assertion::sampler_step(st, rt, sim, tid),
        TaskBody::Checker(st) => crate::assertion::checker_step(st, rt, sim, tid),
        TaskBody::Chain(st) => crate::test::chain_step(st, rt, sim, tid),
        TaskBody::TestBody(st) => crate::test::test_body_step(st, rt, sim, tid),
    }
}

/// Drain the ready queue: dequeue, discard cancelled tasks, poll each
/// runnable task once, deliver results. Returns whether the queue was
/// drained; it is not drained only if the polls kept it non-empty through
/// an astronomic number of rounds. A dequeued task whose body slot is
/// empty marks a scheduling bug — a completed or uninitialized task was
/// scheduled — and is discarded, since verified code does not panic.
pub fn run_once<B: SimIf, C: Cort<B>>(rt: &mut Runtime<C>, sim: &mut B) -> (drained: bool)
    ensures
        drained ==> final(rt).executor.ready_seq().len() == 0,
        old(rt).executor.ready_seq().len() == 0 ==> drained,
{
    if rt.executor.ready_len() == 0 {
        return true;
    }
    let mut fuel: u64 = 0xffff_ffff_ffff_ffff;
    loop
        invariant
            old(rt).executor.ready_seq().len() != 0,
        decreases fuel,
    {
        if fuel == 0 {
            return false;
        }
        fuel = fuel - 1;
        let next = rt.executor.pop_ready();
        match next {
            None => {
                return true;
            }
            Some(tid) => {
                if rt.executor.is_cancelled(tid) {
                    // a cancelled task is discarded, and its coroutine with it
                    let _ = rt.executor.take_body(tid);
                } else {
                    let body_opt = rt.executor.take_body(tid);
                    match body_opt {
                        None => {}
                        Some(mut body) => {
                            let res = poll_body(&mut body, rt, sim, tid);
                            match res {
                                CoPoll::Pending => {
                                    rt.executor.put_body(tid, body);
                                }
                                CoPoll::Ready(v) => {
                                    rt.executor.deliver(tid, v);
                                }
                            }
                        }
                    }
                }
            }
        }
    }
}

/// Enqueue every waiter of a released group, in firing order.
pub(crate) fn wake_waiters<T>(exec: &mut Executor<T>, ws: &VecDeque<TrigShared>)
    ensures
        final(exec).ready_seq() == old(exec).ready_seq() + tasks_of(ws@),
        final(exec).tasks_seq() == old(exec).tasks_seq(),
{
    let n = ws.len();
    let mut i: usize = 0;
    proof {
        assert(old(exec).ready_seq() + tasks_of(ws@.subrange(0, 0)) =~= old(exec).ready_seq());
    }
    while i < n
        invariant
            i <= n,
            n == ws@.len(),
            exec.ready_seq() == old(exec).ready_seq() + tasks_of(ws@.subrange(0, i as int)),
            exec.tasks_seq() == old(exec).tasks_seq(),
        decreases n - i,
    {
        let w = ws[i];
        exec.schedule(w.task);
        proof {
            assert(ws@.subrange(0, i as int + 1) =~= ws@.subrange(0, i as int).push(ws@[i as int]));
            assert(tasks_of(ws@.subrange(0, i as int).push(ws@[i as int])) =~= tasks_of(
                ws@.subrange(0, i as int),
            ).push(ws@[i as int].task));
            assert(exec.ready_seq() =~= old(exec).ready_seq() + tasks_of(
                ws@.subrange(0, i as int + 1),
            ));
        }
        i = i + 1;
    }
    proof {
        assert(ws@.subrange(0, n as int) =~= ws@);
    }
}

/// A simulator callback fired: dispatch to the matching demultiplexer.
/// This is the single entry point a backend binding calls from its
/// callback hook; when the drain completes the ready queue is empty.
pub fn react<B: SimIf, C: Cort<B>>(rt: &mut Runtime<C>, sim: &mut B, cb: SimCallback) -> (drained:
    bool)
    ensures
        drained ==> final(rt).executor.ready_seq().len() == 0,
{
    match cb {
        SimCallback::Time(abs) => react_time(rt, sim, abs),
        SimCallback::Edge(sig) => react_edge(rt, sim, sig, EdgeKind::Any),
        SimCallback::ReadWrite => react_rw(rt, sim),
        SimCallback::ReadOnly => react_ro(rt, sim),
    }
}

/// The wake phase of a timer callback at absolute time `abs`: the group
/// leaves its registry — the one-shot callback is spent — and each of its
/// waiters is enqueued, in registration order.
pub fn react_time_wake<C>(rt: &mut Runtime<C>, abs: u64)
    ensures
        old(rt).mux.wf() ==> {
            &&& final(rt).mux.wf()
            &&& final(rt).mux.timer_lookup(abs) is None
            &&& forall|k: u64|
                k != abs ==> #[trigger] final(rt).mux.timer_lookup(k) == old(rt).mux.timer_lookup(
                    k,
                )
            &&& final(rt).executor.ready_seq() == old(rt).executor.ready_seq() + (match old(
                rt,
            ).mux.timer_lookup(abs) {
                Some(g) => tasks_of(g.spec_waiters()),
                None => Seq::<u64>::empty(),
            })
        },
        final(rt).mux.spec_edges() == old(rt).mux.spec_edges(),
        final(rt).mux.ro_group() == old(rt).mux.ro_group(),
        final(rt).mux.rw_group() == old(rt).mux.rw_group(),
        final(rt).executor.tasks_seq() == old(rt).executor.tasks_seq(),
        final(rt).asserts == old(rt).asserts,
        final(rt).tests == old(rt).tests,
        final(rt).signals == old(rt).signals,
{
    let g = rt.mux.take_timer_group(abs);
    match g {
        Some(g) => {
            wake_waiters(&mut rt.executor, g.waiters_ref());
        }
        None => {
            proof {
                if old(rt).mux.wf() {
                    assert(final(rt).executor.ready_seq() =~= old(rt).executor.ready_seq() + Seq::<
                        u64,
                    >::empty());
                }
            }
        }
    }
}

/// A timer callback fired: wake the waiters of its deadline, then drain
/// the executor; when the drain completes the ready queue is empty.
pub fn react_time<B: SimIf, C: Cort<B>>(rt: &mut Runtime<C>, sim: &mut B, abs: u64) -> (drained:
    bool)
    ensures
        drained ==> final(rt).executor.ready_seq().len() == 0,
{
    react_time_wake(rt, abs);
    run_once(rt, sim)
}

/// The wake phase of a value-change callback: the group leaves the
/// registry; the waiters the observed transition releases are enqueued in
/// registration order. On a directional edge the unreleased waiters are
/// put back under the signal, keeping the backend callback; when every
/// waiter is released — in particular whenever the observed transition is
/// `Any`, as on a multi-bit signal, where direction is undefined — the
/// backend callback is cancelled instead.
pub fn react_edge_wake<B: SimIf, C>(rt: &mut Runtime<C>, sim: &mut B, sig: usize, observed: EdgeKind)
    ensures
        old(rt).mux.wf() ==> final(rt).mux.wf(),
        final(rt).mux.spec_timers() == old(rt).mux.spec_timers(),
        final(rt).mux.ro_group() == old(rt).mux.ro_group(),
        final(rt).mux.rw_group() == old(rt).mux.rw_group(),
        final(rt).executor.tasks_seq() == old(rt).executor.tasks_seq(),
        old(rt).mux.wf() ==> forall|k: u64|
            k != sig as u64 ==> #[trigger] final(rt).mux.edge_lookup(k) == old(rt).mux.edge_lookup(
                k,
            ),
        old(rt).mux.wf() ==> match old(rt).mux.edge_lookup(sig as u64) {
            None => final(rt).executor.ready_seq() == old(rt).executor.ready_seq() && final(rt).mux.edge_lookup(sig as u64) is None,
            Some(g) => {
                let woken = g.spec_waiters().filter(|w: TrigShared| matches_edge(w, observed));
                let kept = g.spec_waiters().filter(|w: TrigShared| !matches_edge(w, observed));
                &&& final(rt).executor.ready_seq() == old(rt).executor.ready_seq() + tasks_of(woken)
                &&& (observed == EdgeKind::Any ==> woken == g.spec_waiters() && final(rt).mux.edge_lookup(sig as u64) is None)
                &&& (kept.len() == 0 ==> final(rt).mux.edge_lookup(sig as u64) is None)
                &&& (observed != EdgeKind::Any && kept.len() > 0 ==> {
                    &&& final(rt).mux.edge_lookup(sig as u64) is Some
                    &&& final(rt).mux.edge_lookup(sig as u64).unwrap().spec_waiters() == kept
                    &&& final(rt).mux.edge_lookup(sig as u64).unwrap().spec_handle()
                        == g.spec_handle()
                })
            },
        },
        final(rt).asserts == old(rt).asserts,
        final(rt).tests == old(rt).tests,
        final(rt).signals == old(rt).signals,
{
    let key = sig as u64;
    let g = rt.mux.take_edge_group(key);
    match g {
        Some(g) => {
            match observed {
                EdgeKind::Any => {
                    proof {
                        assert(g.spec_waiters().filter(
                            |w: TrigShared| matches_edge(w, EdgeKind::Any),
                        ) =~= g.spec_waiters()) by {
                            crate::trigger::lemma_filter_all(g.spec_waiters());
                        }
                    }
                    if let Some(h) = g.handle_val() {
                        let _ = sim.cancel_callback(h);
                    }
                    wake_waiters(&mut rt.executor, g.waiters_ref());
                }
                _ => {
                    let (wake, keep) = partition_waiters(g.waiters_ref(), observed);
                    if keep.len() == 0 {
                        if let Some(h) = g.handle_val() {
                            let _ = sim.cancel_callback(h);
                        }
                    } else {
                        let regrouped = g.with_waiters(keep);
                        rt.mux.put_edge_group(key, regrouped);
                    }
                    wake_waiters(&mut rt.executor, &wake);
                }
            }
        }
        None => {}
    }
}

/// A value-change callback fired: wake the matching waiters, reschedule
/// the rest, then drain the executor.
pub fn react_edge<B: SimIf, C: Cort<B>>(
    rt: &mut Runtime<C>,
    sim: &mut B,
    sig: usize,
    observed: EdgeKind,
) -> (drained: bool)
    ensures
        drained ==> final(rt).executor.ready_seq().len() == 0,
{
    react_edge_wake(rt, sim, sig, observed);
    run_once(rt, sim)
}

/// The wake phase of the read-only phase callback: the whole waiter list
/// is taken — the callback is one-shot for this tick — and enqueued in
/// order, high-priority waiters first.
pub fn react_ro_wake<C>(rt: &mut Runtime<C>)
    ensures
        old(rt).mux.wf() ==> final(rt).mux.wf(),
        final(rt).mux.spec_edges() == old(rt).mux.spec_edges(),
        final(rt).mux.spec_timers() == old(rt).mux.spec_timers(),
        final(rt).mux.rw_group() == old(rt).mux.rw_group(),
        final(rt).mux.ro_group().spec_handle() is None,
        final(rt).mux.ro_group().spec_waiters().len() == 0,
        final(rt).executor.tasks_seq() == old(rt).executor.tasks_seq(),
        final(rt).executor.ready_seq() == old(rt).executor.ready_seq() + tasks_of(
            old(rt).mux.ro_group().spec_waiters(),
        ),
        final(rt).asserts == old(rt).asserts,
        final(rt).tests == old(rt).tests,
        final(rt).signals == old(rt).signals,
{
    let ws = rt.mux.take_phase_ro();
    wake_waiters(&mut rt.executor, &ws);
}

/// The read-only phase callback fired: wake all its waiters in order,
/// then drain the executor.
pub fn react_ro<B: SimIf, C: Cort<B>>(rt: &mut Runtime<C>, sim: &mut B) -> (drained: bool)
    ensures
        drained ==> final(rt).executor.ready_seq().len() == 0,
{
    react_ro_wake(rt);
    run_once(rt, sim)
}

/// The wake phase of the read-write phase callback.
pub fn react_rw_wake<C>(rt: &mut Runtime<C>)
    ensures
        old(rt).mux.wf() ==> final(rt).mux.wf(),
        final(rt).mux.spec_edges() == old(rt).mux.spec_edges(),
        final(rt).mux.spec_timers() == old(rt).mux.spec_timers(),
        final(rt).mux.ro_group() == old(rt).mux.ro_group(),
        final(rt).mux.rw_group().spec_handle() is None,
        final(rt).mux.rw_group().spec_waiters().len() == 0,
        final(rt).executor.tasks_seq() == old(rt).executor.tasks_seq(),
        final(rt).executor.ready_seq() == old(rt).executor.ready_seq() + tasks_of(
            old(rt).mux.rw_group().spec_waiters(),
        ),
        final(rt).asserts == old(rt).asserts,
        final(rt).tests == old(rt).tests,
        final(rt).signals == old(rt).signals,
{
    let ws = rt.mux.take_phase_rw();
    wake_waiters(&mut rt.executor, &ws);
}

/// The read-write phase callback fired: wake all its waiters in order,
/// then drain the executor.
pub fn react_rw<B: SimIf, C: Cort<B>>(rt: &mut Runtime<C>, sim: &mut B) -> (drained: bool)
    ensures
        drained ==> final(rt).executor.ready_seq().len() == 0,
{
    react_rw_wake(rt);
    run_once(rt, sim)
}

} // verus!
