use vstd::prelude::*;
use std::collections::VecDeque;

use crate::index_map::IndexMap;
use crate::sim_if::SimIf;
use crate::value::SimpleResult;

verus! {

/// Which signal transitions a waiter wants to see.
#[derive(Clone, Copy, Debug, PartialEq, Eq, Structural)]
pub enum EdgeKind {
    Any,
    Rising,
    Falling,
}

/// One waiter on an event: the task to wake, and, for edge events, the
/// transition it is interested in.
#[derive(Clone, Copy, Debug, PartialEq, Eq, Structural)]
pub struct TrigShared {
    pub task: u64,
    pub edge_kind: EdgeKind,
}

/// Whether an observed transition releases a waiter: an observed `Any` —
/// a multi-bit signal changed, direction undefined — releases every
/// waiter; otherwise the waiter accepts any edge or the directions agree.
pub open spec fn matches_edge(w: TrigShared, observed: EdgeKind) -> bool {
    observed == EdgeKind::Any || w.edge_kind == EdgeKind::Any || w.edge_kind == observed
}

/// On an observed `Any` transition, filtering releases every waiter.
pub proof fn lemma_filter_all(s: Seq<TrigShared>)
    ensures
        s.filter(|w: TrigShared| matches_edge(w, EdgeKind::Any)) == s,
    decreases s.len(),
{
    reveal_with_fuel(Seq::<TrigShared>::filter, 2);
    if s.len() == 0 {
        assert(s.filter(|w: TrigShared| matches_edge(w, EdgeKind::Any)) =~= s);
    } else {
        lemma_filter_all(s.drop_last());
        assert(s.filter(|w: TrigShared| matches_edge(w, EdgeKind::Any)) =~= s);
    }
}

/// The task identifiers of a waiter sequence, in order.
pub open spec fn tasks_of(ws: Seq<TrigShared>) -> Seq<u64> {
    ws.map_values(|w: TrigShared| w.task)
}

/// One coalescing record: at most one outstanding simulator callback,
/// shared by every waiter on the same event.
pub struct CallbackGroup {
    handle: Option<usize>,
    callbacks: VecDeque<TrigShared>,
}

impl CallbackGroup {
    /// The outstanding simulator callback handle, if one is registered.
    pub closed spec fn spec_handle(self) -> Option<usize> {
        self.handle
    }

    /// The waiters, in firing order.
    pub closed spec fn spec_waiters(self) -> Seq<TrigShared> {
        self.callbacks@
    }

    /// A live group: exactly one outstanding callback, and someone waiting
    /// on it.
    pub open spec fn live(self) -> bool {
        self.spec_handle() is Some && self.spec_waiters().len() > 0
    }

    /// A phase group between ticks: a callback is outstanding exactly while
    /// someone waits.
    pub open spec fn phase_wf(self) -> bool {
        self.spec_handle() is Some <==> self.spec_waiters().len() > 0
    }

    fn new_empty() -> (r: Self)
        ensures
            r.spec_handle() is None,
            r.spec_waiters().len() == 0,
    {
        CallbackGroup { handle: None, callbacks: VecDeque::new() }
    }

    /// The waiters, borrowed in firing order.
    pub fn waiters_ref(&self) -> (r: &VecDeque<TrigShared>)
        ensures
            r@ == self.spec_waiters(),
    {
        &self.callbacks
    }

    /// The outstanding callback handle, if any.
    pub fn handle_val(&self) -> (r: Option<usize>)
        ensures
            r == self.spec_handle(),
    {
        self.handle
    }

    /// The same callback handle over a new waiter list.
    pub fn with_waiters(self, ws: VecDeque<TrigShared>) -> (r: Self)
        ensures
            r.spec_handle() == self.spec_handle(),
            r.spec_waiters() == ws@,
    {
        CallbackGroup { handle: self.handle, callbacks: ws }
    }

    fn new_live(handle: usize, w: TrigShared) -> (r: Self)
        ensures
            r.spec_handle() == Some(handle),
            r.spec_waiters() =~= seq![w],
    {
        let mut callbacks = VecDeque::new();
        callbacks.push_back(w);
        CallbackGroup { handle: Some(handle), callbacks }
    }
}

/// The callback multiplexer: four registries mapping an event to the one
/// simulator callback registered for it and the waiters it will release.
///
/// Edge groups are keyed by signal handle, timer groups by the absolute
/// simulation time at which the callback fires; the read-only and
/// read-write phases each have a single group.
pub struct Multiplexer {
    edges: IndexMap<CallbackGroup>,
    timers: IndexMap<CallbackGroup>,
    read_only: CallbackGroup,
    read_write: CallbackGroup,
}

impl Multiplexer {
    pub closed spec fn spec_edges(self) -> IndexMap<CallbackGroup> {
        self.edges
    }

    pub closed spec fn spec_timers(self) -> IndexMap<CallbackGroup> {
        self.timers
    }

    pub closed spec fn edge_lookup(self, sig: u64) -> Option<CallbackGroup> {
        self.edges.lookup(sig)
    }

    pub closed spec fn timer_lookup(self, abs: u64) -> Option<CallbackGroup> {
        self.timers.lookup(abs)
    }

    pub closed spec fn edge_count(self) -> nat {
        self.edges.entries().len()
    }

    pub closed spec fn timer_count(self) -> nat {
        self.timers.entries().len()
    }

    pub closed spec fn ro_group(self) -> CallbackGroup {
        self.read_only
    }

    pub closed spec fn rw_group(self) -> CallbackGroup {
        self.read_write
    }

    /// All four registries empty, with no callback outstanding anywhere.
    pub open spec fn all_clear(self) -> bool {
        &&& self.edge_count() == 0
        &&& self.timer_count() == 0
        &&& self.ro_group().spec_handle() is None
        &&& self.ro_group().spec_waiters().len() == 0
        &&& self.rw_group().spec_handle() is None
        &&& self.rw_group().spec_waiters().len() == 0
    }

    /// The invariant of the multiplexer: for every registered event there
    /// is one group; a keyed group exists only while it has waiters and
    /// exactly one outstanding callback; a phase group has a callback
    /// outstanding exactly while it has waiters.
    pub closed spec fn wf(self) -> bool {
        &&& self.edges.wf()
        &&& self.timers.wf()
        &&& forall|k: u64|
            #[trigger] self.edges.contains_spec(k) ==> self.edges.lookup(k).unwrap().live()
        &&& forall|k: u64|
            #[trigger] self.timers.contains_spec(k) ==> self.timers.lookup(k).unwrap().live()
        &&& self.read_only.phase_wf()
        &&& self.read_write.phase_wf()
    }

    pub fn new() -> (r: Self)
        ensures
            r.wf(),
            r.all_clear(),
    {
        Multiplexer {
            edges: IndexMap::new(),
            timers: IndexMap::new(),
            read_only: CallbackGroup::new_empty(),
            read_write: CallbackGroup::new_empty(),
        }
    }

    /// How many signals have an edge group registered.
    pub fn edge_group_count(&self) -> (r: usize)
        ensures
            r == self.edge_count(),
    {
        self.edges.len()
    }

    /// How many distinct deadlines have a timer group registered.
    pub fn timer_group_count(&self) -> (r: usize)
        ensures
            r == self.timer_count(),
    {
        self.timers.len()
    }

    /// How many waiters the read-only phase group holds.
    pub fn ro_waiter_count(&self) -> (r: usize)
        ensures
            r == self.ro_group().spec_waiters().len(),
    {
        self.read_only.callbacks.len()
    }

    /// How many waiters the read-write phase group holds.
    pub fn rw_waiter_count(&self) -> (r: usize)
        ensures
            r == self.rw_group().spec_waiters().len(),
    {
        self.read_write.callbacks.len()
    }

    /// Append a waiter to the read-write phase group, registering the
    /// phase callback if none is outstanding.
    pub fn register_waiter_rw<B: SimIf>(&mut self, sim: &mut B, w: TrigShared) -> (r: SimpleResult<
        (),
    >)
        ensures
            final(self).spec_edges() == old(self).spec_edges(),
            final(self).spec_timers() == old(self).spec_timers(),
            final(self).ro_group() == old(self).ro_group(),
            old(self).wf() ==> final(self).wf(),
            old(self).rw_group().spec_handle() is Some ==> r is Ok,
            match r {
                Ok(_) => {
                    &&& final(self).rw_group().spec_waiters() == old(self).rw_group().spec_waiters().push(w)
                    &&& final(self).rw_group().spec_handle() is Some
                    &&& (old(self).rw_group().spec_handle() is Some ==> final(self).rw_group().spec_handle() == old(self).rw_group().spec_handle())
                },
                Err(_) => final(self).rw_group().spec_waiters() == old(self).rw_group().spec_waiters() && final(self).rw_group().spec_handle() == old(self).rw_group().spec_handle(),
            },
    {
        self.read_write.callbacks.push_back(w);
        if self.read_write.handle.is_none() {
            match sim.register_callback_rw() {
                Ok(h) => {
                    self.read_write.handle = Some(h);
                    Ok(())
                }
                Err(_) => {
                    let _ = self.read_write.callbacks.pop_back();
                    proof {
                        assert(final(self).read_write.callbacks@ =~= old(self).read_write.callbacks@);
                    }
                    Err(())
                }
            }
        } else {
            Ok(())
        }
    }

    /// Append a waiter to the read-only phase group — or, for a
    /// high-priority waiter, insert it at the front, ahead of every waiter
    /// registered earlier — registering the phase callback if none is
    /// outstanding.
    pub fn register_waiter_ro<B: SimIf>(
        &mut self,
        sim: &mut B,
        w: TrigShared,
        high_prio: bool,
    ) -> (r: SimpleResult<()>)
        ensures
            final(self).spec_edges() == old(self).spec_edges(),
            final(self).spec_timers() == old(self).spec_timers(),
            final(self).rw_group() == old(self).rw_group(),
            old(self).wf() ==> final(self).wf(),
            old(self).ro_group().spec_handle() is Some ==> r is Ok,
            match r {
                Ok(_) => {
                    &&& final(self).ro_group().spec_waiters() == if high_prio {
                        seq![w] + old(self).ro_group().spec_waiters()
                    } else {
                        old(self).ro_group().spec_waiters().push(w)
                    }
                    &&& final(self).ro_group().spec_handle() is Some
                    &&& (old(self).ro_group().spec_handle() is Some ==> final(self).ro_group().spec_handle() == old(self).ro_group().spec_handle())
                },
                Err(_) => final(self).ro_group().spec_waiters() == old(self).ro_group().spec_waiters() && final(self).ro_group().spec_handle() == old(self).ro_group().spec_handle(),
            },
    {
        if high_prio {
            self.read_only.callbacks.push_front(w);
        } else {
            self.read_only.callbacks.push_back(w);
        }
        if self.read_only.handle.is_none() {
            match sim.register_callback_ro() {
                Ok(h) => {
                    self.read_only.handle = Some(h);
                    proof {
                        if high_prio {
                            assert(final(self).ro_group().spec_waiters() =~= seq![w] + old(self).ro_group().spec_waiters());
                        }
                    }
                    Ok(())
                }
                Err(_) => {
                    if high_prio {
                        let _ = self.read_only.callbacks.pop_front();
                    } else {
                        let _ = self.read_only.callbacks.pop_back();
                    }
                    proof {
                        assert(final(self).read_only.callbacks@ =~= old(self).read_only.callbacks@);
                    }
                    Err(())
                }
            }
        } else {
            proof {
                if high_prio {
                    assert(final(self).ro_group().spec_waiters() =~= seq![w] + old(self).ro_group().spec_waiters());
                }
            }
            Ok(())
        }
    }

    /// Append a waiter to the edge group of a signal, registering one
    /// value-change callback with the backend when the group is new.
    pub fn register_waiter_edge<B: SimIf>(&mut self, sim: &mut B, sig: usize, w: TrigShared) -> (r:
        SimpleResult<()>)
        ensures
            final(self).spec_timers() == old(self).spec_timers(),
            final(self).ro_group() == old(self).ro_group(),
            final(self).rw_group() == old(self).rw_group(),
            old(self).wf() ==> final(self).wf(),
            old(self).wf() && old(self).edge_lookup(sig as u64) is Some ==> r is Ok,
            old(self).wf() ==> match r {
                Ok(_) => {
                    &&& final(self).edge_lookup(sig as u64) is Some
                    &&& final(self).edge_lookup(sig as u64).unwrap().spec_waiters() == (match old(self).edge_lookup(sig as u64) {
                        Some(g) => g.spec_waiters().push(w),
                        None => seq![w],
                    })
                    &&& (old(self).edge_lookup(sig as u64) matches Some(g) ==> final(self).edge_lookup(sig as u64).unwrap().spec_handle() == g.spec_handle())
                    &&& forall|k: u64|
                        k != sig as u64 ==> #[trigger] final(self).edge_lookup(k) == old(self).edge_lookup(k)
                },
                Err(_) => forall|k: u64|
                    #[trigger] final(self).edge_lookup(k) == old(self).edge_lookup(k),
            },
    {
        let key = sig as u64;
        match self.edges.remove(key) {
            Some(g) => {
                let mut g = g;
                g.callbacks.push_back(w);
                self.edges.insert(key, g);
                Ok(())
            }
            None => {
                match sim.register_callback_edge(sig) {
                    Ok(h) => {
                        self.edges.insert(key, CallbackGroup::new_live(h, w));
                        Ok(())
                    }
                    Err(_) => Err(()),
                }
            }
        }
    }

    /// Append a waiter to the timer group at absolute time `abs`,
    /// registering one timer callback `delta` steps ahead when the group
    /// is new: identical deadlines share one callback.
    pub fn register_waiter_timer<B: SimIf>(
        &mut self,
        sim: &mut B,
        abs: u64,
        delta: u64,
        w: TrigShared,
    ) -> (r: SimpleResult<()>)
        ensures
            final(self).spec_edges() == old(self).spec_edges(),
            final(self).ro_group() == old(self).ro_group(),
            final(self).rw_group() == old(self).rw_group(),
            old(self).wf() ==> final(self).wf(),
            old(self).wf() && old(self).timer_lookup(abs) is Some ==> r is Ok,
            old(self).wf() ==> match r {
                Ok(_) => {
                    &&& final(self).timer_lookup(abs) is Some
                    &&& final(self).timer_lookup(abs).unwrap().spec_waiters() == (match old(self).timer_lookup(abs) {
                        Some(g) => g.spec_waiters().push(w),
                        None => seq![w],
                    })
                    &&& (old(self).timer_lookup(abs) matches Some(g) ==> final(self).timer_lookup(
                        abs,
                    ).unwrap().spec_handle() == g.spec_handle())
                    &&& forall|k: u64|
                        k != abs ==> #[trigger] final(self).timer_lookup(k) == old(self).timer_lookup(k)
                },
                Err(_) => forall|k: u64|
                    #[trigger] final(self).timer_lookup(k) == old(self).timer_lookup(k),
            },
    {
        match self.timers.remove(abs) {
            Some(g) => {
                let mut g = g;
                g.callbacks.push_back(w);
                self.timers.insert(abs, g);
                Ok(())
            }
            None => {
                match sim.register_callback_time(delta) {
                    Ok(h) => {
                        self.timers.insert(abs, CallbackGroup::new_live(h, w));
                        Ok(())
                    }
                    Err(_) => Err(()),
                }
            }
        }
    }

    /// Remove and return the timer group at `abs`: the simulator will not
    /// fire this one-shot callback again.
    pub fn take_timer_group(&mut self, abs: u64) -> (r: Option<CallbackGroup>)
        ensures
            final(self).spec_edges() == old(self).spec_edges(),
            final(self).ro_group() == old(self).ro_group(),
            final(self).rw_group() == old(self).rw_group(),
            old(self).wf() ==> {
                &&& final(self).wf()
                &&& r == old(self).timer_lookup(abs)
                &&& (r is Some ==> r.unwrap().live())
                &&& final(self).timer_lookup(abs) is None
                &&& forall|k: u64|
                    k != abs ==> #[trigger] final(self).timer_lookup(k) == old(self).timer_lookup(k)
            },
    {
        self.timers.remove(abs)
    }

    /// Remove and return the edge group of a signal.
    pub fn take_edge_group(&mut self, sig: u64) -> (r: Option<CallbackGroup>)
        ensures
            final(self).spec_timers() == old(self).spec_timers(),
            final(self).ro_group() == old(self).ro_group(),
            final(self).rw_group() == old(self).rw_group(),
            old(self).wf() ==> {
                &&& final(self).wf()
                &&& r == old(self).edge_lookup(sig)
                &&& (r is Some ==> r.unwrap().live())
                &&& final(self).edge_lookup(sig) is None
                &&& forall|k: u64|
                    k != sig ==> #[trigger] final(self).edge_lookup(k) == old(self).edge_lookup(k)
            },
    {
        self.edges.remove(sig)
    }

    /// Put a still-live edge group back under its signal, keeping the
    /// existing backend callback.
    pub fn put_edge_group(&mut self, sig: u64, g: CallbackGroup)
        ensures
            final(self).spec_timers() == old(self).spec_timers(),
            final(self).ro_group() == old(self).ro_group(),
            final(self).rw_group() == old(self).rw_group(),
            old(self).wf() && g.live() ==> {
                &&& final(self).wf()
                &&& final(self).edge_lookup(sig) == Some(g)
                &&& forall|k: u64|
                    k != sig ==> #[trigger] final(self).edge_lookup(k) == old(self).edge_lookup(k)
            },
    {
        self.edges.insert(sig, g);
    }

    /// Take every read-only waiter for this tick, clearing the group's
    /// callback handle: the phase callback is one-shot.
    pub fn take_phase_ro(&mut self) -> (r: VecDeque<TrigShared>)
        ensures
            final(self).spec_edges() == old(self).spec_edges(),
            final(self).spec_timers() == old(self).spec_timers(),
            final(self).rw_group() == old(self).rw_group(),
            old(self).wf() ==> final(self).wf(),
            r@ == old(self).ro_group().spec_waiters(),
            final(self).ro_group().spec_handle() is None,
            final(self).ro_group().spec_waiters().len() == 0,
    {
        self.read_only.handle = None;
        let mut out: VecDeque<TrigShared> = VecDeque::new();
        std::mem::swap(&mut out, &mut self.read_only.callbacks);
        out
    }

    /// Take every read-write waiter for this tick, clearing the group's
    /// callback handle.
    pub fn take_phase_rw(&mut self) -> (r: VecDeque<TrigShared>)
        ensures
            final(self).spec_edges() == old(self).spec_edges(),
            final(self).spec_timers() == old(self).spec_timers(),
            final(self).ro_group() == old(self).ro_group(),
            old(self).wf() ==> final(self).wf(),
            r@ == old(self).rw_group().spec_waiters(),
            final(self).rw_group().spec_handle() is None,
            final(self).rw_group().spec_waiters().len() == 0,
    {
        self.read_write.handle = None;
        let mut out: VecDeque<TrigShared> = VecDeque::new();
        std::mem::swap(&mut out, &mut self.read_write.callbacks);
        out
    }

    /// Drain every registry, asking the backend to cancel each stored
    /// callback handle. Cancellation is best-effort: backend failures are
    /// ignored, as the handles are dead either way.
    pub fn cancel_all_triggers<B: SimIf>(&mut self, sim: &mut B)
        ensures
            final(self).wf(),
            final(self).all_clear(),
    {
        let mut h = self.read_only.handle.take();
        if let Some(hdl) = h {
            let _ = sim.cancel_callback(hdl);
        }
        self.read_only.callbacks = VecDeque::new();
        h = self.read_write.handle.take();
        if let Some(hdl) = h {
            let _ = sim.cancel_callback(hdl);
        }
        self.read_write.callbacks = VecDeque::new();
        let timer_groups = self.timers.take_entries();
        let mut i: usize = 0;
        while i < timer_groups.len()
            decreases timer_groups.len() - i,
        {
            if let Some(hdl) = timer_groups[i].1.handle {
                let _ = sim.cancel_callback(hdl);
            }
            i = i + 1;
        }
        let edge_groups = self.edges.take_entries();
        let mut j: usize = 0;
        while j < edge_groups.len()
            decreases edge_groups.len() - j,
        {
            if let Some(hdl) = edge_groups[j].1.handle {
                let _ = sim.cancel_callback(hdl);
            }
            j = j + 1;
        }
    }
}

/// The await-able primitive: a value describing one pending suspension.
///
/// A trigger may be polled at most twice: the first poll registers
/// interest with the multiplexer and is pending, the second observes that
/// the waker already fired and is ready.
#[derive(Clone, Copy, Debug)]
pub struct Trigger {
    kind: TrigKind,
    awaited: bool,
    high_exec_prio: bool,
}

/// The event a trigger waits for.
#[derive(Clone, Copy, Debug, PartialEq, Eq, Structural)]
pub enum TrigKind {
    Edge(usize, EdgeKind),
    Timer(u64),
    ReadWrite,
    ReadOnly,
}

/// One poll of a trigger. `Rejected` reports a zero timer delta, an
/// overflowing deadline, or a backend that refused the callback; the
/// multiplexer is then unchanged.
#[derive(Clone, Copy, Debug, PartialEq, Eq, Structural)]
pub enum TrigPoll {
    Ready,
    Pending,
    Rejected,
}

impl Trigger {
    pub closed spec fn spec_kind(self) -> TrigKind {
        self.kind
    }

    pub closed spec fn spec_awaited(self) -> bool {
        self.awaited
    }

    pub closed spec fn spec_prio(self) -> bool {
        self.high_exec_prio
    }

    /// A timer over a delta given directly in simulation steps.
    pub fn timer_steps(steps: u64) -> (r: Self)
        ensures
            r.spec_kind() == TrigKind::Timer(steps),
            !r.spec_awaited(),
            !r.spec_prio(),
    {
        Trigger { kind: TrigKind::Timer(steps), awaited: false, high_exec_prio: false }
    }

    /// A timer over a delta in a named unit; see `unit_to_steps` for the
    /// exact conversion contract.
    pub fn timer<B: SimIf>(sim: &B, time: u64, unit: &str) -> (r: SimpleResult<Self>)
        ensures
            match r {
                Ok(t) => (t.spec_kind() matches TrigKind::Timer(_)) && !t.spec_awaited()
                    && !t.spec_prio(),
                Err(_) => true,
            },
    {
        match crate::sim_if::get_sim_steps(sim, time, unit) {
            Ok(steps) => Ok(Trigger::timer_steps(steps)),
            Err(_) => Err(()),
        }
    }

    /// Any transition of a signal.
    pub fn edge(signal: crate::signal::SimObject) -> (r: Self)
        ensures
            r.spec_kind() == TrigKind::Edge(signal.spec_handle(), EdgeKind::Any),
            !r.spec_awaited(),
            !r.spec_prio(),
    {
        Trigger {
            kind: TrigKind::Edge(signal.handle(), EdgeKind::Any),
            awaited: false,
            high_exec_prio: false,
        }
    }

    /// A low-to-high transition of a signal.
    pub fn rising_edge(signal: crate::signal::SimObject) -> (r: Self)
        ensures
            r.spec_kind() == TrigKind::Edge(signal.spec_handle(), EdgeKind::Rising),
            !r.spec_awaited(),
            !r.spec_prio(),
    {
        Trigger {
            kind: TrigKind::Edge(signal.handle(), EdgeKind::Rising),
            awaited: false,
            high_exec_prio: false,
        }
    }

    /// A high-to-low transition of a signal.
    pub fn falling_edge(signal: crate::signal::SimObject) -> (r: Self)
        ensures
            r.spec_kind() == TrigKind::Edge(signal.spec_handle(), EdgeKind::Falling),
            !r.spec_awaited(),
            !r.spec_prio(),
    {
        Trigger {
            kind: TrigKind::Edge(signal.handle(), EdgeKind::Falling),
            awaited: false,
            high_exec_prio: false,
        }
    }

    /// The read-write phase of the current time step.
    pub fn read_write() -> (r: Self)
        ensures
            r.spec_kind() == TrigKind::ReadWrite,
            !r.spec_awaited(),
            !r.spec_prio(),
    {
        Trigger { kind: TrigKind::ReadWrite, awaited: false, high_exec_prio: false }
    }

    /// The read-only phase of the current time step.
    pub fn read_only() -> (r: Self)
        ensures
            r.spec_kind() == TrigKind::ReadOnly,
            !r.spec_awaited(),
            !r.spec_prio(),
    {
        Trigger { kind: TrigKind::ReadOnly, awaited: false, high_exec_prio: false }
    }

    /// A read-only trigger whose waiter runs before every waiter
    /// registered without priority; history sampling uses it so samples
    /// are visible to every checker of the same tick.
    pub fn read_only_prio() -> (r: Self)
        ensures
            r.spec_kind() == TrigKind::ReadOnly,
            !r.spec_awaited(),
            r.spec_prio(),
    {
        Trigger { kind: TrigKind::ReadOnly, awaited: false, high_exec_prio: true }
    }

    /// One poll of the trigger by task `tid`.
    ///
    /// The first poll registers `tid` as a waiter on the trigger's event
    /// and is pending; a poll of an already awaited trigger observes that
    /// its waker fired and is ready, changing nothing. A zero timer delta
    /// is rejected, as are an overflowing deadline and a backend refusal;
    /// a rejected poll leaves every registry as it was and the trigger not
    /// awaited.
    pub fn poll<B: SimIf>(&mut self, mux: &mut Multiplexer, sim: &mut B, tid: u64) -> (r: TrigPoll)
        ensures
            old(mux).wf() ==> final(mux).wf(),
            old(self).spec_awaited() ==> r == TrigPoll::Ready && *final(mux) == *old(mux)
                && *final(self) == *old(self),
            !old(self).spec_awaited() ==> {
                &&& final(self).spec_kind() == old(self).spec_kind()
                &&& final(self).spec_prio() == old(self).spec_prio()
                &&& final(self).spec_awaited() == (r is Pending)
                &&& !(r is Ready)
                &&& (old(self).spec_kind() == TrigKind::Timer(0u64) ==> r == TrigPoll::Rejected)
                &&& (old(self).spec_kind() == TrigKind::ReadWrite && old(mux).rw_group().spec_handle() is Some ==> r is Pending)
                &&& (old(self).spec_kind() == TrigKind::ReadOnly && old(mux).ro_group().spec_handle() is Some ==> r is Pending)
                &&& (old(self).spec_kind() matches TrigKind::Edge(sig, ek) ==> (old(mux).wf()
                    && old(mux).edge_lookup(sig as u64) is Some ==> r is Pending))
                &&& (r is Rejected && old(mux).wf() ==> {
                    &&& forall|k: u64| #[trigger] final(mux).edge_lookup(k) == old(mux).edge_lookup(k)
                    &&& forall|k: u64| #[trigger] final(mux).timer_lookup(k) == old(mux).timer_lookup(k)
                    &&& final(mux).ro_group().spec_waiters() == old(mux).ro_group().spec_waiters()
                    &&& final(mux).ro_group().spec_handle() == old(mux).ro_group().spec_handle()
                    &&& final(mux).rw_group().spec_waiters() == old(mux).rw_group().spec_waiters()
                    &&& final(mux).rw_group().spec_handle() == old(mux).rw_group().spec_handle()
                })
                &&& (r is Pending && old(mux).wf() ==> match old(self).spec_kind() {
                    TrigKind::ReadWrite => {
                        &&& final(mux).rw_group().spec_waiters() == old(mux).rw_group().spec_waiters().push(TrigShared { task: tid, edge_kind: EdgeKind::Any })
                        &&& final(mux).rw_group().spec_handle() is Some
                        &&& final(mux).spec_edges() == old(mux).spec_edges()
                        &&& final(mux).spec_timers() == old(mux).spec_timers()
                        &&& final(mux).ro_group() == old(mux).ro_group()
                    },
                    TrigKind::ReadOnly => {
                        &&& final(mux).ro_group().spec_waiters() == if old(self).spec_prio() {
                            seq![TrigShared { task: tid, edge_kind: EdgeKind::Any }] + old(mux).ro_group().spec_waiters()
                        } else {
                            old(mux).ro_group().spec_waiters().push(TrigShared { task: tid, edge_kind: EdgeKind::Any })
                        }
                        &&& final(mux).ro_group().spec_handle() is Some
                        &&& final(mux).spec_edges() == old(mux).spec_edges()
                        &&& final(mux).spec_timers() == old(mux).spec_timers()
                        &&& final(mux).rw_group() == old(mux).rw_group()
                    },
                    TrigKind::Edge(sig, ek) => {
                        &&& final(mux).edge_lookup(sig as u64) is Some
                        &&& final(mux).edge_lookup(sig as u64).unwrap().spec_waiters() == (match old(mux).edge_lookup(sig as u64) {
                            Some(g) => g.spec_waiters().push(TrigShared { task: tid, edge_kind: ek }),
                            None => seq![TrigShared { task: tid, edge_kind: ek }],
                        })
                        &&& forall|k: u64| k != sig as u64 ==> #[trigger] final(mux).edge_lookup(k) == old(mux).edge_lookup(k)
                        &&& final(mux).spec_timers() == old(mux).spec_timers()
                        &&& final(mux).ro_group() == old(mux).ro_group()
                        &&& final(mux).rw_group() == old(mux).rw_group()
                    },
                    TrigKind::Timer(d) => {
                        &&& d > 0
                        &&& exists|abs: u64| {
                            &&& #[trigger] final(mux).timer_lookup(abs) is Some
                            &&& abs >= d
                            &&& final(mux).timer_lookup(abs).unwrap().spec_waiters() == (match old(mux).timer_lookup(abs) {
                                Some(g) => g.spec_waiters().push(TrigShared { task: tid, edge_kind: EdgeKind::Any }),
                                None => seq![TrigShared { task: tid, edge_kind: EdgeKind::Any }],
                            })
                            &&& forall|k: u64| k != abs ==> #[trigger] final(mux).timer_lookup(k) == old(mux).timer_lookup(k)
                        }
                        &&& final(mux).spec_edges() == old(mux).spec_edges()
                        &&& final(mux).ro_group() == old(mux).ro_group()
                        &&& final(mux).rw_group() == old(mux).rw_group()
                    },
                })
            },
    {
        if self.awaited {
            return TrigPoll::Ready;
        }
        match self.kind {
            TrigKind::ReadWrite => {
                let w = TrigShared { task: tid, edge_kind: EdgeKind::Any };
                match mux.register_waiter_rw(sim, w) {
                    Ok(_) => {
                        self.awaited = true;
                        TrigPoll::Pending
                    }
                    Err(_) => TrigPoll::Rejected,
                }
            }
            TrigKind::ReadOnly => {
                let w = TrigShared { task: tid, edge_kind: EdgeKind::Any };
                match mux.register_waiter_ro(sim, w, self.high_exec_prio) {
                    Ok(_) => {
                        self.awaited = true;
                        TrigPoll::Pending
                    }
                    Err(_) => TrigPoll::Rejected,
                }
            }
            TrigKind::Edge(sig, ek) => {
                let w = TrigShared { task: tid, edge_kind: ek };
                match mux.register_waiter_edge(sim, sig, w) {
                    Ok(_) => {
                        self.awaited = true;
                        TrigPoll::Pending
                    }
                    Err(_) => TrigPoll::Rejected,
                }
            }
            TrigKind::Timer(d) => {
                if d == 0 {
                    return TrigPoll::Rejected;
                }
                let now = sim.get_sim_time_steps();
                let abs = match now.checked_add(d) {
                    Some(abs) => abs,
                    None => {
                        return TrigPoll::Rejected;
                    }
                };
                let w = TrigShared { task: tid, edge_kind: EdgeKind::Any };
                match mux.register_waiter_timer(sim, abs, d, w) {
                    Ok(_) => {
                        self.awaited = true;
                        proof {
                            if old(mux).wf() {
                                assert(final(mux).timer_lookup(abs) is Some);
                            }
                        }
                        TrigPoll::Pending
                    }
                    Err(_) => TrigPoll::Rejected,
                }
            }
        }
    }
}

/// Split a released waiter list by an observed transition: those the
/// transition wakes, in order, and those to reschedule, in order.
pub fn partition_waiters(ws: &VecDeque<TrigShared>, observed: EdgeKind) -> (r: (
    VecDeque<TrigShared>,
    VecDeque<TrigShared>,
))
    ensures
        r.0@ == ws@.filter(|w: TrigShared| matches_edge(w, observed)),
        r.1@ == ws@.filter(|w: TrigShared| !matches_edge(w, observed)),
{
    let mut wake: VecDeque<TrigShared> = VecDeque::new();
    let mut keep: VecDeque<TrigShared> = VecDeque::new();
    let n = ws.len();
    let mut i: usize = 0;
    proof {
        assert(ws@.subrange(0, 0).filter(|w: TrigShared| matches_edge(w, observed)) =~= Seq::<
            TrigShared,
        >::empty());
        assert(ws@.subrange(0, 0).filter(|w: TrigShared| !matches_edge(w, observed)) =~= Seq::<
            TrigShared,
        >::empty());
    }
    while i < n
        invariant
            i <= n,
            n == ws@.len(),
            wake@ == ws@.subrange(0, i as int).filter(|w: TrigShared| matches_edge(w, observed)),
            keep@ == ws@.subrange(0, i as int).filter(|w: TrigShared| !matches_edge(w, observed)),
        decreases n - i,
    {
        let w = ws[i];
        let ghost pre = ws@.subrange(0, i as int);
        let ghost cur = ws@.subrange(0, i as int + 1);
        proof {
            reveal_with_fuel(Seq::<TrigShared>::filter, 2);
            assert(cur.drop_last() =~= pre);
            assert(cur.drop_last() == pre);
            assert(cur.last() == ws@[i as int]);
            assert(cur.len() > 0);
            assert(cur.filter(|w: TrigShared| matches_edge(w, observed)) == if matches_edge(
                ws@[i as int],
                observed,
            ) {
                pre.filter(|w: TrigShared| matches_edge(w, observed)).push(ws@[i as int])
            } else {
                pre.filter(|w: TrigShared| matches_edge(w, observed))
            });
            assert(cur.filter(|w: TrigShared| !matches_edge(w, observed)) == if !matches_edge(
                ws@[i as int],
                observed,
            ) {
                pre.filter(|w: TrigShared| !matches_edge(w, observed)).push(ws@[i as int])
            } else {
                pre.filter(|w: TrigShared| !matches_edge(w, observed))
            });
        }
        if matches!(observed, EdgeKind::Any) || w.edge_kind == EdgeKind::Any || w.edge_kind
            == observed {
            wake.push_back(w);
        } else {
            keep.push_back(w);
        }
        i = i + 1;
    }
    proof {
        assert(ws@.subrange(0, n as int) =~= ws@);
    }
    (wake, keep)
}

/// Two suspensions in sequence: an event, then a phase of the same or a
/// later tick. This is how a testbench waits for a moment *and* for the
/// signals to settle: `timer_ro` and `rising_edge_ro` end on the
/// read-only phase, `timer_rw` and `rising_edge_rw` on the read-write
/// phase.
#[derive(Clone, Copy, Debug)]
pub struct TrigSeq {
    first: Trigger,
    second: Trigger,
    in_second: bool,
}

impl TrigSeq {
    pub closed spec fn spec_first(self) -> Trigger {
        self.first
    }

    pub closed spec fn spec_second(self) -> Trigger {
        self.second
    }

    pub closed spec fn spec_in_second(self) -> bool {
        self.in_second
    }

    /// A timer over a named unit, then the read-only phase.
    pub fn timer_ro<B: SimIf>(sim: &B, time: u64, unit: &str) -> (r: SimpleResult<Self>)
        ensures
            match r {
                Ok(q) => (q.spec_first().spec_kind() matches TrigKind::Timer(_))
                    && q.spec_second().spec_kind() == TrigKind::ReadOnly && !q.spec_in_second(),
                Err(_) => true,
            },
    {
        match Trigger::timer(sim, time, unit) {
            Ok(t) => Ok(TrigSeq { first: t, second: Trigger::read_only(), in_second: false }),
            Err(_) => Err(()),
        }
    }

    /// A timer over a named unit, then the read-write phase.
    pub fn timer_rw<B: SimIf>(sim: &B, time: u64, unit: &str) -> (r: SimpleResult<Self>)
        ensures
            match r {
                Ok(q) => (q.spec_first().spec_kind() matches TrigKind::Timer(_))
                    && q.spec_second().spec_kind() == TrigKind::ReadWrite && !q.spec_in_second(),
                Err(_) => true,
            },
    {
        match Trigger::timer(sim, time, unit) {
            Ok(t) => Ok(TrigSeq { first: t, second: Trigger::read_write(), in_second: false }),
            Err(_) => Err(()),
        }
    }

    /// A rising edge of a signal, then the read-only phase.
    pub fn rising_edge_ro(signal: crate::signal::SimObject) -> (r: Self)
        ensures
            r.spec_first().spec_kind() == TrigKind::Edge(signal.spec_handle(), EdgeKind::Rising),
            r.spec_second().spec_kind() == TrigKind::ReadOnly,
            !r.spec_in_second(),
    {
        TrigSeq {
            first: Trigger::rising_edge(signal),
            second: Trigger::read_only(),
            in_second: false,
        }
    }

    /// A rising edge of a signal, then the read-write phase.
    pub fn rising_edge_rw(signal: crate::signal::SimObject) -> (r: Self)
        ensures
            r.spec_first().spec_kind() == TrigKind::Edge(signal.spec_handle(), EdgeKind::Rising),
            r.spec_second().spec_kind() == TrigKind::ReadWrite,
            !r.spec_in_second(),
    {
        TrigSeq {
            first: Trigger::rising_edge(signal),
            second: Trigger::read_write(),
            in_second: false,
        }
    }

    /// One poll of the sequence: drives the first trigger to its firing,
    /// then the second; ready only once the second fired.
    pub fn poll<B: SimIf>(&mut self, mux: &mut Multiplexer, sim: &mut B, tid: u64) -> (r: TrigPoll)
        ensures
            old(mux).wf() ==> final(mux).wf(),
            final(self).spec_second().spec_kind() == old(self).spec_second().spec_kind(),
            r is Ready ==> final(self).spec_in_second(),
            old(self).spec_in_second() && old(self).spec_second().spec_awaited() ==> r
                == TrigPoll::Ready,
            !old(self).spec_in_second() && old(self).spec_first().spec_awaited() ==> final(self).spec_in_second(),
    {
        if !self.in_second {
            match self.first.poll(mux, sim, tid) {
                TrigPoll::Pending => {
                    return TrigPoll::Pending;
                }
                TrigPoll::Rejected => {
                    return TrigPoll::Rejected;
                }
                TrigPoll::Ready => {
                    self.in_second = true;
                    return match self.second.poll(mux, sim, tid) {
                        TrigPoll::Pending => TrigPoll::Pending,
                        TrigPoll::Rejected => TrigPoll::Rejected,
                        TrigPoll::Ready => TrigPoll::Ready,
                    };
                }
            }
        }
        self.second.poll(mux, sim, tid)
    }
}

} // verus!
