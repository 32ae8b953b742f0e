use std::cell::RefCell;
use std::collections::HashMap;
use std::rc::Rc;

use rstb::executor::TaskBody;
use rstb::runtime::{react, react_edge, react_ro, react_rw, react_time, run_once, CoPoll, Cort, Runtime};
use rstb::signal::{ObjectKind, SimObject};
use rstb::sim_if::{SimCallback, SimIf};
use rstb::trigger::{EdgeKind, TrigPoll, Trigger};
use rstb::value::{SimpleResult, Val};

struct FakeSim {
    time: u64,
    logs: Vec<String>,
    values: HashMap<usize, i32>,
    names: HashMap<String, usize>,
    kinds: HashMap<usize, ObjectKind>,
    next_cb: usize,
    reg_time_count: usize,
    reg_edge_count: usize,
    reg_ro_count: usize,
    reg_rw_count: usize,
    cancelled: Vec<usize>,
}

impl FakeSim {
    fn new() -> Self {
        FakeSim {
            time: 0,
            logs: Vec::new(),
            values: HashMap::new(),
            names: HashMap::new(),
            kinds: HashMap::new(),
            next_cb: 1,
            reg_time_count: 0,
            reg_edge_count: 0,
            reg_ro_count: 0,
            reg_rw_count: 0,
            cancelled: Vec::new(),
        }
    }

    fn add_signal(&mut self, handle: usize, name: &str, kind: ObjectKind) {
        self.names.insert(name.to_string(), handle);
        self.kinds.insert(handle, kind);
        self.values.insert(handle, 0);
    }
}

impl SimIf for FakeSim {
    fn set_value_i32(&mut self, obj: &SimObject, value: i32, _force: bool) -> SimpleResult<()> {
        self.values.insert(obj.handle(), value);
        Ok(())
    }
    fn get_value_i32(&mut self, obj: &SimObject) -> SimpleResult<i32> {
        self.values.get(&obj.handle()).copied().ok_or(())
    }
    fn set_value_u32(&mut self, obj: &SimObject, value: u32, _force: bool) -> SimpleResult<()> {
        self.values.insert(obj.handle(), value as i32);
        Ok(())
    }
    fn get_value_u32(&mut self, obj: &SimObject) -> SimpleResult<u32> {
        self.values.get(&obj.handle()).map(|v| *v as u32).ok_or(())
    }
    fn set_value_bin(&mut self, _obj: &SimObject, _value: String, _force: bool) -> SimpleResult<()> {
        Ok(())
    }
    fn get_value_bin(&mut self, _obj: &SimObject) -> SimpleResult<String> {
        Err(())
    }
    fn release(&mut self, _obj: &SimObject) -> SimpleResult<()> {
        Ok(())
    }
    fn get_handle_by_name(&mut self, name: &str) -> SimpleResult<usize> {
        self.names.get(name).copied().ok_or(())
    }
    fn get_sim_time_steps(&self) -> u64 {
        self.time
    }
    fn log(&mut self, s: &str) {
        self.logs.push(s.to_string());
    }
    fn get_kind(&mut self, obj_handle: usize) -> ObjectKind {
        self.kinds.get(&obj_handle).copied().unwrap_or(ObjectKind::Other)
    }
    fn get_full_name(&mut self, obj: &SimObject) -> SimpleResult<String> {
        for (n, h) in self.names.iter() {
            if *h == obj.handle() {
                return Ok(n.clone());
            }
        }
        Err(())
    }
    fn get_sim_precision(&self) -> i8 {
        -12
    }
    fn get_root_object(&mut self) -> SimpleResult<SimObject> {
        Err(())
    }
    fn register_callback_rw(&mut self) -> SimpleResult<usize> {
        self.reg_rw_count += 1;
        self.next_cb += 1;
        Ok(self.next_cb - 1)
    }
    fn register_callback_ro(&mut self) -> SimpleResult<usize> {
        self.reg_ro_count += 1;
        self.next_cb += 1;
        Ok(self.next_cb - 1)
    }
    fn register_callback_time(&mut self, _t: u64) -> SimpleResult<usize> {
        self.reg_time_count += 1;
        self.next_cb += 1;
        Ok(self.next_cb - 1)
    }
    fn register_callback_edge(&mut self, _sig_hdl: usize) -> SimpleResult<usize> {
        self.reg_edge_count += 1;
        self.next_cb += 1;
        Ok(self.next_cb - 1)
    }
    fn cancel_callback(&mut self, cb_hdl: usize) -> SimpleResult<()> {
        self.cancelled.push(cb_hdl);
        Ok(())
    }
}

/// A coroutine that awaits one trigger, logs its label, and finishes.
#[derive(Clone)]
struct AwaitOne {
    proto: Trigger,
    started: Option<Trigger>,
    label: u64,
    log: Rc<RefCell<Vec<u64>>>,
}

impl Cort<FakeSim> for AwaitOne {
    fn poll(&mut self, rt: &mut Runtime<Self>, sim: &mut FakeSim, tid: u64) -> CoPoll {
        match &mut self.started {
            None => {
                let mut t = self.proto;
                match t.poll(&mut rt.mux, sim, tid) {
                    TrigPoll::Pending => {
                        self.started = Some(t);
                        CoPoll::Pending
                    }
                    TrigPoll::Rejected => CoPoll::Ready(Err(Val::Error)),
                    TrigPoll::Ready => CoPoll::Ready(Err(Val::Error)),
                }
            }
            Some(t) => match t.poll(&mut rt.mux, sim, tid) {
                TrigPoll::Ready => {
                    self.log.borrow_mut().push(self.label);
                    CoPoll::Ready(Ok(Val::Empty))
                }
                TrigPoll::Pending => CoPoll::Pending,
                TrigPoll::Rejected => CoPoll::Ready(Err(Val::Error)),
            },
        }
    }
}

fn spawn_waiter(
    rt: &mut Runtime<AwaitOne>,
    sim: &mut FakeSim,
    proto: Trigger,
    label: u64,
    log: &Rc<RefCell<Vec<u64>>>,
) {
    let _ = rt.executor.spawn(TaskBody::User(AwaitOne {
        proto,
        started: None,
        label,
        log: log.clone(),
    }));
    assert!(run_once(rt, sim));
}

#[test]
fn second_poll_of_a_trigger_is_ready() {
    let mut sim = FakeSim::new();
    let mut rt: Runtime<AwaitOne> = Runtime::new();
    let mut t = Trigger::timer_steps(50);
    assert!(matches!(t.poll(&mut rt.mux, &mut sim, 0), TrigPoll::Pending));
    assert!(matches!(t.poll(&mut rt.mux, &mut sim, 0), TrigPoll::Ready));
    // and it stays ready however often it is polled again
    assert!(matches!(t.poll(&mut rt.mux, &mut sim, 0), TrigPoll::Ready));
}

#[test]
fn timer_with_zero_delta_is_rejected() {
    let mut sim = FakeSim::new();
    let mut rt: Runtime<AwaitOne> = Runtime::new();
    let mut t = Trigger::timer_steps(0);
    assert!(matches!(t.poll(&mut rt.mux, &mut sim, 0), TrigPoll::Rejected));
    assert_eq!(rt.mux.timer_group_count(), 0);
    assert_eq!(sim.reg_time_count, 0);
    // a rejected trigger is not awaited: polling again rejects again
    assert!(matches!(t.poll(&mut rt.mux, &mut sim, 0), TrigPoll::Rejected));
}

#[test]
fn identical_deadlines_share_one_backend_callback() {
    let mut sim = FakeSim::new();
    let mut rt: Runtime<AwaitOne> = Runtime::new();
    let log = Rc::new(RefCell::new(Vec::new()));
    for label in 0..1000 {
        spawn_waiter(&mut rt, &mut sim, Trigger::timer_steps(100), label, &log);
    }
    // exactly one backend timer callback was registered for the shared deadline
    assert_eq!(sim.reg_time_count, 1);
    assert_eq!(rt.mux.timer_group_count(), 1);
    // when it fires, all one thousand tasks progress in registration order
    sim.time = 100;
    assert!(react_time(&mut rt, &mut sim, 100));
    assert_eq!(rt.executor.ready_len(), 0);
    let fired = log.borrow().clone();
    assert_eq!(fired.len(), 1000);
    for (i, v) in fired.iter().enumerate() {
        assert_eq!(*v, i as u64);
    }
    assert_eq!(rt.mux.timer_group_count(), 0);
}

#[test]
fn ready_queue_is_empty_after_each_react() {
    let mut sim = FakeSim::new();
    sim.add_signal(5, "top.clk", ObjectKind::Bits(1));
    let mut rt: Runtime<AwaitOne> = Runtime::new();
    let clk = SimObject::from_name(&mut rt.signals, &mut sim, "top.clk").unwrap();
    let log = Rc::new(RefCell::new(Vec::new()));
    spawn_waiter(&mut rt, &mut sim, Trigger::timer_steps(10), 1, &log);
    spawn_waiter(&mut rt, &mut sim, Trigger::rising_edge(clk), 2, &log);
    spawn_waiter(&mut rt, &mut sim, Trigger::read_only(), 3, &log);
    spawn_waiter(&mut rt, &mut sim, Trigger::read_write(), 4, &log);
    sim.time = 10;
    assert!(react_time(&mut rt, &mut sim, 10));
    assert_eq!(rt.executor.ready_len(), 0);
    assert!(react_edge(&mut rt, &mut sim, 5, EdgeKind::Rising));
    assert_eq!(rt.executor.ready_len(), 0);
    assert!(react_rw(&mut rt, &mut sim));
    assert_eq!(rt.executor.ready_len(), 0);
    assert!(react_ro(&mut rt, &mut sim));
    assert_eq!(rt.executor.ready_len(), 0);
    let mut fired = log.borrow().clone();
    fired.sort();
    assert_eq!(fired, vec![1, 2, 3, 4]);
}

#[test]
fn edge_waiters_fire_by_direction() {
    let mut sim = FakeSim::new();
    sim.add_signal(5, "top.sig", ObjectKind::Bits(1));
    let mut rt: Runtime<AwaitOne> = Runtime::new();
    let sig = SimObject::from_name(&mut rt.signals, &mut sim, "top.sig").unwrap();
    let log = Rc::new(RefCell::new(Vec::new()));
    spawn_waiter(&mut rt, &mut sim, Trigger::rising_edge(sig), 1, &log);
    spawn_waiter(&mut rt, &mut sim, Trigger::falling_edge(sig), 2, &log);
    spawn_waiter(&mut rt, &mut sim, sig.edge(), 3, &log);
    // one backend callback serves all three waiters
    assert_eq!(sim.reg_edge_count, 1);
    assert_eq!(rt.mux.edge_group_count(), 1);
    // a rising edge wakes the rising and the any-edge waiter; the falling
    // waiter is rescheduled under the same callback
    assert!(react_edge(&mut rt, &mut sim, 5, EdgeKind::Rising));
    assert_eq!(log.borrow().clone(), vec![1, 3]);
    assert_eq!(rt.mux.edge_group_count(), 1);
    assert_eq!(sim.reg_edge_count, 1);
    assert_eq!(sim.cancelled.len(), 0);
    // the falling edge wakes the last waiter and the callback is cancelled
    assert!(react_edge(&mut rt, &mut sim, 5, EdgeKind::Falling));
    assert_eq!(log.borrow().clone(), vec![1, 3, 2]);
    assert_eq!(rt.mux.edge_group_count(), 0);
    assert_eq!(sim.cancelled.len(), 1);
}

#[test]
fn any_change_wakes_directional_waiters() {
    // on a multi-bit signal the direction is undefined: an observed `Any`
    // change fires rising-edge and falling-edge waiters alike
    let mut sim = FakeSim::new();
    sim.add_signal(6, "top.bus", ObjectKind::Bits(8));
    let mut rt: Runtime<AwaitOne> = Runtime::new();
    let bus = SimObject::from_name(&mut rt.signals, &mut sim, "top.bus").unwrap();
    let log = Rc::new(RefCell::new(Vec::new()));
    spawn_waiter(&mut rt, &mut sim, Trigger::rising_edge(bus), 1, &log);
    spawn_waiter(&mut rt, &mut sim, Trigger::falling_edge(bus), 2, &log);
    assert!(react_edge(&mut rt, &mut sim, 6, EdgeKind::Any));
    assert_eq!(log.borrow().clone(), vec![1, 2]);
    assert_eq!(rt.mux.edge_group_count(), 0);
}

#[test]
fn high_priority_read_only_waiters_run_first() {
    let mut sim = FakeSim::new();
    let mut rt: Runtime<AwaitOne> = Runtime::new();
    let log = Rc::new(RefCell::new(Vec::new()));
    // two ordinary waiters registered first, then a high-priority one
    spawn_waiter(&mut rt, &mut sim, Trigger::read_only(), 1, &log);
    spawn_waiter(&mut rt, &mut sim, Trigger::read_only(), 2, &log);
    spawn_waiter(&mut rt, &mut sim, Trigger::read_only_prio(), 9, &log);
    assert_eq!(rt.mux.ro_waiter_count(), 3);
    // only one backend phase callback exists for all three
    assert_eq!(sim.reg_ro_count, 1);
    assert!(react_ro(&mut rt, &mut sim));
    // the late high-priority waiter fired before the earlier ordinary ones
    assert_eq!(log.borrow().clone(), vec![9, 1, 2]);
    assert_eq!(rt.mux.ro_waiter_count(), 0);
}

#[test]
fn cancelling_a_cancelled_task_is_a_no_op() {
    let mut sim = FakeSim::new();
    let mut rt: Runtime<AwaitOne> = Runtime::new();
    let log = Rc::new(RefCell::new(Vec::new()));
    let h = rt.executor.spawn(TaskBody::User(AwaitOne {
        proto: Trigger::timer_steps(10),
        started: None,
        label: 1,
        log: log.clone(),
    }));
    let tid = h.task_id();
    assert!(run_once(&mut rt, &mut sim));
    assert!(!rt.executor.is_cancelled(tid));
    rt.executor.cancel(tid);
    assert!(rt.executor.is_cancelled(tid));
    rt.executor.cancel(tid);
    rt.executor.cancel(tid);
    assert!(rt.executor.is_cancelled(tid));
    // the cancelled task is discarded at its next dequeue, never polled
    sim.time = 10;
    assert!(react_time(&mut rt, &mut sim, 10));
    assert_eq!(log.borrow().len(), 0);
}

#[test]
fn cancel_callback_is_idempotent_in_the_backend() {
    let mut sim = FakeSim::new();
    let h = sim.register_callback_time(5).unwrap();
    assert!(sim.cancel_callback(h).is_ok());
    assert!(sim.cancel_callback(h).is_ok());
}

#[test]
fn teardown_empties_every_registry() {
    let mut sim = FakeSim::new();
    sim.add_signal(5, "top.clk", ObjectKind::Bits(1));
    let mut rt: Runtime<AwaitOne> = Runtime::new();
    let clk = SimObject::from_name(&mut rt.signals, &mut sim, "top.clk").unwrap();
    let log = Rc::new(RefCell::new(Vec::new()));
    spawn_waiter(&mut rt, &mut sim, Trigger::timer_steps(10), 1, &log);
    spawn_waiter(&mut rt, &mut sim, Trigger::timer_steps(20), 2, &log);
    spawn_waiter(&mut rt, &mut sim, Trigger::rising_edge(clk), 3, &log);
    spawn_waiter(&mut rt, &mut sim, Trigger::read_only(), 4, &log);
    spawn_waiter(&mut rt, &mut sim, Trigger::read_write(), 5, &log);
    assert_eq!(rt.mux.timer_group_count(), 2);
    assert_eq!(rt.mux.edge_group_count(), 1);
    assert_eq!(rt.mux.ro_waiter_count(), 1);
    assert_eq!(rt.mux.rw_waiter_count(), 1);
    rstb::test::tear_down_test(&mut rt, &mut sim, 0);
    assert_eq!(rt.mux.timer_group_count(), 0);
    assert_eq!(rt.mux.edge_group_count(), 0);
    assert_eq!(rt.mux.ro_waiter_count(), 0);
    assert_eq!(rt.mux.rw_waiter_count(), 0);
    assert_eq!(rt.executor.ready_len(), 0);
    // every outstanding backend callback was cancelled: two timers, one
    // edge, one read-only, one read-write
    assert_eq!(sim.cancelled.len(), 5);
}

#[test]
fn react_dispatches_by_callback_kind() {
    let mut sim = FakeSim::new();
    sim.add_signal(8, "top.bus", ObjectKind::Bits(8));
    let mut rt: Runtime<AwaitOne> = Runtime::new();
    let bus = SimObject::from_name(&mut rt.signals, &mut sim, "top.bus").unwrap();
    let log = Rc::new(RefCell::new(Vec::new()));
    spawn_waiter(&mut rt, &mut sim, Trigger::timer_steps(30), 1, &log);
    spawn_waiter(&mut rt, &mut sim, Trigger::rising_edge(bus), 2, &log);
    spawn_waiter(&mut rt, &mut sim, Trigger::read_write(), 3, &log);
    spawn_waiter(&mut rt, &mut sim, Trigger::read_only(), 4, &log);
    sim.time = 30;
    assert!(react(&mut rt, &mut sim, SimCallback::Time(30)));
    // the multi-bit change carries no direction, so the edge waiter fires
    assert!(react(&mut rt, &mut sim, SimCallback::Edge(8)));
    assert!(react(&mut rt, &mut sim, SimCallback::ReadWrite));
    assert!(react(&mut rt, &mut sim, SimCallback::ReadOnly));
    assert_eq!(log.borrow().clone(), vec![1, 2, 3, 4]);
    assert_eq!(rt.executor.ready_len(), 0);
}

#[test]
fn end_of_simulation_logs_each_test_and_assertion() {
    let mut sim = FakeSim::new();
    let mut rt: Runtime<AwaitOne> = Runtime::new();
    let log = Rc::new(RefCell::new(Vec::new()));
    rt.tests.push(rstb::test::Test::new(
        "one".to_string(),
        AwaitOne { proto: Trigger::timer_steps(1), started: None, label: 0, log: log.clone() },
    ));
    rt.tests.push(rstb::test::Test::new(
        "two".to_string(),
        AwaitOne { proto: Trigger::timer_steps(1), started: None, label: 1, log: log.clone() },
    ));
    assert_eq!(rt.tests.len(), 2);
    rstb::test::end_of_simulation(&rt, &mut sim);
    assert_eq!(sim.logs.len(), 2);
    assert!(sim.logs[0].contains("one"));
    assert!(sim.logs[1].contains("two"));
}

#[test]
fn assertions_can_be_gated_and_run_by_name() {
    let mut sim = FakeSim::new();
    sim.add_signal(5, "top.clk", ObjectKind::Bits(1));
    let mut rt: Runtime<AwaitOne> = Runtime::new();
    sim.names.insert("top".to_string(), 1);
    sim.kinds.insert(1, ObjectKind::Hier);
    // an assertion registry entry with no history
    let clk = SimObject::from_parts(5, ObjectKind::Bits(1));
    let log = Rc::new(RefCell::new(Vec::new()));
    let cond = AwaitOne { proto: Trigger::timer_steps(1), started: None, label: 0, log: log.clone() };
    let chk = cond.clone();
    rt.asserts.add(
        "a".to_string(),
        Trigger::rising_edge(clk),
        cond,
        chk,
        Vec::new(),
        0,
        SimObject::from_parts(1, ObjectKind::Hier),
    );
    assert_eq!(rt.asserts.count(), 1);
    // a duplicate registration keeps the first one
    let cond2 = AwaitOne { proto: Trigger::timer_steps(2), started: None, label: 9, log: log.clone() };
    let chk2 = cond2.clone();
    rt.asserts.add(
        "a".to_string(),
        Trigger::rising_edge(clk),
        cond2,
        chk2,
        Vec::new(),
        0,
        SimObject::from_parts(1, ObjectKind::Hier),
    );
    assert_eq!(rt.asserts.count(), 1);
    let i = rt.asserts.find("a").unwrap();
    assert!(rt.asserts.enabled_at(i));
    rstb::assertion::disable_all_assertions(&mut rt);
    assert!(!rt.asserts.enabled_at(i));
    rstb::assertion::enable_all_assertions(&mut rt);
    assert!(rt.asserts.enabled_at(i));
    // launching spawns exactly one run-loop task per call, none on a miss
    let before = rt.executor.task_count();
    rstb::assertion::run_all_assertions(&mut rt);
    assert_eq!(rt.executor.task_count(), before + 1);
    assert!(rstb::assertion::run_assertion(&mut rt, "a").is_ok());
    assert_eq!(rt.executor.task_count(), before + 2);
    assert!(rstb::assertion::run_assertion(&mut rt, "missing").is_err());
    assert_eq!(rt.executor.task_count(), before + 2);
    rstb::assertion::print_assertion_stats(&rt, &mut sim);
    assert_eq!(sim.logs.len(), 1);
    assert!(sim.logs[0].contains("a"));
    assert_eq!(rt.asserts.stats(i), (0, 0, 0));
    assert_eq!(rt.asserts.stats(99), (0, 0, 0));
}

#[test]
fn trigger_sequences_fire_event_then_phase() {
    let mut sim = FakeSim::new();
    sim.add_signal(5, "top.clk", ObjectKind::Bits(1));
    let mut rt: Runtime<AwaitOne> = Runtime::new();
    let clk = SimObject::from_parts(5, ObjectKind::Bits(1));
    let mut q = rstb::trigger::TrigSeq::rising_edge_ro(clk);
    // first poll registers the edge waiter
    assert!(matches!(q.poll(&mut rt.mux, &mut sim, 0), TrigPoll::Pending));
    assert_eq!(rt.mux.edge_group_count(), 1);
    assert_eq!(rt.mux.ro_waiter_count(), 0);
    // the edge fires: the sequence moves on to the read-only phase
    assert!(matches!(q.poll(&mut rt.mux, &mut sim, 0), TrigPoll::Pending));
    assert_eq!(rt.mux.ro_waiter_count(), 1);
    // the phase fires: the sequence is done
    assert!(matches!(q.poll(&mut rt.mux, &mut sim, 0), TrigPoll::Ready));
    let mut w = rstb::trigger::TrigSeq::timer_rw(&sim, 5, "ns").unwrap();
    assert!(matches!(w.poll(&mut rt.mux, &mut sim, 0), TrigPoll::Pending));
    assert_eq!(rt.mux.timer_group_count(), 1);
    assert!(rstb::trigger::TrigSeq::timer_ro(&sim, 5, "eons").is_err());
}

#[test]
fn clock_cycles_counts_rising_edges() {
    let mut sim = FakeSim::new();
    sim.add_signal(5, "top.clk", ObjectKind::Bits(1));
    let mut rt: Runtime<AwaitOne> = Runtime::new();
    let clk = SimObject::from_parts(5, ObjectKind::Bits(1));
    let mut c = rstb::utils::clock_cycles(clk, 3);
    // the first poll registers; each later poll sees one edge fire and
    // re-registers until the count is spent
    assert!(matches!(c.poll(&mut rt.mux, &mut sim, 0), TrigPoll::Pending));
    assert!(matches!(c.poll(&mut rt.mux, &mut sim, 0), TrigPoll::Pending));
    assert!(matches!(c.poll(&mut rt.mux, &mut sim, 0), TrigPoll::Pending));
    assert!(matches!(c.poll(&mut rt.mux, &mut sim, 0), TrigPoll::Ready));
    // a zero-cycle wait is ready at once
    let mut z = rstb::utils::clock_cycles(clk, 0);
    assert!(matches!(z.poll(&mut rt.mux, &mut sim, 0), TrigPoll::Ready));
}
