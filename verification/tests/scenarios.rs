use std::collections::HashMap;

use rstb::assertion::{add_assertion, run_all_assertions, AssertionContext};
use rstb::executor::TaskBody;
use rstb::runtime::{react_edge, react_ro, react_rw, react_time, CoPoll, Cort, Runtime};
use rstb::signal::{ObjectKind, SimObject};
use rstb::sim_if::SimIf;
use rstb::test::{pass_test, start_of_simulation, Test};
use rstb::testbench::{clock, Scoreboard};
use rstb::trigger::{EdgeKind, TrigPoll, Trigger};
use rstb::utils::rand_int;
use rstb::value::{SimpleResult, Val};

const ROOT: usize = 1;
const CLK: usize = 2;
const D: usize = 3;
const Q: usize = 4;
const REQ: usize = 5;
const ACK: usize = 6;

struct DrvSim {
    time: u64,
    values: HashMap<usize, i32>,
    names: HashMap<String, usize>,
    kinds: HashMap<usize, ObjectKind>,
    next_cb: usize,
    timers: Vec<(usize, u64)>,
    edge_cbs: Vec<(usize, usize)>,
    ro_armed: Option<usize>,
    rw_armed: Option<usize>,
    changes: Vec<(usize, i32, i32)>,
    dff: bool,
}

impl DrvSim {
    fn new() -> Self {
        let mut s = DrvSim {
            time: 0,
            values: HashMap::new(),
            names: HashMap::new(),
            kinds: HashMap::new(),
            next_cb: 1,
            timers: Vec::new(),
            edge_cbs: Vec::new(),
            ro_armed: None,
            rw_armed: None,
            changes: Vec::new(),
            dff: false,
        };
        s.add_signal(ROOT, "top", ObjectKind::Hier);
        s.add_signal(CLK, "top.clk", ObjectKind::Bits(1));
        s.add_signal(D, "top.d", ObjectKind::Bits(1));
        s.add_signal(Q, "top.q", ObjectKind::Bits(1));
        s.add_signal(REQ, "top.req", ObjectKind::Bits(1));
        s.add_signal(ACK, "top.ack", ObjectKind::Bits(1));
        s
    }

    fn add_signal(&mut self, handle: usize, name: &str, kind: ObjectKind) {
        self.names.insert(name.to_string(), handle);
        self.kinds.insert(handle, kind);
        self.values.insert(handle, 0);
    }

    fn write(&mut self, handle: usize, value: i32) {
        let old = self.values.get(&handle).copied().unwrap_or(0);
        if old != value {
            self.values.insert(handle, value);
            self.changes.push((handle, old, value));
        }
    }
}

impl SimIf for DrvSim {
    fn set_value_i32(&mut self, obj: &SimObject, value: i32, _force: bool) -> SimpleResult<()> {
        self.write(obj.handle(), value);
        Ok(())
    }
    fn get_value_i32(&mut self, obj: &SimObject) -> SimpleResult<i32> {
        self.values.get(&obj.handle()).copied().ok_or(())
    }
    fn set_value_u32(&mut self, obj: &SimObject, value: u32, _force: bool) -> SimpleResult<()> {
        self.write(obj.handle(), value as i32);
        Ok(())
    }
    fn get_value_u32(&mut self, obj: &SimObject) -> SimpleResult<u32> {
        self.values.get(&obj.handle()).map(|v| *v as u32).ok_or(())
    }
    fn set_value_bin(&mut self, _obj: &SimObject, _value: String, _force: bool) -> SimpleResult<()> {
        Ok(())
    }
    fn get_value_bin(&mut self, _obj: &SimObject) -> SimpleResult<String> {
        Err(())
    }
    fn release(&mut self, _obj: &SimObject) -> SimpleResult<()> {
        Ok(())
    }
    fn get_handle_by_name(&mut self, name: &str) -> SimpleResult<usize> {
        self.names.get(name).copied().ok_or(())
    }
    fn get_sim_time_steps(&self) -> u64 {
        self.time
    }
    fn log(&mut self, _s: &str) {}
    fn get_kind(&mut self, obj_handle: usize) -> ObjectKind {
        self.kinds.get(&obj_handle).copied().unwrap_or(ObjectKind::Other)
    }
    fn get_full_name(&mut self, obj: &SimObject) -> SimpleResult<String> {
        for (n, h) in self.names.iter() {
            if *h == obj.handle() {
                return Ok(n.clone());
            }
        }
        Err(())
    }
    fn get_sim_precision(&self) -> i8 {
        -12
    }
    fn get_root_object(&mut self) -> SimpleResult<SimObject> {
        Ok(SimObject::from_parts(ROOT, ObjectKind::Hier))
    }
    fn register_callback_rw(&mut self) -> SimpleResult<usize> {
        let h = self.next_cb;
        self.next_cb += 1;
        self.rw_armed = Some(h);
        Ok(h)
    }
    fn register_callback_ro(&mut self) -> SimpleResult<usize> {
        let h = self.next_cb;
        self.next_cb += 1;
        self.ro_armed = Some(h);
        Ok(h)
    }
    fn register_callback_time(&mut self, t: u64) -> SimpleResult<usize> {
        let h = self.next_cb;
        self.next_cb += 1;
        self.timers.push((h, self.time + t));
        Ok(h)
    }
    fn register_callback_edge(&mut self, sig_hdl: usize) -> SimpleResult<usize> {
        let h = self.next_cb;
        self.next_cb += 1;
        self.edge_cbs.push((h, sig_hdl));
        Ok(h)
    }
    fn cancel_callback(&mut self, cb_hdl: usize) -> SimpleResult<()> {
        self.timers.retain(|(h, _)| *h != cb_hdl);
        self.edge_cbs.retain(|(h, _)| *h != cb_hdl);
        if self.ro_armed == Some(cb_hdl) {
            self.ro_armed = None;
        }
        if self.rw_armed == Some(cb_hdl) {
            self.rw_armed = None;
        }
        Ok(())
    }
}

/// Drain pending value changes: model the flip-flop, then fire edge
/// callbacks for watched signals.
fn settle<C: Cort<DrvSim>>(rt: &mut Runtime<C>, sim: &mut DrvSim) {
    let mut guard = 0;
    loop {
        guard += 1;
        assert!(guard < 10_000);
        if sim.changes.is_empty() {
            break;
        }
        let changes: Vec<(usize, i32, i32)> = sim.changes.drain(..).collect();
        for (sig, old, new) in changes {
            if sim.dff && sig == CLK && old == 0 && new != 0 {
                // the modelled flip-flop latches d into q on the rising edge
                let d = sim.values.get(&D).copied().unwrap_or(0);
                sim.write(Q, d);
            }
            if sim.edge_cbs.iter().any(|(_, s)| *s == sig) {
                let width = match sim.kinds.get(&sig) {
                    Some(ObjectKind::Bits(w)) => *w,
                    _ => 1,
                };
                let kind = if width > 1 {
                    EdgeKind::Any
                } else if old == 0 && new != 0 {
                    EdgeKind::Rising
                } else {
                    EdgeKind::Falling
                };
                assert!(react_edge(rt, sim, sig, kind));
            }
        }
    }
}

/// The event loop a simulator would run: timers, delta edges, the
/// read-write phase, the read-only phase, then the next time step.
fn run_sim<C: Cort<DrvSim>>(rt: &mut Runtime<C>, sim: &mut DrvSim, max_events: usize) {
    let mut events = 0;
    loop {
        events += 1;
        if events > max_events {
            break;
        }
        settle(rt, sim);
        if let Some(h) = sim.rw_armed.take() {
            let _ = h;
            assert!(react_rw(rt, sim));
            settle(rt, sim);
            continue;
        }
        if let Some(h) = sim.ro_armed.take() {
            let _ = h;
            assert!(react_ro(rt, sim));
            settle(rt, sim);
            continue;
        }
        // advance to the earliest timer deadline
        let next = sim.timers.iter().map(|(_, t)| *t).min();
        match next {
            None => break,
            Some(t) => {
                sim.time = t;
                sim.timers.retain(|(_, abs)| *abs != t);
                assert!(react_time(rt, sim, t));
            }
        }
    }
}

/// One helper step of a stored trigger: arm it on first use, report when
/// it fired.
enum TrigStep {
    Fired,
    Waiting,
    Broken,
}

fn step_trig(
    slot: &mut Option<Trigger>,
    proto: Trigger,
    rt_mux: &mut rstb::trigger::Multiplexer,
    sim: &mut DrvSim,
    tid: u64,
) -> TrigStep {
    match slot {
        None => {
            let mut t = proto;
            match t.poll(rt_mux, sim, tid) {
                TrigPoll::Pending => {
                    *slot = Some(t);
                    TrigStep::Waiting
                }
                _ => TrigStep::Broken,
            }
        }
        Some(t) => match t.poll(rt_mux, sim, tid) {
            TrigPoll::Ready => {
                *slot = None;
                TrigStep::Fired
            }
            TrigPoll::Pending => TrigStep::Waiting,
            TrigPoll::Rejected => TrigStep::Broken,
        },
    }
}

#[derive(Clone)]
enum SCort {
    /// Drives d with random bits on each rising clock edge and checks the
    /// flip-flop output against the previous value.
    Dff { trig: Option<Trigger>, cycles: u32, done: u32, d_prev: Option<i32> },
    /// Pushes random writes into the expected side of a scoreboard and
    /// mirrors them through a model queue into the received side.
    Fifo { trig: Option<Trigger>, cycles: u32, done: u32, sb: Scoreboard, fifo: Vec<u64> },
    /// Drives a req pulse and, if told to, an ack three edges later.
    ReqDriver { trig: Option<Trigger>, edge: u32, ack_at: Option<u32>, until: u32 },
    /// An assertion condition: req is high at the trigger instant.
    CondReqHigh,
    /// An assertion condition: ack is high at the trigger instant.
    CondAckHigh,
    /// An assertion checker: ack goes high within three later edges.
    AckWithin { ctx: AssertionContext, trig: Option<Trigger>, left: u32 },
    /// An assertion checker over the sampled history: req was high three
    /// ticks ago.
    HistReq3 { ctx: AssertionContext },
    /// A monitor that waits on timers forever.
    Monitor { trig: Option<Trigger> },
    /// Forks a monitor, lets two timers elapse, then passes the test.
    PassAfter { trig: Option<Trigger>, waits: u32, forked: bool },
    /// Finishes at once.
    Trivial,
    /// A checker that never concludes.
    NeverEnds,
}

impl Cort<DrvSim> for SCort {
    fn poll(&mut self, rt: &mut Runtime<Self>, sim: &mut DrvSim, tid: u64) -> CoPoll {
        match self {
            SCort::Dff { trig, cycles, done, d_prev } => {
                let clk = SimObject::from_parts(CLK, ObjectKind::Bits(1));
                let d = SimObject::from_parts(D, ObjectKind::Bits(1));
                let q = SimObject::from_parts(Q, ObjectKind::Bits(1));
                loop {
                    match step_trig(trig, Trigger::rising_edge(clk), &mut rt.mux, sim, tid) {
                        TrigStep::Waiting => {
                            return CoPoll::Pending;
                        }
                        TrigStep::Broken => {
                            return CoPoll::Ready(Err(Val::Error));
                        }
                        TrigStep::Fired => {
                            if let Some(prev) = *d_prev {
                                let qv = q.i32(sim).unwrap_or(-1);
                                if qv != prev {
                                    return CoPoll::Ready(Err(Val::Error));
                                }
                            }
                            let bit = rand_int(2) as i32;
                            let _ = d.set(sim, bit);
                            *d_prev = Some(bit);
                            *done += 1;
                            if *done >= *cycles {
                                return CoPoll::Ready(Ok(Val::Int(*done)));
                            }
                        }
                    }
                }
            }
            SCort::Fifo { trig, cycles, done, sb, fifo } => {
                let clk = SimObject::from_parts(CLK, ObjectKind::Bits(1));
                loop {
                    match step_trig(trig, Trigger::rising_edge(clk), &mut rt.mux, sim, tid) {
                        TrigStep::Waiting => {
                            return CoPoll::Pending;
                        }
                        TrigStep::Broken => {
                            return CoPoll::Ready(Err(Val::Error));
                        }
                        TrigStep::Fired => {
                            *done += 1;
                            if *done <= *cycles {
                                // a random write while the model fifo has room
                                if fifo.len() < 4 && rand_int(2) == 1 {
                                    let v = rand_int(256) as u64;
                                    sb.add_exp(v);
                                    fifo.push(v);
                                }
                                // a random read while it has data
                                if !fifo.is_empty() && rand_int(2) == 1 {
                                    let v = fifo.remove(0);
                                    sb.add_recv(v);
                                }
                            } else {
                                // drain the model queue, then judge the run
                                while !fifo.is_empty() {
                                    let v = fifo.remove(0);
                                    sb.add_recv(v);
                                }
                                return CoPoll::Ready(if sb.passed() {
                                    Ok(Val::Empty)
                                } else {
                                    Err(Val::Text(sb.result_str()))
                                });
                            }
                        }
                    }
                }
            }
            SCort::ReqDriver { trig, edge, ack_at, until } => {
                let clk = SimObject::from_parts(CLK, ObjectKind::Bits(1));
                let req = SimObject::from_parts(REQ, ObjectKind::Bits(1));
                let ack = SimObject::from_parts(ACK, ObjectKind::Bits(1));
                loop {
                    match step_trig(trig, Trigger::rising_edge(clk), &mut rt.mux, sim, tid) {
                        TrigStep::Waiting => {
                            return CoPoll::Pending;
                        }
                        TrigStep::Broken => {
                            return CoPoll::Ready(Err(Val::Error));
                        }
                        TrigStep::Fired => {
                            *edge += 1;
                            // one req pulse around the second edge
                            if *edge == 1 {
                                let _ = req.set(sim, 1);
                            }
                            if *edge == 2 {
                                let _ = req.set(sim, 0);
                            }
                            if Some(*edge) == *ack_at {
                                let _ = ack.set(sim, 1);
                            }
                            if Some(*edge) == ack_at.map(|a| a + 1) {
                                let _ = ack.set(sim, 0);
                            }
                            if *edge >= *until {
                                return CoPoll::Ready(Ok(Val::Empty));
                            }
                        }
                    }
                }
            }
            SCort::CondReqHigh => {
                let req = SimObject::from_parts(REQ, ObjectKind::Bits(1));
                if req.u32(sim) == Ok(1) {
                    CoPoll::Ready(Ok(Val::Empty))
                } else {
                    CoPoll::Ready(Err(Val::Empty))
                }
            }
            SCort::CondAckHigh => {
                let ack = SimObject::from_parts(ACK, ObjectKind::Bits(1));
                if ack.u32(sim) == Ok(1) {
                    CoPoll::Ready(Ok(Val::Empty))
                } else {
                    CoPoll::Ready(Err(Val::Empty))
                }
            }
            SCort::AckWithin { ctx, trig, left } => {
                let ack = SimObject::from_parts(ACK, ObjectKind::Bits(1));
                loop {
                    if ack.u32(sim) == Ok(1) {
                        return CoPoll::Ready(Ok(Val::Empty));
                    }
                    if *left == 0 {
                        return CoPoll::Ready(Err(Val::Empty));
                    }
                    let proto = match ctx.trig(rt) {
                        Some(t) => t,
                        None => {
                            return CoPoll::Ready(Err(Val::Error));
                        }
                    };
                    match step_trig(trig, proto, &mut rt.mux, sim, tid) {
                        TrigStep::Waiting => {
                            return CoPoll::Pending;
                        }
                        TrigStep::Broken => {
                            return CoPoll::Ready(Err(Val::Error));
                        }
                        TrigStep::Fired => {
                            *left -= 1;
                        }
                    }
                }
            }
            SCort::HistReq3 { ctx } => {
                let req = SimObject::from_parts(REQ, ObjectKind::Bits(1));
                match ctx.sig_hist(rt, req, 3) {
                    Some(1) => CoPoll::Ready(Ok(Val::Empty)),
                    _ => CoPoll::Ready(Err(Val::Empty)),
                }
            }
            SCort::Monitor { trig } => {
                loop {
                    match step_trig(trig, Trigger::timer_steps(1000), &mut rt.mux, sim, tid) {
                        TrigStep::Waiting => {
                            return CoPoll::Pending;
                        }
                        TrigStep::Broken => {
                            return CoPoll::Ready(Err(Val::Error));
                        }
                        TrigStep::Fired => {}
                    }
                }
            }
            SCort::PassAfter { trig, waits, forked } => {
                if !*forked {
                    *forked = true;
                    let _ = rt.executor.spawn(TaskBody::User(SCort::Monitor { trig: None }));
                }
                loop {
                    match step_trig(trig, Trigger::timer_steps(500), &mut rt.mux, sim, tid) {
                        TrigStep::Waiting => {
                            return CoPoll::Pending;
                        }
                        TrigStep::Broken => {
                            return CoPoll::Ready(Err(Val::Error));
                        }
                        TrigStep::Fired => {
                            if *waits == 0 {
                                pass_test(rt, sim, "done");
                                return CoPoll::Pending;
                            }
                            *waits -= 1;
                        }
                    }
                }
            }
            SCort::Trivial => CoPoll::Ready(Ok(Val::Empty)),
            SCort::NeverEnds => CoPoll::Pending,
        }
    }
}

#[test]
fn dff_check() {
    let mut sim = DrvSim::new();
    sim.dff = true;
    let mut rt: Runtime<SCort> = Runtime::new();
    rt.tests.push(Test::new(
        "dff".to_string(),
        SCort::Dff { trig: None, cycles: 100_000, done: 0, d_prev: None },
    ));
    clock(&mut rt, &mut sim, SimObject::from_parts(CLK, ObjectKind::Bits(1)), 10, "ns")
        .unwrap();
    assert!(start_of_simulation(&mut rt, &mut sim));
    run_sim(&mut rt, &mut sim, 2_000_000);
    assert_eq!(rt.tests.passed_of(0), Some(true));
}

#[test]
fn fifo_scoreboard() {
    let mut sim = DrvSim::new();
    let mut rt: Runtime<SCort> = Runtime::new();
    rt.tests.push(Test::new(
        "fifo".to_string(),
        SCort::Fifo {
            trig: None,
            cycles: 2_000,
            done: 0,
            sb: Scoreboard::new(),
            fifo: Vec::new(),
        },
    ));
    clock(&mut rt, &mut sim, SimObject::from_parts(CLK, ObjectKind::Bits(1)), 10, "ns")
        .unwrap();
    assert!(start_of_simulation(&mut rt, &mut sim));
    run_sim(&mut rt, &mut sim, 200_000);
    assert_eq!(rt.tests.passed_of(0), Some(true));
}

fn antecedent_run(ack_at: Option<u32>) -> (u64, u64, u64) {
    let mut sim = DrvSim::new();
    let mut rt: Runtime<SCort> = Runtime::new();
    let clk = SimObject::from_parts(CLK, ObjectKind::Bits(1));
    add_assertion(
        &mut rt,
        &mut sim,
        "req_gets_ack",
        Trigger::rising_edge(clk),
        SCort::CondReqHigh,
        SCort::AckWithin {
            ctx: AssertionContext::new("req_gets_ack"),
            trig: None,
            left: 3,
        },
        Vec::new(),
        0,
    )
    .unwrap();
    rt.tests.push(Test::new(
        "antecedent".to_string(),
        SCort::ReqDriver { trig: None, edge: 0, ack_at, until: 8 },
    ));
    run_all_assertions(&mut rt);
    clock(&mut rt, &mut sim, clk, 10, "ns").unwrap();
    assert!(start_of_simulation(&mut rt, &mut sim));
    run_sim(&mut rt, &mut sim, 200_000);
    assert_eq!(rt.tests.passed_of(0), Some(true));
    let i = rt.asserts.find("req_gets_ack").unwrap();
    rt.asserts.stats(i)
}

#[test]
fn assertion_with_antecedent_passes() {
    // req pulses and ack follows within three edges: one firing, passed
    let (triggered, passed, failed) = antecedent_run(Some(4));
    assert_eq!(triggered, 1);
    assert_eq!(passed, 1);
    assert_eq!(failed, 0);
}

#[test]
fn assertion_with_antecedent_fails_without_ack() {
    let (triggered, passed, failed) = antecedent_run(None);
    assert_eq!(triggered, 1);
    assert_eq!(passed, 0);
    assert_eq!(failed, 1);
}

#[test]
fn history_based_check() {
    let mut sim = DrvSim::new();
    let mut rt: Runtime<SCort> = Runtime::new();
    let clk = SimObject::from_parts(CLK, ObjectKind::Bits(1));
    let req = SimObject::from_parts(REQ, ObjectKind::Bits(1));
    add_assertion(
        &mut rt,
        &mut sim,
        "hist_req",
        Trigger::rising_edge(clk),
        SCort::CondAckHigh,
        SCort::HistReq3 { ctx: AssertionContext::new("hist_req") },
        vec![req],
        3,
    )
    .unwrap();
    rt.tests.push(Test::new(
        "hist".to_string(),
        SCort::ReqDriver { trig: None, edge: 0, ack_at: Some(4), until: 8 },
    ));
    run_all_assertions(&mut rt);
    clock(&mut rt, &mut sim, clk, 10, "ns").unwrap();
    assert!(start_of_simulation(&mut rt, &mut sim));
    run_sim(&mut rt, &mut sim, 200_000);
    assert_eq!(rt.tests.passed_of(0), Some(true));
    let i = rt.asserts.find("hist_req").unwrap();
    let (triggered, passed, failed) = rt.asserts.stats(i);
    assert_eq!(triggered, 1);
    assert_eq!(passed, 1);
    assert_eq!(failed, 0);
}

#[test]
fn cancellation_via_pass_test() {
    let mut sim = DrvSim::new();
    let mut rt: Runtime<SCort> = Runtime::new();
    rt.tests.push(Test::new(
        "first".to_string(),
        SCort::PassAfter { trig: None, waits: 2, forked: false },
    ));
    rt.tests.push(Test::new("second".to_string(), SCort::Trivial));
    assert!(start_of_simulation(&mut rt, &mut sim));
    run_sim(&mut rt, &mut sim, 100_000);
    // the first test concluded through pass_test, the monitor died with
    // its registry entries, and the next test ran to its own verdict
    assert_eq!(rt.tests.passed_of(0), Some(true));
    assert_eq!(rt.tests.passed_of(1), Some(true));
    assert_eq!(rt.mux.timer_group_count(), 0);
    assert_eq!(rt.executor.ready_len(), 0);
}

#[test]
fn teardown_counts_inflight_checkers_as_failed() {
    // an assertion fires, its checker never concludes; at teardown the
    // books close: triggered equals passed plus failed
    let mut sim = DrvSim::new();
    let mut rt: Runtime<SCort> = Runtime::new();
    let clk = SimObject::from_parts(CLK, ObjectKind::Bits(1));
    add_assertion(
        &mut rt,
        &mut sim,
        "never_concludes",
        Trigger::rising_edge(clk),
        SCort::CondReqHigh,
        SCort::NeverEnds,
        Vec::new(),
        0,
    )
    .unwrap();
    // no declared test: nothing tears the runtime down on its own
    run_all_assertions(&mut rt);
    clock(&mut rt, &mut sim, clk, 10, "ns").unwrap();
    let _ = rt.executor.spawn(TaskBody::User(SCort::ReqDriver {
        trig: None,
        edge: 0,
        ack_at: None,
        until: 6,
    }));
    assert!(rstb::runtime::run_once(&mut rt, &mut sim));
    run_sim(&mut rt, &mut sim, 60);
    let i = rt.asserts.find("never_concludes").unwrap();
    let before = rt.asserts.stats(i);
    assert_eq!(before, (1, 0, 0));
    rstb::test::tear_down_test(&mut rt, &mut sim, 0);
    let (triggered, passed, failed) = rt.asserts.stats(i);
    assert_eq!(triggered, 1);
    assert_eq!(passed + failed, triggered);
    assert_eq!(failed, 1);
}

#[test]
fn rose_fell_stable_changed_track_the_history() {
    let mut sim = DrvSim::new();
    let mut rt: Runtime<SCort> = Runtime::new();
    let clk = SimObject::from_parts(CLK, ObjectKind::Bits(1));
    let req = SimObject::from_parts(REQ, ObjectKind::Bits(1));
    add_assertion(
        &mut rt,
        &mut sim,
        "edges",
        Trigger::rising_edge(clk),
        SCort::CondReqHigh,
        SCort::NeverEnds,
        vec![req],
        1,
    )
    .unwrap();
    let ctx = AssertionContext::new("edges");
    let i = rt.asserts.find("edges").unwrap();
    // tick one: req low
    sim.write(REQ, 0);
    rt.asserts.sample_history(i, &mut sim);
    // tick two: req high
    sim.write(REQ, 1);
    rt.asserts.sample_history(i, &mut sim);
    assert_eq!(ctx.sig_hist(&rt, req, 0), Some(1));
    assert_eq!(ctx.sig_hist(&rt, req, 1), Some(0));
    assert_eq!(ctx.sig_hist(&rt, req, 2), None);
    assert_eq!(ctx.rose(&rt, &mut sim, req), Ok(true));
    assert_eq!(ctx.fell(&rt, &mut sim, req), Ok(false));
    assert_eq!(ctx.stable(&rt, &mut sim, req), Ok(false));
    assert_eq!(ctx.changed(&rt, &mut sim, req), Ok(true));
    // tick three: req stays high
    rt.asserts.sample_history(i, &mut sim);
    assert_eq!(ctx.rose(&rt, &mut sim, req), Ok(false));
    assert_eq!(ctx.stable(&rt, &mut sim, req), Ok(true));
    // the context also reaches the trigger prototype and the design root
    assert!(ctx.trig(&rt).is_some());
    assert_eq!(ctx.dut(&rt).map(|d| d.handle()), Some(ROOT));
}

#[test]
fn unit_timer_trigger_converts_and_fires() {
    let mut sim = DrvSim::new();
    let mut rt: Runtime<SCort> = Runtime::new();
    // 5 ns at ps precision is 5000 steps
    let mut t = Trigger::timer(&sim, 5, "ns").unwrap();
    assert!(matches!(t.poll(&mut rt.mux, &mut sim, 0), TrigPoll::Pending));
    assert_eq!(sim.timers.len(), 1);
    assert_eq!(sim.timers[0].1, 5000);
    assert!(Trigger::timer(&sim, 5, "parsecs").is_err());
}
