use std::collections::HashMap;

use rstb::signal::{ObjectKind, SimObject, SignalTable};
use rstb::sim_if::{get_sim_steps, get_sim_time, scale_time, steps_to_unit, time_scale, unit_to_steps, SimIf};
use rstb::testbench::{Monitor, Scoreboard};
use rstb::utils::rand_int;
use rstb::value::SimpleResult;

struct MiniSim {
    time: u64,
    precision: i8,
    values: HashMap<usize, i32>,
    bins: HashMap<usize, String>,
    names: HashMap<String, usize>,
    kinds: HashMap<usize, ObjectKind>,
    next_cb: usize,
}

impl MiniSim {
    fn new(precision: i8) -> Self {
        MiniSim {
            time: 0,
            precision,
            values: HashMap::new(),
            bins: HashMap::new(),
            names: HashMap::new(),
            kinds: HashMap::new(),
            next_cb: 1,
        }
    }

    fn add_signal(&mut self, handle: usize, name: &str, kind: ObjectKind) {
        self.names.insert(name.to_string(), handle);
        self.kinds.insert(handle, kind);
        self.values.insert(handle, 0);
    }
}

impl SimIf for MiniSim {
    fn set_value_i32(&mut self, obj: &SimObject, value: i32, _force: bool) -> SimpleResult<()> {
        self.values.insert(obj.handle(), value);
        Ok(())
    }
    fn get_value_i32(&mut self, obj: &SimObject) -> SimpleResult<i32> {
        self.values.get(&obj.handle()).copied().ok_or(())
    }
    fn set_value_u32(&mut self, obj: &SimObject, value: u32, _force: bool) -> SimpleResult<()> {
        self.values.insert(obj.handle(), value as i32);
        Ok(())
    }
    fn get_value_u32(&mut self, obj: &SimObject) -> SimpleResult<u32> {
        self.values.get(&obj.handle()).map(|v| *v as u32).ok_or(())
    }
    fn set_value_bin(&mut self, obj: &SimObject, value: String, _force: bool) -> SimpleResult<()> {
        self.bins.insert(obj.handle(), value);
        Ok(())
    }
    fn get_value_bin(&mut self, obj: &SimObject) -> SimpleResult<String> {
        self.bins.get(&obj.handle()).cloned().ok_or(())
    }
    fn release(&mut self, _obj: &SimObject) -> SimpleResult<()> {
        Ok(())
    }
    fn get_handle_by_name(&mut self, name: &str) -> SimpleResult<usize> {
        self.names.get(name).copied().ok_or(())
    }
    fn get_sim_time_steps(&self) -> u64 {
        self.time
    }
    fn log(&mut self, _s: &str) {}
    fn get_kind(&mut self, obj_handle: usize) -> ObjectKind {
        self.kinds.get(&obj_handle).copied().unwrap_or(ObjectKind::Other)
    }
    fn get_full_name(&mut self, obj: &SimObject) -> SimpleResult<String> {
        for (n, h) in self.names.iter() {
            if *h == obj.handle() {
                return Ok(n.clone());
            }
        }
        Err(())
    }
    fn get_sim_precision(&self) -> i8 {
        self.precision
    }
    fn get_root_object(&mut self) -> SimpleResult<SimObject> {
        Err(())
    }
    fn register_callback_rw(&mut self) -> SimpleResult<usize> {
        self.next_cb += 1;
        Ok(self.next_cb - 1)
    }
    fn register_callback_ro(&mut self) -> SimpleResult<usize> {
        self.next_cb += 1;
        Ok(self.next_cb - 1)
    }
    fn register_callback_time(&mut self, _t: u64) -> SimpleResult<usize> {
        self.next_cb += 1;
        Ok(self.next_cb - 1)
    }
    fn register_callback_edge(&mut self, _sig_hdl: usize) -> SimpleResult<usize> {
        self.next_cb += 1;
        Ok(self.next_cb - 1)
    }
    fn cancel_callback(&mut self, _cb_hdl: usize) -> SimpleResult<()> {
        Ok(())
    }
}

#[test]
fn time_scale_recognizes_units() {
    assert_eq!(time_scale("fs"), Some(-15));
    assert_eq!(time_scale("ps"), Some(-12));
    assert_eq!(time_scale("ns"), Some(-9));
    assert_eq!(time_scale("us"), Some(-6));
    assert_eq!(time_scale("ms"), Some(-3));
    assert_eq!(time_scale("s"), Some(0));
    assert_eq!(time_scale("sec"), Some(0));
    assert_eq!(time_scale("minutes"), None);
}

#[test]
fn scale_time_names_scales() {
    assert_eq!(scale_time(-9).as_deref(), Some("ns"));
    assert_eq!(scale_time(-15).as_deref(), Some("fs"));
    assert_eq!(scale_time(0).as_deref(), Some("sec"));
    assert_eq!(scale_time(7), None);
}

#[test]
fn unit_to_steps_exact_products() {
    // at ps precision, 10 ns is 10_000 steps
    assert_eq!(unit_to_steps(10, -12, "ns"), Ok(10_000));
    // at ns precision, 1 s is 1_000_000_000 steps
    assert_eq!(unit_to_steps(1, -9, "s"), Ok(1_000_000_000));
    // a unit finer than the precision must divide exactly
    assert_eq!(unit_to_steps(2_000, -9, "ps"), Ok(2));
    assert_eq!(unit_to_steps(1_500, -9, "ps"), Err(()));
    // unknown unit
    assert_eq!(unit_to_steps(1, -9, "lightyears"), Err(()));
    // overflow is rejected rather than wrapped
    assert_eq!(unit_to_steps(u64::MAX, -15, "s"), Err(()));
}

#[test]
fn steps_to_unit_exact_quotients() {
    assert_eq!(steps_to_unit(10_000, -12, "ns"), Ok(10));
    assert_eq!(steps_to_unit(10_500, -12, "ns"), Err(()));
    // requesting a unit finer than the precision fails
    assert_eq!(steps_to_unit(10, -9, "ps"), Err(()));
    assert_eq!(steps_to_unit(0, -9, "ms"), Ok(0));
}

#[test]
fn sim_time_round_trip() {
    let mut sim = MiniSim::new(-12);
    sim.time = 25_000;
    assert_eq!(get_sim_time(&sim, "ns"), Ok(25));
    assert_eq!(get_sim_steps(&sim, 25, "ns"), Ok(25_000));
}

#[test]
fn rand_int_stays_below_ceiling() {
    for _ in 0..1000 {
        assert!(rand_int(7) < 7);
    }
    assert_eq!(rand_int(1), 0);
}

#[test]
fn scoreboard_matches_and_mismatches() {
    let mut sb = Scoreboard::new();
    assert!(!sb.passed());
    sb.add_exp(1);
    sb.add_exp(2);
    sb.add_recv(1);
    sb.add_recv(2);
    assert!(sb.passed());
    sb.add_exp(3);
    sb.add_recv(4);
    assert!(!sb.passed());
    let s = sb.result_str();
    assert!(s.len() > 0);
    assert!(sb.result().is_err());
}

#[test]
fn scoreboard_result_reflects_passed() {
    let mut sb = Scoreboard::new();
    sb.add_exp(9);
    sb.add_recv(9);
    assert!(sb.result().is_ok());
}

#[test]
fn monitor_routes_to_chosen_side() {
    let mut sb = Scoreboard::new();
    let mut mon = Monitor::new();
    assert!(mon.to_scoreboard(&mut sb, 5).is_err());
    mon.set_scoreboard(true);
    assert!(mon.to_scoreboard(&mut sb, 5).is_ok());
    let mut mon2 = Monitor::new();
    mon2.set_scoreboard(false);
    assert!(mon2.to_scoreboard(&mut sb, 5).is_ok());
    assert!(sb.passed());
}

#[test]
fn signal_value_round_trip() {
    // set_value then get_value observes the written value in a backend
    // that stores writes directly
    let mut sim = MiniSim::new(-12);
    let mut table = SignalTable::new();
    sim.add_signal(7, "top.data", ObjectKind::Bits(8));
    let obj = SimObject::from_name(&mut table, &mut sim, "top.data").unwrap();
    assert_eq!(obj.handle(), 7);
    assert_eq!(obj.kind(), ObjectKind::Bits(8));
    obj.set(&mut sim, 42).unwrap();
    assert_eq!(obj.i32(&mut sim), Ok(42));
    obj.set_u32(&mut sim, 17).unwrap();
    assert_eq!(obj.u32(&mut sim), Ok(17));
    // the same object comes back from the intern tables
    let again = SimObject::from_name(&mut table, &mut sim, "top.data").unwrap();
    assert_eq!(again.handle(), 7);
    let by_handle = SimObject::from_handle(&table, 7).unwrap();
    assert_eq!(by_handle.kind(), ObjectKind::Bits(8));
}

#[test]
fn bin_round_trip() {
    let mut sim = MiniSim::new(-12);
    let mut table = SignalTable::new();
    sim.add_signal(3, "top.nibble", ObjectKind::Bits(4));
    let obj = SimObject::from_name(&mut table, &mut sim, "top.nibble").unwrap();
    obj.set_bin(&mut sim, "0110").unwrap();
    assert_eq!(obj.bin(&mut sim).as_deref(), Ok("0110"));
}

#[test]
fn bin_write_normalizes_and_validates() {
    let mut sim = MiniSim::new(-12);
    let mut table = SignalTable::new();
    sim.add_signal(3, "top.nibble", ObjectKind::Bits(4));
    sim.add_signal(9, "top.scope", ObjectKind::Hier);
    let obj = SimObject::from_name(&mut table, &mut sim, "top.nibble").unwrap();
    // prefix and underscores are stripped before the length check
    obj.set_bin(&mut sim, "0b01_10").unwrap();
    assert_eq!(obj.bin(&mut sim).as_deref(), Ok("0110"));
    obj.force_bin(&mut sim, "x1zX").unwrap();
    assert_eq!(obj.bin(&mut sim).as_deref(), Ok("x1zX"));
    // a length mismatch is rejected
    assert!(obj.set_bin(&mut sim, "01101").is_err());
    // an invalid character is rejected
    assert!(obj.set_bin(&mut sim, "01a0").is_err());
    // a non bit-vector signal is rejected
    let scope = SimObject::from_name(&mut table, &mut sim, "top.scope").unwrap();
    assert!(scope.set_bin(&mut sim, "0").is_err());
    assert!(!scope.is_modifiable() || scope.size().is_none());
}

#[test]
fn object_kind_classification() {
    let mut sim = MiniSim::new(-12);
    let mut table = SignalTable::new();
    sim.add_signal(1, "top.a", ObjectKind::Bits(16));
    sim.add_signal(2, "top.b", ObjectKind::Other);
    let a = SimObject::from_name(&mut table, &mut sim, "top.a").unwrap();
    let b = SimObject::from_name(&mut table, &mut sim, "top.b").unwrap();
    assert_eq!(a.size(), Some(16));
    assert!(a.is_modifiable());
    assert!(a.has_value());
    assert_eq!(b.size(), None);
    assert!(!b.is_modifiable());
    assert!(!b.has_value());
    assert!(SimObject::from_name(&mut table, &mut sim, "top.zzz").is_err());
    assert!(SimObject::from_handle(&table, 999).is_err());
}
