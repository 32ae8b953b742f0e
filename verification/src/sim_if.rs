use vstd::prelude::*;

use crate::signal::{ObjectKind, SimObject};
use crate::value::SimpleResult;

verus! {

/// One simulator callback registration, as the backend classifies it.
#[derive(Clone, Copy, Debug, PartialEq, Eq, Structural)]
pub enum SimCallback {
    Time(u64),
    Edge(usize),
    ReadWrite,
    ReadOnly,
}

/// The simulator backend interface.
///
/// The runtime is written against this trait alone; a concrete binding
/// (VPI, VHPI, a Verilator shim, or an in-memory simulator used by the
/// test suite) implements it outside the verified library. Nothing is
/// assumed of the results: the runtime states what holds of its own state
/// whatever a backend returns.
pub trait SimIf {
    /// Write a signed value; `force` selects a forced over an inertial assignment.
    fn set_value_i32(&mut self, obj: &SimObject, value: i32, force: bool) -> SimpleResult<()>;

    /// Read a signal as a signed 32-bit value.
    fn get_value_i32(&mut self, obj: &SimObject) -> SimpleResult<i32>;

    /// Write an unsigned value; `force` selects a forced over an inertial assignment.
    fn set_value_u32(&mut self, obj: &SimObject, value: u32, force: bool) -> SimpleResult<()>;

    /// Read a signal as an unsigned 32-bit value.
    fn get_value_u32(&mut self, obj: &SimObject) -> SimpleResult<u32>;

    /// Write a binary string of characters `0`, `1`, `x`, `z`.
    fn set_value_bin(&mut self, obj: &SimObject, value: String, force: bool) -> SimpleResult<()>;

    /// Read a signal as a binary string.
    fn get_value_bin(&mut self, obj: &SimObject) -> SimpleResult<String>;

    /// Release a previously forced value.
    fn release(&mut self, obj: &SimObject) -> SimpleResult<()>;

    /// Look a handle up by full hierarchical dotted path.
    fn get_handle_by_name(&mut self, name: &str) -> SimpleResult<usize>;

    /// Current simulation time in precision steps.
    fn get_sim_time_steps(&self) -> u64;

    /// Emit a line to the simulator's log.
    fn log(&mut self, s: &str);

    /// Classify the object behind a raw handle.
    fn get_kind(&mut self, obj_handle: usize) -> ObjectKind;

    /// Canonical hierarchical path of an object.
    fn get_full_name(&mut self, obj: &SimObject) -> SimpleResult<String>;

    /// Power-of-ten exponent of one simulation step (for example -12 for ps).
    fn get_sim_precision(&self) -> i8;

    /// The top design scope.
    fn get_root_object(&mut self) -> SimpleResult<SimObject>;

    /// Request a one-shot read-write phase callback; returns its handle.
    fn register_callback_rw(&mut self) -> SimpleResult<usize>;

    /// Request a one-shot read-only phase callback; returns its handle.
    fn register_callback_ro(&mut self) -> SimpleResult<usize>;

    /// Request a one-shot timer callback `t` steps ahead; returns its handle.
    fn register_callback_time(&mut self, t: u64) -> SimpleResult<usize>;

    /// Request a value-change callback on a signal; returns its handle.
    fn register_callback_edge(&mut self, sig_hdl: usize) -> SimpleResult<usize>;

    /// Best-effort, idempotent cancellation of an earlier registration.
    fn cancel_callback(&mut self, cb_hdl: usize) -> SimpleResult<()>;
}

/// Ten to the power `e`.
pub open spec fn pow10(e: nat) -> nat
    decreases e,
{
    if e == 0 {
        1
    } else {
        10 * pow10((e - 1) as nat)
    }
}

pub proof fn lemma_pow10_pos(e: nat)
    ensures
        pow10(e) >= 1,
    decreases e,
{
    if e > 0 {
        lemma_pow10_pos((e - 1) as nat);
    }
}

pub proof fn lemma_pow10_mono(a: nat, b: nat)
    requires
        a <= b,
    ensures
        pow10(a) <= pow10(b),
    decreases b,
{
    if a < b {
        lemma_pow10_mono(a, (b - 1) as nat);
        lemma_pow10_pos((b - 1) as nat);
    }
}

pub proof fn lemma_pow10_19_fits()
    ensures
        pow10(19) < 0x1_0000_0000_0000_0000,
{
    reveal_with_fuel(pow10, 21);
}

/// Ten to the power `e`, as a machine word.
pub fn pow10_u64(e: u32) -> (r: u64)
    requires
        e <= 19,
    ensures
        r == pow10(e as nat),
{
    proof {
        lemma_pow10_19_fits();
    }
    let mut r: u64 = 1;
    let mut i: u32 = 0;
    while i < e
        invariant
            i <= e,
            e <= 19,
            r == pow10(i as nat),
            pow10(19) < 0x1_0000_0000_0000_0000,
        decreases e - i,
    {
        proof {
            lemma_pow10_mono((i + 1) as nat, 19);
        }
        r = r * 10;
        i = i + 1;
    }
    r
}

/// Compare two string slices by their character sequences.
pub fn str_eq(a: &str, b: &str) -> (r: bool)
    ensures
        r == (a@ == b@),
{
    let x: String = a.to_owned();
    let y: String = b.to_owned();
    x == y
}

/// The power-of-ten exponent a time unit name stands for.
pub open spec fn unit_scale(s: Seq<char>) -> Option<i8> {
    if s == "fs"@ {
        Some(-15i8)
    } else if s == "ps"@ {
        Some(-12i8)
    } else if s == "ns"@ {
        Some(-9i8)
    } else if s == "us"@ {
        Some(-6i8)
    } else if s == "ms"@ {
        Some(-3i8)
    } else if s == "s"@ || s == "sec"@ {
        Some(0i8)
    } else {
        None
    }
}

/// The characters of the recognized unit names, for settling which branch
/// of `unit_scale` a given sequence takes.
pub proof fn lemma_unit_lits()
    ensures
        "fs"@.len() == 2 && "fs"@[0] == 'f' && "fs"@[1] == 's',
        "ps"@.len() == 2 && "ps"@[0] == 'p' && "ps"@[1] == 's',
        "ns"@.len() == 2 && "ns"@[0] == 'n' && "ns"@[1] == 's',
        "us"@.len() == 2 && "us"@[0] == 'u' && "us"@[1] == 's',
        "ms"@.len() == 2 && "ms"@[0] == 'm' && "ms"@[1] == 's',
        "s"@.len() == 1 && "s"@[0] == 's',
        "sec"@.len() == 3 && "sec"@[0] == 's' && "sec"@[1] == 'e' && "sec"@[2] == 'c',
{
    reveal_strlit("fs");
    reveal_strlit("ps");
    reveal_strlit("ns");
    reveal_strlit("us");
    reveal_strlit("ms");
    reveal_strlit("s");
    reveal_strlit("sec");
}

/// Power-of-ten exponent of a named time unit; `None` for an unknown name.
pub fn time_scale(unit: &str) -> (r: Option<i8>)
    ensures
        r == unit_scale(unit@),
{
    proof {
        lemma_unit_lits();
    }
    if str_eq(unit, "fs") {
        Some(-15)
    } else if str_eq(unit, "ps") {
        Some(-12)
    } else if str_eq(unit, "ns") {
        Some(-9)
    } else if str_eq(unit, "us") {
        Some(-6)
    } else if str_eq(unit, "ms") {
        Some(-3)
    } else if str_eq(unit, "s") || str_eq(unit, "sec") {
        Some(0)
    } else {
        None
    }
}

/// The name a power-of-ten exponent bears, where one does.
pub open spec fn scale_name(unit: i8) -> Option<Seq<char>> {
    if unit == -15 {
        Some("fs"@)
    } else if unit == -12 {
        Some("ps"@)
    } else if unit == -9 {
        Some("ns"@)
    } else if unit == -6 {
        Some("us"@)
    } else if unit == -3 {
        Some("ms"@)
    } else if unit == 0 {
        Some("sec"@)
    } else {
        None
    }
}

/// Name of a power-of-ten exponent; `None` where no unit has that scale.
pub fn scale_time(unit: i8) -> (r: Option<String>)
    ensures
        match r {
            Some(s) => scale_name(unit) == Some(s@) && unit_scale(s@) == Some(unit),
            None => scale_name(unit) is None,
        },
{
    proof {
        lemma_unit_lits();
    }
    if unit == -15 {
        Some("fs".to_owned())
    } else if unit == -12 {
        Some("ps".to_owned())
    } else if unit == -9 {
        Some("ns".to_owned())
    } else if unit == -6 {
        Some("us".to_owned())
    } else if unit == -3 {
        Some("ms".to_owned())
    } else if unit == 0 {
        Some("sec".to_owned())
    } else {
        None
    }
}

/// Express a step count in `unit`, given the simulator precision exponent.
///
/// Fails exactly when the unit is unknown, finer than the precision, more
/// than nineteen decades coarser, or when `steps` is not an exact multiple
/// of the unit.
pub fn steps_to_unit(steps: u64, precision: i8, unit: &str) -> (r: SimpleResult<u64>)
    ensures
        match r {
            Ok(t) => {
                &&& unit_scale(unit@) is Some
                &&& {
                    let scale = unit_scale(unit@).unwrap() as int;
                    let d = scale - precision;
                    &&& 0 <= d <= 19
                    &&& t * pow10(d as nat) == steps
                }
            },
            Err(_) => {
                ||| unit_scale(unit@) is None
                ||| unit_scale(unit@).unwrap() < precision
                ||| unit_scale(unit@).unwrap() - precision > 19
                ||| steps % (pow10((unit_scale(unit@).unwrap() - precision) as nat) as u64) != 0
            },
        },
{
    let scale = match time_scale(unit) {
        Some(s) => s,
        None => {
            return Err(());
        }
    };
    if scale < precision {
        return Err(());
    }
    let d = (scale as i32) - (precision as i32);
    if d > 19 {
        return Err(());
    }
    let steps_per_unit = pow10_u64(d as u32);
    proof {
        lemma_pow10_pos((d as u32) as nat);
    }
    if steps % steps_per_unit != 0 {
        return Err(());
    }
    let t = steps / steps_per_unit;
    proof {
        vstd::arithmetic::div_mod::lemma_fundamental_div_mod(
            steps as int,
            steps_per_unit as int,
        );
        assert(t as int * steps_per_unit as int == steps_per_unit as int * t as int)
            by (nonlinear_arith);
    }
    Ok(t)
}

/// Convert a duration in `unit` to simulation steps, given the simulator
/// precision exponent.
///
/// Fails exactly when the unit is unknown, the product overflows a 64-bit
/// word or spans more than nineteen decades, or the duration is not an
/// exact number of steps.
pub fn unit_to_steps(time: u64, precision: i8, unit: &str) -> (r: SimpleResult<u64>)
    ensures
        match r {
            Ok(steps) => {
                &&& unit_scale(unit@) is Some
                &&& {
                    let scale = unit_scale(unit@).unwrap() as int;
                    if scale >= precision {
                        steps == time * pow10((scale - precision) as nat)
                    } else {
                        steps * pow10((precision - scale) as nat) == time
                    }
                }
            },
            Err(_) => true,
        },
{
    let scale = match time_scale(unit) {
        Some(s) => s,
        None => {
            return Err(());
        }
    };
    if scale >= precision {
        let d = (scale as i32) - (precision as i32);
        if d > 19 {
            return Err(());
        }
        let p = pow10_u64(d as u32);
        match time.checked_mul(p) {
            Some(steps) => Ok(steps),
            None => Err(()),
        }
    } else {
        let d = (precision as i32) - (scale as i32);
        if d > 19 {
            return Err(());
        }
        let p = pow10_u64(d as u32);
        proof {
            lemma_pow10_pos((d as u32) as nat);
        }
        if time % p != 0 {
            return Err(());
        }
        let steps = time / p;
        proof {
            vstd::arithmetic::div_mod::lemma_fundamental_div_mod(time as int, p as int);
            assert(steps as int * p as int == p as int * steps as int) by (nonlinear_arith);
        }
        Ok(steps)
    }
}

/// Current simulation time expressed in `unit`; see `steps_to_unit` for the
/// exact conversion contract over the backend's step count and precision.
pub fn get_sim_time<B: SimIf>(sim: &B, unit: &str) -> (r: SimpleResult<u64>)
    ensures
        r is Ok ==> unit_scale(unit@) is Some,
{
    let steps = sim.get_sim_time_steps();
    let precision = sim.get_sim_precision();
    steps_to_unit(steps, precision, unit)
}

/// A duration in `unit` as simulation steps; see `unit_to_steps` for the
/// exact conversion contract over the backend's precision.
pub fn get_sim_steps<B: SimIf>(sim: &B, time: u64, unit: &str) -> (r: SimpleResult<u64>)
    ensures
        r is Ok ==> unit_scale(unit@) is Some,
{
    let precision = sim.get_sim_precision();
    unit_to_steps(time, precision, unit)
}

} // verus!
