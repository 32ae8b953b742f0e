use vstd::prelude::*;
use vstd::string::StringExecFns;

use crate::index_map::IndexMap;
use crate::sim_if::SimIf;
use crate::trigger::Trigger;
use crate::value::SimpleResult;

verus! {

/// Classification of a simulator object, as reported by the backend.
///
/// `Bits(w)` is a vector signal of `w` bits, `Array(w)` an array of `w`
/// elements; `Hier` is a hierarchical scope; `Other` covers objects the
/// runtime cannot read or write.
#[derive(Clone, Copy, Debug, PartialEq, Eq, Structural)]
pub enum ObjectKind {
    Bits(u32),
    Real,
    Array(u32),
    Hier,
    Other,
}

/// Handle to one simulator signal or scope, interned by the signal table.
#[derive(Clone, Copy, Debug, PartialEq, Eq, Structural)]
pub struct SimObject {
    handle: usize,
    kind: ObjectKind,
}

/// The interning table: objects by handle and by hierarchical name, so
/// equal signals share one record for the life of the process.
pub struct SignalTable {
    by_handle: IndexMap<SimObject>,
    by_name: Vec<(String, u64)>,
}

/// First handle under a name in the name list.
pub open spec fn name_find(entries: Seq<(String, u64)>, name: Seq<char>) -> Option<u64>
    decreases entries.len(),
{
    if entries.len() == 0 {
        None
    } else if entries[0].0@ == name {
        Some(entries[0].1)
    } else {
        name_find(entries.drop_first(), name)
    }
}

impl SignalTable {
    pub closed spec fn handle_lookup(self, handle: u64) -> Option<SimObject> {
        self.by_handle.lookup(handle)
    }

    pub closed spec fn name_entries(self) -> Seq<(String, u64)> {
        self.by_name@
    }

    pub closed spec fn name_lookup(self, name: Seq<char>) -> Option<u64> {
        name_find(self.name_entries(), name)
    }

    pub closed spec fn wf(self) -> bool {
        &&& self.by_handle.wf()
        &&& forall|k: u64|
            #[trigger] self.by_handle.contains_spec(k)
                ==> self.by_handle.lookup(k).unwrap().spec_handle() as u64 == k
    }

    /// Whatever lookup finds under a handle carries that handle.
    pub proof fn lemma_lookup_keyed(self, k: u64)
        requires
            self.wf(),
        ensures
            match self.handle_lookup(k) {
                Some(o) => o.spec_handle() as u64 == k,
                None => true,
            },
    {
    }

    pub fn new() -> (r: Self)
        ensures
            r.wf(),
            forall|h: u64| r.handle_lookup(h) is None,
            forall|n: Seq<char>| r.name_lookup(n) is None,
    {
        SignalTable { by_handle: IndexMap::new(), by_name: Vec::new() }
    }

    /// The object interned under a handle, if any.
    pub fn lookup_handle(&self, handle: usize) -> (r: Option<SimObject>)
        ensures
            self.wf() ==> r == self.handle_lookup(handle as u64),
    {
        match self.by_handle.get(handle as u64) {
            Some(obj) => Some(*obj),
            None => None,
        }
    }

    /// The handle interned under a full hierarchical name, if any.
    pub fn lookup_name(&self, name: &str) -> (r: Option<u64>)
        ensures
            r == self.name_lookup(name@),
    {
        let n = self.by_name.len();
        let mut i: usize = 0;
        proof {
            assert(self.name_entries().skip(0) =~= self.name_entries());
        }
        while i < n
            invariant
                i <= n,
                n == self.name_entries().len(),
                name_find(self.name_entries(), name@) == name_find(
                    self.name_entries().skip(i as int),
                    name@,
                ),
            decreases n - i,
        {
            let ghost rest = self.name_entries().skip(i as int);
            proof {
                assert(rest.len() > 0);
                assert(rest[0] == self.name_entries()[i as int]);
                assert(rest.drop_first() =~= self.name_entries().skip(i as int + 1));
            }
            if crate::sim_if::str_eq(self.by_name[i].0.as_str(), name) {
                return Some(self.by_name[i].1);
            }
            i = i + 1;
        }
        proof {
            assert(self.name_entries().skip(n as int) =~= Seq::<(String, u64)>::empty());
        }
        None
    }

    /// Record an object under its handle and its name.
    pub fn intern(&mut self, obj: SimObject, name: String)
        ensures
            old(self).wf() ==> {
                &&& final(self).wf()
                &&& final(self).handle_lookup(obj.spec_handle() as u64) == Some(obj)
                &&& forall|h: u64|
                    h != obj.spec_handle() as u64 ==> final(self).handle_lookup(h) == old(
                        self,
                    ).handle_lookup(h)
            },
    {
        self.by_handle.insert(obj.handle as u64, obj);
        self.by_name.push((name, obj.handle as u64));
    }
}

impl SimObject {
    /// The backend handle that identifies this object.
    pub fn handle(&self) -> (r: usize)
        ensures
            r == self.spec_handle(),
    {
        self.handle
    }

    /// The classification of this object.
    pub fn kind(&self) -> (r: ObjectKind)
        ensures
            r == self.spec_kind(),
    {
        self.kind
    }

    pub closed spec fn spec_handle(self) -> usize {
        self.handle
    }

    pub closed spec fn spec_kind(self) -> ObjectKind {
        self.kind
    }

    pub(crate) fn make(handle: usize, kind: ObjectKind) -> (r: Self)
        ensures
            r.spec_handle() == handle,
            r.spec_kind() == kind,
    {
        SimObject { handle, kind }
    }

    /// Build an object from its raw parts; backends use this to hand the
    /// runtime the objects they own.
    pub fn from_parts(handle: usize, kind: ObjectKind) -> (r: Self)
        ensures
            r.spec_handle() == handle,
            r.spec_kind() == kind,
    {
        SimObject { handle, kind }
    }

    /// Width of a `Bits` or `Array` object; `None` for kinds without a size.
    pub fn size(&self) -> (r: Option<u32>)
        ensures
            r == (match self.spec_kind() {
                ObjectKind::Bits(w) => Some(w),
                ObjectKind::Array(w) => Some(w),
                _ => None::<u32>,
            }),
    {
        match self.kind {
            ObjectKind::Bits(w) => Some(w),
            ObjectKind::Array(w) => Some(w),
            _ => None,
        }
    }

    /// Whether the runtime may drive a value onto this object.
    pub fn is_modifiable(&self) -> (r: bool)
        ensures
            r == !(self.spec_kind() is Other),
    {
        !matches!(self.kind, ObjectKind::Other)
    }

    /// Whether the object carries a readable value.
    pub fn has_value(&self) -> (r: bool)
        ensures
            r == !(self.spec_kind() is Other),
    {
        !matches!(self.kind, ObjectKind::Other)
    }

    /// The object interned under `handle`; fails when none is.
    pub fn from_handle(table: &SignalTable, handle: usize) -> (r: SimpleResult<SimObject>)
        ensures
            table.wf() ==> r == (match table.handle_lookup(handle as u64) {
                Some(obj) => Ok::<SimObject, ()>(obj),
                None => Err::<SimObject, ()>(()),
            }),
    {
        match table.lookup_handle(handle) {
            Some(obj) => Ok(obj),
            None => Err(()),
        }
    }

    /// The object with a full hierarchical name: interned if seen before,
    /// else looked up in the backend, classified and interned.
    pub fn from_name<B: SimIf>(
        table: &mut SignalTable,
        sim: &mut B,
        full_name: &str,
    ) -> (r: SimpleResult<SimObject>)
        ensures
            old(table).wf() ==> final(table).wf(),
            old(table).wf() ==> (r matches Ok(obj) ==> final(table).handle_lookup(
                obj.spec_handle() as u64,
            ) == Some(obj)),
    {
        let cached = table.lookup_name(full_name);
        match cached {
            Some(h) => {
                if h < usize::MAX as u64 {
                    proof {
                        if old(table).wf() {
                            table.lemma_lookup_keyed(h);
                        }
                    }
                    SimObject::from_handle(table, h as usize)
                } else {
                    Err(())
                }
            }
            None => SimObject::new_from_name(table, sim, full_name),
        }
    }

    /// Resolve a name in the backend and intern the result.
    fn new_from_name<B: SimIf>(table: &mut SignalTable, sim: &mut B, full_name: &str) -> (r:
        SimpleResult<SimObject>)
        ensures
            old(table).wf() ==> final(table).wf(),
            old(table).wf() ==> (r matches Ok(obj) ==> final(table).handle_lookup(
                obj.spec_handle() as u64,
            ) == Some(obj)),
    {
        match sim.get_handle_by_name(full_name) {
            Ok(handle) => Ok(SimObject::new_from_handle(table, sim, handle)),
            Err(_) => Err(()),
        }
    }

    /// Classify the object behind `handle` and intern it under its
    /// canonical hierarchical path.
    pub(crate) fn new_from_handle<B: SimIf>(
        table: &mut SignalTable,
        sim: &mut B,
        handle: usize,
    ) -> (r: SimObject)
        ensures
            old(table).wf() ==> final(table).wf(),
            r.spec_handle() == handle,
            old(table).wf() ==> final(table).handle_lookup(handle as u64) == Some(r),
    {
        let kind = sim.get_kind(handle);
        let obj = SimObject::make(handle, kind);
        let name = match sim.get_full_name(&obj) {
            Ok(n) => n,
            Err(_) => String::new(),
        };
        table.intern(obj, name);
        obj
    }

    /// The top design scope, interned.
    pub fn get_root<B: SimIf>(table: &mut SignalTable, sim: &mut B) -> (r: SimpleResult<SimObject>)
        ensures
            old(table).wf() ==> final(table).wf(),
            old(table).wf() ==> (r matches Ok(obj) ==> final(table).handle_lookup(
                obj.spec_handle() as u64,
            ) == Some(obj)),
    {
        match sim.get_root_object() {
            Ok(obj) => Ok(SimObject::new_from_handle(table, sim, obj.handle())),
            Err(_) => Err(()),
        }
    }

    /// The canonical hierarchical path, from the backend.
    pub fn name<B: SimIf>(&self, sim: &mut B) -> SimpleResult<String> {
        sim.get_full_name(self)
    }

    /// The child object `self.name() + "." + name`.
    pub fn get_child<B: SimIf>(
        &self,
        table: &mut SignalTable,
        sim: &mut B,
        name: &str,
    ) -> (r: SimpleResult<SimObject>)
        ensures
            old(table).wf() ==> final(table).wf(),
            old(table).wf() ==> (r matches Ok(obj) ==> final(table).handle_lookup(
                obj.spec_handle() as u64,
            ) == Some(obj)),
    {
        let mut child_name = match sim.get_full_name(self) {
            Ok(n) => n,
            Err(_) => {
                return Err(());
            }
        };
        child_name.append(".");
        child_name.append(name);
        SimObject::from_name(table, sim, child_name.as_str())
    }

    /// The child object; `c` is the customary shorthand for `get_child`.
    pub fn c<B: SimIf>(&self, table: &mut SignalTable, sim: &mut B, name: &str) -> (r: SimpleResult<
        SimObject,
    >)
        ensures
            old(table).wf() ==> final(table).wf(),
            old(table).wf() ==> (r matches Ok(obj) ==> final(table).handle_lookup(
                obj.spec_handle() as u64,
            ) == Some(obj)),
    {
        self.get_child(table, sim, name)
    }

    /// Read the signal as a signed 32-bit value; the backend decides it.
    pub fn i32<B: SimIf>(&self, sim: &mut B) -> SimpleResult<i32> {
        sim.get_value_i32(self)
    }

    /// Read the signal as an unsigned 32-bit value; the backend decides it.
    pub fn u32<B: SimIf>(&self, sim: &mut B) -> SimpleResult<u32> {
        sim.get_value_u32(self)
    }

    /// Read the signal as a binary string; the backend decides it.
    pub fn bin<B: SimIf>(&self, sim: &mut B) -> SimpleResult<String> {
        sim.get_value_bin(self)
    }

    /// Release a previously forced value.
    pub fn release<B: SimIf>(&self, sim: &mut B) -> SimpleResult<()> {
        sim.release(self)
    }

    /// Drive a signed value inertially.
    pub fn set<B: SimIf>(&self, sim: &mut B, val: i32) -> SimpleResult<()> {
        sim.set_value_i32(self, val, false)
    }

    /// Force a signed value, overriding other drivers.
    pub fn force<B: SimIf>(&self, sim: &mut B, val: i32) -> SimpleResult<()> {
        sim.set_value_i32(self, val, true)
    }

    /// Drive an unsigned value inertially.
    pub fn set_u32<B: SimIf>(&self, sim: &mut B, val: u32) -> SimpleResult<()> {
        sim.set_value_u32(self, val, false)
    }

    /// Force an unsigned value.
    pub fn force_u32<B: SimIf>(&self, sim: &mut B, val: u32) -> SimpleResult<()> {
        sim.set_value_u32(self, val, true)
    }

    /// Drive a binary string inertially; see `_set_bin` for the contract.
    pub fn set_bin<B: SimIf>(&self, sim: &mut B, val: &str) -> (r: SimpleResult<()>)
        ensures
            r is Ok ==> bin_write_ok(self.spec_kind(), val@),
            !bin_write_ok(self.spec_kind(), val@) ==> r is Err,
    {
        self._set_bin(sim, val, false)
    }

    /// Force a binary string; see `_set_bin` for the contract.
    pub fn force_bin<B: SimIf>(&self, sim: &mut B, val: &str) -> (r: SimpleResult<()>)
        ensures
            r is Ok ==> bin_write_ok(self.spec_kind(), val@),
            !bin_write_ok(self.spec_kind(), val@) ==> r is Err,
    {
        self._set_bin(sim, val, true)
    }

    /// Normalize and validate a binary string, then hand its normal form
    /// to the backend: every `0b` pair is removed, then every underscore;
    /// what remains must have exactly one character per bit of the
    /// signal, each of `0`, `1`, `x`, `z` in either case. Anything else —
    /// a signal that is not a bit vector, a non-ASCII string, a length
    /// mismatch, an invalid character — fails without touching the
    /// backend; succeeding is then the backend's to decide.
    pub fn _set_bin<B: SimIf>(&self, sim: &mut B, val: &str, force: bool) -> (r: SimpleResult<()>)
        ensures
            r is Ok ==> bin_write_ok(self.spec_kind(), val@),
            !bin_write_ok(self.spec_kind(), val@) ==> r is Err,
            !vstd::utf8::is_ascii_chars(val@) ==> r is Err,
    {
        let w = match self.kind {
            ObjectKind::Bits(w) => w,
            _ => {
                return Err(());
            }
        };
        let stripped = match normalize_bin(val) {
            Some(v) => v,
            None => {
                return Err(());
            }
        };
        // every character must stand for one bit of the vector
        if stripped.len() as u64 != w as u64 {
            return Err(());
        }
        let k = stripped.len();
        let mut t: usize = 0;
        while t < k
            invariant
                t <= k,
                k == stripped@.len(),
                forall|x: int| 0 <= x < t ==> spec_valid_char(#[trigger] stripped@[x]),
            decreases k - t,
        {
            if !valid_char(stripped[t]) {
                return Err(());
            }
            t = t + 1;
        }
        // what reaches the backend is exactly the normal form
        let out = render_chars(&stripped);
        sim.set_value_bin(self, out, force)
    }

    /// A trigger on any transition of this signal.
    pub fn edge(self) -> (r: Trigger)
        ensures
            r.spec_kind() == crate::trigger::TrigKind::Edge(
                self.spec_handle(),
                crate::trigger::EdgeKind::Any,
            ),
            !r.spec_awaited(),
    {
        Trigger::edge(self)
    }

    /// A trigger on a low-to-high transition of this signal.
    pub fn rising_edge(self) -> (r: Trigger)
        ensures
            r.spec_kind() == crate::trigger::TrigKind::Edge(
                self.spec_handle(),
                crate::trigger::EdgeKind::Rising,
            ),
            !r.spec_awaited(),
    {
        Trigger::rising_edge(self)
    }

    /// A trigger on a high-to-low transition of this signal.
    pub fn falling_edge(self) -> (r: Trigger)
        ensures
            r.spec_kind() == crate::trigger::TrigKind::Edge(
                self.spec_handle(),
                crate::trigger::EdgeKind::Falling,
            ),
            !r.spec_awaited(),
    {
        Trigger::falling_edge(self)
    }
}

/// The normal form of a binary-string argument: every `0b` pair removed,
/// left to right, then every underscore. `None` exactly when the string
/// is not ASCII.
pub fn normalize_bin(val: &str) -> (r: Option<Vec<char>>)
    ensures
        r is Some <==> vstd::utf8::is_ascii_chars(val@),
        r matches Some(v) ==> v@ == strip_0b(val@).filter(|c: char| c != '_'),
{
    if !val.is_ascii() {
        return None;
    }
    proof {
        vstd::string::is_ascii_spec_bytes(val);
    }
    let bytes = val.as_bytes();
    let n = bytes.len();
    // first pass: drop each `0b` pair, left to right
    let mut kept: Vec<char> = Vec::new();
    let mut i: usize = 0;
    proof {
        assert(val@.skip(0) =~= val@);
    }
    while i < n
        invariant
            i <= n,
            n == val@.len(),
            bytes@.len() == n,
            forall|j: int| 0 <= j < n ==> bytes@[j] == (val@[j] as u8),
            vstd::utf8::is_ascii_chars(val@),
            strip_0b(val@) == kept@ + strip_0b(val@.skip(i as int)),
        decreases n - i,
    {
        let ghost rest = val@.skip(i as int);
        proof {
            assert(rest[0] == val@[i as int]);
            assert(rest.len() == n - i);
            if i + 1 < n {
                assert(rest[1] == val@[i as int + 1]);
            }
        }
        if i + 1 < n && bytes[i] as char == '0' && bytes[i + 1] as char == 'b' {
            proof {
                assert(rest.skip(2) =~= val@.skip(i as int + 2));
                assert(kept@ + strip_0b(val@.skip(i as int + 2)) == strip_0b(val@));
            }
            i = i + 2;
        } else {
            let c = bytes[i] as char;
            proof {
                assert(vstd::utf8::is_ascii_chars(val@));
                assert(val@[i as int] as u8 as char == val@[i as int]);
                assert(rest.skip(1) =~= val@.skip(i as int + 1));
                assert(strip_0b(rest) =~= seq![rest[0]] + strip_0b(rest.skip(1)));
                assert((kept@ + seq![val@[i as int]]) + strip_0b(val@.skip(i as int + 1)) =~= kept@
                    + strip_0b(rest));
            }
            kept.push(c);
            i = i + 1;
        }
    }
    proof {
        assert(val@.skip(n as int) =~= Seq::<char>::empty());
        assert(kept@ + strip_0b(val@.skip(n as int)) =~= kept@);
    }
    // second pass: drop underscores
    let m = kept.len();
    let mut stripped: Vec<char> = Vec::new();
    let mut j: usize = 0;
    proof {
        assert(kept@.subrange(0, 0).filter(|c: char| c != '_') =~= Seq::<char>::empty());
    }
    while j < m
        invariant
            j <= m,
            m == kept@.len(),
            stripped@ == kept@.subrange(0, j as int).filter(|c: char| c != '_'),
        decreases m - j,
    {
        let c = kept[j];
        let ghost pre = kept@.subrange(0, j as int);
        let ghost cur = kept@.subrange(0, j as int + 1);
        proof {
            reveal_with_fuel(Seq::<char>::filter, 2);
            assert(cur.drop_last() =~= pre);
            assert(cur.last() == kept@[j as int]);
        }
        if c != '_' {
            stripped.push(c);
        }
        j = j + 1;
    }
    proof {
        assert(kept@.subrange(0, m as int) =~= kept@);
    }
    Some(stripped)
}

/// A string holding exactly the given characters, in order.
fn render_chars(v: &Vec<char>) -> (s: String)
    ensures
        s@ == v@,
{
    let mut out = String::new();
    let k = v.len();
    let mut y: usize = 0;
    proof {
        assert(v@.subrange(0, 0) =~= Seq::<char>::empty());
    }
    while y < k
        invariant
            y <= k,
            k == v@.len(),
            out@ == v@.subrange(0, y as int),
        decreases k - y,
    {
        string_push(&mut out, v[y]);
        proof {
            assert(v@.subrange(0, y as int + 1) =~= v@.subrange(0, y as int).push(v@[y as int]));
        }
        y = y + 1;
    }
    proof {
        assert(v@.subrange(0, k as int) =~= v@);
    }
    out
}

/// Relies on String::push of std: appends one character.
#[verifier::external_body]
fn string_push(s: &mut String, c: char)
    ensures
        final(s)@ == old(s)@.push(c),
{
    s.push(c)
}

/// The binary string characters the simulator understands.
pub open spec fn spec_valid_char(c: char) -> bool {
    c == '0' || c == '1' || c == 'x' || c == 'X' || c == 'z' || c == 'Z'
}

/// Whether a character stands for one bit of a vector signal.
pub fn valid_char(c: char) -> (r: bool)
    ensures
        r == spec_valid_char(c),
{
    c == '0' || c == '1' || c == 'x' || c == 'X' || c == 'z' || c == 'Z'
}

/// A string with every `0b` pair removed, left to right.
pub open spec fn strip_0b(s: Seq<char>) -> Seq<char>
    decreases s.len(),
{
    if s.len() == 0 {
        Seq::empty()
    } else if s.len() >= 2 && s[0] == '0' && s[1] == 'b' {
        strip_0b(s.skip(2))
    } else {
        seq![s[0]] + strip_0b(s.skip(1))
    }
}

/// What a successful binary write means: the signal is a bit vector, and
/// the string — after dropping `0b` pairs and underscores — has one valid
/// character per bit.
pub open spec fn bin_write_ok(kind: ObjectKind, val: Seq<char>) -> bool {
    &&& kind is Bits
    &&& {
        let t = strip_0b(val).filter(|c: char| c != '_');
        &&& t.len() == kind->Bits_0
        &&& forall|i: int| 0 <= i < t.len() ==> spec_valid_char(#[trigger] t[i])
    }
}

} // verus!
