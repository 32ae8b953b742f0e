use vstd::prelude::*;
use std::collections::VecDeque;

use crate::executor::TaskBody;
use crate::runtime::{CoPoll, Cort, Runtime};
use crate::signal::SimObject;
use crate::sim_if::SimIf;
use crate::trigger::{TrigPoll, Trigger};
use crate::value::{SimpleResult, Val};

verus! {

/// One named concurrent assertion: its arming trigger, a condition and a
/// checker coroutine prototype, an optional bounded per-signal value
/// history, and its accounting.
pub struct Assertion<C> {
    name: String,
    enabled: bool,
    trigger: Trigger,
    condition: C,
    checker: C,
    dut: SimObject,
    hist_depth: u32,
    hist: Vec<(SimObject, VecDeque<u32>)>,
    sampler_task: Option<u64>,
    triggered: u64,
    passed: u64,
    failed: u64,
}

impl<C> Assertion<C> {
    pub closed spec fn spec_name(self) -> Seq<char> {
        self.name@
    }

    pub closed spec fn spec_enabled(self) -> bool {
        self.enabled
    }

    pub closed spec fn spec_triggered(self) -> u64 {
        self.triggered
    }

    pub closed spec fn spec_passed(self) -> u64 {
        self.passed
    }

    pub closed spec fn spec_failed(self) -> u64 {
        self.failed
    }

    pub closed spec fn spec_hist_depth(self) -> u32 {
        self.hist_depth
    }

    pub closed spec fn spec_sampler(self) -> Option<u64> {
        self.sampler_task
    }

    pub closed spec fn spec_trigger(self) -> Trigger {
        self.trigger
    }

    pub closed spec fn spec_dut(self) -> SimObject {
        self.dut
    }

    pub closed spec fn spec_condition(self) -> C {
        self.condition
    }

    pub closed spec fn spec_checker(self) -> C {
        self.checker
    }

    /// The tracked signals and their samples, most recent first.
    pub closed spec fn spec_hist(self) -> Seq<(SimObject, Seq<u32>)> {
        self.hist@.map_values(|e: (SimObject, VecDeque<u32>)| (e.0, e.1@))
    }

    /// The sample taken `k` ticks ago of a tracked signal.
    pub open spec fn spec_sig_hist(self, sig: SimObject, k: int) -> Option<u32> {
        match hist_find(self.spec_hist(), sig.spec_handle()) {
            Some(samples) => if 0 <= k < samples.len() {
                Some(samples[k])
            } else {
                None
            },
            None => None,
        }
    }
}

/// The sample sequence of the first tracked signal with a handle.
pub open spec fn hist_find(entries: Seq<(SimObject, Seq<u32>)>, handle: usize) -> Option<Seq<u32>>
    decreases entries.len(),
{
    if entries.len() == 0 {
        None
    } else if entries[0].0.spec_handle() == handle {
        Some(entries[0].1)
    } else {
        hist_find(entries.drop_first(), handle)
    }
}

/// Tracked-signal lists with equal keys find the same entry.
pub proof fn lemma_hist_find_aligned(
    a: Seq<(SimObject, Seq<u32>)>,
    b: Seq<(SimObject, Seq<u32>)>,
    h: usize,
)
    requires
        a.len() == b.len(),
        forall|i: int| 0 <= i < a.len() ==> (#[trigger] a[i]).0 == b[i].0,
    ensures
        hist_find(a, h) is Some <==> hist_find(b, h) is Some,
        hist_find(a, h) is Some ==> exists|i: int|
            {
                &&& 0 <= i < a.len()
                &&& (#[trigger] a[i]).0.spec_handle() == h
                &&& hist_find(a, h) == Some(a[i].1)
                &&& hist_find(b, h) == Some(b[i].1)
            },
    decreases a.len(),
{
    if a.len() > 0 {
        if a[0].0.spec_handle() == h {
            assert(a[0].0 == b[0].0);
        } else {
            lemma_hist_find_aligned(a.drop_first(), b.drop_first(), h);
            if hist_find(a.drop_first(), h) is Some {
                let i = choose|i: int|
                    {
                        &&& 0 <= i < a.drop_first().len()
                        &&& (#[trigger] a.drop_first()[i]).0.spec_handle() == h
                        &&& hist_find(a.drop_first(), h) == Some(a.drop_first()[i].1)
                        &&& hist_find(b.drop_first(), h) == Some(b.drop_first()[i].1)
                    };
                assert(a[i + 1] == a.drop_first()[i]);
                assert(b[i + 1] == b.drop_first()[i]);
            }
        }
    }
}

/// The history shifts by one place on each sample: after `sample_history`,
/// the value seen `k` ticks ago is the value that was seen `k - 1` ticks
/// ago before the sample, for every tracked signal; slot zero holds the
/// fresh sample itself.
pub proof fn lemma_history_shift<C>(pre: Assertion<C>, post: Assertion<C>, sig: SimObject, k: int)
    requires
        post.spec_hist().len() == pre.spec_hist().len(),
        forall|j: int|
            0 <= j < pre.spec_hist().len() ==> {
                &&& (#[trigger] post.spec_hist()[j]).0 == pre.spec_hist()[j].0
                &&& (pre.spec_hist()[j].1.len() > 0 ==> {
                    &&& post.spec_hist()[j].1.len() == pre.spec_hist()[j].1.len()
                    &&& post.spec_hist()[j].1.drop_first() == pre.spec_hist()[j].1.drop_last()
                })
            },
        forall|j: int| 0 <= j < pre.spec_hist().len() ==> (#[trigger] pre.spec_hist()[j]).1.len()
            > 0,
        1 <= k,
        match hist_find(pre.spec_hist(), sig.spec_handle()) {
            Some(samples) => k < samples.len(),
            None => false,
        },
    ensures
        post.spec_sig_hist(sig, k) == pre.spec_sig_hist(sig, k - 1),
{
    lemma_hist_find_aligned(pre.spec_hist(), post.spec_hist(), sig.spec_handle());
    let i = choose|i: int|
        {
            &&& 0 <= i < pre.spec_hist().len()
            &&& (#[trigger] pre.spec_hist()[i]).0.spec_handle() == sig.spec_handle()
            &&& hist_find(pre.spec_hist(), sig.spec_handle()) == Some(pre.spec_hist()[i].1)
            &&& hist_find(post.spec_hist(), sig.spec_handle()) == Some(post.spec_hist()[i].1)
        };
    let a = pre.spec_hist()[i].1;
    let b = post.spec_hist()[i].1;
    assert(b.drop_first() == a.drop_last());
    assert(b[k] == b.drop_first()[k - 1]);
    assert(a.drop_last()[k - 1] == a[k - 1]);
}

/// Two assertion records that agree in everything but the enable flag.
pub open spec fn same_but_enabled<C>(a: Assertion<C>, b: Assertion<C>) -> bool {
    &&& b.spec_name() == a.spec_name()
    &&& b.spec_trigger() == a.spec_trigger()
    &&& b.spec_condition() == a.spec_condition()
    &&& b.spec_checker() == a.spec_checker()
    &&& b.spec_dut() == a.spec_dut()
    &&& b.spec_hist_depth() == a.spec_hist_depth()
    &&& b.spec_hist() == a.spec_hist()
    &&& b.spec_sampler() == a.spec_sampler()
    &&& b.spec_triggered() == a.spec_triggered()
    &&& b.spec_passed() == a.spec_passed()
    &&& b.spec_failed() == a.spec_failed()
}

/// Two assertion records that agree in everything but the sampler handle.
pub open spec fn same_but_sampler<C>(a: Assertion<C>, b: Assertion<C>) -> bool {
    &&& b.spec_name() == a.spec_name()
    &&& b.spec_enabled() == a.spec_enabled()
    &&& b.spec_trigger() == a.spec_trigger()
    &&& b.spec_condition() == a.spec_condition()
    &&& b.spec_checker() == a.spec_checker()
    &&& b.spec_dut() == a.spec_dut()
    &&& b.spec_hist_depth() == a.spec_hist_depth()
    &&& b.spec_hist() == a.spec_hist()
    &&& b.spec_triggered() == a.spec_triggered()
    &&& b.spec_passed() == a.spec_passed()
    &&& b.spec_failed() == a.spec_failed()
}

/// First position of a name in the assertion list.
pub open spec fn assertion_find<C>(entries: Seq<Assertion<C>>, name: Seq<char>) -> Option<int>
    decreases entries.len(),
{
    if entries.len() == 0 {
        None
    } else if entries[0].spec_name() == name {
        Some(0)
    } else {
        match assertion_find(entries.drop_first(), name) {
            Some(i) => Some(i + 1),
            None => None,
        }
    }
}

/// A found name lies inside the list.
pub proof fn lemma_assertion_find_range<C>(entries: Seq<Assertion<C>>, name: Seq<char>)
    ensures
        match assertion_find(entries, name) {
            Some(i) => 0 <= i < entries.len() && entries[i].spec_name() == name,
            None => true,
        },
    decreases entries.len(),
{
    if entries.len() > 0 && entries[0].spec_name() != name {
        lemma_assertion_find_range(entries.drop_first(), name);
    }
}

/// The registry of named assertions; a duplicate registration is ignored,
/// the first one wins.
pub struct AssertionEngine<C> {
    items: Vec<Assertion<C>>,
}

impl<C> AssertionEngine<C> {
    pub closed spec fn items_seq(self) -> Seq<Assertion<C>> {
        self.items@
    }

    pub open spec fn item_valid(self, i: int) -> bool {
        0 <= i < self.items_seq().len()
    }

    pub open spec fn item(self, i: int) -> Assertion<C>
        recommends
            self.item_valid(i),
    {
        self.items_seq()[i]
    }

    pub fn new() -> (r: Self)
        ensures
            r.items_seq().len() == 0,
    {
        AssertionEngine { items: Vec::new() }
    }

    pub fn count(&self) -> (r: usize)
        ensures
            r == self.items_seq().len(),
    {
        self.items.len()
    }

    /// The position registered under a name, if any.
    pub fn find(&self, name: &str) -> (r: Option<usize>)
        ensures
            r == (match assertion_find(self.items_seq(), name@) {
                Some(i) => Some(i as usize),
                None => None::<usize>,
            }),
    {
        let n = self.items.len();
        let mut i: usize = 0;
        proof {
            assert(self.items_seq().skip(0) =~= self.items_seq());
        }
        while i < n
            invariant
                i <= n,
                n == self.items_seq().len(),
                assertion_find(self.items_seq(), name@) == (match assertion_find(
                    self.items_seq().skip(i as int),
                    name@,
                ) {
                    Some(j) => Some(j + i),
                    None => None::<int>,
                }),
            decreases n - i,
        {
            let ghost rest = self.items_seq().skip(i as int);
            proof {
                assert(rest.len() > 0);
                assert(rest[0] == self.items_seq()[i as int]);
                assert(rest.drop_first() =~= self.items_seq().skip(i as int + 1));
            }
            if crate::sim_if::str_eq(self.items[i].name.as_str(), name) {
                proof {
                    lemma_assertion_find_range(self.items_seq(), name@);
                }
                return Some(i);
            }
            i = i + 1;
        }
        proof {
            assert(self.items_seq().skip(n as int) =~= Seq::<Assertion<C>>::empty());
        }
        None
    }

    /// Register an assertion under a fresh name; a name already registered
    /// keeps its first registration.
    pub fn add(
        &mut self,
        name: String,
        trigger: Trigger,
        condition: C,
        checker: C,
        keep_hist: Vec<SimObject>,
        hist_depth: u32,
        dut: SimObject,
    )
        ensures
            assertion_find(old(self).items_seq(), name@) is Some ==> *final(self) == *old(self),
            assertion_find(old(self).items_seq(), name@) is None ==> {
                &&& final(self).items_seq().len() == old(self).items_seq().len() + 1
                &&& forall|i: int|
                    0 <= i < old(self).items_seq().len() ==> final(self).items_seq()[i] == old(self).items_seq()[i]
                &&& {
                    let a = final(self).items_seq().last();
                    &&& a.spec_name() == name@
                    &&& a.spec_enabled()
                    &&& a.spec_triggered() == 0
                    &&& a.spec_passed() == 0
                    &&& a.spec_failed() == 0
                    &&& a.spec_hist_depth() == hist_depth
                    &&& a.spec_sampler() is None
                    &&& a.spec_trigger() == trigger
                    &&& a.spec_condition() == condition
                    &&& a.spec_checker() == checker
                    &&& a.spec_dut() == dut
                    &&& a.spec_hist().len() == keep_hist@.len()
                    &&& forall|j: int|
                        0 <= j < keep_hist@.len() ==> {
                            &&& (#[trigger] a.spec_hist()[j]).0 == keep_hist@[j]
                            &&& a.spec_hist()[j].1.len() == hist_depth + 1
                        }
                }
            },
    {
        if self.find(name.as_str()).is_some() {
            return;
        }
        let mut hist: Vec<(SimObject, VecDeque<u32>)> = Vec::new();
        let nh = keep_hist.len();
        let mut i: usize = 0;
        while i < nh
            invariant
                i <= nh,
                nh == keep_hist@.len(),
                hist@.len() == i,
                forall|j: int|
                    0 <= j < i ==> (#[trigger] hist@[j]).0 == keep_hist@[j] && hist@[j].1@.len()
                        == hist_depth + 1,
            decreases nh - i,
        {
            let mut dq: VecDeque<u32> = VecDeque::new();
            let slots: u64 = hist_depth as u64 + 1;
            let mut d: u64 = 0;
            while d < slots
                invariant
                    d <= slots,
                    slots == hist_depth + 1,
                    dq@.len() == d,
                decreases slots - d,
            {
                dq.push_back(0);
                d = d + 1;
            }
            hist.push((keep_hist[i], dq));
            i = i + 1;
        }
        let ghost hist_view = hist@;
        self.items.push(
            Assertion {
                name,
                enabled: true,
                trigger,
                condition,
                checker,
                dut,
                hist_depth,
                hist,
                sampler_task: None,
                triggered: 0,
                passed: 0,
                failed: 0,
            },
        );
        proof {
            assert(self.items_seq().last().spec_hist() =~= hist_view.map_values(
                |e: (SimObject, VecDeque<u32>)| (e.0, e.1@),
            ));
        }
    }

    /// The accounting of one assertion: triggered, passed, failed.
    pub fn stats(&self, i: usize) -> (r: (u64, u64, u64))
        ensures
            self.item_valid(i as int) ==> r == (
                self.item(i as int).spec_triggered(),
                self.item(i as int).spec_passed(),
                self.item(i as int).spec_failed(),
            ),
            !self.item_valid(i as int) ==> r == (0u64, 0u64, 0u64),
    {
        if i < self.items.len() {
            (self.items[i].triggered, self.items[i].passed, self.items[i].failed)
        } else {
            (0, 0, 0)
        }
    }

    /// Whether checker launches are gated off for an assertion.
    pub fn enabled_at(&self, i: usize) -> (r: bool)
        ensures
            r == if self.item_valid(i as int) {
                self.item(i as int).spec_enabled()
            } else {
                false
            },
    {
        if i < self.items.len() {
            self.items[i].enabled
        } else {
            false
        }
    }

    /// Gate checker launches of one assertion on or off.
    pub fn set_enabled(&mut self, i: usize, on: bool)
        ensures
            final(self).items_seq().len() == old(self).items_seq().len(),
            forall|j: int|
                0 <= j < old(self).items_seq().len() && j != i as int ==> final(self).items_seq()[j] == old(self).items_seq()[j],
            old(self).item_valid(i as int) ==> {
                &&& final(self).item(i as int).spec_enabled() == on
                &&& same_but_enabled(old(self).item(i as int), final(self).item(i as int))
            },
    {
        if i < self.items.len() {
            self.items[i].enabled = on;
        }
    }

    pub(crate) fn trigger_of(&self, i: usize) -> (r: Option<Trigger>)
        ensures
            r == if self.item_valid(i as int) {
                Some(self.item(i as int).spec_trigger())
            } else {
                None::<Trigger>
            },
    {
        if i < self.items.len() {
            Some(self.items[i].trigger)
        } else {
            None
        }
    }

    pub(crate) fn dut_of(&self, i: usize) -> (r: Option<SimObject>)
        ensures
            r == if self.item_valid(i as int) {
                Some(self.item(i as int).spec_dut())
            } else {
                None::<SimObject>
            },
    {
        if i < self.items.len() {
            Some(self.items[i].dut)
        } else {
            None
        }
    }

    pub(crate) fn sampler_of(&self, i: usize) -> (r: Option<u64>)
        ensures
            r == if self.item_valid(i as int) {
                self.item(i as int).spec_sampler()
            } else {
                None::<u64>
            },
    {
        if i < self.items.len() {
            self.items[i].sampler_task
        } else {
            None
        }
    }

    pub(crate) fn hist_depth_of(&self, i: usize) -> (r: u32)
        ensures
            r == if self.item_valid(i as int) {
                self.item(i as int).spec_hist_depth()
            } else {
                0u32
            },
    {
        if i < self.items.len() {
            self.items[i].hist_depth
        } else {
            0
        }
    }

    pub(crate) fn set_sampler(&mut self, i: usize, t: Option<u64>)
        ensures
            final(self).items_seq().len() == old(self).items_seq().len(),
            forall|j: int|
                0 <= j < old(self).items_seq().len() && j != i as int ==> final(self).items_seq()[j] == old(self).items_seq()[j],
            old(self).item_valid(i as int) ==> {
                &&& final(self).item(i as int).spec_sampler() == t
                &&& same_but_sampler(old(self).item(i as int), final(self).item(i as int))
            },
    {
        if i < self.items.len() {
            self.items[i].sampler_task = t;
        }
    }

    /// Count one firing whose condition held.
    pub fn record_triggered(&mut self, i: usize)
        ensures
            final(self).items_seq().len() == old(self).items_seq().len(),
            forall|j: int|
                0 <= j < old(self).items_seq().len() && j != i as int ==> final(self).items_seq()[j] == old(self).items_seq()[j],
            old(self).item_valid(i as int) && old(self).item(i as int).spec_triggered()
                < 0xffff_ffff_ffff_ffff ==> {
                &&& final(self).item(i as int).spec_triggered() == old(self).item(
                    i as int,
                ).spec_triggered() + 1
                &&& final(self).item(i as int).spec_passed() == old(self).item(
                    i as int,
                ).spec_passed()
                &&& final(self).item(i as int).spec_failed() == old(self).item(
                    i as int,
                ).spec_failed()
            },
    {
        if i < self.items.len() {
            if self.items[i].triggered < 0xffff_ffff_ffff_ffff {
                self.items[i].triggered = self.items[i].triggered + 1;
            }
        }
    }

    /// Count one checker that concluded successfully.
    pub fn record_pass(&mut self, i: usize)
        ensures
            final(self).items_seq().len() == old(self).items_seq().len(),
            forall|j: int|
                0 <= j < old(self).items_seq().len() && j != i as int ==> final(self).items_seq()[j] == old(self).items_seq()[j],
            old(self).item_valid(i as int) && old(self).item(i as int).spec_passed()
                < 0xffff_ffff_ffff_ffff ==> {
                &&& final(self).item(i as int).spec_passed() == old(self).item(
                    i as int,
                ).spec_passed() + 1
                &&& final(self).item(i as int).spec_triggered() == old(self).item(
                    i as int,
                ).spec_triggered()
                &&& final(self).item(i as int).spec_failed() == old(self).item(
                    i as int,
                ).spec_failed()
            },
    {
        if i < self.items.len() {
            if self.items[i].passed < 0xffff_ffff_ffff_ffff {
                self.items[i].passed = self.items[i].passed + 1;
            }
        }
    }

    /// Count one checker that concluded in failure.
    pub fn record_fail(&mut self, i: usize)
        ensures
            final(self).items_seq().len() == old(self).items_seq().len(),
            forall|j: int|
                0 <= j < old(self).items_seq().len() && j != i as int ==> final(self).items_seq()[j] == old(self).items_seq()[j],
            old(self).item_valid(i as int) && old(self).item(i as int).spec_failed()
                < 0xffff_ffff_ffff_ffff ==> {
                &&& final(self).item(i as int).spec_failed() == old(self).item(
                    i as int,
                ).spec_failed() + 1
                &&& final(self).item(i as int).spec_triggered() == old(self).item(
                    i as int,
                ).spec_triggered()
                &&& final(self).item(i as int).spec_passed() == old(self).item(
                    i as int,
                ).spec_passed()
            },
    {
        if i < self.items.len() {
            if self.items[i].failed < 0xffff_ffff_ffff_ffff {
                self.items[i].failed = self.items[i].failed + 1;
            }
        }
    }

    /// Sample every tracked signal of one assertion: the oldest sample is
    /// dropped and the value the backend reports now — zero if it refuses
    /// — is pushed at the front.
    pub fn sample_history<B: SimIf>(&mut self, i: usize, sim: &mut B)
        ensures
            final(self).items_seq().len() == old(self).items_seq().len(),
            forall|j: int|
                0 <= j < old(self).items_seq().len() && j != i as int ==> final(self).items_seq()[j] == old(self).items_seq()[j],
            old(self).item_valid(i as int) ==> {
                let pre = old(self).item(i as int);
                let post = final(self).item(i as int);
                &&& post.spec_hist().len() == pre.spec_hist().len()
                &&& forall|j: int|
                    0 <= j < pre.spec_hist().len() ==> {
                        &&& (#[trigger] post.spec_hist()[j]).0 == pre.spec_hist()[j].0
                        &&& (pre.spec_hist()[j].1.len() > 0 ==> {
                            &&& post.spec_hist()[j].1.len() == pre.spec_hist()[j].1.len()
                            &&& post.spec_hist()[j].1.drop_first() == pre.spec_hist()[
                                j].1.drop_last()
                        })
                    }
                &&& post.spec_triggered() == pre.spec_triggered()
                &&& post.spec_passed() == pre.spec_passed()
                &&& post.spec_failed() == pre.spec_failed()
                &&& post.spec_name() == pre.spec_name()
                &&& post.spec_enabled() == pre.spec_enabled()
                &&& post.spec_sampler() == pre.spec_sampler()
            },
    {
        if i >= self.items.len() {
            return;
        }
        let nh = self.items[i].hist.len();
        let mut j: usize = 0;
        while j < nh
            invariant
                j <= nh,
                i < self.items_seq().len(),
                nh == self.items_seq()[i as int].hist@.len(),
                self.items_seq().len() == old(self).items_seq().len(),
                forall|x: int|
                    0 <= x < old(self).items_seq().len() && x != i as int ==> #[trigger] self
                        .items_seq()[x] == old(self).items_seq()[x],
                self.items_seq()[i as int].name == old(self).items_seq()[i as int].name,
                self.items_seq()[i as int].enabled == old(self).items_seq()[i as int].enabled,
                self.items_seq()[i as int].trigger == old(self).items_seq()[i as int].trigger,
                self.items_seq()[i as int].dut == old(self).items_seq()[i as int].dut,
                self.items_seq()[i as int].hist_depth == old(self).items_seq()[i as int].hist_depth,
                self.items_seq()[i as int].sampler_task == old(self).items_seq()[
                    i as int].sampler_task,
                self.items_seq()[i as int].triggered == old(self).items_seq()[i as int].triggered,
                self.items_seq()[i as int].passed == old(self).items_seq()[i as int].passed,
                self.items_seq()[i as int].failed == old(self).items_seq()[i as int].failed,
                self.items_seq()[i as int].hist@.len() == nh,
                forall|x: int|
                    0 <= x < nh ==> (#[trigger] self.items_seq()[i as int].hist@[x]).0 == old(self).items_seq()[i as int].hist@[x].0,
                forall|x: int|
                    j <= x < nh ==> #[trigger] self.items_seq()[i as int].hist@[x] == old(self).items_seq()[i as int].hist@[x],
                forall|x: int|
                    0 <= x < j ==> (old(self).items_seq()[i as int].hist@[x].1@.len() > 0 ==> {
                        &&& (#[trigger] self.items_seq()[i as int].hist@[x]).1@.len() == old(self).items_seq()[i as int].hist@[x].1@.len()
                        &&& self.items_seq()[i as int].hist@[x].1@.drop_first() == old(self).items_seq()[i as int].hist@[x].1@.drop_last()
                    }),
            decreases nh - j,
        {
            let sig = self.items[i].hist[j].0;
            let cur = match sim.get_value_u32(&sig) {
                Ok(v) => v,
                Err(_) => 0,
            };
            let ghost predq = self.items@[i as int].hist@[j as int].1@;
            if self.items[i].hist[j].1.len() > 0 {
                let _ = self.items[i].hist[j].1.pop_back();
                self.items[i].hist[j].1.push_front(cur);
                proof {
                    assert(self.items_seq()[i as int].hist@[j as int].1@.drop_first()
                        =~= predq.drop_last());
                }
            }
            j = j + 1;
        }
        proof {
            assert(self.item(i as int).spec_hist().len() == old(self).item(
                i as int,
            ).spec_hist().len());
        }
    }

    /// Tear the engine down between tests: sampler handles are dropped and
    /// any in-flight checker — triggered but not concluded — counts as
    /// failed, so that afterwards every assertion's books close:
    /// triggered equals passed plus failed.
    pub fn tear_down_assertions(&mut self)
        ensures
            final(self).items_seq().len() == old(self).items_seq().len(),
            forall|i: int|
                0 <= i < final(self).items_seq().len() ==> {
                    let a = #[trigger] final(self).items_seq()[i];
                    &&& a.spec_sampler() is None
                    &&& a.spec_triggered() == old(self).items_seq()[i].spec_triggered()
                    &&& a.spec_triggered() == a.spec_passed() + a.spec_failed()
                    &&& (old(self).items_seq()[i].spec_passed() <= old(self).items_seq()[
                        i].spec_triggered() ==> a.spec_passed() == old(self).items_seq()[
                        i].spec_passed())
                },
    {
        let n = self.items.len();
        let mut i: usize = 0;
        while i < n
            invariant
                i <= n,
                n == self.items_seq().len(),
                self.items_seq().len() == old(self).items_seq().len(),
                forall|x: int|
                    i <= x < n ==> #[trigger] self.items_seq()[x] == old(self).items_seq()[x],
                forall|x: int|
                    0 <= x < i ==> {
                        let a = #[trigger] self.items_seq()[x];
                        &&& a.spec_sampler() is None
                        &&& a.spec_triggered() == old(self).items_seq()[x].spec_triggered()
                        &&& a.spec_triggered() == a.spec_passed() + a.spec_failed()
                        &&& (old(self).items_seq()[x].spec_passed() <= old(self).items_seq()[
                            x].spec_triggered() ==> a.spec_passed() == old(self).items_seq()[
                            x].spec_passed())
                    },
            decreases n - i,
        {
            self.items[i].sampler_task = None;
            if self.items[i].passed > self.items[i].triggered {
                self.items[i].passed = self.items[i].triggered;
            }
            self.items[i].failed = self.items[i].triggered - self.items[i].passed;
            i = i + 1;
        }
    }

    /// A one-line account of one assertion, for the log.
    pub fn result_str(&self, i: usize) -> (r: String)
        ensures
            r@.len() > 0,
    {
        if i < self.items.len() {
            fmt_assertion(
                self.items[i].name.as_str(),
                self.items[i].triggered,
                self.items[i].passed,
                self.items[i].failed,
            )
        } else {
            fmt_assertion("?", 0, 0, 0)
        }
    }
}

/// Relies on the format macro of std: renders one assertion's counters as
/// one line of text.
#[verifier::external_body]
fn fmt_assertion(name: &str, triggered: u64, passed: u64, failed: u64) -> (r: String)
    ensures
        r@.len() > 0,
{
    format!("Assertion {}: Triggered: {}, Passed: {}, Failed: {}.", name, triggered, passed, failed)
}

/// What a checker coroutine sees: the assertion it belongs to, found by
/// name in the runtime.
#[derive(Clone)]
pub struct AssertionContext {
    pub name: String,
}

impl AssertionContext {
    pub fn new(name: &str) -> (r: Self)
        ensures
            r.name@ == name@,
    {
        AssertionContext { name: name.to_owned() }
    }

    fn index<C>(&self, rt: &Runtime<C>) -> Option<usize> {
        rt.asserts.find(self.name.as_str())
    }

    /// A fresh, not yet awaited copy of the assertion's trigger.
    pub fn trig<C>(&self, rt: &Runtime<C>) -> Option<Trigger> {
        match self.index(rt) {
            Some(i) => rt.asserts.trigger_of(i),
            None => None,
        }
    }

    /// The design root the assertion was registered against.
    pub fn dut<C>(&self, rt: &Runtime<C>) -> Option<SimObject> {
        match self.index(rt) {
            Some(i) => rt.asserts.dut_of(i),
            None => None,
        }
    }

    /// The value sampled `clocks` trigger ticks ago of a tracked signal.
    pub fn sig_hist<C>(&self, rt: &Runtime<C>, sig: SimObject, clocks: usize) -> (r: Option<u32>)
        ensures
            (match assertion_find(rt.asserts.items_seq(), self.name@) {
                Some(i) => r == rt.asserts.items_seq()[i].spec_sig_hist(sig, clocks as int),
                None => r is None,
            }),
    {
        let total = rt.asserts.count();
        proof {
            lemma_assertion_find_range(rt.asserts.items_seq(), self.name@);
        }
        let i = match rt.asserts.find(self.name.as_str()) {
            Some(i) => i,
            None => {
                return None;
            }
        };
        rt.asserts.sig_hist_at(i, sig, clocks)
    }

    /// Whether the signal is high now and was not high one tick ago.
    pub fn rose<B: SimIf, C>(&self, rt: &Runtime<C>, sim: &mut B, sig: SimObject) -> SimpleResult<
        bool,
    > {
        let cur = match sim.get_value_u32(&sig) {
            Ok(v) => v,
            Err(_) => {
                return Err(());
            }
        };
        match self.sig_hist(rt, sig, 1) {
            Some(prev) => Ok(cur == 1 && prev != 1),
            None => Err(()),
        }
    }

    /// Whether the signal is low now and was not low one tick ago.
    pub fn fell<B: SimIf, C>(&self, rt: &Runtime<C>, sim: &mut B, sig: SimObject) -> SimpleResult<
        bool,
    > {
        let cur = match sim.get_value_u32(&sig) {
            Ok(v) => v,
            Err(_) => {
                return Err(());
            }
        };
        match self.sig_hist(rt, sig, 1) {
            Some(prev) => Ok(cur == 0 && prev != 0),
            None => Err(()),
        }
    }

    /// Whether the signal holds the value it held one tick ago.
    pub fn stable<B: SimIf, C>(&self, rt: &Runtime<C>, sim: &mut B, sig: SimObject) -> SimpleResult<
        bool,
    > {
        let cur = match sim.get_value_u32(&sig) {
            Ok(v) => v,
            Err(_) => {
                return Err(());
            }
        };
        match self.sig_hist(rt, sig, 1) {
            Some(prev) => Ok(cur == prev),
            None => Err(()),
        }
    }

    /// Whether the signal changed since one tick ago.
    pub fn changed<B: SimIf, C>(&self, rt: &Runtime<C>, sim: &mut B, sig: SimObject) -> SimpleResult<
        bool,
    > {
        match self.stable(rt, sim, sig) {
            Ok(s) => Ok(!s),
            Err(_) => Err(()),
        }
    }
}

impl<C: Clone> AssertionEngine<C> {
    /// Fresh instances of an assertion's condition and checker coroutines.
    pub(crate) fn protos_of(&self, i: usize) -> (r: Option<(C, C)>)
        ensures
            self.item_valid(i as int) ==> r is Some,
    {
        if i < self.items.len() {
            Some((self.items[i].condition.clone(), self.items[i].checker.clone()))
        } else {
            None
        }
    }
}

impl<C> AssertionEngine<C> {
    /// The value sampled `k` ticks ago of a tracked signal of assertion
    /// `i`.
    pub fn sig_hist_at(&self, i: usize, sig: SimObject, k: usize) -> (r: Option<u32>)
        ensures
            self.item_valid(i as int) ==> r == self.item(i as int).spec_sig_hist(sig, k as int),
            !self.item_valid(i as int) ==> r is None,
    {
        if i >= self.items.len() {
            return None;
        }
        let nh = self.items[i].hist.len();
        let mut j: usize = 0;
        proof {
            assert(self.item(i as int).spec_hist().skip(0) =~= self.item(i as int).spec_hist());
        }
        while j < nh
            invariant
                j <= nh,
                i < self.items_seq().len(),
                nh == self.item(i as int).spec_hist().len(),
                hist_find(self.item(i as int).spec_hist(), sig.spec_handle()) == hist_find(
                    self.item(i as int).spec_hist().skip(j as int),
                    sig.spec_handle(),
                ),
            decreases nh - j,
        {
            let ghost rest = self.item(i as int).spec_hist().skip(j as int);
            proof {
                assert(rest.len() > 0);
                assert(rest[0] == self.item(i as int).spec_hist()[j as int]);
                assert(rest.drop_first() =~= self.item(i as int).spec_hist().skip(j as int + 1));
            }
            if self.items[i].hist[j].0.handle() == sig.handle() {
                let dq = &self.items[i].hist[j].1;
                if k < dq.len() {
                    return Some(dq[k]);
                } else {
                    return None;
                }
            }
            j = j + 1;
        }
        proof {
            assert(self.item(i as int).spec_hist().skip(nh as int) =~= Seq::<
                (SimObject, Seq<u32>),
            >::empty());
        }
        None
    }
}

/// The run loop of one assertion, as an explicit state machine: arm the
/// trigger, wait for it, wait for the read-only phase, then — if the
/// assertion is enabled — launch a checker and re-arm. The history
/// sampler is started once, before the first arming.
pub struct RunnerState {
    pub aidx: usize,
    pub phase: RunnerPhase,
}

#[derive(Clone, Copy)]
pub enum RunnerPhase {
    Arm,
    AwaitTrig(Trigger),
    AwaitRo(Trigger),
}

/// The history sampler of one assertion: wait for the trigger, then for
/// the read-only phase with priority — so the sample lands before any
/// checker of the same tick reads it — then shift every tracked signal's
/// history.
pub struct SamplerState {
    pub aidx: usize,
    pub phase: SamplerPhase,
}

#[derive(Clone, Copy)]
pub enum SamplerPhase {
    Arm,
    AwaitTrig(Trigger),
    AwaitRo(Trigger),
}

/// One launched checker: run the condition; if it holds, count the firing
/// and run the user checker, recording its verdict.
pub struct CheckerState<C> {
    pub aidx: usize,
    pub in_check: bool,
    pub cond: C,
    pub checker: C,
}

pub(crate) fn runner_step<B: SimIf, C: Cort<B>>(
    st: &mut RunnerState,
    rt: &mut Runtime<C>,
    sim: &mut B,
    tid: u64,
) -> (r: CoPoll)
    ensures
        old(rt).mux.wf() ==> final(rt).mux.wf(),
        final(rt).tests == old(rt).tests,
        final(rt).signals == old(rt).signals,
        final(rt).asserts.items_seq().len() == old(rt).asserts.items_seq().len(),
        forall|i: int|
            0 <= i < old(rt).asserts.items_seq().len() ==> {
                let a = old(rt).asserts.items_seq()[i];
                let b = #[trigger] final(rt).asserts.items_seq()[i];
                &&& b.spec_triggered() == a.spec_triggered()
                &&& b.spec_passed() == a.spec_passed()
                &&& b.spec_failed() == a.spec_failed()
                &&& b.spec_enabled() == a.spec_enabled()
                &&& b.spec_name() == a.spec_name()
                &&& b.spec_trigger() == a.spec_trigger()
                &&& b.spec_hist() == a.spec_hist()
            },
        final(st).aidx == old(st).aidx,
        (old(st).phase matches RunnerPhase::Arm) && old(st).aidx >= old(
            rt,
        ).asserts.items_seq().len() ==> r matches CoPoll::Ready(Err(_)),
{
    let aidx = st.aidx;
    match st.phase {
        RunnerPhase::Arm => {
            if aidx >= rt.asserts.count() {
                return CoPoll::Ready(Err(Val::Error));
            }
            if rt.asserts.hist_depth_of(aidx) > 0 && rt.asserts.sampler_of(aidx).is_none() {
                let h = rt.executor.spawn(TaskBody::Sampler(SamplerState { aidx, phase: SamplerPhase::Arm }));
                rt.asserts.set_sampler(aidx, Some(h.task_id()));
            }
            let mut trig = match rt.asserts.trigger_of(aidx) {
                Some(t) => t,
                None => {
                    return CoPoll::Ready(Err(Val::Error));
                }
            };
            match trig.poll(&mut rt.mux, sim, tid) {
                TrigPoll::Pending => {
                    st.phase = RunnerPhase::AwaitTrig(trig);
                    CoPoll::Pending
                }
                _ => CoPoll::Ready(Err(Val::Error)),
            }
        }
        RunnerPhase::AwaitTrig(trig0) => {
            let mut trig = trig0;
            match trig.poll(&mut rt.mux, sim, tid) {
                TrigPoll::Pending => CoPoll::Pending,
                TrigPoll::Rejected => CoPoll::Ready(Err(Val::Error)),
                TrigPoll::Ready => {
                    let mut ro = Trigger::read_only();
                    match ro.poll(&mut rt.mux, sim, tid) {
                        TrigPoll::Pending => {
                            st.phase = RunnerPhase::AwaitRo(ro);
                            CoPoll::Pending
                        }
                        _ => CoPoll::Ready(Err(Val::Error)),
                    }
                }
            }
        }
        RunnerPhase::AwaitRo(ro0) => {
            let mut ro = ro0;
            match ro.poll(&mut rt.mux, sim, tid) {
                TrigPoll::Pending => CoPoll::Pending,
                TrigPoll::Rejected => CoPoll::Ready(Err(Val::Error)),
                TrigPoll::Ready => {
                    if rt.asserts.enabled_at(aidx) {
                        match rt.asserts.protos_of(aidx) {
                            Some((cond, checker)) => {
                                let _checker_task = rt.executor.spawn(
                                    TaskBody::Checker(
                                        CheckerState { aidx, in_check: false, cond, checker },
                                    ),
                                );
                            }
                            None => {}
                        }
                    }
                    let mut trig = match rt.asserts.trigger_of(aidx) {
                        Some(t) => t,
                        None => {
                            return CoPoll::Ready(Err(Val::Error));
                        }
                    };
                    match trig.poll(&mut rt.mux, sim, tid) {
                        TrigPoll::Pending => {
                            st.phase = RunnerPhase::AwaitTrig(trig);
                            CoPoll::Pending
                        }
                        _ => CoPoll::Ready(Err(Val::Error)),
                    }
                }
            }
        }
    }
}

pub(crate) fn sampler_step<B: SimIf, C: Cort<B>>(
    st: &mut SamplerState,
    rt: &mut Runtime<C>,
    sim: &mut B,
    tid: u64,
) -> (r: CoPoll)
    ensures
        old(rt).mux.wf() ==> final(rt).mux.wf(),
        final(rt).tests == old(rt).tests,
        final(rt).signals == old(rt).signals,
        final(rt).executor == old(rt).executor,
        final(rt).asserts.items_seq().len() == old(rt).asserts.items_seq().len(),
        forall|i: int|
            0 <= i < old(rt).asserts.items_seq().len() ==> {
                let a = old(rt).asserts.items_seq()[i];
                let b = #[trigger] final(rt).asserts.items_seq()[i];
                &&& b.spec_triggered() == a.spec_triggered()
                &&& b.spec_passed() == a.spec_passed()
                &&& b.spec_failed() == a.spec_failed()
                &&& b.spec_enabled() == a.spec_enabled()
                &&& b.spec_name() == a.spec_name()
            },
        final(st).aidx == old(st).aidx,
        (old(st).phase matches SamplerPhase::Arm) && old(st).aidx >= old(
            rt,
        ).asserts.items_seq().len() ==> r matches CoPoll::Ready(Err(_)),
{
    let aidx = st.aidx;
    match st.phase {
        SamplerPhase::Arm => {
            let mut trig = match rt.asserts.trigger_of(aidx) {
                Some(t) => t,
                None => {
                    return CoPoll::Ready(Err(Val::Error));
                }
            };
            match trig.poll(&mut rt.mux, sim, tid) {
                TrigPoll::Pending => {
                    st.phase = SamplerPhase::AwaitTrig(trig);
                    CoPoll::Pending
                }
                _ => CoPoll::Ready(Err(Val::Error)),
            }
        }
        SamplerPhase::AwaitTrig(trig0) => {
            let mut trig = trig0;
            match trig.poll(&mut rt.mux, sim, tid) {
                TrigPoll::Pending => CoPoll::Pending,
                TrigPoll::Rejected => CoPoll::Ready(Err(Val::Error)),
                TrigPoll::Ready => {
                    let mut ro = Trigger::read_only_prio();
                    match ro.poll(&mut rt.mux, sim, tid) {
                        TrigPoll::Pending => {
                            st.phase = SamplerPhase::AwaitRo(ro);
                            CoPoll::Pending
                        }
                        _ => CoPoll::Ready(Err(Val::Error)),
                    }
                }
            }
        }
        SamplerPhase::AwaitRo(ro0) => {
            let mut ro = ro0;
            match ro.poll(&mut rt.mux, sim, tid) {
                TrigPoll::Pending => CoPoll::Pending,
                TrigPoll::Rejected => CoPoll::Ready(Err(Val::Error)),
                TrigPoll::Ready => {
                    rt.asserts.sample_history(aidx, sim);
                    let mut trig = match rt.asserts.trigger_of(aidx) {
                        Some(t) => t,
                        None => {
                            return CoPoll::Ready(Err(Val::Error));
                        }
                    };
                    match trig.poll(&mut rt.mux, sim, tid) {
                        TrigPoll::Pending => {
                            st.phase = SamplerPhase::AwaitTrig(trig);
                            CoPoll::Pending
                        }
                        _ => CoPoll::Ready(Err(Val::Error)),
                    }
                }
            }
        }
    }
}

/// One poll of a launched checker. The accounting runs through
/// `record_triggered`, `record_pass` and `record_fail`, whose contracts
/// state the exact increments; no frame over the entry state survives the
/// polls of the user condition and checker coroutines, which receive the
/// whole runtime.
pub(crate) fn checker_step<B: SimIf, C: Cort<B>>(
    st: &mut CheckerState<C>,
    rt: &mut Runtime<C>,
    sim: &mut B,
    tid: u64,
) -> (r: CoPoll)
    ensures
        final(st).aidx == old(st).aidx,
        old(st).in_check ==> final(st).in_check,
{
    if !st.in_check {
        match st.cond.poll(rt, sim, tid) {
            CoPoll::Pending => {
                return CoPoll::Pending;
            }
            CoPoll::Ready(Err(_)) => {
                // the condition did not hold: a misfire, no accounting
                return CoPoll::Ready(Ok(Val::Empty));
            }
            CoPoll::Ready(Ok(_)) => {
                rt.asserts.record_triggered(st.aidx);
                st.in_check = true;
            }
        }
    }
    match st.checker.poll(rt, sim, tid) {
        CoPoll::Pending => CoPoll::Pending,
        CoPoll::Ready(Ok(_)) => {
            rt.asserts.record_pass(st.aidx);
            CoPoll::Ready(Ok(Val::Empty))
        }
        CoPoll::Ready(Err(_)) => {
            rt.asserts.record_fail(st.aidx);
            CoPoll::Ready(Ok(Val::Empty))
        }
    }
}

/// Register a named assertion; a name already registered keeps its first
/// registration. The design root is looked up and stored for the
/// checkers' context.
pub fn add_assertion<B: SimIf, C>(
    rt: &mut Runtime<C>,
    sim: &mut B,
    name: &str,
    trigger: Trigger,
    condition: C,
    checker: C,
    keep_hist: Vec<SimObject>,
    hist_depth: u32,
) -> (r: SimpleResult<()>)
    ensures
        old(rt).signals.wf() ==> final(rt).signals.wf(),
        final(rt).mux == old(rt).mux,
        final(rt).tests == old(rt).tests,
        final(rt).executor == old(rt).executor,
        r is Err ==> final(rt).asserts == old(rt).asserts,
        r is Ok ==> {
            ||| (assertion_find(old(rt).asserts.items_seq(), name@) is Some && final(rt).asserts
                == old(rt).asserts)
            ||| (assertion_find(old(rt).asserts.items_seq(), name@) is None && {
                &&& final(rt).asserts.items_seq().len() == old(rt).asserts.items_seq().len() + 1
                &&& forall|i: int|
                    0 <= i < old(rt).asserts.items_seq().len() ==> final(rt).asserts.items_seq()[i] == old(rt).asserts.items_seq()[i]
                &&& {
                    let a = final(rt).asserts.items_seq().last();
                    &&& a.spec_name() == name@
                    &&& a.spec_enabled()
                    &&& a.spec_triggered() == 0
                    &&& a.spec_passed() == 0
                    &&& a.spec_failed() == 0
                    &&& a.spec_hist_depth() == hist_depth
                    &&& a.spec_sampler() is None
                    &&& a.spec_trigger() == trigger
                    &&& a.spec_condition() == condition
                    &&& a.spec_checker() == checker
                    &&& a.spec_hist().len() == keep_hist@.len()
                }
            })
        },
{
    let dut = match SimObject::get_root(&mut rt.signals, sim) {
        Ok(d) => d,
        Err(_) => {
            return Err(());
        }
    };
    rt.asserts.add(name.to_owned(), trigger, condition, checker, keep_hist, hist_depth, dut);
    Ok(())
}

/// Launch the run loop of every registered assertion: one fresh run-loop
/// task per assertion, in registry order, all enqueued.
pub fn run_all_assertions<B: SimIf, C: Cort<B>>(rt: &mut Runtime<C>)
    ensures
        final(rt).asserts == old(rt).asserts,
        final(rt).mux == old(rt).mux,
        final(rt).tests == old(rt).tests,
        final(rt).signals == old(rt).signals,
        final(rt).executor.tasks_seq().len() == old(rt).executor.tasks_seq().len() + old(rt).asserts.items_seq().len(),
        forall|i: int|
            0 <= i < old(rt).executor.tasks_seq().len() ==> final(rt).executor.tasks_seq()[i]
                == old(rt).executor.tasks_seq()[i],
        forall|j: int|
            0 <= j < old(rt).asserts.items_seq().len() ==> {
                let t = #[trigger] final(rt).executor.tasks_seq()[old(rt).executor.tasks_seq().len() + j];
                &&& t.spec_state() == crate::executor::TaskState::Pending
                &&& t.spec_body() matches Some(TaskBody::Runner(st)) && st.aidx as int == j
                    && st.phase is Arm
            },
        final(rt).executor.ready_seq() == old(rt).executor.ready_seq() + Seq::new(
            old(rt).asserts.items_seq().len(),
            |j: int| (old(rt).executor.tasks_seq().len() + j) as u64,
        ),
{
    let ghost n0 = old(rt).executor.tasks_seq().len() as int;
    let n = rt.asserts.count();
    let mut i: usize = 0;
    proof {
        assert(rt.executor.ready_seq() =~= old(rt).executor.ready_seq() + Seq::new(
            0,
            |j: int| (n0 + j) as u64,
        ));
    }
    while i < n
        invariant
            i <= n,
            n == old(rt).asserts.items_seq().len(),
            rt.asserts == old(rt).asserts,
            rt.mux == old(rt).mux,
            rt.tests == old(rt).tests,
            rt.signals == old(rt).signals,
            n0 == old(rt).executor.tasks_seq().len(),
            rt.executor.tasks_seq().len() == n0 + i,
            forall|x: int|
                0 <= x < n0 ==> rt.executor.tasks_seq()[x] == old(rt).executor.tasks_seq()[x],
            forall|j: int|
                0 <= j < i ==> {
                    let t = #[trigger] rt.executor.tasks_seq()[n0 + j];
                    &&& t.spec_state() == crate::executor::TaskState::Pending
                    &&& t.spec_body() matches Some(TaskBody::Runner(st)) && st.aidx as int == j
                        && st.phase is Arm
                },
            rt.executor.ready_seq() == old(rt).executor.ready_seq() + Seq::new(
                i as nat,
                |j: int| (n0 + j) as u64,
            ),
        decreases n - i,
    {
        let h = rt.executor.spawn(
            TaskBody::Runner(RunnerState { aidx: i, phase: RunnerPhase::Arm }),
        );
        proof {
            assert(h.spec_task() == n0 + i);
            assert(rt.executor.ready_seq() =~= old(rt).executor.ready_seq() + Seq::new(
                (i + 1) as nat,
                |j: int| (n0 + j) as u64,
            ));
        }
        i = i + 1;
    }
}

/// Launch the run loop of one named assertion: one fresh run-loop task
/// for its registry position, enqueued. Fails — spawning nothing — if no
/// assertion bears the name.
pub fn run_assertion<B: SimIf, C: Cort<B>>(rt: &mut Runtime<C>, name: &str) -> (r: SimpleResult<()>)
    ensures
        r is Ok <==> assertion_find(old(rt).asserts.items_seq(), name@) is Some,
        final(rt).asserts == old(rt).asserts,
        final(rt).mux == old(rt).mux,
        final(rt).tests == old(rt).tests,
        final(rt).signals == old(rt).signals,
        r is Err ==> final(rt).executor == old(rt).executor,
        r is Ok ==> {
            &&& final(rt).executor.tasks_seq().len() == old(rt).executor.tasks_seq().len() + 1
            &&& forall|i: int|
                0 <= i < old(rt).executor.tasks_seq().len() ==> final(rt).executor.tasks_seq()[i]
                    == old(rt).executor.tasks_seq()[i]
            &&& {
                let t = final(rt).executor.tasks_seq().last();
                &&& t.spec_state() == crate::executor::TaskState::Pending
                &&& t.spec_body() matches Some(TaskBody::Runner(st)) && Some(st.aidx as int)
                    == assertion_find(old(rt).asserts.items_seq(), name@) && st.phase is Arm
            }
            &&& final(rt).executor.ready_seq() == old(rt).executor.ready_seq().push(
                (old(rt).executor.tasks_seq().len()) as u64,
            )
        },
{
    let total = rt.asserts.count();
    proof {
        lemma_assertion_find_range(rt.asserts.items_seq(), name@);
    }
    match rt.asserts.find(name) {
        Some(i) => {
            let _ = rt.executor.spawn(TaskBody::Runner(RunnerState { aidx: i, phase: RunnerPhase::Arm }));
            Ok(())
        }
        None => Err(()),
    }
}

/// Gate every assertion's checker launches off; nothing else changes.
pub fn disable_all_assertions<C>(rt: &mut Runtime<C>)
    ensures
        final(rt).executor == old(rt).executor,
        final(rt).mux == old(rt).mux,
        final(rt).tests == old(rt).tests,
        final(rt).signals == old(rt).signals,
        final(rt).asserts.items_seq().len() == old(rt).asserts.items_seq().len(),
        forall|i: int|
            0 <= i < old(rt).asserts.items_seq().len() ==> {
                &&& !(#[trigger] final(rt).asserts.items_seq()[i]).spec_enabled()
                &&& same_but_enabled(
                    old(rt).asserts.items_seq()[i],
                    final(rt).asserts.items_seq()[i],
                )
            },
{
    set_all_enabled(rt, false);
}

/// Gate every assertion's checker launches on; nothing else changes.
pub fn enable_all_assertions<C>(rt: &mut Runtime<C>)
    ensures
        final(rt).executor == old(rt).executor,
        final(rt).mux == old(rt).mux,
        final(rt).tests == old(rt).tests,
        final(rt).signals == old(rt).signals,
        final(rt).asserts.items_seq().len() == old(rt).asserts.items_seq().len(),
        forall|i: int|
            0 <= i < old(rt).asserts.items_seq().len() ==> {
                &&& (#[trigger] final(rt).asserts.items_seq()[i]).spec_enabled()
                &&& same_but_enabled(
                    old(rt).asserts.items_seq()[i],
                    final(rt).asserts.items_seq()[i],
                )
            },
{
    set_all_enabled(rt, true);
}

/// Set every assertion's gate to `on`.
fn set_all_enabled<C>(rt: &mut Runtime<C>, on: bool)
    ensures
        final(rt).executor == old(rt).executor,
        final(rt).mux == old(rt).mux,
        final(rt).tests == old(rt).tests,
        final(rt).signals == old(rt).signals,
        final(rt).asserts.items_seq().len() == old(rt).asserts.items_seq().len(),
        forall|i: int|
            0 <= i < old(rt).asserts.items_seq().len() ==> {
                &&& (#[trigger] final(rt).asserts.items_seq()[i]).spec_enabled() == on
                &&& same_but_enabled(
                    old(rt).asserts.items_seq()[i],
                    final(rt).asserts.items_seq()[i],
                )
            },
{
    let n = rt.asserts.count();
    let mut i: usize = 0;
    while i < n
        invariant
            i <= n,
            n == old(rt).asserts.items_seq().len(),
            rt.executor == old(rt).executor,
            rt.mux == old(rt).mux,
            rt.tests == old(rt).tests,
            rt.signals == old(rt).signals,
            rt.asserts.items_seq().len() == old(rt).asserts.items_seq().len(),
            forall|x: int|
                i <= x < n ==> #[trigger] rt.asserts.items_seq()[x] == old(rt).asserts.items_seq()[x],
            forall|x: int|
                0 <= x < i ==> {
                    &&& (#[trigger] rt.asserts.items_seq()[x]).spec_enabled() == on
                    &&& same_but_enabled(
                        old(rt).asserts.items_seq()[x],
                        rt.asserts.items_seq()[x],
                    )
                },
        decreases n - i,
    {
        rt.asserts.set_enabled(i, on);
        i = i + 1;
    }
}

/// Log every assertion's accounting through the backend.
pub fn print_assertion_stats<B: SimIf, C>(rt: &Runtime<C>, sim: &mut B) {
    let n = rt.asserts.count();
    let mut i: usize = 0;
    while i < n
        decreases n - i,
    {
        let line = rt.asserts.result_str(i);
        sim.log(line.as_str());
        i = i + 1;
    }
}

} // verus!
