use vstd::prelude::*;

verus! {

#[verifier::external_type_specification]
#[verifier::external_body]
#[verifier::reject_recursive_types(K)]
#[verifier::reject_recursive_types(V)]
pub struct ExIntMap<K, V>(intmap::IntMap<K, V>);

/// What an integer-keyed hash index holds, as a mathematical map from keys
/// to slot positions.
pub uninterp spec fn int_map_view(m: intmap::IntMap<u64, u64>) -> Map<u64, u64>;

/// Relies on intmap's IntMap::new: the new map is empty.
#[verifier::external_body]
fn imap_new() -> (m: intmap::IntMap<u64, u64>)
    ensures
        forall|k: u64| !int_map_view(m).dom().contains(k),
{
    intmap::IntMap::new()
}

/// Relies on intmap's IntMap::get: returns the value stored at the key,
/// if any.
#[verifier::external_body]
fn imap_get(m: &intmap::IntMap<u64, u64>, k: u64) -> (r: Option<u64>)
    ensures
        r == (if int_map_view(*m).dom().contains(k) {
            Some(int_map_view(*m)[k])
        } else {
            None::<u64>
        }),
{
    m.get(k).copied()
}

/// Relies on intmap's IntMap::insert: stores the value at the key,
/// replacing any earlier one.
#[verifier::external_body]
fn imap_insert(m: &mut intmap::IntMap<u64, u64>, k: u64, v: u64)
    ensures
        int_map_view(*final(m)) == int_map_view(*old(m)).insert(k, v),
{
    let _ = m.insert(k, v);
}

/// Relies on intmap's IntMap::remove: takes the value at the key out,
/// if any.
#[verifier::external_body]
fn imap_remove(m: &mut intmap::IntMap<u64, u64>, k: u64) -> (r: Option<u64>)
    ensures
        int_map_view(*final(m)) == int_map_view(*old(m)).remove(k),
        r == (if int_map_view(*old(m)).dom().contains(k) {
            Some(int_map_view(*old(m))[k])
        } else {
            None::<u64>
        }),
{
    m.remove(k)
}

/// Relies on intmap's IntMap::clear: removes every entry.
#[verifier::external_body]
fn imap_clear(m: &mut intmap::IntMap<u64, u64>)
    ensures
        forall|k: u64| !int_map_view(*final(m)).dom().contains(k),
{
    m.clear()
}

/// A map from 64-bit keys to values, stored densely.
///
/// The values sit in a plain vector of key/value pairs; an integer-keyed
/// hash index maps each key to its slot, so lookups need no scan. The
/// registries of the callback multiplexer and the signal table are kept in
/// this shape.
pub struct IndexMap<V> {
    index: intmap::IntMap<u64, u64>,
    slots: Vec<(u64, V)>,
}

impl<V> IndexMap<V> {
    /// The key/value pairs, in slot order.
    pub closed spec fn entries(self) -> Seq<(u64, V)> {
        self.slots@
    }

    /// Whether some slot holds the key.
    pub open spec fn contains_spec(self, k: u64) -> bool {
        exists|i: int| 0 <= i < self.entries().len() && self.entries()[i].0 == k
    }

    /// The slot position of the key.
    pub closed spec fn spec_index_of(self, k: u64) -> int {
        choose|i: int| 0 <= i < self.entries().len() && self.entries()[i].0 == k
    }

    /// The value stored at the key.
    pub open spec fn lookup(self, k: u64) -> Option<V> {
        if self.contains_spec(k) {
            Some(self.entries()[self.spec_index_of(k)].1)
        } else {
            None
        }
    }

    /// No two slots share a key.
    pub open spec fn keys_distinct(self) -> bool {
        forall|i: int, j: int|
            0 <= i < self.entries().len() && 0 <= j < self.entries().len() && i != j
                ==> (#[trigger] self.entries()[i]).0 != (#[trigger] self.entries()[j]).0
    }

    /// The hash index and the slots agree.
    pub closed spec fn index_coherent(self) -> bool {
        &&& forall|k: u64|
            int_map_view(self.index).dom().contains(k) <==> #[trigger] self.contains_spec(k)
        &&& forall|i: int|
            0 <= i < self.entries().len()
                ==> int_map_view(self.index)[(#[trigger] self.entries()[i]).0] == i as u64
    }

    /// Well-formedness: distinct keys, and a coherent index.
    pub open spec fn wf(self) -> bool {
        &&& self.keys_distinct()
        &&& self.index_coherent()
    }

    /// Every slot that holds `k` is the slot `spec_index_of` names.
    pub proof fn lemma_at(self, k: u64, i: int)
        requires
            self.keys_distinct(),
            0 <= i < self.entries().len(),
            self.entries()[i].0 == k,
        ensures
            self.contains_spec(k),
            self.spec_index_of(k) == i,
    {
        assert(self.contains_spec(k));
        let j = self.spec_index_of(k);
        assert(0 <= j < self.entries().len() && self.entries()[j].0 == k);
        if i != j {
            assert(self.entries()[i].0 != self.entries()[j].0);
        }
    }

    pub fn new() -> (r: Self)
        ensures
            r.wf(),
            r.entries().len() == 0,
            forall|k: u64| !r.contains_spec(k),
    {
        IndexMap { index: imap_new(), slots: Vec::new() }
    }

    pub fn len(&self) -> (r: usize)
        ensures
            r == self.entries().len(),
    {
        self.slots.len()
    }

    pub fn contains(&self, k: u64) -> (r: bool)
        ensures
            self.wf() ==> r == self.contains_spec(k),
    {
        match imap_get(&self.index, k) {
            Some(i) => {
                proof {
                    if self.wf() {
                        assert(self.contains_spec(k));
                    }
                }
                true
            }
            None => false,
        }
    }

    pub fn get(&self, k: u64) -> (r: Option<&V>)
        ensures
            self.wf() ==> match r {
                Some(v) => self.lookup(k) == Some(*v),
                None => self.lookup(k) is None,
            },
    {
        match imap_get(&self.index, k) {
            Some(i) => {
                proof {
                    if self.wf() {
                        assert(int_map_view(self.index).dom().contains(k));
                        assert(self.contains_spec(k));
                        let j = self.spec_index_of(k);
                        assert(0 <= j < self.entries().len() && self.entries()[j].0 == k);
                        self.lemma_at(k, j);
                        assert(int_map_view(self.index)[self.entries()[j].0] == j as u64);
                        assert(i == j as u64);
                        assert(self.lookup(k) == Some(self.entries()[j].1));
                    }
                }
                let nlen = self.slots.len();
                if i < nlen as u64 {
                    let iu = i as usize;
                    if self.slots[iu].0 == k {
                        proof {
                            if self.wf() {
                                assert(iu as int == self.spec_index_of(k));
                            }
                        }
                        Some(&self.slots[iu].1)
                    } else {
                        None
                    }
                } else {
                    None
                }
            }
            None => None,
        }
    }

    /// Store `v` at `k`, replacing any earlier value.
    pub fn insert(&mut self, k: u64, v: V)
        ensures
            old(self).wf() ==> {
                &&& final(self).wf()
                &&& final(self).lookup(k) == Some(v)
                &&& forall|k2: u64| k2 != k ==> final(self).lookup(k2) == old(self).lookup(k2)
                &&& forall|k2: u64|
                    #[trigger] final(self).contains_spec(k2) <==> (old(self).contains_spec(k2)
                        || k2 == k)
                &&& final(self).entries().len() == if old(self).contains_spec(k) {
                    old(self).entries().len() as int
                } else {
                    old(self).entries().len() as int + 1
                }
            },
    {
        let ghost pre = *self;
        match imap_get(&self.index, k) {
            Some(i) if i < self.slots.len() as u64 && self.slots[i as usize].0 == k => {
                proof {
                    if pre.wf() {
                        assert(pre.contains_spec(k));
                        let j = pre.spec_index_of(k);
                        pre.lemma_at(k, j);
                        assert(int_map_view(pre.index)[pre.entries()[j].0] == j as u64);
                        assert(i == j as u64);
                    }
                }
                let iu = i as usize;
                self.slots[iu] = (k, v);
                proof {
                    if pre.wf() {
                    let post = *self;
                    let ii = iu as int;
                    assert(post.entries() == pre.entries().update(ii, (k, v)));
                    assert forall|x: int| 0 <= x < post.entries().len() implies (
                    #[trigger] post.entries()[x]).0 == pre.entries()[x].0 by {
                        if x == ii {
                            assert(pre.entries()[ii].0 == k);
                        }
                    }
                    assert(post.keys_distinct());
                    assert forall|k2: u64| #[trigger]
                        post.contains_spec(k2) <==> pre.contains_spec(k2) by {
                        if post.contains_spec(k2) {
                            let w = choose|w: int|
                                0 <= w < post.entries().len() && post.entries()[w].0 == k2;
                            assert(pre.entries()[w].0 == k2);
                        }
                        if pre.contains_spec(k2) {
                            let w = choose|w: int|
                                0 <= w < pre.entries().len() && pre.entries()[w].0 == k2;
                            assert(post.entries()[w].0 == k2);
                        }
                    }
                    assert(post.index_coherent()) by {
                        assert forall|w: int| 0 <= w < post.entries().len() implies int_map_view(
                            post.index,
                        )[(#[trigger] post.entries()[w]).0] == w as u64 by {
                            assert(post.entries()[w].0 == pre.entries()[w].0);
                        }
                    }
                    post.lemma_at(k, ii);
                    assert forall|k2: u64| k2 != k implies final(self).lookup(k2) == pre.lookup(
                        k2,
                    ) by {
                        if post.contains_spec(k2) {
                            let w = choose|w: int|
                                0 <= w < post.entries().len() && post.entries()[w].0 == k2;
                            post.lemma_at(k2, w);
                            pre.lemma_at(k2, w);
                            assert(w != ii);
                        }
                    }
                    }
                }
            }
            _ => {
                proof {
                    if pre.wf() {
                        assert(!pre.contains_spec(k));
                    }
                }
                let n = self.slots.len();
                self.slots.push((k, v));
                imap_insert(&mut self.index, k, n as u64);
                proof {
                    if pre.wf() {
                    let post = *self;
                    let nn = n as int;
                    assert(post.entries() == pre.entries().push((k, v)));
                    assert forall|x: int| 0 <= x < nn implies (#[trigger] post.entries()[x]).0
                        == pre.entries()[x].0 by {}
                    assert(post.keys_distinct()) by {
                        assert forall|x: int, y: int|
                            0 <= x < post.entries().len() && 0 <= y < post.entries().len() && x != y
                                implies (#[trigger] post.entries()[x]).0
                                != (#[trigger] post.entries()[y]).0 by {
                            if x < nn && y < nn {
                                assert(pre.entries()[x].0 != pre.entries()[y].0);
                            } else if x == nn {
                                assert(pre.entries()[y].0 != k);
                            } else {
                                assert(pre.entries()[x].0 != k);
                            }
                        }
                    }
                    assert forall|k2: u64| #[trigger]
                        post.contains_spec(k2) <==> (pre.contains_spec(k2) || k2 == k) by {
                        if post.contains_spec(k2) && k2 != k {
                            let w = choose|w: int|
                                0 <= w < post.entries().len() && post.entries()[w].0 == k2;
                            assert(w != nn);
                            assert(pre.entries()[w].0 == k2);
                        }
                        if pre.contains_spec(k2) {
                            let w = choose|w: int|
                                0 <= w < pre.entries().len() && pre.entries()[w].0 == k2;
                            assert(post.entries()[w].0 == k2);
                        }
                        if k2 == k {
                            assert(post.entries()[nn].0 == k);
                        }
                    }
                    assert(post.index_coherent()) by {
                        assert forall|w: int| 0 <= w < post.entries().len() implies int_map_view(
                            post.index,
                        )[(#[trigger] post.entries()[w]).0] == w as u64 by {
                            if w < nn {
                                assert(pre.entries()[w].0 != k);
                                assert(post.entries()[w].0 == pre.entries()[w].0);
                            } else {
                                assert(post.entries()[nn].0 == k);
                            }
                        }
                    }
                    post.lemma_at(k, nn);
                    assert forall|k2: u64| k2 != k implies final(self).lookup(k2) == pre.lookup(
                        k2,
                    ) by {
                        if post.contains_spec(k2) {
                            let w = choose|w: int|
                                0 <= w < post.entries().len() && post.entries()[w].0 == k2;
                            assert(w != nn);
                            post.lemma_at(k2, w);
                            pre.lemma_at(k2, w);
                        }
                    }
                    }
                }
            }
        }
    }

    /// Take the value at `k` out, if any.
    pub fn remove(&mut self, k: u64) -> (r: Option<V>)
        ensures
            old(self).wf() ==> {
                &&& final(self).wf()
                &&& r == old(self).lookup(k)
                &&& final(self).lookup(k) is None
                &&& forall|k2: u64| k2 != k ==> final(self).lookup(k2) == old(self).lookup(k2)
                &&& forall|k2: u64|
                    #[trigger] final(self).contains_spec(k2) <==> (old(self).contains_spec(k2)
                        && k2 != k)
                &&& final(self).entries().len() == if old(self).contains_spec(k) {
                    old(self).entries().len() - 1
                } else {
                    old(self).entries().len() as int
                }
            },
    {
        let ghost pre = *self;
        match imap_remove(&mut self.index, k) {
            Some(i) => {
                proof {
                    if pre.wf() {
                        assert(pre.contains_spec(k));
                        let j = pre.spec_index_of(k);
                        pre.lemma_at(k, j);
                        assert(int_map_view(pre.index)[pre.entries()[j].0] == j as u64);
                        assert(i == j as u64);
                    }
                }
                let nlen = self.slots.len();
                if !(i < nlen as u64) {
                    return None;
                }
                let iu = i as usize;
                if self.slots[iu].0 != k {
                    return None;
                }
                let (_gone_k, gone_v) = self.slots.swap_remove(iu);
                if iu < self.slots.len() {
                    let moved = self.slots[iu].0;
                    imap_insert(&mut self.index, moved, i);
                }
                proof {
                    if pre.wf() {
                    let post = *self;
                    let n = pre.entries().len() - 1;
                    assert forall|k2: u64| #[trigger]
                        post.contains_spec(k2) <==> (pre.contains_spec(k2) && k2 != k) by {
                        if post.contains_spec(k2) {
                            let w = choose|w: int|
                                0 <= w < post.entries().len() && post.entries()[w].0 == k2;
                            if w == i as int && i as int != n {
                                assert(pre.entries()[n].0 == k2);
                                pre.lemma_at(k2, n);
                            } else {
                                assert(pre.entries()[w].0 == k2);
                                pre.lemma_at(k2, w);
                            }
                        }
                        if pre.contains_spec(k2) && k2 != k {
                            let w = choose|w: int|
                                0 <= w < pre.entries().len() && pre.entries()[w].0 == k2;
                            pre.lemma_at(k2, w);
                            if w == n && i as int != n {
                                assert(post.entries()[i as int].0 == k2);
                            } else if w != i as int {
                                assert(post.entries()[w].0 == k2);
                            }
                        }
                    }
                    assert(post.keys_distinct()) by {
                        assert forall|x: int, y: int|
                            0 <= x < post.entries().len() && 0 <= y < post.entries().len() && x != y
                                implies (#[trigger] post.entries()[x]).0
                                != (#[trigger] post.entries()[y]).0 by {
                            let px = if x == i as int { n } else { x };
                            let py = if y == i as int { n } else { y };
                            assert(pre.entries()[px] == post.entries()[x]);
                            assert(pre.entries()[py] == post.entries()[y]);
                        }
                    }
                    assert(post.index_coherent()) by {
                        assert forall|w: int| 0 <= w < post.entries().len() implies int_map_view(
                            post.index,
                        )[(#[trigger] post.entries()[w]).0] == w as u64 by {
                            let pw = if w == i as int { n } else { w };
                            assert(pre.entries()[pw] == post.entries()[w]);
                            pre.lemma_at(post.entries()[w].0, pw);
                            if w != i as int {
                                if i as int != n {
                                    assert(post.entries()[w].0 != pre.entries()[n].0);
                                }
                                assert(post.entries()[w].0 != k);
                            }
                        }
                        assert forall|k2: u64|
                            int_map_view(post.index).dom().contains(k2) <==> #[trigger] post
                                .contains_spec(k2) by {
                            if int_map_view(post.index).dom().contains(k2) {
                                if i as int != n && k2 == pre.entries()[n].0 {
                                    assert(post.entries()[i as int].0 == k2);
                                } else {
                                    assert(int_map_view(pre.index).dom().contains(k2) && k2 != k);
                                }
                            }
                            if post.contains_spec(k2) {
                                let w = choose|w: int|
                                    0 <= w < post.entries().len() && post.entries()[w].0 == k2;
                                if w == i as int && i as int != n {
                                    assert(int_map_view(pre.index).dom().contains(k2));
                                } else {
                                    assert(pre.entries()[w].0 == k2);
                                    pre.lemma_at(k2, w);
                                    assert(k2 != k);
                                }
                            }
                        }
                    }
                    assert forall|k2: u64| k2 != k implies final(self).lookup(k2) == pre.lookup(
                        k2,
                    ) by {
                        if post.contains_spec(k2) {
                            let w = choose|w: int|
                                0 <= w < post.entries().len() && post.entries()[w].0 == k2;
                            post.lemma_at(k2, w);
                            let pw = if w == i as int { n } else { w };
                            assert(pre.entries()[pw] == post.entries()[w]);
                            pre.lemma_at(k2, pw);
                        }
                    }
                    }
                }
                Some(gone_v)
            }
            None => {
                proof {
                    if pre.wf() {
                    let post = *self;
                    assert(!int_map_view(pre.index).dom().contains(k));
                    assert(!pre.contains_spec(k));
                    assert(int_map_view(post.index) =~= int_map_view(pre.index));
                    assert(int_map_view(post.index) == int_map_view(pre.index));
                    assert(post.entries() == pre.entries());
                    assert(post.keys_distinct());
                    assert(post.index_coherent()) by {
                        assert forall|k2: u64|
                            int_map_view(post.index).dom().contains(k2) <==> #[trigger] post
                                .contains_spec(k2) by {
                            assert(int_map_view(pre.index).dom().contains(k2)
                                <==> pre.contains_spec(k2));
                        }
                        assert forall|w: int| 0 <= w < post.entries().len() implies int_map_view(
                            post.index,
                        )[(#[trigger] post.entries()[w]).0] == w as u64 by {
                            assert(int_map_view(pre.index)[pre.entries()[w].0] == w as u64);
                        }
                    }
                    assert forall|k2: u64| final(self).lookup(k2) == pre.lookup(k2) by {
                        if post.contains_spec(k2) {
                            let w = choose|w: int|
                                0 <= w < post.entries().len() && post.entries()[w].0 == k2;
                            post.lemma_at(k2, w);
                            pre.lemma_at(k2, w);
                        }
                        if pre.contains_spec(k2) {
                            let w = choose|w: int|
                                0 <= w < pre.entries().len() && pre.entries()[w].0 == k2;
                            post.lemma_at(k2, w);
                        }
                    }
                    }
                }
                None
            }
        }
    }

    /// Take every entry out, leaving the map empty.
    pub fn take_entries(&mut self) -> (r: Vec<(u64, V)>)
        ensures
            final(self).wf(),
            final(self).entries().len() == 0,
            forall|k: u64| !final(self).contains_spec(k),
            r@ == old(self).entries(),
    {
        imap_clear(&mut self.index);
        let mut out: Vec<(u64, V)> = Vec::new();
        std::mem::swap(&mut out, &mut self.slots);
        out
    }
}

} // verus!
