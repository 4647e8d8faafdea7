//! Content-addressed storage of a repository's immutable objects.
use vstd::prelude::*;
use crate::error::TransferError;
use crate::object::{content_hash, copy_bytes, hash_object, link, link_count, links_of, same_bytes, HASH_LEN};

verus! {

/// One stored object: its content hash and its bytes.
pub struct StoredObject {
    pub hash: Vec<u8>,
    pub data: Vec<u8>,
}

/// Every key of `m` is the content hash of the bytes stored under it.
pub open spec fn keyed_by_hash(m: Map<Seq<u8>, Seq<u8>>) -> bool {
    forall|h: Seq<u8>| m.contains_key(h) ==> h == content_hash(#[trigger] m[h])
}

/// `a` and `b` are stored and the bytes of `a` refer to `b`.
pub open spec fn refers_to(m: Map<Seq<u8>, Seq<u8>>, a: Seq<u8>, b: Seq<u8>) -> bool {
    m.contains_key(a) && m.contains_key(b) && links_of(m[a]).contains(b)
}

/// A sequence of stored objects, each referring to the next.
pub open spec fn is_walk(m: Map<Seq<u8>, Seq<u8>>, p: Seq<Seq<u8>>) -> bool {
    &&& p.len() >= 1
    &&& m.contains_key(p[0])
    &&& forall|i: int| 0 <= i < p.len() - 1 ==> #[trigger] refers_to(m, p[i], p[i + 1])
}

/// Whether `h` is reached from one of `roots` by following references
/// through stored objects.
pub open spec fn reachable(m: Map<Seq<u8>, Seq<u8>>, roots: Seq<Seq<u8>>, h: Seq<u8>) -> bool {
    exists|p: Seq<Seq<u8>>| #[trigger] is_walk(m, p) && roots.contains(p[0]) && p.last() == h
}

/// The byte strings of a vector of byte vectors.
pub open spec fn hashes_view(v: Seq<Vec<u8>>) -> Seq<Seq<u8>> {
    v.map_values(|x: Vec<u8>| x@)
}

/// The number of `false` entries.
pub open spec fn count_false(s: Seq<bool>) -> nat
    decreases s.len(),
{
    if s.len() == 0 {
        0
    } else {
        count_false(s.drop_last()) + if s.last() {
            0nat
        } else {
            1nat
        }
    }
}

proof fn lemma_count_false_update(s: Seq<bool>, j: int)
    requires
        0 <= j < s.len(),
        !s[j],
    ensures
        count_false(s.update(j, true)) + 1 == count_false(s),
    decreases s.len(),
{
    let t = s.update(j, true);
    if j < s.len() - 1 {
        assert(t.drop_last() =~= s.drop_last().update(j, true));
        lemma_count_false_update(s.drop_last(), j);
    } else {
        assert(t.drop_last() =~= s.drop_last());
    }
}

/// The objects of one repository, keyed by content hash.
pub struct ObjectStore {
    objects: Vec<StoredObject>,
    file_size_ceiling: u64,
}

impl View for ObjectStore {
    type V = Map<Seq<u8>, Seq<u8>>;

    /// Each stored hash maps to the bytes stored under it.
    closed spec fn view(&self) -> Map<Seq<u8>, Seq<u8>> {
        Map::new(
            |h: Seq<u8>| exists|i: int| 0 <= i < self.objects.len() && self.objects[i].hash@ == h,
            |h: Seq<u8>|
                self.objects[choose|i: int|
                    0 <= i < self.objects.len() && self.objects[i].hash@ == h].data@,
        )
    }
}

impl ObjectStore {
    /// Hashes are unique, and each is the content hash of the bytes beside it.
    pub closed spec fn wf(&self) -> bool {
        &&& forall|i: int, j: int|
            0 <= i < self.objects.len() && 0 <= j < self.objects.len() && i != j
                ==> self.objects[i].hash@ != self.objects[j].hash@
        &&& forall|i: int|
            0 <= i < self.objects.len() ==> self.objects[i].hash@ == content_hash(
                self.objects[i].data@,
            )
    }

    /// The largest object, in bytes, that the store accepts.
    pub closed spec fn ceiling(&self) -> nat {
        self.file_size_ceiling as nat
    }

    proof fn lemma_entry(&self, i: int)
        requires
            self.wf(),
            0 <= i < self.objects.len(),
        ensures
            self@.contains_key(self.objects[i].hash@),
            self@[self.objects[i].hash@] == self.objects[i].data@,
    {
        let h = self.objects[i].hash@;
        assert(self@.contains_key(h));
        let j = choose|j: int| 0 <= j < self.objects.len() && self.objects[j].hash@ == h;
        assert(i == j);
    }

    /// Every stored object's key is the content hash of its bytes.
    pub proof fn lemma_keyed_by_hash(&self)
        requires
            self.wf(),
        ensures
            keyed_by_hash(self@),
    {
        assert forall|h: Seq<u8>| self@.contains_key(h) implies h == content_hash(#[trigger] self@[h]) by {
            let i = choose|i: int| 0 <= i < self.objects.len() && self.objects[i].hash@ == h;
            self.lemma_entry(i);
        }
    }

    /// An empty store that accepts objects of at most `file_size_ceiling` bytes.
    pub fn new(file_size_ceiling: u64) -> (r: ObjectStore)
        ensures
            r.wf(),
            r@ == Map::<Seq<u8>, Seq<u8>>::empty(),
            r.ceiling() == file_size_ceiling,
    {
        let r = ObjectStore { objects: Vec::new(), file_size_ceiling };
        assert(r@ =~= Map::<Seq<u8>, Seq<u8>>::empty());
        r
    }

    /// The largest object, in bytes, that the store accepts.
    pub fn file_size_ceiling(&self) -> (r: u64)
        ensures
            r == self.ceiling(),
    {
        self.file_size_ceiling
    }

    /// The number of distinct objects stored.
    pub fn len(&self) -> (r: usize)
        requires
            self.wf(),
        ensures
            r == self@.len(),
    {
        proof {
            self.lemma_len();
        }
        self.objects.len()
    }

    proof fn lemma_len(&self)
        requires
            self.wf(),
        ensures
            self@.dom().finite(),
            self@.len() == self.objects.len(),
    {
        let hashes = Seq::new(self.objects.len() as nat, |i: int| self.objects[i].hash@);
        hashes.unique_seq_to_set();
        assert(self@.dom() =~= hashes.to_set()) by {
            assert forall|h: Seq<u8>| self@.dom().contains(h) implies hashes.to_set().contains(h) by {
                let i = choose|i: int| 0 <= i < self.objects.len() && self.objects[i].hash@ == h;
                assert(hashes[i] == h);
            }
        }
    }

    fn find(&self, hash: &[u8]) -> (r: Option<usize>)
        requires
            self.wf(),
        ensures
            match r {
                Some(i) => i < self.objects.len() && self.objects[i as int].hash@ == hash@,
                None => !self@.contains_key(hash@),
            },
    {
        let mut i: usize = 0;
        while i < self.objects.len()
            invariant
                i <= self.objects.len(),
                forall|j: int| 0 <= j < i ==> self.objects[j].hash@ != hash@,
            decreases self.objects.len() - i,
        {
            if same_bytes(self.objects[i].hash.as_slice(), hash) {
                return Some(i);
            }
            i = i + 1;
        }
        None
    }

    /// Whether an object with this hash is stored.
    pub fn contains(&self, hash: &[u8]) -> (r: bool)
        requires
            self.wf(),
        ensures
            r == self@.contains_key(hash@),
    {
        match self.find(hash) {
            Some(i) => {
                proof {
                    self.lemma_entry(i as int);
                }
                true
            },
            None => false,
        }
    }

    /// The bytes stored under `hash`, or `NotFound`.
    pub fn get(&self, hash: &[u8]) -> (r: Result<Vec<u8>, TransferError>)
        requires
            self.wf(),
        ensures
            match r {
                Ok(data) => self@.contains_key(hash@) && data@ == self@[hash@],
                Err(e) => !self@.contains_key(hash@) && e == TransferError::NotFound,
            },
    {
        match self.find(hash) {
            Some(i) => {
                proof {
                    self.lemma_entry(i as int);
                }
                Ok(copy_bytes(&self.objects[i].data))
            },
            None => Err(TransferError::NotFound),
        }
    }

    /// Stores `data` under its content hash and returns the hash. Bytes larger
    /// than the ceiling are refused; bytes whose hash is already stored leave
    /// the store as it was.
    pub fn put(&mut self, data: Vec<u8>) -> (r: Result<Vec<u8>, TransferError>)
        requires
            old(self).wf(),
        ensures
            final(self).wf(),
            final(self).ceiling() == old(self).ceiling(),
            data@.len() > old(self).ceiling() ==> r == Err::<Vec<u8>, TransferError>(
                TransferError::ObjectTooLarge,
            ) && final(self)@ == old(self)@,
            data@.len() <= old(self).ceiling() ==> r is Ok,
            r matches Ok(h) ==> h@ == content_hash(data@) && h@.len() == HASH_LEN && final(self)@
                == Self::spec_put(old(self)@, data@),
    {
        if data.len() as u64 > self.file_size_ceiling {
            return Err(TransferError::ObjectTooLarge);
        }
        let h = hash_object(data.as_slice());
        match self.find(h.as_slice()) {
            Some(i) => {
                proof {
                    self.lemma_entry(i as int);
                }
                Ok(h)
            },
            None => {
                let ghost before = *self;
                let key = copy_bytes(&h);
                self.objects.push(StoredObject { hash: key, data });
                proof {
                    self.lemma_pushed(before, h@, data@);
                }
                Ok(h)
            },
        }
    }

    /// The store after putting `data`: its hash now maps to it.
    pub open spec fn spec_put(m: Map<Seq<u8>, Seq<u8>>, data: Seq<u8>) -> Map<Seq<u8>, Seq<u8>> {
        if m.contains_key(content_hash(data)) {
            m
        } else {
            m.insert(content_hash(data), data)
        }
    }

    proof fn lemma_pushed(&self, before: ObjectStore, h: Seq<u8>, d: Seq<u8>)
        requires
            before.wf(),
            !before@.contains_key(h),
            h == content_hash(d),
            self.file_size_ceiling == before.file_size_ceiling,
            self.objects.len() == before.objects.len() + 1,
            forall|i: int| 0 <= i < before.objects.len() ==> self.objects[i] == before.objects[i],
            self.objects@.last().hash@ == h,
            self.objects@.last().data@ == d,
        ensures
            self.wf(),
            self@ == before@.insert(h, d),
    {
        let n = before.objects.len() as int;
        assert forall|i: int| 0 <= i < n implies before.objects[i].hash@ != h by {
            before.lemma_entry(i);
        }
        assert(self.wf());
        assert forall|k: Seq<u8>| #[trigger] self@.contains_key(k) <==> before@.insert(h, d).contains_key(k) by {
            if before@.contains_key(k) {
                let i = choose|i: int| 0 <= i < n && before.objects[i].hash@ == k;
                assert(self.objects[i].hash@ == k);
            }
            if k == h {
                assert(self.objects[n].hash@ == k);
            }
            if self@.contains_key(k) && k != h {
                let i = choose|i: int| 0 <= i < n + 1 && self.objects[i].hash@ == k;
                assert(i < n);
                assert(before.objects[i].hash@ == k);
            }
        }
        assert forall|k: Seq<u8>| #[trigger] self@.contains_key(k) implies self@[k] == before@.insert(h, d)[k] by {
            let i = choose|i: int| 0 <= i < n + 1 && self.objects[i].hash@ == k;
            self.lemma_entry(i);
            if i < n {
                before.lemma_entry(i);
            }
        }
        assert(self@ =~= before@.insert(h, d));
    }

    /// Removes every object of the repository.
    pub fn delete_all(&mut self)
        requires
            old(self).wf(),
        ensures
            final(self).wf(),
            final(self)@ == Map::<Seq<u8>, Seq<u8>>::empty(),
            final(self).ceiling() == old(self).ceiling(),
    {
        self.objects.clear();
        assert(self@ =~= Map::<Seq<u8>, Seq<u8>>::empty());
    }

    /// Every reference of object `j` that is stored is marked.
    closed spec fn closed_at(&self, j: int, marked: Seq<bool>) -> bool {
        forall|k: int, j2: int|
            0 <= k < links_of(self.objects[j].data@).len() && 0 <= j2 < self.objects.len()
                && #[trigger] self.objects[j2].hash@ == #[trigger] links_of(self.objects[j].data@)[k]
                ==> marked[j2]
    }

    /// The state of a walk: marked objects are reachable, the work list holds
    /// marked objects, and a marked object off the work list (other than the
    /// one being expanded, `busy`) has all its stored references marked.
    closed spec fn walk_inv(&self, rv: Seq<Seq<u8>>, marked: Seq<bool>, work: Seq<usize>, busy: int) -> bool {
        &&& marked.len() == self.objects.len()
        &&& forall|j: int| 0 <= j < marked.len() && #[trigger] marked[j] ==> reachable(self@, rv, self.objects[j].hash@)
        &&& forall|x: int| 0 <= x < work.len() ==> #[trigger] work[x] < marked.len() && marked[work[x] as int]
        &&& forall|j: int| 0 <= j < marked.len() && #[trigger] marked[j] && !work.contains(j as usize) && j != busy
            ==> self.closed_at(j, marked)
    }

    /// Every object stored under one of the first `upto` roots is marked.
    closed spec fn roots_marked(&self, rv: Seq<Seq<u8>>, upto: int, marked: Seq<bool>) -> bool {
        forall|x: int, j: int| 0 <= x < upto && 0 <= j < self.objects.len()
            && #[trigger] self.objects[j].hash@ == #[trigger] rv[x] ==> marked[j]
    }

    proof fn lemma_root_reachable(&self, rv: Seq<Seq<u8>>, ri: int, j: int)
        requires
            self.wf(),
            0 <= ri < rv.len(),
            0 <= j < self.objects.len(),
            self.objects[j].hash@ == rv[ri],
        ensures
            reachable(self@, rv, self.objects[j].hash@),
    {
        self.lemma_entry(j);
        let p = seq![rv[ri]];
        assert(is_walk(self@, p));
        assert(rv.contains(p[0]));
    }

    proof fn lemma_child_reachable(&self, rv: Seq<Seq<u8>>, i: int, k: int, j2: int)
        requires
            self.wf(),
            0 <= i < self.objects.len(),
            0 <= j2 < self.objects.len(),
            reachable(self@, rv, self.objects[i].hash@),
            0 <= k < links_of(self.objects[i].data@).len(),
            self.objects[j2].hash@ == links_of(self.objects[i].data@)[k],
        ensures
            reachable(self@, rv, self.objects[j2].hash@),
    {
        let a = self.objects[i].hash@;
        let b = self.objects[j2].hash@;
        self.lemma_entry(i);
        self.lemma_entry(j2);
        let p = choose|p: Seq<Seq<u8>>| #[trigger] is_walk(self@, p) && rv.contains(p[0]) && p.last() == a;
        assert(links_of(self@[a]).contains(b)) by {
            assert(links_of(self@[a])[k] == b);
        }
        assert(refers_to(self@, a, b));
        let q = p.push(b);
        assert forall|x: int| 0 <= x < q.len() - 1 implies #[trigger] refers_to(self@, q[x], q[x + 1]) by {
            if x < p.len() - 1 {
                assert(q[x] == p[x] && q[x + 1] == p[x + 1]);
                assert(refers_to(self@, p[x], p[x + 1]));
            } else {
                assert(q[x] == a && q[x + 1] == b);
            }
        }
        assert(is_walk(self@, q));
        assert(q[0] == p[0]);
    }

    proof fn lemma_walks_marked(&self, rv: Seq<Seq<u8>>, marked: Seq<bool>, p: Seq<Seq<u8>>, n: int)
        requires
            self.wf(),
            self.walk_inv(rv, marked, Seq::empty(), -1),
            self.roots_marked(rv, rv.len() as int, marked),
            is_walk(self@, p),
            rv.contains(p[0]),
            0 <= n < p.len(),
        ensures
            forall|j: int| 0 <= j < self.objects.len() && #[trigger] self.objects[j].hash@ == p[n] ==> marked[j],
        decreases n,
    {
        if n == 0 {
            let ri = choose|ri: int| 0 <= ri < rv.len() && rv[ri] == p[0];
            assert forall|j: int| 0 <= j < self.objects.len() && #[trigger] self.objects[j].hash@ == p[n] implies marked[j] by {
                assert(self.objects[j].hash@ == rv[ri]);
            }
        } else {
            self.lemma_walks_marked(rv, marked, p, n - 1);
            let n0 = n - 1;
            assert(refers_to(self@, p[n0], p[n0 + 1]));
            let a = p[n - 1];
            let i = choose|i: int| 0 <= i < self.objects.len() && self.objects[i].hash@ == a;
            self.lemma_entry(i);
            assert(marked[i]);
            assert(!Seq::<usize>::empty().contains(i as usize));
            assert(self.closed_at(i, marked));
            let k = choose|k: int| 0 <= k < links_of(self@[a]).len() && links_of(self@[a])[k] == p[n];
            assert forall|j: int| 0 <= j < self.objects.len() && #[trigger] self.objects[j].hash@ == p[n] implies marked[j] by {
                assert(self.objects[j].hash@ == links_of(self.objects[i].data@)[k]);
            }
        }
    }

    /// Marks the object stored under `h`, if any and not yet marked, and adds
    /// it to the work list.
    fn mark(
        &self,
        h: &[u8],
        marked: &mut Vec<bool>,
        work: &mut Vec<usize>,
        Ghost(rv): Ghost<Seq<Seq<u8>>>,
        Ghost(busy): Ghost<int>,
    )
        requires
            self.wf(),
            self.walk_inv(rv, old(marked)@, old(work)@, busy),
            forall|j: int| 0 <= j < self.objects.len() && self.objects[j].hash@ == h@ ==> reachable(self@, rv, h@),
        ensures
            self.walk_inv(rv, final(marked)@, final(work)@, busy),
            forall|j: int| 0 <= j < self.objects.len() && self.objects[j].hash@ == h@ ==> final(marked)@[j],
            forall|j: int| 0 <= j < old(marked)@.len() && old(marked)@[j] ==> final(marked)@[j],
            2 * count_false(final(marked)@) + final(work)@.len() <= 2 * count_false(old(marked)@) + old(work)@.len(),
    {
        match self.find(h) {
            Some(j) => {
                if !marked[j] {
                    proof {
                        lemma_count_false_update(marked@, j as int);
                    }
                    let ghost m0 = marked@;
                    let ghost w0 = work@;
                    marked.set(j, true);
                    work.push(j);
                    proof {
                        assert forall|j1: int| 0 <= j1 < marked@.len() && #[trigger] marked@[j1] && !work@.contains(j1 as usize) && j1 != busy
                            implies self.closed_at(j1, marked@) by {
                            assert(work@[w0.len() as int] == j);
                            assert(j1 != j);
                            assert(m0[j1]);
                            if w0.contains(j1 as usize) {
                                let x = choose|x: int| 0 <= x < w0.len() && w0[x] == j1 as usize;
                                assert(work@[x] == j1 as usize);
                            }
                            assert(self.closed_at(j1, m0));
                        }
                        assert forall|x: int| 0 <= x < work@.len() implies #[trigger] work@[x] < marked@.len() && marked@[work@[x] as int] by {
                            if x < w0.len() {
                                assert(work@[x] == w0[x]);
                            }
                        }
                        assert forall|j1: int| 0 <= j1 < marked@.len() && #[trigger] marked@[j1] implies reachable(self@, rv, self.objects[j1].hash@) by {
                            if j1 != j {
                                assert(m0[j1]);
                            }
                        }
                    }
                }
                proof {
                    assert forall|j1: int| 0 <= j1 < self.objects.len() && self.objects[j1].hash@ == h@ implies marked@[j1] by {
                        assert(j1 == j);
                    }
                }
            },
            None => {
                proof {
                    assert forall|j1: int| 0 <= j1 < self.objects.len() implies self.objects[j1].hash@ != h@ by {
                        self.lemma_entry(j1);
                    }
                }
            },
        }
    }

    fn mark_roots(&self, roots: &Vec<Vec<u8>>, marked: &mut Vec<bool>, work: &mut Vec<usize>)
        requires
            self.wf(),
            self.walk_inv(hashes_view(roots@), old(marked)@, old(work)@, -1),
        ensures
            self.walk_inv(hashes_view(roots@), final(marked)@, final(work)@, -1),
            self.roots_marked(hashes_view(roots@), roots@.len() as int, final(marked)@),
    {
        let ghost rv = hashes_view(roots@);
        let mut ri: usize = 0;
        while ri < roots.len()
            invariant
                self.wf(),
                ri <= roots@.len(),
                rv == hashes_view(roots@),
                self.walk_inv(rv, marked@, work@, -1),
                self.roots_marked(rv, ri as int, marked@),
            decreases roots@.len() - ri,
        {
            let ghost m0 = marked@;
            proof {
                assert forall|j: int| 0 <= j < self.objects.len() && self.objects[j].hash@ == roots@[ri as int]@
                    implies reachable(self@, rv, roots@[ri as int]@) by {
                    self.lemma_root_reachable(rv, ri as int, j);
                }
            }
            self.mark(roots[ri].as_slice(), marked, work, Ghost(rv), Ghost(-1));
            proof {
                assert forall|x: int, j: int| 0 <= x < ri + 1 && 0 <= j < self.objects.len()
                    && #[trigger] self.objects[j].hash@ == #[trigger] rv[x] implies marked@[j] by {
                    if x < ri {
                        assert(m0[j]);
                    }
                }
            }
            ri = ri + 1;
        }
    }

    /// Marks the stored references of object `i`, taken off the work list.
    fn expand(&self, i: usize, marked: &mut Vec<bool>, work: &mut Vec<usize>, Ghost(rv): Ghost<Seq<Seq<u8>>>)
        requires
            self.wf(),
            i < self.objects.len(),
            self.walk_inv(rv, old(marked)@, old(work)@, i as int),
            old(marked)@[i as int],
        ensures
            self.walk_inv(rv, final(marked)@, final(work)@, -1),
            forall|j: int| 0 <= j < old(marked)@.len() && old(marked)@[j] ==> final(marked)@[j],
            2 * count_false(final(marked)@) + final(work)@.len() <= 2 * count_false(old(marked)@) + old(work)@.len(),
    {
        let data = self.objects[i].data.as_slice();
        let count = link_count(data);
        let mut k: usize = 0;
        while k < count
            invariant
                self.wf(),
                i < self.objects.len(),
                data@ == self.objects[i as int].data@,
                count == links_of(data@).len(),
                k <= count,
                self.walk_inv(rv, marked@, work@, i as int),
                marked@[i as int],
                old(marked)@.len() == self.objects.len(),
                forall|j: int| 0 <= j < old(marked)@.len() && old(marked)@[j] ==> marked@[j],
                forall|kk: int, j2: int| 0 <= kk < k && 0 <= j2 < self.objects.len()
                    && #[trigger] self.objects[j2].hash@ == #[trigger] links_of(data@)[kk] ==> marked@[j2],
                2 * count_false(marked@) + work@.len() <= 2 * count_false(old(marked)@) + old(work)@.len(),
            decreases count - k,
        {
            let h = link(data, k);
            let ghost m1 = marked@;
            proof {
                assert(reachable(self@, rv, self.objects[i as int].hash@));
                assert forall|j: int| 0 <= j < self.objects.len() && self.objects[j].hash@ == h@
                    implies reachable(self@, rv, h@) by {
                    self.lemma_child_reachable(rv, i as int, k as int, j);
                }
            }
            self.mark(h.as_slice(), marked, work, Ghost(rv), Ghost(i as int));
            proof {
                assert forall|j: int| 0 <= j < old(marked)@.len() && old(marked)@[j] implies marked@[j] by {
                    assert(m1[j]);
                }
                assert forall|kk: int, j2: int| 0 <= kk < k + 1 && 0 <= j2 < self.objects.len()
                    && #[trigger] self.objects[j2].hash@ == #[trigger] links_of(data@)[kk] implies marked@[j2] by {
                    if kk < k {
                        assert(m1[j2]);
                    }
                }
            }
            k = k + 1;
        }
        proof {
            assert(self.closed_at(i as int, marked@));
        }
    }

    /// The stored objects reachable from `roots` by following the references
    /// in their bytes, each once. Roots that are not stored reach nothing.
    pub fn reachable_objects(&self, roots: &Vec<Vec<u8>>) -> (r: Vec<StoredObject>)
        requires
            self.wf(),
        ensures
            forall|i: int| 0 <= i < r@.len() ==> #[trigger] self@.contains_key(r@[i].hash@) && self@[r@[i].hash@] == r@[i].data@
                && reachable(self@, hashes_view(roots@), r@[i].hash@),
            forall|h: Seq<u8>| reachable(self@, hashes_view(roots@), h) ==> exists|i: int| 0 <= i < r@.len() && #[trigger] r@[i].hash@ == h,
            forall|i: int, j: int| 0 <= i < r@.len() && 0 <= j < r@.len() && i != j ==> r@[i].hash@ != r@[j].hash@,
    {
        let ghost rv = hashes_view(roots@);
        let n = self.objects.len();
        let mut marked: Vec<bool> = Vec::new();
        let mut c: usize = 0;
        while c < n
            invariant
                c <= n,
                n == self.objects.len(),
                marked@.len() == c,
                forall|j: int| 0 <= j < c ==> !#[trigger] marked@[j],
            decreases n - c,
        {
            marked.push(false);
            c = c + 1;
        }
        let mut work: Vec<usize> = Vec::new();
        self.mark_roots(roots, &mut marked, &mut work);
        while work.len() > 0
            invariant
                self.wf(),
                rv == hashes_view(roots@),
                self.walk_inv(rv, marked@, work@, -1),
                self.roots_marked(rv, rv.len() as int, marked@),
            decreases 2 * count_false(marked@) + work@.len(),
        {
            let ghost w0 = work@;
            let i = work.pop().unwrap();
            proof {
                assert(w0 == work@.push(i));
                assert forall|j: int| 0 <= j < marked@.len() && #[trigger] marked@[j] && !work@.contains(j as usize) && j != i
                    implies self.closed_at(j, marked@) by {
                    if w0.contains(j as usize) {
                        let x = choose|x: int| 0 <= x < w0.len() && w0[x] == j as usize;
                        assert(x < work@.len());
                        assert(work@[x] == j as usize);
                    }
                }
                assert forall|x: int| 0 <= x < work@.len() implies #[trigger] work@[x] < marked@.len() && marked@[work@[x] as int] by {
                    assert(work@[x] == w0[x]);
                }
                assert(w0[w0.len() - 1] == i);
            }
            let ghost m0 = marked@;
            self.expand(i, &mut marked, &mut work, Ghost(rv));
            proof {
                assert forall|x: int, j: int| 0 <= x < rv.len() && 0 <= j < self.objects.len()
                    && #[trigger] self.objects[j].hash@ == #[trigger] rv[x] implies marked@[j] by {
                    assert(m0[j]);
                }
            }
        }
        self.collect_marked(&marked, Ghost(rv))
    }

    fn collect_marked(&self, marked: &Vec<bool>, Ghost(rv): Ghost<Seq<Seq<u8>>>) -> (r: Vec<StoredObject>)
        requires
            self.wf(),
            self.walk_inv(rv, marked@, Seq::empty(), -1),
            self.roots_marked(rv, rv.len() as int, marked@),
        ensures
            forall|i: int| 0 <= i < r@.len() ==> #[trigger] self@.contains_key(r@[i].hash@) && self@[r@[i].hash@] == r@[i].data@
                && reachable(self@, rv, r@[i].hash@),
            forall|h: Seq<u8>| reachable(self@, rv, h) ==> exists|i: int| 0 <= i < r@.len() && #[trigger] r@[i].hash@ == h,
            forall|i: int, j: int| 0 <= i < r@.len() && 0 <= j < r@.len() && i != j ==> r@[i].hash@ != r@[j].hash@,
    {
        let mut r: Vec<StoredObject> = Vec::new();
        let ghost mut idx: Seq<int> = Seq::empty();
        let mut c: usize = 0;
        while c < self.objects.len()
            invariant
                self.wf(),
                self.walk_inv(rv, marked@, Seq::empty(), -1),
                c <= self.objects.len(),
                idx.len() == r@.len(),
                forall|x: int| 0 <= x < idx.len() ==> 0 <= #[trigger] idx[x] < c && marked@[idx[x]]
                    && r@[x].hash@ == self.objects[idx[x]].hash@ && r@[x].data@ == self.objects[idx[x]].data@,
                forall|x: int, y: int| 0 <= x < y < idx.len() ==> idx[x] < idx[y],
                forall|j: int| 0 <= j < c && #[trigger] marked@[j] ==> exists|x: int| 0 <= x < idx.len() && idx[x] == j,
            decreases self.objects.len() - c,
        {
            if marked[c] {
                let o = &self.objects[c];
                r.push(StoredObject { hash: copy_bytes(&o.hash), data: copy_bytes(&o.data) });
                proof {
                    let ghost idx0 = idx;
                    idx = idx.push(c as int);
                    assert forall|j: int| 0 <= j < c + 1 && #[trigger] marked@[j] implies exists|x: int| 0 <= x < idx.len() && idx[x] == j by {
                        if j == c {
                            assert(idx[idx.len() - 1] == j);
                        } else {
                            let x = choose|x: int| 0 <= x < idx0.len() && idx0[x] == j;
                            assert(idx[x] == j);
                        }
                    }
                }
            }
            c = c + 1;
        }
        proof {
            assert forall|i: int| 0 <= i < r@.len() implies #[trigger] self@.contains_key(r@[i].hash@) && self@[r@[i].hash@] == r@[i].data@
                && reachable(self@, rv, r@[i].hash@) by {
                self.lemma_entry(idx[i]);
            }
            assert forall|h: Seq<u8>| reachable(self@, rv, h) implies exists|i: int| 0 <= i < r@.len() && #[trigger] r@[i].hash@ == h by {
                let p = choose|p: Seq<Seq<u8>>| #[trigger] is_walk(self@, p) && rv.contains(p[0]) && p.last() == h;
                let last = p.len() - 1;
                self.lemma_walks_marked(rv, marked@, p, last);
                if last > 0 {
                    let l0 = last - 1;
                    assert(refers_to(self@, p[l0], p[l0 + 1]));
                }
                assert(self@.contains_key(h));
                let j = choose|j: int| 0 <= j < self.objects.len() && self.objects[j].hash@ == h;
                assert(marked@[j]);
                let x = choose|x: int| 0 <= x < idx.len() && idx[x] == j;
                assert(r@[x].hash@ == h);
            }
            assert forall|i: int, j: int| 0 <= i < r@.len() && 0 <= j < r@.len() && i != j implies r@[i].hash@ != r@[j].hash@ by {
                if i < j {
                    assert(idx[i] < idx[j]);
                } else {
                    assert(idx[j] < idx[i]);
                }
            }
        }
        r
    }
}

} // verus!
