//! Named, mutable pointers to object hashes, changed only by compare-and-swap.
use vstd::prelude::*;
use crate::object::{copy_bytes, same_bytes};

verus! {

/// One ref and the hash it points to.
pub struct RefEntry {
    pub name: String,
    pub target: Vec<u8>,
}

/// A requested ref change: the ref, the hash it is expected to hold now
/// (`None`: the ref is expected to be absent), and its new hash.
pub struct RefUpdate {
    pub name: String,
    pub expected: Option<Vec<u8>>,
    pub new: Vec<u8>,
}

/// A ref whose current value differs from the one an update expected.
#[derive(Debug)]
pub struct RefConflict {
    pub name: String,
    pub actual: Option<Vec<u8>>,
}

impl RefUpdate {
    /// Whether the refs `m` hold what this update expects.
    pub open spec fn matches(self, m: Map<Seq<char>, Seq<u8>>) -> bool {
        opt_bytes(self.expected) == lookup(m, self.name@)
    }
}

/// Whether the refs `m` hold what every update of the batch expects.
pub open spec fn batch_matches(m: Map<Seq<char>, Seq<u8>>, us: Seq<RefUpdate>) -> bool {
    forall|i: int| 0 <= i < us.len() ==> #[trigger] us[i].matches(m)
}

/// The refs `m` after setting each update's ref to its new hash, in order.
pub open spec fn apply_batch(m: Map<Seq<char>, Seq<u8>>, us: Seq<RefUpdate>) -> Map<Seq<char>, Seq<u8>>
    decreases us.len(),
{
    if us.len() == 0 {
        m
    } else {
        apply_batch(m, us.drop_last()).insert(us.last().name@, us.last().new@)
    }
}

/// The ref value an `Option` of bytes stands for.
pub open spec fn opt_bytes(o: Option<Vec<u8>>) -> Option<Seq<u8>> {
    match o {
        Some(v) => Some(v@),
        None => None,
    }
}

/// The value of ref `name` in `m`, if any.
pub open spec fn lookup(m: Map<Seq<char>, Seq<u8>>, name: Seq<char>) -> Option<Seq<u8>> {
    if m.contains_key(name) {
        Some(m[name])
    } else {
        None
    }
}

/// The refs of one repository.
pub struct RefStore {
    refs: Vec<RefEntry>,
}

impl View for RefStore {
    type V = Map<Seq<char>, Seq<u8>>;

    /// Each ref name maps to the hash it points to.
    closed spec fn view(&self) -> Map<Seq<char>, Seq<u8>> {
        Map::new(
            |n: Seq<char>| exists|i: int| 0 <= i < self.refs.len() && self.refs[i].name@ == n,
            |n: Seq<char>|
                self.refs[choose|i: int|
                    0 <= i < self.refs.len() && self.refs[i].name@ == n].target@,
        )
    }
}

impl RefStore {
    /// Ref names are unique.
    pub closed spec fn wf(&self) -> bool {
        forall|i: int, j: int|
            0 <= i < self.refs.len() && 0 <= j < self.refs.len() && i != j
                ==> self.refs[i].name@ != self.refs[j].name@
    }

    proof fn lemma_entry(&self, i: int)
        requires
            self.wf(),
            0 <= i < self.refs.len(),
        ensures
            self@.contains_key(self.refs[i].name@),
            self@[self.refs[i].name@] == self.refs[i].target@,
    {
        let n = self.refs[i].name@;
        assert(self@.contains_key(n));
        let j = choose|j: int| 0 <= j < self.refs.len() && self.refs[j].name@ == n;
        assert(i == j);
    }

    /// A store without refs.
    pub fn new() -> (r: RefStore)
        ensures
            r.wf(),
            r@ == Map::<Seq<char>, Seq<u8>>::empty(),
    {
        let r = RefStore { refs: Vec::new() };
        assert(r@ =~= Map::<Seq<char>, Seq<u8>>::empty());
        r
    }

    fn find(&self, name: &String) -> (r: Option<usize>)
        requires
            self.wf(),
        ensures
            match r {
                Some(i) => i < self.refs.len() && self.refs[i as int].name@ == name@,
                None => !self@.contains_key(name@),
            },
    {
        let mut i: usize = 0;
        while i < self.refs.len()
            invariant
                i <= self.refs.len(),
                forall|j: int| 0 <= j < i ==> self.refs[j].name@ != name@,
            decreases self.refs.len() - i,
        {
            if self.refs[i].name == *name {
                return Some(i);
            }
            i = i + 1;
        }
        None
    }

    /// The hash that ref `name` points to, or `None` where it is absent.
    pub fn resolve(&self, name: &String) -> (r: Option<Vec<u8>>)
        requires
            self.wf(),
        ensures
            opt_bytes(r) == lookup(self@, name@),
    {
        match self.find(name) {
            Some(i) => {
                proof {
                    self.lemma_entry(i as int);
                }
                Some(copy_bytes(&self.refs[i].target))
            },
            None => None,
        }
    }

    /// The names of all refs with their hashes.
    pub fn entries(&self) -> (r: Vec<(String, Vec<u8>)>)
        requires
            self.wf(),
        ensures
            r@.len() == self@.len(),
            forall|i: int| 0 <= i < r@.len() ==> #[trigger] self@.contains_key(r@[i].0@) && self@[r@[i].0@] == r@[i].1@,
    {
        proof {
            self.lemma_len();
        }
        let mut r: Vec<(String, Vec<u8>)> = Vec::new();
        let mut i: usize = 0;
        while i < self.refs.len()
            invariant
                self.wf(),
                i <= self.refs.len(),
                r@.len() == i,
                forall|j: int| 0 <= j < i ==> r@[j].0@ == self.refs[j].name@ && r@[j].1@ == self.refs[j].target@,
            decreases self.refs.len() - i,
        {
            r.push((self.refs[i].name.clone(), copy_bytes(&self.refs[i].target)));
            i = i + 1;
        }
        assert forall|j: int| 0 <= j < r@.len() implies #[trigger] self@.contains_key(r@[j].0@) && self@[r@[j].0@] == r@[j].1@ by {
            self.lemma_entry(j);
        }
        r
    }

    proof fn lemma_len(&self)
        requires
            self.wf(),
        ensures
            self@.dom().finite(),
            self@.len() == self.refs.len(),
    {
        let names = Seq::new(self.refs.len() as nat, |i: int| self.refs[i].name@);
        names.unique_seq_to_set();
        assert(self@.dom() =~= names.to_set()) by {
            assert forall|n: Seq<char>| self@.dom().contains(n) implies names.to_set().contains(n) by {
                let i = choose|i: int| 0 <= i < self.refs.len() && self.refs[i].name@ == n;
                assert(names[i] == n);
            }
        }
    }

    /// Points ref `name` at `target`, creating it where absent.
    fn set(&mut self, name: String, target: Vec<u8>)
        requires
            old(self).wf(),
        ensures
            final(self).wf(),
            final(self)@ == old(self)@.insert(name@, target@),
    {
        let ghost before = *self;
        let ghost key = name@;
        let ghost value = target@;
        match self.find(&name) {
            Some(i) => {
                self.refs.set(i, RefEntry { name, target });
                proof {
                    assert(self.wf());
                    assert(self.refs[i as int].name@ == key && self.refs[i as int].target@ == value);
                    assert forall|j: int| 0 <= j < self.refs.len() && self.refs[j].name@ != key implies exists|k: int|
                        0 <= k < before.refs.len() && before.refs[k] == self.refs[j] by {
                        assert(before.refs[j] == self.refs[j]);
                    }
                    assert forall|j: int| 0 <= j < before.refs.len() && before.refs[j].name@ != key implies exists|k: int|
                        0 <= k < self.refs.len() && before.refs[j] == self.refs[k] by {
                        assert(before.refs[j] == self.refs[j]);
                    }
                    self.lemma_changed(before, key, value);
                }
            },
            None => {
                self.refs.push(RefEntry { name, target });
                proof {
                    assert forall|j: int| 0 <= j < before.refs.len() implies before.refs[j].name@ != key by {
                        before.lemma_entry(j);
                    }
                    assert(self.wf());
                    let last = before.refs.len() as int;
                    assert(self.refs[last].name@ == key && self.refs[last].target@ == value);
                    assert forall|j: int| 0 <= j < self.refs.len() && self.refs[j].name@ != key implies exists|k: int|
                        0 <= k < before.refs.len() && before.refs[k] == self.refs[j] by {
                        assert(before.refs[j] == self.refs[j]);
                    }
                    assert forall|j: int| 0 <= j < before.refs.len() && before.refs[j].name@ != key implies exists|k: int|
                        0 <= k < self.refs.len() && before.refs[j] == self.refs[k] by {
                        assert(before.refs[j] == self.refs[j]);
                    }
                    self.lemma_changed(before, key, value);
                }
            },
        }
    }

    proof fn lemma_changed(&self, before: RefStore, n: Seq<char>, t: Seq<u8>)
        requires
            before.wf(),
            self.wf(),
            exists|i: int| 0 <= i < self.refs.len() && self.refs[i].name@ == n && self.refs[i].target@ == t,
            forall|i: int| 0 <= i < self.refs.len() && self.refs[i].name@ != n ==> exists|j: int|
                0 <= j < before.refs.len() && before.refs[j] == self.refs[i],
            forall|j: int| 0 <= j < before.refs.len() && before.refs[j].name@ != n ==> exists|i: int|
                0 <= i < self.refs.len() && before.refs[j] == self.refs[i],
        ensures
            self@ == before@.insert(n, t),
    {
        assert forall|k: Seq<char>| #[trigger] self@.contains_key(k) <==> before@.insert(n, t).contains_key(k) by {
            if self@.contains_key(k) && k != n {
                let i = choose|i: int| 0 <= i < self.refs.len() && self.refs[i].name@ == k;
                let j = choose|j: int| 0 <= j < before.refs.len() && before.refs[j] == self.refs[i];
                assert(before.refs[j].name@ == k);
            }
            if before@.contains_key(k) && k != n {
                let j = choose|j: int| 0 <= j < before.refs.len() && before.refs[j].name@ == k;
                let i = choose|i: int| 0 <= i < self.refs.len() && before.refs[j] == self.refs[i];
                assert(self.refs[i].name@ == k);
            }
            if k == n {
                let i = choose|i: int| 0 <= i < self.refs.len() && self.refs[i].name@ == n && self.refs[i].target@ == t;
                assert(self.refs[i].name@ == k);
            }
        }
        assert forall|k: Seq<char>| #[trigger] self@.contains_key(k) implies self@[k] == before@.insert(n, t)[k] by {
            let i = choose|i: int| 0 <= i < self.refs.len() && self.refs[i].name@ == k;
            self.lemma_entry(i);
            if k != n {
                let j = choose|j: int| 0 <= j < before.refs.len() && before.refs[j] == self.refs[i];
                before.lemma_entry(j);
            } else {
                let i2 = choose|i: int| 0 <= i < self.refs.len() && self.refs[i].name@ == n && self.refs[i].target@ == t;
                self.lemma_entry(i2);
            }
        }
        assert(self@ =~= before@.insert(n, t));
    }

    /// Points ref `name` at `new` if it holds `expected` now (`None`: if it is
    /// absent); otherwise reports the value it holds and changes nothing.
    pub fn compare_and_swap(&mut self, name: &String, expected: &Option<Vec<u8>>, new: Vec<u8>) -> (r:
        Result<(), RefConflict>)
        requires
            old(self).wf(),
        ensures
            final(self).wf(),
            r is Ok <==> opt_bytes(*expected) == lookup(old(self)@, name@),
            r is Ok ==> final(self)@ == old(self)@.insert(name@, new@),
            r matches Err(c) ==> final(self)@ == old(self)@ && c.name@ == name@ && opt_bytes(c.actual)
                == lookup(old(self)@, name@),
    {
        let actual = self.resolve(name);
        if !same_ref_value(&actual, expected) {
            return Err(RefConflict { name: name.clone(), actual });
        }
        self.set(name.clone(), new);
        Ok(())
    }

    /// Applies every update of the batch if the refs hold what each one
    /// expects; otherwise reports the first update that does not match and
    /// changes nothing.
    pub fn compare_and_swap_batch(&mut self, updates: &Vec<RefUpdate>) -> (r: Result<(), RefConflict>)
        requires
            old(self).wf(),
        ensures
            final(self).wf(),
            r is Ok <==> batch_matches(old(self)@, updates@),
            r is Ok ==> final(self)@ == apply_batch(old(self)@, updates@),
            r matches Err(c) ==> final(self)@ == old(self)@ && opt_bytes(c.actual) == lookup(
                old(self)@,
                c.name@,
            ) && exists|i: int|
                0 <= i < updates@.len() && !(#[trigger] updates@[i].matches(old(self)@))
                    && updates@[i].name@ == c.name@,
    {
        let mut i: usize = 0;
        while i < updates.len()
            invariant
                self.wf(),
                i <= updates@.len(),
                forall|j: int| 0 <= j < i ==> #[trigger] updates@[j].matches(self@),
            decreases updates@.len() - i,
        {
            let u = &updates[i];
            let actual = self.resolve(&u.name);
            if !same_ref_value(&actual, &u.expected) {
                assert(!updates@[i as int].matches(self@));
                return Err(RefConflict { name: u.name.clone(), actual });
            }
            i = i + 1;
        }
        let ghost start = self@;
        let mut k: usize = 0;
        while k < updates.len()
            invariant
                self.wf(),
                k <= updates@.len(),
                self@ == apply_batch(start, updates@.subrange(0, k as int)),
            decreases updates@.len() - k,
        {
            let u = &updates[k];
            self.set(u.name.clone(), copy_bytes(&u.new));
            proof {
                let s = updates@.subrange(0, k + 1);
                assert(s.drop_last() =~= updates@.subrange(0, k as int));
            }
            k = k + 1;
        }
        assert(updates@.subrange(0, updates@.len() as int) =~= updates@);
        Ok(())
    }
}

/// Whether two optional ref values are the same.
fn same_ref_value(a: &Option<Vec<u8>>, b: &Option<Vec<u8>>) -> (r: bool)
    ensures
        r == (opt_bytes(*a) == opt_bytes(*b)),
{
    match (a, b) {
        (Some(x), Some(y)) => same_bytes(x.as_slice(), y.as_slice()),
        (None, None) => true,
        _ => false,
    }
}


} // verus!
