//! Per-repository write sections: at most one push holds a repository's
//! section, later pushes wait in a bounded queue, and sections of different
//! repositories never affect each other. The decisions are made here; the
//! caller performs the waiting.
use vstd::prelude::*;

verus! {

/// The answer to a request for a repository's write section.
#[derive(Clone, Copy, Debug, PartialEq, Eq, Structural)]
pub enum Admission {
    /// The section was free and is now held by the caller.
    Granted,
    /// The section is held; the caller waits in the queue.
    Queued,
    /// The section is held and the queue is full.
    Busy,
}

/// What releasing a write section did.
#[derive(Clone, Copy, Debug, PartialEq, Eq, Structural)]
pub enum Release {
    /// The first waiter now holds the section.
    HandedOver,
    /// Nobody was waiting; the section is free.
    Freed,
    /// The section was not held.
    NotHeld,
}

/// One repository's section: whether it is held and how many wait for it.
pub struct Section {
    pub slug: String,
    pub held: bool,
    pub waiting: u64,
}

/// The held state and queue length of a repository slug in `m`.
pub open spec fn section_of(m: Map<Seq<char>, (bool, u64)>, slug: Seq<char>) -> (bool, u64) {
    if m.contains_key(slug) {
        m[slug]
    } else {
        (false, 0)
    }
}

/// The answer to a request for `slug`'s section and the sections after it.
pub open spec fn spec_acquire(m: Map<Seq<char>, (bool, u64)>, slug: Seq<char>, max_queue_depth: u64) -> (
    Admission,
    Map<Seq<char>, (bool, u64)>,
) {
    let (held, waiting) = section_of(m, slug);
    if !held {
        (Admission::Granted, m.insert(slug, (true, 0)))
    } else if waiting < max_queue_depth {
        (Admission::Queued, m.insert(slug, (true, (waiting + 1) as u64)))
    } else {
        (Admission::Busy, m)
    }
}

/// The result of releasing `slug`'s section and the sections after it.
pub open spec fn spec_release(m: Map<Seq<char>, (bool, u64)>, slug: Seq<char>) -> (
    Release,
    Map<Seq<char>, (bool, u64)>,
) {
    let (held, waiting) = section_of(m, slug);
    if !held {
        (Release::NotHeld, m)
    } else if waiting > 0 {
        (Release::HandedOver, m.insert(slug, (true, (waiting - 1) as u64)))
    } else {
        (Release::Freed, m.insert(slug, (false, 0)))
    }
}

/// The write sections of all repositories.
pub struct WriteCoordinator {
    sections: Vec<Section>,
    max_queue_depth: u64,
}

impl View for WriteCoordinator {
    type V = Map<Seq<char>, (bool, u64)>;

    /// Each slug that was ever requested maps to its held state and queue length.
    closed spec fn view(&self) -> Map<Seq<char>, (bool, u64)> {
        Map::new(
            |s: Seq<char>| exists|i: int| 0 <= i < self.sections.len() && self.sections[i].slug@ == s,
            |s: Seq<char>|
                {
                    let i = choose|i: int| 0 <= i < self.sections.len() && self.sections[i].slug@ == s;
                    (self.sections[i].held, self.sections[i].waiting)
                },
        )
    }
}

impl WriteCoordinator {
    /// Slugs are unique.
    pub closed spec fn wf(&self) -> bool {
        forall|i: int, j: int|
            0 <= i < self.sections.len() && 0 <= j < self.sections.len() && i != j
                ==> self.sections[i].slug@ != self.sections[j].slug@
    }

    /// How many pushes may wait for one repository.
    pub closed spec fn depth(&self) -> u64 {
        self.max_queue_depth
    }

    proof fn lemma_entry(&self, i: int)
        requires
            self.wf(),
            0 <= i < self.sections.len(),
        ensures
            self@.contains_key(self.sections[i].slug@),
            self@[self.sections[i].slug@] == (self.sections[i].held, self.sections[i].waiting),
    {
        let s = self.sections[i].slug@;
        assert(self@.contains_key(s));
        let j = choose|j: int| 0 <= j < self.sections.len() && self.sections[j].slug@ == s;
        assert(i == j);
    }

    /// No section held, and queues of at most `max_queue_depth` waiters.
    pub fn new(max_queue_depth: u64) -> (r: WriteCoordinator)
        ensures
            r.wf(),
            r@ == Map::<Seq<char>, (bool, u64)>::empty(),
            r.depth() == max_queue_depth,
    {
        let r = WriteCoordinator { sections: Vec::new(), max_queue_depth };
        assert(r@ =~= Map::<Seq<char>, (bool, u64)>::empty());
        r
    }

    fn find(&self, slug: &String) -> (r: Option<usize>)
        requires
            self.wf(),
        ensures
            match r {
                Some(i) => i < self.sections.len() && self.sections[i as int].slug@ == slug@,
                None => !self@.contains_key(slug@),
            },
    {
        let mut i: usize = 0;
        while i < self.sections.len()
            invariant
                i <= self.sections.len(),
                forall|j: int| 0 <= j < i ==> self.sections[j].slug@ != slug@,
            decreases self.sections.len() - i,
        {
            if self.sections[i].slug == *slug {
                return Some(i);
            }
            i = i + 1;
        }
        None
    }

    /// The held state and queue length of `slug`'s section.
    pub fn section(&self, slug: &String) -> (r: (bool, u64))
        requires
            self.wf(),
        ensures
            r == section_of(self@, slug@),
    {
        match self.find(slug) {
            Some(i) => {
                proof {
                    self.lemma_entry(i as int);
                }
                (self.sections[i].held, self.sections[i].waiting)
            },
            None => (false, 0),
        }
    }

    fn put_section(&mut self, slug: &String, held: bool, waiting: u64)
        requires
            old(self).wf(),
        ensures
            final(self).wf(),
            final(self).depth() == old(self).depth(),
            final(self)@ == old(self)@.insert(slug@, (held, waiting)),
    {
        let ghost before = *self;
        let ghost key = slug@;
        match self.find(slug) {
            Some(i) => {
                self.sections.set(i, Section { slug: slug.clone(), held, waiting });
                proof {
                    assert(self.wf());
                    assert(self.sections[i as int].slug@ == key);
                    assert forall|j: int| 0 <= j < self.sections.len() && self.sections[j].slug@ != key implies exists|k: int|
                        0 <= k < before.sections.len() && before.sections[k] == self.sections[j] by {
                        assert(before.sections[j] == self.sections[j]);
                    }
                    assert forall|j: int| 0 <= j < before.sections.len() && before.sections[j].slug@ != key implies exists|k: int|
                        0 <= k < self.sections.len() && before.sections[j] == self.sections[k] by {
                        assert(before.sections[j] == self.sections[j]);
                    }
                    self.lemma_changed(before, key, held, waiting);
                }
            },
            None => {
                self.sections.push(Section { slug: slug.clone(), held, waiting });
                proof {
                    assert forall|j: int| 0 <= j < before.sections.len() implies before.sections[j].slug@ != key by {
                        before.lemma_entry(j);
                    }
                    assert(self.wf());
                    let last = before.sections.len() as int;
                    assert(self.sections[last].slug@ == key);
                    assert forall|j: int| 0 <= j < self.sections.len() && self.sections[j].slug@ != key implies exists|k: int|
                        0 <= k < before.sections.len() && before.sections[k] == self.sections[j] by {
                        assert(before.sections[j] == self.sections[j]);
                    }
                    assert forall|j: int| 0 <= j < before.sections.len() && before.sections[j].slug@ != key implies exists|k: int|
                        0 <= k < self.sections.len() && before.sections[j] == self.sections[k] by {
                        assert(before.sections[j] == self.sections[j]);
                    }
                    self.lemma_changed(before, key, held, waiting);
                }
            },
        }
    }

    proof fn lemma_changed(&self, before: WriteCoordinator, n: Seq<char>, held: bool, waiting: u64)
        requires
            before.wf(),
            self.wf(),
            exists|i: int| 0 <= i < self.sections.len() && self.sections[i].slug@ == n && self.sections[i].held == held
                && self.sections[i].waiting == waiting,
            forall|i: int| 0 <= i < self.sections.len() && self.sections[i].slug@ != n ==> exists|j: int|
                0 <= j < before.sections.len() && before.sections[j] == self.sections[i],
            forall|j: int| 0 <= j < before.sections.len() && before.sections[j].slug@ != n ==> exists|i: int|
                0 <= i < self.sections.len() && before.sections[j] == self.sections[i],
        ensures
            self@ == before@.insert(n, (held, waiting)),
    {
        assert forall|k: Seq<char>| #[trigger] self@.contains_key(k) <==> before@.insert(n, (held, waiting)).contains_key(k) by {
            if self@.contains_key(k) && k != n {
                let i = choose|i: int| 0 <= i < self.sections.len() && self.sections[i].slug@ == k;
                let j = choose|j: int| 0 <= j < before.sections.len() && before.sections[j] == self.sections[i];
                assert(before.sections[j].slug@ == k);
            }
            if before@.contains_key(k) && k != n {
                let j = choose|j: int| 0 <= j < before.sections.len() && before.sections[j].slug@ == k;
                let i = choose|i: int| 0 <= i < self.sections.len() && before.sections[j] == self.sections[i];
                assert(self.sections[i].slug@ == k);
            }
            if k == n {
                let i = choose|i: int| 0 <= i < self.sections.len() && self.sections[i].slug@ == n && self.sections[i].held == held
                    && self.sections[i].waiting == waiting;
                assert(self.sections[i].slug@ == k);
            }
        }
        assert forall|k: Seq<char>| #[trigger] self@.contains_key(k) implies self@[k] == before@.insert(n, (held, waiting))[k] by {
            let i = choose|i: int| 0 <= i < self.sections.len() && self.sections[i].slug@ == k;
            self.lemma_entry(i);
            if k != n {
                let j = choose|j: int| 0 <= j < before.sections.len() && before.sections[j] == self.sections[i];
                before.lemma_entry(j);
            } else {
                let i2 = choose|i: int| 0 <= i < self.sections.len() && self.sections[i].slug@ == n && self.sections[i].held == held
                    && self.sections[i].waiting == waiting;
                self.lemma_entry(i2);
            }
        }
        assert(self@ =~= before@.insert(n, (held, waiting)));
    }

    /// Requests `slug`'s write section: granted when free, queued while the
    /// queue has room, refused as busy otherwise.
    pub fn acquire(&mut self, slug: &String) -> (r: Admission)
        requires
            old(self).wf(),
        ensures
            final(self).wf(),
            final(self).depth() == old(self).depth(),
            (r, final(self)@) == spec_acquire(old(self)@, slug@, old(self).depth()),
    {
        let (held, waiting) = self.section(slug);
        if !held {
            self.put_section(slug, true, 0);
            Admission::Granted
        } else if waiting < self.max_queue_depth {
            self.put_section(slug, true, waiting + 1);
            Admission::Queued
        } else {
            Admission::Busy
        }
    }

    /// Releases `slug`'s write section, handing it to the first waiter if any.
    pub fn release(&mut self, slug: &String) -> (r: Release)
        requires
            old(self).wf(),
        ensures
            final(self).wf(),
            final(self).depth() == old(self).depth(),
            (r, final(self)@) == spec_release(old(self)@, slug@),
    {
        let (held, waiting) = self.section(slug);
        if !held {
            Release::NotHeld
        } else if waiting > 0 {
            self.put_section(slug, true, waiting - 1);
            Release::HandedOver
        } else {
            self.put_section(slug, false, 0);
            Release::Freed
        }
    }

    /// A waiter for `slug` gave up (its wait timed out or its client left).
    /// Returns whether anyone was waiting.
    pub fn abandon_wait(&mut self, slug: &String) -> (r: bool)
        requires
            old(self).wf(),
        ensures
            final(self).wf(),
            final(self).depth() == old(self).depth(),
            r == (section_of(old(self)@, slug@).1 > 0),
            r ==> final(self)@ == old(self)@.insert(
                slug@,
                (section_of(old(self)@, slug@).0, (section_of(old(self)@, slug@).1 - 1) as u64),
            ),
            !r ==> final(self)@ == old(self)@,
    {
        let (held, waiting) = self.section(slug);
        if waiting > 0 {
            self.put_section(slug, held, waiting - 1);
            true
        } else {
            false
        }
    }
}

/// While a push holds a repository's section, no other request for that
/// repository is granted; it waits or is refused.
pub proof fn lemma_section_exclusive(m: Map<Seq<char>, (bool, u64)>, slug: Seq<char>, max_queue_depth: u64)
    requires
        spec_acquire(m, slug, max_queue_depth).0 == Admission::Granted,
    ensures
        spec_acquire(spec_acquire(m, slug, max_queue_depth).1, slug, max_queue_depth).0 != Admission::Granted,
{
}

/// Requests and releases for one repository leave every other repository's
/// section as it was, so they neither wait for nor refuse each other.
pub proof fn lemma_sections_independent(
    m: Map<Seq<char>, (bool, u64)>,
    s1: Seq<char>,
    s2: Seq<char>,
    max_queue_depth: u64,
)
    requires
        s1 != s2,
    ensures
        section_of(spec_acquire(m, s1, max_queue_depth).1, s2) == section_of(m, s2),
        section_of(spec_release(m, s1).1, s2) == section_of(m, s2),
        spec_acquire(spec_acquire(m, s1, max_queue_depth).1, s2, max_queue_depth).0 == spec_acquire(
            m,
            s2,
            max_queue_depth,
        ).0,
{
}

} // verus!
