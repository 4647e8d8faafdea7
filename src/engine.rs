//! All repositories of a forge, addressed by slug: the entry points for
//! creating and deleting repositories and for pushes and pulls.
use vstd::prelude::*;
use crate::error::TransferError;
use crate::jj::JjRepository;
use crate::object_store::StoredObject;
use crate::storage::{is_repository_slug, repository_slug_ok, root_path_of, VcsStorage};
use crate::transfer::{mb_to_bytes, PushRequest, TransferResult};
use crate::vcs::VcsConfig;

verus! {

/// The repositories of a forge, each with its storage root.
pub struct TransferEngine {
    roots: VcsStorage,
    names: Vec<String>,
    repos: Vec<JjRepository>,
    config: VcsConfig,
}

impl TransferEngine {
    /// Each registered slug has exactly one repository, at its storage root
    /// and with the configured limits.
    pub closed spec fn wf(&self) -> bool {
        &&& self.names.len() == self.repos.len()
        &&& forall|i: int, j: int|
            0 <= i < self.names.len() && 0 <= j < self.names.len() && i != j ==> self.names[i]@
                != self.names[j]@
        &&& forall|i: int| 0 <= i < self.repos.len() ==> #[trigger] self.repos[i].wf()
        &&& forall|i: int|
            0 <= i < self.repos.len() ==> #[trigger] self.repos[i].spec_path() == root_path_of(
                self.roots.root(),
                self.names[i]@,
            )
        &&& forall|s: Seq<char>| #[trigger]
            self.roots@.contains(s) <==> exists|i: int| 0 <= i < self.names.len() && self.names[i]@ == s
        &&& self.roots.root() == self.config.repositories_root@
    }

    /// Whether a repository is registered under `slug`.
    pub closed spec fn has(&self, slug: Seq<char>) -> bool {
        exists|i: int| 0 <= i < self.names.len() && self.names[i]@ == slug
    }

    /// The repository registered under `slug`.
    pub closed spec fn repo(&self, slug: Seq<char>) -> JjRepository {
        self.repos[choose|i: int| 0 <= i < self.names.len() && self.names[i]@ == slug]
    }

    /// The directory under which every storage root lies.
    pub closed spec fn root(&self) -> Seq<char> {
        self.roots.root()
    }

    /// The settings new repositories get.
    pub closed spec fn spec_config(&self) -> VcsConfig {
        self.config
    }

    /// Every repository but the one under `slug` is the same in `a` and `b`.
    pub open spec fn same_elsewhere(a: TransferEngine, b: TransferEngine, slug: Seq<char>) -> bool {
        &&& forall|s: Seq<char>| s != slug ==> #[trigger] a.has(s) == b.has(s)
        &&& forall|s: Seq<char>| s != slug && a.has(s) ==> #[trigger] a.repo(s) == b.repo(s)
    }

    proof fn lemma_at(&self, i: int)
        requires
            self.wf(),
            0 <= i < self.names.len(),
        ensures
            self.has(self.names[i]@),
            self.repo(self.names[i]@) == self.repos[i],
    {
        let j = choose|j: int| 0 <= j < self.names.len() && self.names[j]@ == self.names[i]@;
        assert(i == j);
    }

    /// An engine with no repositories.
    pub fn new(config: VcsConfig) -> (r: TransferEngine)
        ensures
            r.wf(),
            r.spec_config() == config,
            r.root() == config.repositories_root@,
            forall|s: Seq<char>| !r.has(s),
    {
        let roots = VcsStorage::new(config.repositories_root.clone());
        TransferEngine { roots, names: Vec::new(), repos: Vec::new(), config }
    }

    fn copy_config(&self) -> (r: VcsConfig)
        ensures
            r.repositories_root@ == self.config.repositories_root@,
            r.jj_binary_path@ == self.config.jj_binary_path@,
            r.max_push_size_mb == self.config.max_push_size_mb,
            r.max_file_size_mb == self.config.max_file_size_mb,
    {
        VcsConfig {
            repositories_root: self.config.repositories_root.clone(),
            jj_binary_path: self.config.jj_binary_path.clone(),
            max_push_size_mb: self.config.max_push_size_mb,
            max_file_size_mb: self.config.max_file_size_mb,
        }
    }

    fn find(&self, slug: &str) -> (r: Option<usize>)
        requires
            self.wf(),
        ensures
            match r {
                Some(i) => i < self.names.len() && self.names[i as int]@ == slug@,
                None => !self.has(slug@),
            },
    {
        let owned = slug.to_owned();
        let mut i: usize = 0;
        while i < self.names.len()
            invariant
                owned@ == slug@,
                i <= self.names.len(),
                forall|j: int| 0 <= j < i ==> self.names[j]@ != slug@,
            decreases self.names.len() - i,
        {
            if self.names[i] == owned {
                return Some(i);
            }
            i = i + 1;
        }
        None
    }

    /// Registers a repository under `slug`, empty and with the configured
    /// limits, and returns its storage root. A slug already registered keeps
    /// its repository.
    pub fn create_repository(&mut self, slug: &str) -> (r: Result<String, TransferError>)
        requires
            old(self).wf(),
        ensures
            final(self).wf(),
            final(self).root() == old(self).root(),
            final(self).spec_config() == old(self).spec_config(),
            r is Ok <==> is_repository_slug(slug@),
            r matches Err(e) ==> e == TransferError::InvalidSlug,
            r matches Ok(p) ==> p@ == root_path_of(old(self).root(), slug@) && final(self).has(slug@),
            r is Ok && old(self).has(slug@) ==> final(self).repo(slug@) == old(self).repo(slug@),
            r is Ok && !old(self).has(slug@) ==> ({
                let repo = final(self).repo(slug@);
                &&& repo.spec_objects().is_empty()
                &&& repo.spec_refs().is_empty()
                &&& repo.spec_path() == root_path_of(old(self).root(), slug@)
                &&& repo.spec_limits().push_body_limit == mb_to_bytes(old(self).spec_config().max_push_size_mb)
                &&& repo.spec_limits().file_size_ceiling == mb_to_bytes(old(self).spec_config().max_file_size_mb)
            }),
            r is Err ==> !final(self).has(slug@) || final(self).repo(slug@) == old(self).repo(slug@),
            r is Err ==> final(self).has(slug@) == old(self).has(slug@),
            Self::same_elsewhere(*old(self), *final(self), slug@),
    {
        if !repository_slug_ok(slug) {
            return Err(TransferError::InvalidSlug);
        }
        match self.find(slug) {
            Some(i) => {
                proof {
                    self.lemma_at(i as int);
                }
                let path = self.roots.ensure_repository_directory(slug);
                proof {
                    assert(self.roots@ =~= old(self).roots@);
                    assert(self.names == old(self).names);
                    assert(self.repos == old(self).repos);
                    assert forall|s: Seq<char>| s != slug@ implies (old(self).has(s) == self.has(s) && (old(
                        self,
                    ).has(s) ==> old(self).repo(s) == self.repo(s))) by {}
                }
                path
            },
            None => {
                let path = match self.roots.ensure_repository_directory(slug) {
                    Ok(p) => p,
                    Err(e) => {
                        return Err(e);
                    },
                };
                let config = self.copy_config();
                let repo = JjRepository::new(path.clone(), config);
                let ghost before = *old(self);
                self.names.push(slug.to_owned());
                self.repos.push(repo);
                proof {
                    let n = before.names.len() as int;
                    assert(self.names[n]@ == slug@);
                    assert forall|s: Seq<char>| #[trigger]
                        self.roots@.contains(s) <==> exists|i: int| 0 <= i < self.names.len() && self.names[i]@ == s by {
                        if before.roots@.contains(s) {
                            let i = choose|i: int| 0 <= i < before.names.len() && before.names[i]@ == s;
                            assert(self.names[i]@ == s);
                        }
                        if s == slug@ {
                            assert(self.names[n]@ == s);
                        }
                        if exists|i: int| 0 <= i < self.names.len() && self.names[i]@ == s {
                            let i = choose|i: int| 0 <= i < self.names.len() && self.names[i]@ == s;
                            if i < n {
                                assert(before.names[i]@ == s);
                            }
                        }
                    }
                    assert forall|i: int| 0 <= i < n implies before.names[i]@ != slug@ by {
                        before.lemma_at(i);
                    }
                    assert(self.wf());
                    self.lemma_at(n);
                    assert forall|s: Seq<char>| s != slug@ implies (before.has(s) == self.has(s) && (before.has(s)
                        ==> before.repo(s) == self.repo(s))) by {
                        if before.has(s) {
                            let i = choose|i: int| 0 <= i < before.names.len() && before.names[i]@ == s;
                            before.lemma_at(i);
                            assert(self.names[i]@ == s);
                            self.lemma_at(i);
                        }
                        if self.has(s) {
                            let i = choose|i: int| 0 <= i < self.names.len() && self.names[i]@ == s;
                            assert(i != n);
                            assert(before.names[i]@ == s);
                        }
                    }
                }
                Ok(path)
            },
        }
    }

    /// Runs a push on the repository registered under `slug`.
    pub fn push(&mut self, slug: &str, request: &PushRequest) -> (r: Result<TransferResult, TransferError>)
        requires
            old(self).wf(),
        ensures
            final(self).wf(),
            final(self).root() == old(self).root(),
            final(self).spec_config() == old(self).spec_config(),
            !is_repository_slug(slug@) ==> (r matches Err(e) && e == TransferError::InvalidSlug),
            is_repository_slug(slug@) && !old(self).has(slug@) ==> (r matches Err(e) && e
                == TransferError::NotFound),
            r is Ok <==> is_repository_slug(slug@) && old(self).has(slug@),
            final(self).has(slug@) == old(self).has(slug@),
            r is Err ==> *final(self) == *old(self),
            r matches Ok(res) ==> JjRepository::push_outcome(
                old(self).repo(slug@),
                final(self).repo(slug@),
                *request,
                res,
            ),
            Self::same_elsewhere(*old(self), *final(self), slug@),
    {
        if !repository_slug_ok(slug) {
            return Err(TransferError::InvalidSlug);
        }
        match self.find(slug) {
            None => Err(TransferError::NotFound),
            Some(i) => {
                let ghost before = *self;
                proof {
                    before.lemma_at(i as int);
                }
                let mut repo = self.repos.remove(i);
                let res = repo.push(request);
                self.repos.insert(i, repo);
                proof {
                    assert(self.repos@ =~= before.repos@.update(i as int, repo));
                    assert(repo.spec_path() == before.repos[i as int].spec_path());
                    assert forall|k: int| 0 <= k < self.repos.len() implies #[trigger] self.repos[k].wf()
                        && self.repos[k].spec_path() == root_path_of(self.roots.root(), self.names[k]@) by {
                        if k != i {
                            assert(self.repos[k] == before.repos[k]);
                        }
                    }
                    assert(self.wf());
                    self.lemma_at(i as int);
                    assert forall|s: Seq<char>| s != slug@ implies (before.has(s) == self.has(s) && (before.has(s)
                        ==> before.repo(s) == self.repo(s))) by {
                        if before.has(s) {
                            let j = choose|j: int| 0 <= j < before.names.len() && before.names[j]@ == s;
                            before.lemma_at(j);
                            self.lemma_at(j);
                        }
                    }
                }
                Ok(res)
            },
        }
    }

    /// Runs a pull on the repository registered under `slug`.
    pub fn pull(&self, slug: &str, requested: &Vec<String>) -> (r: Result<Vec<StoredObject>, TransferError>)
        requires
            self.wf(),
        ensures
            !is_repository_slug(slug@) ==> (r matches Err(e) && e == TransferError::InvalidSlug),
            is_repository_slug(slug@) && !self.has(slug@) ==> (r matches Err(e) && e
                == TransferError::NotFound),
            is_repository_slug(slug@) && self.has(slug@) ==> ({
                let repo = self.repo(slug@);
                &&& r is Err <==> exists|i: int|
                    0 <= i < requested@.len() && !repo.spec_refs().contains_key(#[trigger] requested@[i]@)
                &&& r matches Err(e) ==> e == TransferError::NotFound
                &&& r matches Ok(objs) ==> JjRepository::pulled(
                    repo.spec_objects(),
                    JjRepository::heads(repo.spec_refs(), requested@),
                    objs@,
                )
            }),
    {
        if !repository_slug_ok(slug) {
            return Err(TransferError::InvalidSlug);
        }
        match self.find(slug) {
            None => Err(TransferError::NotFound),
            Some(i) => {
                proof {
                    self.lemma_at(i as int);
                }
                self.repos[i].pull(requested)
            },
        }
    }

    /// Deletes the repository registered under `slug`, its objects and refs
    /// together, and returns the storage root to remove.
    pub fn delete_repository(&mut self, slug: &str) -> (r: Result<String, TransferError>)
        requires
            old(self).wf(),
        ensures
            final(self).wf(),
            final(self).root() == old(self).root(),
            final(self).spec_config() == old(self).spec_config(),
            !is_repository_slug(slug@) ==> (r matches Err(e) && e == TransferError::InvalidSlug),
            is_repository_slug(slug@) && !old(self).has(slug@) ==> (r matches Err(e) && e
                == TransferError::NotFound),
            r is Ok <==> is_repository_slug(slug@) && old(self).has(slug@),
            r matches Ok(p) ==> p@ == root_path_of(old(self).root(), slug@) && !final(self).has(slug@),
            r is Err ==> *final(self) == *old(self),
            Self::same_elsewhere(*old(self), *final(self), slug@),
    {
        if !repository_slug_ok(slug) {
            return Err(TransferError::InvalidSlug);
        }
        match self.find(slug) {
            None => Err(TransferError::NotFound),
            Some(i) => {
                let ghost before = *self;
                proof {
                    before.lemma_at(i as int);
                }
                let path = self.roots.delete_repository_root(slug);
                let _ = self.names.remove(i);
                let _ = self.repos.remove(i);
                proof {
                    let n = before.names.len() as int;
                    let ii = i as int;
                    assert forall|s: Seq<char>| #[trigger]
                        self.roots@.contains(s) <==> exists|k: int| 0 <= k < self.names.len() && self.names[k]@ == s by {
                        if self.roots@.contains(s) {
                            let k = choose|k: int| 0 <= k < before.names.len() && before.names[k]@ == s;
                            assert(k != ii);
                            if k < ii {
                                assert(self.names[k]@ == s);
                            } else {
                                assert(self.names[k - 1]@ == s);
                            }
                        }
                        if exists|k: int| 0 <= k < self.names.len() && self.names[k]@ == s {
                            let k = choose|k: int| 0 <= k < self.names.len() && self.names[k]@ == s;
                            if k < ii {
                                assert(before.names[k]@ == s);
                                assert(k != ii);
                            } else {
                                assert(before.names[k + 1]@ == s);
                            }
                            assert(s != slug@);
                        }
                    }
                    assert forall|a: int, b: int|
                        0 <= a < self.names.len() && 0 <= b < self.names.len() && a != b implies self.names[a]@
                        != self.names[b]@ by {
                        let a0 = if a < ii { a } else { a + 1 };
                        let b0 = if b < ii { b } else { b + 1 };
                        assert(self.names[a] == before.names[a0]);
                        assert(self.names[b] == before.names[b0]);
                    }
                    assert forall|k: int| 0 <= k < self.repos.len() implies #[trigger] self.repos[k].wf()
                        && self.repos[k].spec_path() == root_path_of(self.roots.root(), self.names[k]@) by {
                        let k0 = if k < ii { k } else { k + 1 };
                        assert(self.repos[k] == before.repos[k0]);
                        assert(self.names[k] == before.names[k0]);
                    }
                    assert(self.wf());
                    assert(!self.has(slug@)) by {
                        if self.has(slug@) {
                            let k = choose|k: int| 0 <= k < self.names.len() && self.names[k]@ == slug@;
                            let k0 = if k < ii { k } else { k + 1 };
                            assert(self.names[k] == before.names[k0]);
                        }
                    }
                    assert forall|s: Seq<char>| s != slug@ implies (before.has(s) == self.has(s) && (before.has(s)
                        ==> before.repo(s) == self.repo(s))) by {
                        if before.has(s) {
                            let k = choose|k: int| 0 <= k < before.names.len() && before.names[k]@ == s;
                            before.lemma_at(k);
                            assert(k != ii);
                            let k1 = if k < ii { k } else { k - 1 };
                            assert(self.names[k1] == before.names[k]);
                            assert(self.repos[k1] == before.repos[k]);
                            self.lemma_at(k1);
                        }
                        if self.has(s) {
                            let k = choose|k: int| 0 <= k < self.names.len() && self.names[k]@ == s;
                            let k0 = if k < ii { k } else { k + 1 };
                            assert(self.names[k] == before.names[k0]);
                        }
                    }
                }
                path
            },
        }
    }
}

} // verus!
