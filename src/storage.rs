//! The mapping from repository slugs to storage roots. Only this manager
//! creates or removes a repository's root; the caller performs the
//! filesystem work on the paths it hands out.
use vstd::prelude::*;
use crate::error::TransferError;
use crate::types::{is_slug, slug_chars_ok};

verus! {

/// Whether `s` is `.` or `..`, which would name a directory other than a
/// repository's own.
pub open spec fn is_dot_name(s: Seq<char>) -> bool {
    (s.len() == 1 && s[0] == '.') || (s.len() == 2 && s[0] == '.' && s[1] == '.')
}

/// Whether `s` may name a repository's storage root: a non-empty slug other
/// than `.` and `..`.
pub open spec fn is_repository_slug(s: Seq<char>) -> bool {
    s.len() > 0 && is_slug(s) && !is_dot_name(s)
}

/// The storage root of repository `slug` under `root`.
pub open spec fn root_path_of(root: Seq<char>, slug: Seq<char>) -> Seq<char> {
    root + seq!['/'] + slug
}

/// Whether `s` may name a repository's storage root.
pub fn repository_slug_ok(s: &str) -> (r: bool)
    ensures
        r == is_repository_slug(s@),
{
    let n = s.unicode_len();
    if n == 0 || !slug_chars_ok(s) {
        return false;
    }
    if n == 1 && s.get_char(0) == '.' {
        return false;
    }
    if n == 2 && s.get_char(0) == '.' && s.get_char(1) == '.' {
        return false;
    }
    true
}

/// The storage roots of the registered repositories.
pub struct VcsStorage {
    root_path: String,
    repositories: Vec<String>,
}

impl View for VcsStorage {
    type V = Set<Seq<char>>;

    /// The slugs of the registered repositories.
    closed spec fn view(&self) -> Set<Seq<char>> {
        Set::new(|s: Seq<char>| exists|i: int| 0 <= i < self.repositories.len() && self.repositories[i]@ == s)
    }
}

impl VcsStorage {
    /// The directory under which every storage root lies.
    pub closed spec fn root(&self) -> Seq<char> {
        self.root_path@
    }

    /// A manager of storage roots under `root_path`, with none registered.
    pub fn new(root_path: String) -> (r: VcsStorage)
        ensures
            r.root() == root_path@,
            r@ == Set::<Seq<char>>::empty(),
    {
        let r = VcsStorage { root_path, repositories: Vec::new() };
        assert(r@ =~= Set::<Seq<char>>::empty());
        r
    }

    fn path_of(&self, slug: &str) -> (r: String)
        ensures
            r@ == root_path_of(self.root(), slug@),
    {
        let mut p = self.root_path.clone();
        p.append("/");
        p.append(slug);
        proof {
            reveal_strlit("/");
            assert("/"@ =~= seq!['/']);
        }
        p
    }

    fn find(&self, slug: &str) -> (r: bool)
        ensures
            r == self@.contains(slug@),
    {
        let owned = slug.to_owned();
        let mut i: usize = 0;
        while i < self.repositories.len()
            invariant
                owned@ == slug@,
                i <= self.repositories.len(),
                forall|j: int| 0 <= j < i ==> self.repositories[j]@ != slug@,
            decreases self.repositories.len() - i,
        {
            if self.repositories[i] == owned {
                return true;
            }
            i = i + 1;
        }
        false
    }

    /// Registers repository `slug` and returns its storage root; a second
    /// call for the same slug returns the same root and changes nothing.
    pub fn ensure_repository_directory(&mut self, slug: &str) -> (r: Result<String, TransferError>)
        ensures
            final(self).root() == old(self).root(),
            r is Ok <==> is_repository_slug(slug@),
            r matches Ok(p) ==> p@ == root_path_of(old(self).root(), slug@) && final(self)@ == old(
                self,
            )@.insert(slug@),
            r matches Err(e) ==> e == TransferError::InvalidSlug && final(self)@ == old(self)@,
    {
        if !repository_slug_ok(slug) {
            return Err(TransferError::InvalidSlug);
        }
        if !self.find(slug) {
            self.repositories.push(slug.to_owned());
            proof {
                assert forall|s: Seq<char>| self@.contains(s) <==> old(self)@.insert(slug@).contains(s) by {
                    if old(self)@.contains(s) {
                        let i = choose|i: int| 0 <= i < old(self).repositories.len() && old(self).repositories[i]@ == s;
                        assert(self.repositories[i]@ == s);
                    }
                    if s == slug@ {
                        assert(self.repositories[self.repositories.len() - 1]@ == s);
                    }
                    if self@.contains(s) && s != slug@ {
                        let i = choose|i: int| 0 <= i < self.repositories.len() && self.repositories[i]@ == s;
                        assert(old(self).repositories[i]@ == s);
                    }
                }
                assert(self@ =~= old(self)@.insert(slug@));
            }
        } else {
            assert(self@ =~= old(self)@.insert(slug@));
        }
        Ok(self.path_of(slug))
    }

    /// The storage root of a registered repository.
    pub fn get_repository_path(&self, slug: &str) -> (r: Result<String, TransferError>)
        ensures
            r is Ok <==> is_repository_slug(slug@) && self@.contains(slug@),
            r matches Ok(p) ==> p@ == root_path_of(self.root(), slug@),
            r matches Err(e) ==> (if is_repository_slug(slug@) {
                e == TransferError::NotFound
            } else {
                e == TransferError::InvalidSlug
            }),
    {
        if !repository_slug_ok(slug) {
            return Err(TransferError::InvalidSlug);
        }
        if !self.find(slug) {
            return Err(TransferError::NotFound);
        }
        Ok(self.path_of(slug))
    }

    /// Unregisters repository `slug` and returns the storage root to remove
    /// with all its objects and refs.
    pub fn delete_repository_root(&mut self, slug: &str) -> (r: Result<String, TransferError>)
        ensures
            final(self).root() == old(self).root(),
            r is Ok <==> is_repository_slug(slug@) && old(self)@.contains(slug@),
            r matches Ok(p) ==> p@ == root_path_of(old(self).root(), slug@) && final(self)@ == old(
                self,
            )@.remove(slug@),
            r is Err ==> final(self)@ == old(self)@,
            r matches Err(e) ==> (if is_repository_slug(slug@) {
                e == TransferError::NotFound
            } else {
                e == TransferError::InvalidSlug
            }),
    {
        if !repository_slug_ok(slug) {
            return Err(TransferError::InvalidSlug);
        }
        if !self.find(slug) {
            return Err(TransferError::NotFound);
        }
        let owned = slug.to_owned();
        let mut kept: Vec<String> = Vec::new();
        let mut i: usize = 0;
        while i < self.repositories.len()
            invariant
                owned@ == slug@,
                i <= self.repositories.len(),
                forall|j: int| 0 <= j < kept.len() ==> kept[j]@ != slug@,
                forall|j: int| 0 <= j < kept.len() ==> exists|k: int| 0 <= k < i && self.repositories[k]@ == #[trigger] kept[j]@,
                forall|k: int| 0 <= k < i && self.repositories[k]@ != slug@ ==> exists|j: int| 0 <= j < kept.len() && #[trigger] kept[j]@ == self.repositories[k]@,
            decreases self.repositories.len() - i,
        {
            if self.repositories[i] != owned {
                let ghost k0 = kept@;
                kept.push(self.repositories[i].clone());
                proof {
                    assert forall|j: int| 0 <= j < kept.len() implies exists|k: int| 0 <= k < i + 1 && self.repositories[k]@ == #[trigger] kept[j]@ by {
                        if j < k0.len() {
                            assert(kept[j] == k0[j]);
                        } else {
                            assert(self.repositories[i as int]@ == kept[j]@);
                        }
                    }
                    assert forall|k: int| 0 <= k < i + 1 && self.repositories[k]@ != slug@ implies exists|j: int| 0 <= j < kept.len() && #[trigger] kept[j]@ == self.repositories[k]@ by {
                        if k < i {
                            let j = choose|j: int| 0 <= j < k0.len() && k0[j]@ == self.repositories[k]@;
                            assert(kept[j] == k0[j]);
                        } else {
                            assert(kept[kept.len() - 1]@ == self.repositories[k]@);
                        }
                    }
                }
            }
            i = i + 1;
        }
        let ghost before = old(self)@;
        self.repositories = kept;
        proof {
            assert forall|s: Seq<char>| self@.contains(s) <==> before.remove(slug@).contains(s) by {
                if self@.contains(s) {
                    let j = choose|j: int| 0 <= j < self.repositories.len() && self.repositories[j]@ == s;
                    assert(self.repositories[j]@ != slug@);
                }
                if before.remove(slug@).contains(s) {
                    let k = choose|k: int| 0 <= k < old(self).repositories.len() && old(self).repositories[k]@ == s;
                    assert(old(self).repositories[k]@ != slug@);
                }
            }
            assert(self@ =~= before.remove(slug@));
        }
        Ok(self.path_of(slug))
    }
}

} // verus!
