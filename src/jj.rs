//! One repository's storage and the push and pull transfers on it.
use vstd::prelude::*;
use crate::error::TransferError;
use crate::object::copy_bytes;
use crate::object_store::{hashes_view, reachable, ObjectStore, StoredObject};
use crate::ref_store::{apply_batch, batch_matches, RefConflict, RefStore};
use crate::transfer::{
    first_fault, mb_to_bytes, payload_size, store_all, validate_objects, within_push_limit,
    PushRequest, SizeLimits, TransferResult, TransferState,
};
use crate::vcs::VcsConfig;

verus! {

/// A repository: its storage root, its settings, its objects and its refs.
pub struct JjRepository {
    path: String,
    config: VcsConfig,
    limits: SizeLimits,
    objects: ObjectStore,
    refs: RefStore,
}

impl JjRepository {
    /// The stores are well formed and the object store's ceiling is the limits'.
    pub closed spec fn wf(&self) -> bool {
        &&& self.objects.wf()
        &&& self.refs.wf()
        &&& self.objects.ceiling() == self.limits.file_size_ceiling
    }

    /// The stored objects, by hash.
    pub closed spec fn spec_objects(&self) -> Map<Seq<u8>, Seq<u8>> {
        self.objects@
    }

    /// The refs, by name.
    pub closed spec fn spec_refs(&self) -> Map<Seq<char>, Seq<u8>> {
        self.refs@
    }

    /// The size limits pushes are held to.
    pub closed spec fn spec_limits(&self) -> SizeLimits {
        self.limits
    }

    /// The settings the repository was made with.
    pub closed spec fn spec_config(&self) -> VcsConfig {
        self.config
    }

    /// The storage root.
    pub closed spec fn spec_path(&self) -> Seq<char> {
        self.path@
    }

    /// An empty repository at `path`, with the limits of `config`.
    pub fn new(path: String, config: VcsConfig) -> (r: JjRepository)
        ensures
            r.wf(),
            r.spec_path() == path@,
            r.spec_config() == config,
            r.spec_objects().is_empty(),
            r.spec_refs().is_empty(),
            r.spec_limits().push_body_limit == mb_to_bytes(config.max_push_size_mb),
            r.spec_limits().file_size_ceiling == mb_to_bytes(config.max_file_size_mb),
    {
        let limits = SizeLimits::from_megabytes(config.max_push_size_mb, config.max_file_size_mb);
        let r = JjRepository {
            path,
            config,
            limits,
            objects: ObjectStore::new(limits.file_size_ceiling),
            refs: RefStore::new(),
        };
        assert(r.spec_objects() =~= Map::empty());
        assert(r.spec_refs() =~= Map::empty());
        r
    }

    /// An empty repository at `path` held to `limits`.
    pub fn with_limits(path: String, config: VcsConfig, limits: SizeLimits) -> (r: JjRepository)
        ensures
            r.wf(),
            r.spec_path() == path@,
            r.spec_objects().is_empty(),
            r.spec_refs().is_empty(),
            r.spec_config() == config,
            r.spec_limits() == limits,
    {
        let r = JjRepository {
            path,
            config,
            limits,
            objects: ObjectStore::new(limits.file_size_ceiling),
            refs: RefStore::new(),
        };
        assert(r.spec_objects() =~= Map::empty());
        assert(r.spec_refs() =~= Map::empty());
        r
    }

    /// The storage root.
    pub fn path(&self) -> (r: &String)
        ensures
            r@ == self.spec_path(),
    {
        &self.path
    }

    /// The settings the repository was made with.
    pub fn config(&self) -> (r: &VcsConfig)
        ensures
            *r == self.spec_config(),
    {
        &self.config
    }

    /// The size limits pushes are held to.
    pub fn limits(&self) -> (r: SizeLimits)
        ensures
            r == self.spec_limits(),
    {
        self.limits
    }

    /// The object store.
    pub fn objects(&self) -> (r: &ObjectStore)
        requires
            self.wf(),
        ensures
            r.wf(),
            r@ == self.spec_objects(),
    {
        &self.objects
    }

    /// The ref store.
    pub fn refs(&self) -> (r: &RefStore)
        requires
            self.wf(),
        ensures
            r.wf(),
            r@ == self.spec_refs(),
    {
        &self.refs
    }

    /// Runs one push to its end. The payload is received against the push
    /// body limit, each object is validated, the objects are stored, and the
    /// ref updates are applied as one compare-and-swap batch. A push rejected
    /// before the batch changes nothing; one whose batch conflicts keeps the
    /// objects it stored (they are content-addressed) and no ref changes.
    pub fn push(&mut self, request: &PushRequest) -> (r: TransferResult)
        requires
            old(self).wf(),
        ensures
            final(self).wf(),
            Self::push_outcome(*old(self), *final(self), *request, r),
    {
        if !within_push_limit(&request.objects, self.limits.push_body_limit) {
            return TransferResult {
                state: TransferState::Rejected(TransferError::PayloadTooLarge),
                ref_updates: Vec::new(),
            };
        }
        match validate_objects(&request.objects, self.limits.file_size_ceiling) {
            Ok(()) => {},
            Err(e) => {
                return TransferResult { state: TransferState::Rejected(e), ref_updates: Vec::new() };
            },
        }
        self.store_objects(request);
        match self.refs.compare_and_swap_batch(&request.updates) {
            Ok(()) => {
                let ref_updates = Self::ref_states(request);
                TransferResult { state: TransferState::Committed, ref_updates }
            },
            Err(_) => TransferResult {
                state: TransferState::Rejected(TransferError::RefConflict),
                ref_updates: Vec::new(),
            },
        }
    }

    /// How a push relates the repository before it, the repository after
    /// it and its result.
    pub open spec fn push_outcome(
        before: JjRepository,
        after: JjRepository,
        request: PushRequest,
        r: TransferResult,
    ) -> bool {
        let objs = request.objects@;
        let us = request.updates@;
        let limits = before.spec_limits();
        let fault = first_fault(objs, limits.file_size_ceiling);
        &&& after.spec_limits() == limits
        &&& after.spec_path() == before.spec_path()
        &&& payload_size(objs) > limits.push_body_limit ==> r.state == TransferState::Rejected(
            TransferError::PayloadTooLarge,
        )
        &&& payload_size(objs) <= limits.push_body_limit && fault is Some ==> r.state
            == TransferState::Rejected(fault->0)
        &&& r.state != TransferState::Committed ==> r.ref_updates@.len() == 0
        &&& r.state != TransferState::Committed ==> after.spec_refs() == before.spec_refs()
        &&& Self::passes_checks(before, request) ==> after.spec_objects() == store_all(
            before.spec_objects(),
            objs,
        )
        &&& !Self::passes_checks(before, request) ==> after.spec_objects() == before.spec_objects()
        &&& Self::passes_checks(before, request) && batch_matches(before.spec_refs(), us) ==> r.state
            == TransferState::Committed && after.spec_refs() == apply_batch(before.spec_refs(), us)
        &&& Self::passes_checks(before, request) && !batch_matches(before.spec_refs(), us) ==> r.state
            == TransferState::Rejected(TransferError::RefConflict)
        &&& r.state == TransferState::Committed ==> r.ref_updates@.len() == us.len() && forall|i: int|
            0 <= i < r.ref_updates@.len() ==> #[trigger] r.ref_updates@[i].0@ == us[i].name@
                && r.ref_updates@[i].1@ == us[i].new@
    }

    /// Whether a push's payload and objects pass every check made before
    /// anything is stored.
    pub open spec fn passes_checks(repo: JjRepository, request: PushRequest) -> bool {
        &&& payload_size(request.objects@) <= repo.spec_limits().push_body_limit
        &&& first_fault(request.objects@, repo.spec_limits().file_size_ceiling) is None
    }

    fn store_objects(&mut self, request: &PushRequest)
        requires
            old(self).wf(),
            first_fault(request.objects@, old(self).limits.file_size_ceiling) is None,
        ensures
            final(self).wf(),
            final(self).limits == old(self).limits,
            final(self).path == old(self).path,
            final(self).refs == old(self).refs,
            final(self).objects@ == store_all(old(self).objects@, request.objects@),
    {
        let ghost start = self.objects@;
        let objs = &request.objects;
        let mut i: usize = 0;
        while i < objs.len()
            invariant
                self.wf(),
                self.limits == old(self).limits,
                self.path == old(self).path,
                self.refs == old(self).refs,
                i <= objs@.len(),
                objs == &request.objects,
                first_fault(objs@, self.limits.file_size_ceiling) is None,
                self.objects@ == store_all(start, objs@.subrange(0, i as int)),
            decreases objs@.len() - i,
        {
            proof {
                crate::transfer::lemma_no_fault_at(objs@, i as int, self.limits.file_size_ceiling);
                assert(objs@.subrange(0, i + 1).drop_last() =~= objs@.subrange(0, i as int));
            }
            let _ = self.objects.put(copy_bytes(&objs[i].data));
            i = i + 1;
        }
        assert(objs@.subrange(0, objs@.len() as int) =~= objs@);
    }

    fn ref_states(request: &PushRequest) -> (r: Vec<(String, Vec<u8>)>)
        ensures
            r@.len() == request.updates@.len(),
            forall|i: int|
                0 <= i < r@.len() ==> #[trigger] r@[i].0@ == request.updates@[i].name@ && r@[i].1@
                    == request.updates@[i].new@,
    {
        let mut r: Vec<(String, Vec<u8>)> = Vec::new();
        let mut i: usize = 0;
        while i < request.updates.len()
            invariant
                i <= request.updates@.len(),
                r@.len() == i,
                forall|j: int|
                    0 <= j < i ==> #[trigger] r@[j].0@ == request.updates@[j].name@ && r@[j].1@
                        == request.updates@[j].new@,
            decreases request.updates@.len() - i,
        {
            let u = &request.updates[i];
            r.push((u.name.clone(), copy_bytes(&u.new)));
            i = i + 1;
        }
        r
    }

    /// Resolves each requested ref and returns every stored object reachable
    /// from the hashes they point to, each once. An absent ref gives `NotFound`.
    pub fn pull(&self, requested: &Vec<String>) -> (r: Result<Vec<StoredObject>, TransferError>)
        requires
            self.wf(),
        ensures
            r is Err <==> exists|i: int|
                0 <= i < requested@.len() && !self.spec_refs().contains_key(#[trigger] requested@[i]@),
            r matches Err(e) ==> e == TransferError::NotFound,
            r matches Ok(objs) ==> Self::pulled(self.spec_objects(), Self::heads(self.spec_refs(), requested@), objs@),
    {
        let mut roots: Vec<Vec<u8>> = Vec::new();
        let mut i: usize = 0;
        while i < requested.len()
            invariant
                self.wf(),
                i <= requested@.len(),
                roots@.len() == i,
                forall|j: int| 0 <= j < i ==> self.spec_refs().contains_key(#[trigger] requested@[j]@),
                hashes_view(roots@) == Self::heads(self.spec_refs(), requested@.subrange(0, i as int)),
            decreases requested@.len() - i,
        {
            match self.refs.resolve(&requested[i]) {
                Some(h) => {
                    let ghost r0 = roots@;
                    proof {
                        assert(self.spec_refs().contains_key(requested@[i as int]@));
                        assert(h@ == self.spec_refs()[requested@[i as int]@]);
                    }
                    roots.push(h);
                    proof {
                        let hv = hashes_view(roots@);
                        let want = Self::heads(self.spec_refs(), requested@.subrange(0, i + 1));
                        assert(hv.len() == want.len());
                        assert forall|j: int| 0 <= j < hv.len() implies hv[j] == want[j] by {
                            if j < i {
                                assert(roots@[j] == r0[j]);
                                assert(hashes_view(r0)[j] == Self::heads(self.spec_refs(), requested@.subrange(0, i as int))[j]);
                            }
                        }
                        assert(hv =~= want);
                    }
                },
                None => {
                    return Err(TransferError::NotFound);
                },
            }
            i = i + 1;
        }
        assert(requested@.subrange(0, requested@.len() as int) =~= requested@);
        let objs = self.objects.reachable_objects(&roots);
        assert(Self::pulled(self.spec_objects(), hashes_view(roots@), objs@));
        Ok(objs)
    }

    /// The hashes the requested refs point to, in order.
    pub open spec fn heads(refs: Map<Seq<char>, Seq<u8>>, requested: Seq<String>) -> Seq<Seq<u8>> {
        Seq::new(requested.len(), |i: int| refs[requested[i]@])
    }

    /// `objs` holds each object reachable from `roots` in `m` once, and nothing else.
    pub open spec fn pulled(m: Map<Seq<u8>, Seq<u8>>, roots: Seq<Seq<u8>>, objs: Seq<StoredObject>) -> bool {
        &&& forall|i: int| 0 <= i < objs.len() ==> #[trigger] m.contains_key(objs[i].hash@) && m[objs[i].hash@]
            == objs[i].data@ && reachable(m, roots, objs[i].hash@)
        &&& forall|h: Seq<u8>| reachable(m, roots, h) ==> exists|i: int| 0 <= i < objs.len() && #[trigger] objs[i].hash@ == h
        &&& forall|i: int, j: int| 0 <= i < objs.len() && 0 <= j < objs.len() && i != j ==> objs[i].hash@ != objs[j].hash@
    }

    /// Puts an object read back from durable storage, under the same ceiling
    /// as a push.
    pub fn restore_object(&mut self, data: Vec<u8>) -> (r: Result<Vec<u8>, TransferError>)
        requires
            old(self).wf(),
        ensures
            final(self).wf(),
            final(self).spec_limits() == old(self).spec_limits(),
            final(self).spec_path() == old(self).spec_path(),
            final(self).spec_refs() == old(self).spec_refs(),
            data@.len() > old(self).spec_limits().file_size_ceiling ==> r == Err::<Vec<u8>, TransferError>(
                TransferError::ObjectTooLarge,
            ) && final(self).spec_objects() == old(self).spec_objects(),
            data@.len() <= old(self).spec_limits().file_size_ceiling ==> r is Ok,
            r matches Ok(h) ==> h@ == crate::object::content_hash(data@) && final(self).spec_objects()
                == ObjectStore::spec_put(old(self).spec_objects(), data@),
    {
        self.objects.put(data)
    }

    /// Creates a ref read back from durable storage; a ref of that name must
    /// not exist yet.
    pub fn restore_ref(&mut self, name: &String, target: Vec<u8>) -> (r: Result<(), RefConflict>)
        requires
            old(self).wf(),
        ensures
            final(self).wf(),
            final(self).spec_limits() == old(self).spec_limits(),
            final(self).spec_path() == old(self).spec_path(),
            final(self).spec_objects() == old(self).spec_objects(),
            r is Ok <==> !old(self).spec_refs().contains_key(name@),
            r is Ok ==> final(self).spec_refs() == old(self).spec_refs().insert(name@, target@),
            r is Err ==> final(self).spec_refs() == old(self).spec_refs(),
    {
        self.refs.compare_and_swap(name, &None, target)
    }
}

} // verus!
