//! The shape of a push and the checks made on it before anything is stored.
use vstd::prelude::*;
use crate::error::TransferError;
use crate::object::{check_well_formed, content_hash, hash_object, is_well_formed, same_bytes};
use crate::object_store::ObjectStore;
use crate::ref_store::RefUpdate;

verus! {

/// Bytes in one megabyte.
pub const MEGABYTE: u64 = 1048576;

/// An object sent by a client: the hash it claims and its bytes.
pub struct IncomingObject {
    pub claimed_hash: Vec<u8>,
    pub data: Vec<u8>,
}

/// One push: the new objects and the ref updates to apply with them.
pub struct PushRequest {
    pub objects: Vec<IncomingObject>,
    pub updates: Vec<RefUpdate>,
}

/// Limits on a push, in bytes.
#[derive(Clone, Copy, Debug, PartialEq, Eq, Structural)]
pub struct SizeLimits {
    pub push_body_limit: u64,
    pub file_size_ceiling: u64,
}

/// How a push ended.
#[derive(Clone, Copy, Debug, PartialEq, Eq, Structural)]
pub enum TransferState {
    /// Every object is stored and every ref update applied.
    Committed,
    /// The request was refused; it must change before it is sent again.
    Rejected(TransferError),
    /// A server-side fault; the same push may be sent again.
    Failed(TransferError),
}

/// The outcome of a push, with the ref states it set when committed.
pub struct TransferResult {
    pub state: TransferState,
    pub ref_updates: Vec<(String, Vec<u8>)>,
}

/// The megabyte count `mb` in bytes, held at `u64::MAX` where it would not fit.
pub open spec fn mb_to_bytes(mb: u64) -> u64 {
    if mb * MEGABYTE <= u64::MAX {
        (mb * MEGABYTE) as u64
    } else {
        u64::MAX
    }
}

impl SizeLimits {
    /// Limits given in megabytes.
    pub fn from_megabytes(push_body_limit_mb: u64, file_size_ceiling_mb: u64) -> (r: SizeLimits)
        ensures
            r.push_body_limit == mb_to_bytes(push_body_limit_mb),
            r.file_size_ceiling == mb_to_bytes(file_size_ceiling_mb),
    {
        SizeLimits {
            push_body_limit: megabytes(push_body_limit_mb),
            file_size_ceiling: megabytes(file_size_ceiling_mb),
        }
    }
}

fn megabytes(mb: u64) -> (r: u64)
    ensures
        r == mb_to_bytes(mb),
{
    match mb.checked_mul(MEGABYTE) {
        Some(b) => b,
        None => u64::MAX,
    }
}

/// The total number of object bytes in a push.
pub open spec fn payload_size(objs: Seq<IncomingObject>) -> nat
    decreases objs.len(),
{
    if objs.len() == 0 {
        0
    } else {
        payload_size(objs.drop_last()) + objs.last().data@.len()
    }
}

/// What is wrong with one incoming object, if anything: its size is checked
/// first, then its layout, then its hash.
pub open spec fn object_fault(o: IncomingObject, ceiling: u64) -> Option<TransferError> {
    if o.data@.len() > ceiling {
        Some(TransferError::ObjectTooLarge)
    } else if !is_well_formed(o.data@) {
        Some(TransferError::MalformedObject)
    } else if content_hash(o.data@) != o.claimed_hash@ {
        Some(TransferError::HashMismatch)
    } else {
        None
    }
}

/// The fault of the first faulty object, in the order sent.
pub open spec fn first_fault(objs: Seq<IncomingObject>, ceiling: u64) -> Option<TransferError>
    decreases objs.len(),
{
    if objs.len() == 0 {
        None
    } else if first_fault(objs.drop_last(), ceiling) is Some {
        first_fault(objs.drop_last(), ceiling)
    } else {
        object_fault(objs.last(), ceiling)
    }
}

/// The objects `m` after putting each incoming object's bytes, in order.
pub open spec fn store_all(m: Map<Seq<u8>, Seq<u8>>, objs: Seq<IncomingObject>) -> Map<
    Seq<u8>,
    Seq<u8>,
>
    decreases objs.len(),
{
    if objs.len() == 0 {
        m
    } else {
        ObjectStore::spec_put(store_all(m, objs.drop_last()), objs.last().data@)
    }
}

/// A prefix of the objects never weighs more than all of them.
pub proof fn lemma_payload_prefix(objs: Seq<IncomingObject>, k: int)
    requires
        0 <= k <= objs.len(),
    ensures
        payload_size(objs.subrange(0, k)) <= payload_size(objs),
    decreases objs.len() - k,
{
    if k < objs.len() {
        lemma_payload_prefix(objs, k + 1);
        assert(objs.subrange(0, k + 1).drop_last() =~= objs.subrange(0, k));
    } else {
        assert(objs.subrange(0, k) =~= objs);
    }
}

/// Receives the objects' bytes against the push body limit, stopping at the
/// first object that takes the total over it.
pub fn within_push_limit(objs: &Vec<IncomingObject>, limit: u64) -> (r: bool)
    ensures
        r == (payload_size(objs@) <= limit),
{
    let mut total: u64 = 0;
    let mut i: usize = 0;
    while i < objs.len()
        invariant
            i <= objs@.len(),
            total == payload_size(objs@.subrange(0, i as int)),
            total <= limit,
        decreases objs@.len() - i,
    {
        let n: u64 = objs[i].data.len() as u64;
        proof {
            assert(objs@.subrange(0, i + 1).drop_last() =~= objs@.subrange(0, i as int));
        }
        if n > limit - total {
            proof {
                lemma_payload_prefix(objs@, i + 1);
            }
            return false;
        }
        total = total + n;
        i = i + 1;
    }
    assert(objs@.subrange(0, objs@.len() as int) =~= objs@);
    true
}

/// Checks one incoming object against the ceiling, its layout and its hash.
pub fn check_object(o: &IncomingObject, ceiling: u64) -> (r: Result<(), TransferError>)
    ensures
        match r {
            Ok(()) => object_fault(*o, ceiling) is None,
            Err(e) => object_fault(*o, ceiling) == Some(e),
        },
{
    if o.data.len() as u64 > ceiling {
        return Err(TransferError::ObjectTooLarge);
    }
    if !check_well_formed(o.data.as_slice()) {
        return Err(TransferError::MalformedObject);
    }
    let h = hash_object(o.data.as_slice());
    if !same_bytes(h.as_slice(), o.claimed_hash.as_slice()) {
        return Err(TransferError::HashMismatch);
    }
    Ok(())
}

/// Validates every object, in order, and reports the first fault.
pub fn validate_objects(objs: &Vec<IncomingObject>, ceiling: u64) -> (r: Result<(), TransferError>)
    ensures
        match r {
            Ok(()) => first_fault(objs@, ceiling) is None,
            Err(e) => first_fault(objs@, ceiling) == Some(e),
        },
{
    let mut i: usize = 0;
    while i < objs.len()
        invariant
            i <= objs@.len(),
            first_fault(objs@.subrange(0, i as int), ceiling) is None,
        decreases objs@.len() - i,
    {
        proof {
            assert(objs@.subrange(0, i + 1).drop_last() =~= objs@.subrange(0, i as int));
        }
        match check_object(&objs[i], ceiling) {
            Ok(()) => {},
            Err(e) => {
                proof {
                    lemma_first_fault_prefix(objs@, i + 1, ceiling);
                }
                return Err(e);
            },
        }
        i = i + 1;
    }
    assert(objs@.subrange(0, objs@.len() as int) =~= objs@);
    Ok(())
}

/// A fault found in a prefix is the fault of the whole sequence.
pub proof fn lemma_first_fault_prefix(objs: Seq<IncomingObject>, k: int, ceiling: u64)
    requires
        0 <= k <= objs.len(),
        first_fault(objs.subrange(0, k), ceiling) is Some,
    ensures
        first_fault(objs, ceiling) == first_fault(objs.subrange(0, k), ceiling),
    decreases objs.len() - k,
{
    if k < objs.len() {
        assert(objs.subrange(0, k + 1).drop_last() =~= objs.subrange(0, k));
        lemma_first_fault_prefix(objs, k + 1, ceiling);
    } else {
        assert(objs.subrange(0, k) =~= objs);
    }
}

/// Where no object is faulty, each one is within the ceiling.
pub proof fn lemma_no_fault_at(objs: Seq<IncomingObject>, i: int, ceiling: u64)
    requires
        0 <= i < objs.len(),
        first_fault(objs, ceiling) is None,
    ensures
        object_fault(objs[i], ceiling) is None,
        objs[i].data@.len() <= ceiling,
    decreases objs.len(),
{
    if i < objs.len() - 1 {
        lemma_no_fault_at(objs.drop_last(), i, ceiling);
    }
}

} // verus!
