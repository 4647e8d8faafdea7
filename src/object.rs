//! The layout of a repository object and its content hash.
//!
//! An object's bytes start with one byte `n`, the number of objects it
//! refers to, followed by the `n` referenced hashes of `HASH_LEN` bytes each,
//! followed by the object's own content.
use vstd::prelude::*;
use sha2::Digest;

verus! {

/// Length in bytes of a content hash.
pub const HASH_LEN: usize = 32;

/// The SHA-256 digest of a byte sequence.
pub uninterp spec fn sha256_of(data: Seq<u8>) -> Seq<u8>;

/// Relies on `sha2::Sha256::digest`: the SHA-256 digest of `data`, which is
/// always 32 bytes long.
#[verifier::external_body]
pub(crate) fn sha256(data: &[u8]) -> (r: Vec<u8>)
    ensures
        r@ == sha256_of(data@),
        r@.len() == HASH_LEN,
{
    sha2::Sha256::digest(data).to_vec()
}

/// The content hash of an object's bytes.
pub open spec fn content_hash(data: Seq<u8>) -> Seq<u8> {
    sha256_of(data)
}

/// Computes the content hash of an object's bytes.
pub fn hash_object(data: &[u8]) -> (r: Vec<u8>)
    ensures
        r@ == content_hash(data@),
        r@.len() == HASH_LEN,
{
    sha256(data)
}

/// Whether `data` is long enough for the references its first byte announces.
pub open spec fn is_well_formed(data: Seq<u8>) -> bool {
    data.len() >= 1 && data.len() >= 1 + HASH_LEN * (data[0] as int)
}

/// The `k`-th referenced hash of a well-formed object.
pub open spec fn link_at(data: Seq<u8>, k: int) -> Seq<u8> {
    data.subrange(1 + HASH_LEN * k, 1 + HASH_LEN * k + HASH_LEN)
}

/// The hashes an object refers to, in order; none for malformed bytes.
pub open spec fn links_of(data: Seq<u8>) -> Seq<Seq<u8>> {
    if is_well_formed(data) {
        Seq::new(data[0] as nat, |k: int| link_at(data, k))
    } else {
        Seq::empty()
    }
}

/// Whether the bytes follow the object layout.
pub fn check_well_formed(data: &[u8]) -> (r: bool)
    ensures
        r == is_well_formed(data@),
{
    if data.len() == 0 {
        return false;
    }
    let n: usize = data[0] as usize;
    data.len() - 1 >= HASH_LEN * n
}

/// The number of hashes an object refers to.
pub fn link_count(data: &[u8]) -> (r: usize)
    ensures
        r == links_of(data@).len(),
{
    if check_well_formed(data) {
        data[0] as usize
    } else {
        0
    }
}

/// The `k`-th hash an object refers to.
pub fn link(data: &[u8], k: usize) -> (r: Vec<u8>)
    requires
        k < links_of(data@).len(),
    ensures
        r@ == links_of(data@)[k as int],
        r@.len() == HASH_LEN,
{
    let start: usize = 1 + HASH_LEN * k;
    let mut r: Vec<u8> = Vec::new();
    let mut i: usize = 0;
    while i < HASH_LEN
        invariant
            is_well_formed(data@),
            k < data@[0],
            start == 1 + HASH_LEN * k,
            i <= HASH_LEN,
            r@ == data@.subrange(start as int, start + i),
        decreases HASH_LEN - i,
    {
        r.push(data[start + i]);
        i = i + 1;
        proof {
            assert(r@ =~= data@.subrange(start as int, start + i));
        }
    }
    r
}

/// Whether two byte strings are equal.
pub fn same_bytes(a: &[u8], b: &[u8]) -> (r: bool)
    ensures
        r == (a@ == b@),
{
    if a.len() != b.len() {
        return false;
    }
    let mut i: usize = 0;
    while i < a.len()
        invariant
            a@.len() == b@.len(),
            i <= a@.len(),
            forall|j: int| 0 <= j < i ==> a@[j] == b@[j],
        decreases a@.len() - i,
    {
        if a[i] != b[i] {
            return false;
        }
        i = i + 1;
    }
    assert(a@ =~= b@);
    true
}

/// A copy of a byte vector.
pub fn copy_bytes(v: &Vec<u8>) -> (r: Vec<u8>)
    ensures
        r@ == v@,
{
    let r: Vec<u8> = v.clone();
    assert(r@ =~= v@);
    r
}

} // verus!
