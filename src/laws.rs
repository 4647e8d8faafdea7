//! Facts that relate several operations of the transfer engine.
use vstd::prelude::*;
use crate::object::content_hash;
use crate::object_store::{is_walk, keyed_by_hash, reachable, refers_to, ObjectStore};
use crate::ref_store::{apply_batch, batch_matches, lookup, RefUpdate};
use crate::transfer::{store_all, IncomingObject};

verus! {

/// `m2` holds every object of `m`, with the same bytes.
pub open spec fn keeps_objects(m: Map<Seq<u8>, Seq<u8>>, m2: Map<Seq<u8>, Seq<u8>>) -> bool {
    forall|h: Seq<u8>| #[trigger] m.contains_key(h) ==> m2.contains_key(h) && m2[h] == m[h]
}

/// Putting bytes and then getting their hash gives the same bytes back,
/// unless other bytes with the same hash were stored before; putting them a
/// second time returns the same hash and leaves the store as it was.
pub proof fn lemma_put_then_get(m: Map<Seq<u8>, Seq<u8>>, o: Seq<u8>)
    requires
        keyed_by_hash(m),
        m.contains_key(content_hash(o)) ==> m[content_hash(o)] == o,
    ensures
        ObjectStore::spec_put(m, o).contains_key(content_hash(o)),
        ObjectStore::spec_put(m, o)[content_hash(o)] == o,
        ObjectStore::spec_put(ObjectStore::spec_put(m, o), o) == ObjectStore::spec_put(m, o),
        keyed_by_hash(ObjectStore::spec_put(m, o)),
{
    let m2 = ObjectStore::spec_put(m, o);
    assert forall|h: Seq<u8>| m2.contains_key(h) implies h == content_hash(#[trigger] m2[h]) by {
        if h != content_hash(o) {
            assert(m.contains_key(h));
            assert(m2[h] == m[h]);
        }
    }
}

/// The value a batch leaves in ref `name`, when its update at `i` is the last
/// one naming that ref.
pub proof fn lemma_batch_last_write(m: Map<Seq<char>, Seq<u8>>, us: Seq<RefUpdate>, i: int)
    requires
        0 <= i < us.len(),
        forall|j: int| i < j < us.len() ==> (#[trigger] us[j]).name@ != us[i].name@,
    ensures
        apply_batch(m, us).contains_key(us[i].name@),
        apply_batch(m, us)[us[i].name@] == us[i].new@,
    decreases us.len(),
{
    if i < us.len() - 1 {
        assert(us.last() == us[us.len() - 1]);
        lemma_batch_last_write(m, us.drop_last(), i);
    }
}

/// Two batches that both match the current refs and share a ref which the
/// first moves to a new value cannot both commit: after the first applies,
/// the second no longer matches, and the shared ref holds the first batch's
/// target, so the second's rejection leaves it there.
pub proof fn lemma_racing_batches(
    m: Map<Seq<char>, Seq<u8>>,
    u1: Seq<RefUpdate>,
    u2: Seq<RefUpdate>,
    i1: int,
    i2: int,
)
    requires
        batch_matches(m, u1),
        batch_matches(m, u2),
        0 <= i1 < u1.len(),
        0 <= i2 < u2.len(),
        u1[i1].name@ == u2[i2].name@,
        forall|j: int| i1 < j < u1.len() ==> (#[trigger] u1[j]).name@ != u1[i1].name@,
        lookup(m, u1[i1].name@) != Some(u1[i1].new@),
    ensures
        !batch_matches(apply_batch(m, u1), u2),
        lookup(apply_batch(m, u1), u1[i1].name@) == Some(u1[i1].new@),
{
    lemma_batch_last_write(m, u1, i1);
    assert(u2[i2].matches(m));
    assert(!u2[i2].matches(apply_batch(m, u1)));
}

/// Putting objects never drops or changes an object already stored.
pub proof fn lemma_store_all_keeps(m: Map<Seq<u8>, Seq<u8>>, objs: Seq<IncomingObject>)
    ensures
        keeps_objects(m, store_all(m, objs)),
    decreases objs.len(),
{
    if objs.len() > 0 {
        lemma_store_all_keeps(m, objs.drop_last());
    }
}

/// After putting objects, each one's hash is stored.
pub proof fn lemma_store_all_holds(m: Map<Seq<u8>, Seq<u8>>, objs: Seq<IncomingObject>, i: int)
    requires
        0 <= i < objs.len(),
    ensures
        store_all(m, objs).contains_key(content_hash(objs[i].data@)),
    decreases objs.len(),
{
    if i < objs.len() - 1 {
        lemma_store_all_holds(m, objs.drop_last(), i);
        let before = store_all(m, objs.drop_last());
        assert(keeps_objects(before, ObjectStore::spec_put(before, objs.last().data@)));
    }
}

/// What is reachable stays reachable when objects are added.
pub proof fn lemma_reachable_grows(
    m: Map<Seq<u8>, Seq<u8>>,
    m2: Map<Seq<u8>, Seq<u8>>,
    roots: Seq<Seq<u8>>,
    h: Seq<u8>,
)
    requires
        keeps_objects(m, m2),
        reachable(m, roots, h),
    ensures
        reachable(m2, roots, h),
{
    let p = choose|p: Seq<Seq<u8>>| #[trigger] is_walk(m, p) && roots.contains(p[0]) && p.last() == h;
    assert forall|i: int| 0 <= i < p.len() - 1 implies #[trigger] refers_to(m2, p[i], p[i + 1]) by {
        assert(refers_to(m, p[i], p[i + 1]));
    }
    assert(is_walk(m2, p));
}

/// A push that passes its checks stores every object it brings and keeps
/// every object that was there, so each object reachable before from some
/// refs' hashes is still reachable from them afterwards.
pub proof fn lemma_push_keeps_history(
    m: Map<Seq<u8>, Seq<u8>>,
    objs: Seq<IncomingObject>,
    roots: Seq<Seq<u8>>,
    h: Seq<u8>,
)
    requires
        reachable(m, roots, h),
    ensures
        reachable(store_all(m, objs), roots, h),
        forall|i: int| 0 <= i < objs.len() ==> store_all(m, objs).contains_key(
            content_hash(#[trigger] objs[i].data@),
        ),
{
    lemma_store_all_keeps(m, objs);
    lemma_reachable_grows(m, store_all(m, objs), roots, h);
    assert forall|i: int| 0 <= i < objs.len() implies store_all(m, objs).contains_key(
        content_hash(#[trigger] objs[i].data@),
    ) by {
        lemma_store_all_holds(m, objs, i);
    }
}

/// When a push moves a ref from `old_head` to a `new_head` whose object
/// refers to `old_head`, every object reachable from the old head before the
/// push is reachable from the new head after it: a pull of the ref loses
/// nothing that was committed.
pub proof fn lemma_fast_forward_keeps_history(
    m: Map<Seq<u8>, Seq<u8>>,
    objs: Seq<IncomingObject>,
    old_head: Seq<u8>,
    new_head: Seq<u8>,
    h: Seq<u8>,
)
    requires
        reachable(m, seq![old_head], h),
        refers_to(store_all(m, objs), new_head, old_head),
    ensures
        reachable(store_all(m, objs), seq![new_head], h),
{
    let m2 = store_all(m, objs);
    lemma_store_all_keeps(m, objs);
    lemma_reachable_grows(m, m2, seq![old_head], h);
    let p = choose|p: Seq<Seq<u8>>| #[trigger] is_walk(m2, p) && seq![old_head].contains(p[0]) && p.last() == h;
    assert(seq![old_head][0] == old_head);
    assert(p[0] == old_head);
    let q = seq![new_head] + p;
    assert forall|i: int| 0 <= i < q.len() - 1 implies #[trigger] refers_to(m2, q[i], q[i + 1]) by {
        if i == 0 {
            assert(q[0] == new_head && q[1] == p[0]);
        } else {
            assert(q[i] == p[i - 1] && q[i + 1] == p[i]);
            let j = i - 1;
            assert(refers_to(m2, p[j], p[j + 1]));
        }
    }
    assert(is_walk(m2, q));
    assert(seq![new_head].contains(q[0])) by {
        assert(seq![new_head][0] == q[0]);
    }
    assert(q.last() == p.last());
}

} // verus!
