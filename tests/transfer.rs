use forge::error::TransferError;
use forge::jj::JjRepository;
use forge::object::hash_object;
use forge::ref_store::RefUpdate;
use forge::transfer::{
    validate_objects, within_push_limit, IncomingObject, PushRequest, SizeLimits, TransferState,
};
use forge::vcs::VcsConfig;

fn config() -> VcsConfig {
    VcsConfig {
        repositories_root: "./repositories".to_string(),
        jj_binary_path: "jj".to_string(),
        max_push_size_mb: 200,
        max_file_size_mb: 100,
    }
}

fn repo(push_body_limit: u64, file_size_ceiling: u64) -> JjRepository {
    JjRepository::with_limits(
        "./repositories/acme/widgets".to_string(),
        config(),
        SizeLimits { push_body_limit, file_size_ceiling },
    )
}

fn blob(content: &[u8]) -> Vec<u8> {
    let mut v = vec![0u8];
    v.extend_from_slice(content);
    v
}

fn commit(parents: &[Vec<u8>], content: &[u8]) -> Vec<u8> {
    let mut v = vec![parents.len() as u8];
    for p in parents {
        v.extend_from_slice(p);
    }
    v.extend_from_slice(content);
    v
}

fn incoming(data: Vec<u8>) -> IncomingObject {
    IncomingObject { claimed_hash: hash_object(&data), data }
}

fn update(name: &str, expected: Option<Vec<u8>>, new: Vec<u8>) -> RefUpdate {
    RefUpdate { name: name.to_string(), expected, new }
}

fn pulled_hashes(r: &JjRepository, refs: &[&str]) -> Vec<Vec<u8>> {
    let names: Vec<String> = refs.iter().map(|s| s.to_string()).collect();
    let mut hs: Vec<Vec<u8>> = r.pull(&names).unwrap().into_iter().map(|o| o.hash).collect();
    hs.sort();
    hs
}

fn sorted(mut v: Vec<Vec<u8>>) -> Vec<Vec<u8>> {
    v.sort();
    v
}

#[test]
fn push_then_pull_returns_the_pushed_history() {
    let mut r = repo(1 << 20, 1 << 16);
    let o0 = commit(&[], b"root");
    let h0 = hash_object(&o0);
    let res = r.push(&PushRequest {
        objects: vec![incoming(o0.clone())],
        updates: vec![update("main", None, h0.clone())],
    });
    assert_eq!(res.state, TransferState::Committed);
    assert_eq!(res.ref_updates, vec![("main".to_string(), h0.clone())]);
    assert_eq!(pulled_hashes(&r, &["main"]), vec![h0]);
}

#[test]
fn widgets_push_commits_and_pull_returns_the_new_object() {
    let mut r = repo(1 << 20, 100 * 1024);
    let o0 = blob(b"initial");
    let h0 = hash_object(&o0);
    let res = r.push(&PushRequest {
        objects: vec![incoming(o0)],
        updates: vec![update("main", None, h0.clone())],
    });
    assert_eq!(res.state, TransferState::Committed);
    let o1 = blob(&vec![7u8; 10 * 1024 - 1]);
    assert_eq!(o1.len(), 10 * 1024);
    let h1 = hash_object(&o1);
    let res = r.push(&PushRequest {
        objects: vec![incoming(o1.clone())],
        updates: vec![update("main", Some(h0), h1.clone())],
    });
    assert_eq!(res.state, TransferState::Committed);
    assert_eq!(r.refs().resolve(&"main".to_string()), Some(h1.clone()));
    let objs = r.pull(&vec!["main".to_string()]).unwrap();
    assert_eq!(objs.len(), 1);
    assert_eq!(objs[0].hash, h1);
    assert_eq!(objs[0].data, o1);
}

#[test]
fn payload_one_byte_over_the_limit_is_rejected_and_refs_stay() {
    let mut r = repo(100, 100);
    let o0 = blob(b"base");
    let h0 = hash_object(&o0);
    r.push(&PushRequest { objects: vec![incoming(o0)], updates: vec![update("main", None, h0.clone())] });
    let before = r.refs().entries();
    let objects_before = r.objects().len();
    let big = blob(&vec![1u8; 100]);
    assert_eq!(big.len(), 101);
    let res = r.push(&PushRequest {
        objects: vec![incoming(big.clone())],
        updates: vec![update("main", Some(h0.clone()), hash_object(&big))],
    });
    assert_eq!(res.state, TransferState::Rejected(TransferError::PayloadTooLarge));
    assert!(res.ref_updates.is_empty());
    assert_eq!(r.refs().entries(), before);
    assert_eq!(r.objects().len(), objects_before);
    let exact = blob(&vec![1u8; 99]);
    let res = r.push(&PushRequest {
        objects: vec![incoming(exact.clone())],
        updates: vec![update("main", Some(h0), hash_object(&exact))],
    });
    assert_eq!(res.state, TransferState::Committed);
}

#[test]
fn payload_limit_counts_all_objects() {
    let objs = vec![incoming(blob(&[1u8; 49])), incoming(blob(&[2u8; 49]))];
    assert!(within_push_limit(&objs, 100));
    assert!(!within_push_limit(&objs, 99));
    assert!(within_push_limit(&vec![], 0));
}

#[test]
fn wrong_claimed_hash_is_rejected() {
    let mut r = repo(1 << 20, 1 << 16);
    let o = blob(b"x");
    let res = r.push(&PushRequest {
        objects: vec![IncomingObject { claimed_hash: vec![0u8; 32], data: o }],
        updates: vec![update("main", None, vec![0u8; 32])],
    });
    assert_eq!(res.state, TransferState::Rejected(TransferError::HashMismatch));
    assert_eq!(r.objects().len(), 0);
    assert_eq!(r.refs().resolve(&"main".to_string()), None);
}

#[test]
fn object_over_the_file_ceiling_is_rejected() {
    let mut r = repo(1 << 20, 8);
    let o = blob(&[5u8; 8]);
    let res = r.push(&PushRequest {
        objects: vec![incoming(o.clone())],
        updates: vec![update("main", None, hash_object(&o))],
    });
    assert_eq!(res.state, TransferState::Rejected(TransferError::ObjectTooLarge));
    assert_eq!(r.objects().len(), 0);
}

#[test]
fn malformed_object_is_rejected() {
    let mut r = repo(1 << 20, 1 << 16);
    let o = vec![2u8, 1, 2, 3];
    let res = r.push(&PushRequest {
        objects: vec![incoming(o.clone())],
        updates: vec![update("main", None, hash_object(&o))],
    });
    assert_eq!(res.state, TransferState::Rejected(TransferError::MalformedObject));
}

#[test]
fn first_faulty_object_decides_the_error() {
    let good = incoming(blob(b"ok"));
    let bad_hash = IncomingObject { claimed_hash: vec![1u8; 32], data: blob(b"y") };
    let too_big = incoming(blob(&[0u8; 20]));
    assert_eq!(validate_objects(&vec![good, bad_hash, too_big], 10), Err(TransferError::HashMismatch));
    assert_eq!(validate_objects(&vec![incoming(blob(b"fine"))], 10), Ok(()));
}

#[test]
fn stale_ref_update_is_a_conflict_that_keeps_objects() {
    let mut r = repo(1 << 20, 1 << 16);
    let o0 = blob(b"zero");
    let h0 = hash_object(&o0);
    r.push(&PushRequest { objects: vec![incoming(o0)], updates: vec![update("main", None, h0.clone())] });
    let o1 = blob(b"one");
    let h1 = hash_object(&o1);
    let res = r.push(&PushRequest {
        objects: vec![incoming(o1)],
        updates: vec![update("main", Some(h1.clone()), h1.clone())],
    });
    assert_eq!(res.state, TransferState::Rejected(TransferError::RefConflict));
    assert!(res.ref_updates.is_empty());
    assert_eq!(r.refs().resolve(&"main".to_string()), Some(h0));
    assert!(r.objects().contains(&h1));
}

#[test]
fn two_pushes_from_the_same_base_commit_exactly_one() {
    let mut r = repo(1 << 20, 1 << 16);
    let o0 = blob(b"base");
    let h0 = hash_object(&o0);
    r.push(&PushRequest { objects: vec![incoming(o0)], updates: vec![update("main", None, h0.clone())] });
    let first = blob(b"first");
    let second = blob(b"second");
    let (t1, t2) = (hash_object(&first), hash_object(&second));
    let r1 = r.push(&PushRequest {
        objects: vec![incoming(first)],
        updates: vec![update("main", Some(h0.clone()), t1.clone())],
    });
    let r2 = r.push(&PushRequest {
        objects: vec![incoming(second)],
        updates: vec![update("main", Some(h0.clone()), t2.clone())],
    });
    let committed = [r1.state, r2.state].iter().filter(|s| **s == TransferState::Committed).count();
    assert_eq!(committed, 1);
    assert_eq!(r2.state, TransferState::Rejected(TransferError::RefConflict));
    assert_eq!(r.refs().resolve(&"main".to_string()), Some(t1));
}

#[test]
fn pull_after_push_keeps_earlier_history() {
    let mut r = repo(1 << 20, 1 << 16);
    let tree0 = blob(b"tree0");
    let c0 = commit(&[hash_object(&tree0)], b"c0");
    let hc0 = hash_object(&c0);
    r.push(&PushRequest {
        objects: vec![incoming(tree0.clone()), incoming(c0.clone())],
        updates: vec![update("main", None, hc0.clone())],
    });
    let tree1 = blob(b"tree1");
    let c1 = commit(&[hc0.clone(), hash_object(&tree1)], b"c1");
    let hc1 = hash_object(&c1);
    let res = r.push(&PushRequest {
        objects: vec![incoming(tree1.clone()), incoming(c1.clone())],
        updates: vec![update("main", Some(hc0.clone()), hc1.clone())],
    });
    assert_eq!(res.state, TransferState::Committed);
    let want = sorted(vec![hash_object(&tree0), hc0, hash_object(&tree1), hc1]);
    assert_eq!(pulled_hashes(&r, &["main"]), want);
}

#[test]
fn pull_of_an_unknown_ref_is_not_found() {
    let r = repo(1 << 20, 1 << 16);
    assert!(matches!(r.pull(&vec!["main".to_string()]), Err(TransferError::NotFound)));
}

#[test]
fn repository_limits_come_from_megabytes() {
    let r = JjRepository::new("./r".to_string(), config());
    assert_eq!(r.limits(), SizeLimits { push_body_limit: 200 * 1048576, file_size_ceiling: 100 * 1048576 });
    assert_eq!(r.path(), "./r");
    let huge = SizeLimits::from_megabytes(u64::MAX, 1);
    assert_eq!(huge.push_body_limit, u64::MAX);
    assert_eq!(huge.file_size_ceiling, 1048576);
}
