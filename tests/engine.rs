use forge::engine::TransferEngine;
use forge::error::TransferError;
use forge::object::hash_object;
use forge::ref_store::RefUpdate;
use forge::transfer::{IncomingObject, PushRequest, TransferState};
use forge::vcs::VcsConfig;

fn engine() -> TransferEngine {
    TransferEngine::new(VcsConfig {
        repositories_root: "/srv/repos".to_string(),
        jj_binary_path: "jj".to_string(),
        max_push_size_mb: 1,
        max_file_size_mb: 1,
    })
}

fn push_of(content: &[u8], expected: Option<Vec<u8>>) -> (PushRequest, Vec<u8>) {
    let mut data = vec![0u8];
    data.extend_from_slice(content);
    let h = hash_object(&data);
    let req = PushRequest {
        objects: vec![IncomingObject { claimed_hash: h.clone(), data }],
        updates: vec![RefUpdate { name: "main".to_string(), expected, new: h.clone() }],
    };
    (req, h)
}

#[test]
fn pushes_reach_only_their_own_repository() {
    let mut e = engine();
    assert_eq!(e.create_repository("one"), Ok("/srv/repos/one".to_string()));
    assert_eq!(e.create_repository("two"), Ok("/srv/repos/two".to_string()));
    let (req1, h1) = push_of(b"one", None);
    let (req2, h2) = push_of(b"two", None);
    assert_eq!(e.push("one", &req1).map(|r| r.state), Ok(TransferState::Committed));
    assert_eq!(e.push("two", &req2).map(|r| r.state), Ok(TransferState::Committed));
    let main = vec!["main".to_string()];
    let one: Vec<Vec<u8>> = e.pull("one", &main).unwrap().into_iter().map(|o| o.hash).collect();
    let two: Vec<Vec<u8>> = e.pull("two", &main).unwrap().into_iter().map(|o| o.hash).collect();
    assert_eq!(one, vec![h1]);
    assert_eq!(two, vec![h2]);
}

#[test]
fn unknown_or_malformed_slugs_are_refused() {
    let mut e = engine();
    let (req, _) = push_of(b"x", None);
    assert_eq!(e.push("ghost", &req).map(|r| r.state), Err(TransferError::NotFound));
    assert_eq!(e.push("../etc", &req).map(|r| r.state), Err(TransferError::InvalidSlug));
    assert!(matches!(e.pull("ghost", &vec![]), Err(TransferError::NotFound)));
    assert_eq!(e.create_repository("Bad Slug"), Err(TransferError::InvalidSlug));
}

#[test]
fn creating_twice_keeps_the_repository() {
    let mut e = engine();
    e.create_repository("one").unwrap();
    let (req, h) = push_of(b"kept", None);
    e.push("one", &req).unwrap();
    assert_eq!(e.create_repository("one"), Ok("/srv/repos/one".to_string()));
    let objs = e.pull("one", &vec!["main".to_string()]).unwrap();
    assert_eq!(objs[0].hash, h);
}

#[test]
fn deleting_a_repository_drops_its_objects_and_refs() {
    let mut e = engine();
    e.create_repository("one").unwrap();
    e.create_repository("two").unwrap();
    let (req, _) = push_of(b"gone", None);
    e.push("one", &req).unwrap();
    assert_eq!(e.delete_repository("one"), Ok("/srv/repos/one".to_string()));
    assert!(matches!(e.pull("one", &vec![]), Err(TransferError::NotFound)));
    assert_eq!(e.delete_repository("one"), Err(TransferError::NotFound));
    e.create_repository("one").unwrap();
    assert!(matches!(e.pull("one", &vec!["main".to_string()]), Err(TransferError::NotFound)));
    assert!(e.pull("two", &vec![]).unwrap().is_empty());
}
