use sarcent::modules::runner::{ProbeOutcome, RingPlacement, RingStep, worker_url};
use sarcent::service::hash::{coordinate_from_hash, hash_to_coordinate};
use sarcent::service::repository::{vnode_key, vnode_rows, HashRing, VNODES_PER_SERVER};
use std::io::Cursor;

fn ring_of(rows: &[(i64, &str)]) -> HashRing {
    HashRing::from_rows(rows.iter().map(|(k, a)| (*k, a.to_string())).collect())
}

#[test]
fn coordinate_is_murmur3_of_the_bytes() {
    for text in ["", "hello world", "10.0.0.1:50051#0", "файл.txt"] {
        let expected = murmur3::murmur3_32(&mut Cursor::new(text.as_bytes()), 0).unwrap() as i64;
        assert_eq!(hash_to_coordinate(text), expected);
    }
    assert_eq!(hash_to_coordinate(""), 0);
    assert_eq!(hash_to_coordinate("hello world"), 1586663183);
    assert_ne!(hash_to_coordinate("hello world"), hash_to_coordinate("hello worle"));
}

#[test]
fn coordinate_from_hash_widens() {
    assert_eq!(coordinate_from_hash(u32::MAX), 4294967295);
    assert_eq!(coordinate_from_hash(0), 0);
}

#[test]
fn vnode_keys_and_rows() {
    assert_eq!(vnode_key("10.1.1.234:50051", 0), "10.1.1.234:50051#0");
    assert_eq!(vnode_key("10.1.1.234:50051", 125), "10.1.1.234:50051#125");
    let rows = vnode_rows("10.1.1.234:50051");
    assert_eq!(rows.len() as u64, VNODES_PER_SERVER);
    for (i, row) in rows.iter().enumerate() {
        assert_eq!(row.server_key, format!("10.1.1.234:50051#{}", i));
        assert_eq!(row.server_address, "10.1.1.234:50051");
        assert_eq!(row.hash_coordinate, hash_to_coordinate(&row.server_key));
    }
    let mut keys: Vec<&String> = rows.iter().map(|r| &r.server_key).collect();
    keys.sort();
    keys.dedup();
    assert_eq!(keys.len(), 126);
}

#[test]
fn ring_from_rows_later_row_wins() {
    let ring = ring_of(&[(10, "a"), (20, "b"), (10, "c")]);
    assert_eq!(ring.ring, vec![10, 20, 10]);
    assert_eq!(ring.address_of(10), Some("c".to_string()));
    assert_eq!(ring.address_of(20), Some("b".to_string()));
    assert_eq!(ring.address_of(30), None);
}

#[test]
fn candidates_rotate_from_first_coordinate_below() {
    let ring = ring_of(&[(50, "a"), (10, "b"), (30, "c"), (70, "d")]);
    assert_eq!(ring.start_index(40), Some(1));
    assert_eq!(ring.candidates(40), Some(vec![10, 30, 70, 50]));
    assert_eq!(ring.start_index(51), Some(0));
    assert_eq!(ring.candidates(51), Some(vec![50, 10, 30, 70]));
    assert_eq!(ring.start_index(10), None);
    assert_eq!(ring.candidates(5), None);
}

#[test]
fn ring_placement_uploads_to_first_with_room() {
    let ring = ring_of(&[(10, "a"), (20, "b"), (30, "c")]);
    let mut p = RingPlacement::plan(&ring, 25).unwrap();
    match p.next_step() {
        RingStep::Probe { key, address } => {
            assert_eq!(key, 10);
            assert_eq!(address, "a");
        }
        other => panic!("unexpected {:?}", other),
    }
    p.record(ProbeOutcome::Full);
    match p.next_step() {
        RingStep::Probe { key, address } => {
            assert_eq!(key, 20);
            assert_eq!(address, "b");
        }
        other => panic!("unexpected {:?}", other),
    }
    p.record(ProbeOutcome::HasRoom);
    match p.next_step() {
        RingStep::Upload { key, address } => {
            assert_eq!(key, 20);
            assert_eq!(address, "b");
        }
        other => panic!("unexpected {:?}", other),
    }
    p.record_upload(true);
    match p.next_step() {
        RingStep::Finished { key, address, remove } => {
            assert_eq!((key, address.as_str(), remove), (20, "b", true));
        }
        other => panic!("unexpected {:?}", other),
    }
}

#[test]
fn ring_placement_keeps_the_file_after_a_failed_upload() {
    let ring = ring_of(&[(10, "a")]);
    let mut p = RingPlacement::plan(&ring, 11).unwrap();
    p.record(ProbeOutcome::HasRoom);
    p.record_upload(false);
    match p.next_step() {
        RingStep::Finished { key, address, remove } => {
            assert_eq!((key, address.as_str(), remove), (10, "a", false));
        }
        other => panic!("unexpected {:?}", other),
    }
}

#[test]
fn ring_placement_exhausts_when_nobody_has_room() {
    let ring = ring_of(&[(10, "a"), (20, "b")]);
    let mut p = RingPlacement::plan(&ring, 100).unwrap();
    p.record(ProbeOutcome::Unreachable);
    p.record(ProbeOutcome::Full);
    assert!(matches!(p.next_step(), RingStep::Exhausted));
}

#[test]
fn ring_placement_without_coordinate_below() {
    let ring = ring_of(&[(10, "a"), (20, "b")]);
    assert!(RingPlacement::plan(&ring, 10).is_none());
    let empty = ring_of(&[]);
    assert!(RingPlacement::plan(&empty, 10).is_none());
}

#[test]
fn worker_urls() {
    assert_eq!(worker_url(false, "10.0.0.2:50051"), "http://10.0.0.2:50051");
    assert_eq!(worker_url(true, "10.0.0.2:50051"), "https://10.0.0.2:50051");
}

#[test]
fn registering_twice_gives_the_same_rows() {
    let a = vnode_rows("10.0.0.7:50051");
    let b = vnode_rows("10.0.0.7:50051");
    let view = |rows: &Vec<sarcent::service::repository::VnodeRow>| -> Vec<(i64, String, String)> {
        rows.iter().map(|r| (r.hash_coordinate, r.server_address.clone(), r.server_key.clone())).collect()
    };
    assert_eq!(view(&a), view(&b));
    let mut table = std::collections::HashMap::new();
    table.insert(a[0].hash_coordinate, "other".to_string());
    for r in a.iter().chain(b.iter()) {
        table.insert(r.hash_coordinate, r.server_address.clone());
    }
    let ring = HashRing::from_rows(table.into_iter().collect());
    for r in &a {
        assert_eq!(ring.address_of(r.hash_coordinate), Some("10.0.0.7:50051".to_string()));
    }
}

#[test]
fn ring_from_ascending_rows_has_one_owner_per_coordinate() {
    let ring = ring_of(&[(3, "a"), (7, "b"), (12, "a")]);
    assert!(ring.ring.windows(2).all(|w| w[0] < w[1]));
    assert_eq!(ring.vnode_map.len(), ring.ring.len());
    assert_eq!(ring.address_of(3), Some("a".to_string()));
    assert_eq!(ring.address_of(7), Some("b".to_string()));
    assert_eq!(ring.address_of(12), Some("a".to_string()));
}
