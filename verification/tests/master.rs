use sarcent::repository::metadata::{search_pattern, MetadataItem, MetadataRowItem};
use sarcent::servers::master::{MasterStep, ServerPlacement};

fn servers() -> Vec<String> {
    vec!["10.0.0.1:50051".to_string(), "10.0.0.2:50051".to_string(), "10.0.0.3:50051".to_string()]
}

#[test]
fn placement_skips_full_and_failed_servers() {
    let mut p = ServerPlacement::new(servers(), 1000, 0);
    match p.next_step() {
        MasterStep::Probe { host } => assert_eq!(host, "http://10.0.0.1:50051"),
        other => panic!("unexpected {:?}", other),
    }
    p.record_storage(false, 1_000_000);
    match p.next_step() {
        MasterStep::Probe { host } => assert_eq!(host, "http://10.0.0.2:50051"),
        other => panic!("unexpected {:?}", other),
    }
    p.record_storage(true, 5000);
    match p.next_step() {
        MasterStep::Upload { host, server } => {
            assert_eq!(host, "http://10.0.0.2:50051");
            assert_eq!(server, "10.0.0.2:50051");
        }
        other => panic!("unexpected {:?}", other),
    }
    p.record_upload(false);
    match p.next_step() {
        MasterStep::Probe { host } => assert_eq!(host, "http://10.0.0.3:50051"),
        other => panic!("unexpected {:?}", other),
    }
    p.record_storage(true, 1001);
    p.record_upload(true);
    match p.next_step() {
        MasterStep::Placed { server } => assert_eq!(server, "10.0.0.3:50051"),
        other => panic!("unexpected {:?}", other),
    }
}

#[test]
fn placement_starts_at_the_given_position_and_wraps() {
    let mut p = ServerPlacement::new(servers(), 10, 1);
    match p.next_step() {
        MasterStep::Probe { host } => assert_eq!(host, "http://10.0.0.2:50051"),
        other => panic!("unexpected {:?}", other),
    }
    p.record_storage(false, 100);
    p.record_storage(true, 5);
    match p.next_step() {
        MasterStep::Probe { host } => assert_eq!(host, "http://10.0.0.1:50051"),
        other => panic!("unexpected {:?}", other),
    }
    assert!(p.record_storage(true, 100));
    p.record_upload(true);
    match p.next_step() {
        MasterStep::Placed { server } => assert_eq!(server, "10.0.0.1:50051"),
        other => panic!("unexpected {:?}", other),
    }
}

#[test]
fn every_server_with_room_can_receive_the_file() {
    for start in 0..3 {
        let mut p = ServerPlacement::new(servers(), 10, start);
        assert!(p.record_storage(true, 100));
        p.record_upload(true);
        match p.next_step() {
            MasterStep::Placed { server } => assert_eq!(server, servers()[start]),
            other => panic!("unexpected {:?}", other),
        }
    }
}

#[test]
fn placement_needs_more_free_space_than_the_file() {
    let mut p = ServerPlacement::new(vec!["s".to_string()], 1000, 0);
    p.record_storage(true, 1000);
    assert!(matches!(p.next_step(), MasterStep::Exhausted));
}

#[test]
fn placement_with_no_servers() {
    let p = ServerPlacement::new(vec![], 1, 0);
    assert!(matches!(p.next_step(), MasterStep::Exhausted));
}

#[test]
fn stored_size_keeps_low_32_bits() {
    let item = MetadataItem::stored("a".into(), ".".into(), (1u64 << 32) + 5, "s".into());
    assert_eq!(item.size_bytes, 5);
    let item = MetadataItem::stored("a".into(), ".".into(), 123, "s".into());
    assert_eq!((item.name.as_str(), item.path.as_str(), item.size_bytes, item.server_address.as_str()), ("a", ".", 123, "s"));
}

#[test]
fn search_patterns() {
    assert_eq!(search_pattern("report"), "%report%");
    assert_eq!(search_pattern(""), "%%");
}

#[test]
fn search_hit_line() {
    let row = MetadataRowItem {
        name: "movie.mkv".into(),
        path: "./videos".into(),
        size_bytes: 1610612736,
        discovered_at: String::new(),
        server_address: "10.0.0.2:50051".into(),
        created_at: String::new(),
        updated_at: String::new(),
    };
    assert_eq!(row.summary_line(), "[10.0.0.2:50051] 1.50 GiB movie.mkv");
}
