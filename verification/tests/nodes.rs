use sarcent::modules::worker::WorkerService;
use sarcent::servers::worker::StorageData;
use sarcent::utils::daemon::Daemon;
use sarcent::utils::node::{ServerInfo, Status};

#[test]
fn online_server_info() {
    let info = ServerInfo::from_report(
        "10.0.0.1:50051".into(),
        Some(StorageData::usage(2147483648, 1073741824)),
        "50.00%".into(),
    );
    assert_eq!(info.status, Status::Online);
    assert_eq!(info.total_space, "2.00 GiB");
    assert_eq!(info.used_space, "1.00 GiB");
    assert_eq!(info.available_space, "1.00 GiB");
    assert_eq!(info.usage_percent, "50.00%");
    assert_eq!(info.summary_line(), "[Online] [10.0.0.1:50051] used_space: 1.00 GiB, available: 1.00 GiB");
}

#[test]
fn offline_server_info() {
    let info = ServerInfo::from_report("10.0.0.9:50051".into(), None, "0.00%".into());
    assert_eq!(info.status, Status::Offline);
    assert_eq!(info.total_space, "0.00 GiB");
    assert_eq!(info.summary_line(), "[Offline] [10.0.0.9:50051] used_space: 0.00 GiB, available: 0.00 GiB");
    assert_eq!(format!("{:?}", info.status), "Offline");
}

#[test]
fn daemon_files() {
    let d = Daemon::new("sarcent");
    assert_eq!(d.name, "sarcent");
    assert_eq!(d.file_path("pid"), "/tmp/sarcent.pid");
    assert_eq!(d.file_path("out"), "/tmp/sarcent.out");
    assert_eq!(Daemon::working_directory(), "/tmp");
}

#[test]
fn worker_ids() {
    assert_eq!(WorkerService::new("1234").worker_id, "worker-1234");
}
