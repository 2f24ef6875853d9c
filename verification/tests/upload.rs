use sarcent::servers::worker::{listen_address, StorageData, UploadReceiver};
use sarcent::services::file::{FileChunk, UploadStream};

fn send(filename: &str, path: &str, blocks: &[&[u8]]) -> Vec<FileChunk> {
    let mut stream = UploadStream::new(filename.to_string(), path.to_string());
    let mut chunks: Vec<FileChunk> = blocks.iter().map(|b| stream.data_chunk(b.to_vec())).collect();
    chunks.push(stream.last_chunk());
    chunks
}

#[test]
fn sender_offsets_are_contiguous() {
    let chunks = send("a.txt", "./docs", &[b"hello", b" ", b"world"]);
    let offsets: Vec<u64> = chunks.iter().map(|c| c.offset).collect();
    assert_eq!(offsets, vec![0, 5, 6, 11]);
    let lasts: Vec<bool> = chunks.iter().map(|c| c.is_last).collect();
    assert_eq!(lasts, vec![false, false, false, true]);
    assert!(chunks[3].data.is_empty());
    assert!(chunks.iter().all(|c| c.filename == "a.txt" && c.path == "./docs"));
}

#[test]
fn upload_round_trip() {
    let chunks = send("a.txt", "./docs", &[b"hello", b" ", b"world"]);
    let mut receiver = UploadReceiver::new();
    let mut written: Vec<u8> = Vec::new();
    let mut created = Vec::new();
    for chunk in &chunks {
        assert!(!receiver.is_finished());
        if let Some(c) = receiver.accept(chunk) {
            created.push((c.dir, c.file_path));
        }
        written.extend_from_slice(&chunk.data);
    }
    assert!(receiver.is_finished());
    assert_eq!(created, vec![("./docs".to_string(), "./docs/a.txt".to_string())]);
    assert_eq!(written, b"hello world".to_vec());
    assert_eq!(receiver.message(), "success upload file. filename: a.txt, filesize: 0");
    assert_eq!(UploadReceiver::status(), "success");
}

#[test]
fn empty_file_round_trip() {
    let chunks = send("empty", ".", &[]);
    assert_eq!(chunks.len(), 1);
    let mut receiver = UploadReceiver::new();
    let create = receiver.accept(&chunks[0]).unwrap();
    assert_eq!(create.file_path, "./empty");
    assert!(receiver.is_finished());
    assert_eq!(receiver.message(), "success upload file. filename: empty, filesize: 0");
}

#[test]
fn message_counts_whole_mebibytes() {
    let mut stream = UploadStream::new("big.bin".to_string(), "d".to_string());
    let mut receiver = UploadReceiver::new();
    receiver.accept(&stream.data_chunk(vec![0u8; 3 * 1024 * 1024 + 5]));
    receiver.accept(&stream.last_chunk());
    assert_eq!(receiver.message(), "success upload file. filename: big.bin, filesize: 3");
}

#[test]
fn storage_usage_figures() {
    let u = StorageData::usage(1000, 250);
    assert_eq!((u.total_space, u.used_space, u.available_space), (1000, 750, 250));
}

#[test]
fn worker_listen_address() {
    assert_eq!(listen_address(50051), "0.0.0.0:50051");
    assert_eq!(listen_address(0), "0.0.0.0:0");
}
