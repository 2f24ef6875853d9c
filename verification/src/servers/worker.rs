//! The worker side: receiving an upload stream into a file, and reporting the
//! storage of the worker's disk.
use vstd::prelude::*;
use vstd::string::*;
use crate::services::file::{ChunkView, FileChunk, data_chunks, flatten, sent_chunks};
use crate::text::{decimal, push_decimal};

verus! {

/// The storage service of a worker.
pub struct StorageData;

/// The upload service of a worker.
pub struct FileUploadData;

/// The storage figures a worker reports, in bytes.
pub struct StorageUsage {
    pub total_space: u64,
    pub used_space: u64,
    pub available_space: u64,
}

/// `0.0.0.0:<port>`, the address a worker listens on.
pub open spec fn listen_text(port: nat) -> Seq<char> {
    "0.0.0.0:"@ + decimal(port)
}

/// The address a worker serves on: every interface, at `port`.
pub fn listen_address(port: u16) -> (a: String)
    ensures
        a@ == listen_text(port as nat),
        a@ == seq!['0', '.', '0', '.', '0', '.', '0', ':'] + decimal(port as nat),
{
    let mut a = String::from_str("0.0.0.0:");
    push_decimal(&mut a, port as u64);
    proof {
        reveal_strlit("0.0.0.0:");
        assert(a@ =~= seq!['0', '.', '0', '.', '0', '.', '0', ':'] + decimal(port as nat));
    }
    a
}

impl StorageData {
    /// The figures of a disk of `total_space` bytes with `available_space` free.
    pub fn usage(total_space: u64, available_space: u64) -> (u: StorageUsage)
        requires
            available_space <= total_space,
        ensures
            u.total_space == total_space,
            u.available_space == available_space,
            u.used_space == total_space - available_space,
    {
        StorageUsage { total_space, used_space: total_space - available_space, available_space }
    }
}

/// What the receiver has done so far.
pub ghost struct ReceiverView {
    /// Whether the destination file has been created.
    pub opened: bool,
    /// The file name taken from the first chunk.
    pub filename: Seq<char>,
    /// The destination path, `<dir>/<filename>` of the first chunk.
    pub target: Seq<char>,
    /// The number of bytes written.
    pub total: nat,
    /// The bytes written, in order.
    pub written: Seq<u8>,
    /// Whether the closing chunk has arrived.
    pub finished: bool,
}

/// A receiver that has seen nothing.
pub open spec fn fresh_receiver() -> ReceiverView {
    ReceiverView {
        opened: false,
        filename: Seq::empty(),
        target: Seq::empty(),
        total: 0,
        written: Seq::empty(),
        finished: false,
    }
}

/// The destination of a file named `filename` sent from directory `dir`.
pub open spec fn target_path(dir: Seq<char>, filename: Seq<char>) -> Seq<char> {
    dir + seq!['/'] + filename
}

/// The destination is the directory, a slash, and the whole file name.
pub proof fn lemma_target_path(dir: Seq<char>, filename: Seq<char>)
    ensures
        target_path(dir, filename) == dir + seq!['/'] + filename,
        target_path(dir, filename).len() == dir.len() + 1 + filename.len(),
{
}

/// The receiver after one more chunk: the first chunk names the destination;
/// every chunk's data is appended; the closing chunk finishes the upload.
pub open spec fn receive_step(r: ReceiverView, c: ChunkView) -> ReceiverView {
    ReceiverView {
        opened: true,
        filename: if r.opened { r.filename } else { c.filename },
        target: if r.opened { r.target } else { target_path(c.path, c.filename) },
        total: r.total + c.data.len(),
        written: r.written + c.data,
        finished: c.is_last,
    }
}

/// The receiver after the chunks `chunks`, in order.
pub open spec fn receive_all(r: ReceiverView, chunks: Seq<ChunkView>) -> ReceiverView
    decreases chunks.len(),
{
    if chunks.len() == 0 {
        r
    } else {
        receive_step(receive_all(r, chunks.drop_last()), chunks.last())
    }
}

/// The file to create before writing the first chunk.
pub struct CreateFile {
    /// The directory to create.
    pub dir: String,
    /// The file to create in it.
    pub file_path: String,
}

/// The receiving end of one upload.
pub struct UploadReceiver {
    opened: bool,
    filename: String,
    target: String,
    total_size: u64,
    written: Ghost<Seq<u8>>,
    finished: bool,
}

impl View for UploadReceiver {
    type V = ReceiverView;

    closed spec fn view(&self) -> ReceiverView {
        ReceiverView {
            opened: self.opened,
            filename: self.filename@,
            target: self.target@,
            total: self.total_size as nat,
            written: self.written@,
            finished: self.finished,
        }
    }
}

/// The reply text: `success upload file. filename: <name>, filesize: <MiB>`,
/// the size in whole mebibytes.
pub open spec fn upload_message(filename: Seq<char>, total: nat) -> Seq<char> {
    "success upload file. filename: "@ + filename + ", filesize: "@ + decimal(total / 1024 / 1024)
}

impl UploadReceiver {
    /// A receiver waiting for the first chunk.
    pub fn new() -> (r: UploadReceiver)
        ensures
            r@ == fresh_receiver(),
    {
        UploadReceiver {
            opened: false,
            filename: String::new(),
            target: String::new(),
            total_size: 0,
            written: Ghost(Seq::empty()),
            finished: false,
        }
    }

    /// Takes the next chunk. Returns the file to create when it is the first
    /// one; its data is then written to that file.
    pub fn accept(&mut self, chunk: &FileChunk) -> (create: Option<CreateFile>)
        requires
            !old(self)@.finished,
            old(self)@.total + chunk.data@.len() <= u64::MAX,
        ensures
            final(self)@ == receive_step(old(self)@, chunk@),
            create is Some <==> !old(self)@.opened,
            create matches Some(c) ==> c.dir@ == chunk.path@ && c.file_path@ == final(self)@.target,
            create matches Some(c) ==> c.file_path@ == chunk.path@ + seq!['/'] + chunk.filename@,
            !old(self)@.opened ==> final(self)@.target == chunk.path@ + seq!['/'] + chunk.filename@
                && final(self)@.filename == chunk.filename@,
            old(self)@.opened ==> final(self)@.target == old(self)@.target && final(self)@.filename == old(self)@.filename,
            final(self)@.written == old(self)@.written + chunk.data@,
            final(self)@.total == old(self)@.total + chunk.data@.len(),
            final(self)@.finished == chunk.is_last,
    {
        let mut create: Option<CreateFile> = None;
        if !self.opened {
            proof {
                reveal_strlit("/");
            }
            let mut file_path = String::new();
            file_path.append(chunk.path.as_str());
            file_path.append("/");
            file_path.append(chunk.filename.as_str());
            proof {
                assert(file_path@ =~= target_path(chunk.path@, chunk.filename@));
            }
            self.filename = chunk.filename.clone();
            self.target = file_path.clone();
            self.opened = true;
            create = Some(CreateFile { dir: chunk.path.clone(), file_path });
        }
        self.total_size = self.total_size + chunk.data.len() as u64;
        self.written = Ghost(self.written@ + chunk.data@);
        self.finished = chunk.is_last;
        create
    }

    /// The number of bytes received so far.
    pub fn total_size(&self) -> (n: u64)
        ensures
            n == self@.total,
    {
        self.total_size
    }

    /// Whether the closing chunk has arrived.
    pub fn is_finished(&self) -> (b: bool)
        ensures
            b == self@.finished,
    {
        self.finished
    }

    /// The reply message for the upload received so far.
    pub fn message(&self) -> (m: String)
        ensures
            m@ == upload_message(self@.filename, self@.total),
            m@ == "success upload file. filename: "@ + self@.filename + ", filesize: "@ + decimal(self@.total / 1048576),
    {
        proof {
            reveal_strlit("success upload file. filename: ");
            reveal_strlit(", filesize: ");
        }
        let mut m = String::new();
        m.append("success upload file. filename: ");
        m.append(self.filename.as_str());
        m.append(", filesize: ");
        push_decimal(&mut m, self.total_size / 1024 / 1024);
        proof {
            assert(m@ =~= upload_message(self@.filename, self@.total));
        }
        m
    }

    /// The reply status of a received upload.
    pub fn status() -> (s: String)
        ensures
            s@ == "success"@,
    {
        String::from_str("success")
    }
}

/// The receiver after the data chunks of `blocks`: untouched when there are
/// none, otherwise holding the destination of the first chunk and every byte,
/// and not finished.
proof fn lemma_receive_data_chunks(filename: Seq<char>, path: Seq<char>, blocks: Seq<Seq<u8>>)
    ensures
        data_chunks(filename, path, blocks).len() == blocks.len(),
        forall|i: int|
            0 <= i < blocks.len() ==> #[trigger] data_chunks(filename, path, blocks)[i] == (ChunkView {
                filename,
                data: blocks[i],
                offset: flatten(blocks.take(i)).len(),
                is_last: false,
                path,
            }),
        blocks.len() == 0 ==> receive_all(fresh_receiver(), data_chunks(filename, path, blocks))
            == fresh_receiver(),
        blocks.len() > 0 ==> receive_all(fresh_receiver(), data_chunks(filename, path, blocks))
            == (ReceiverView {
            opened: true,
            filename,
            target: target_path(path, filename),
            total: flatten(blocks).len(),
            written: flatten(blocks),
            finished: false,
        }),
    decreases blocks.len(),
{
    if blocks.len() > 0 {
        let before = blocks.drop_last();
        lemma_receive_data_chunks(filename, path, before);
        let dc = data_chunks(filename, path, blocks);
        assert(dc.drop_last() =~= data_chunks(filename, path, before));
        assert forall|i: int| 0 <= i < blocks.len() implies #[trigger] dc[i] == (ChunkView {
            filename,
            data: blocks[i],
            offset: flatten(blocks.take(i)).len(),
            is_last: false,
            path,
        }) by {
            if i < before.len() {
                assert(before.take(i) =~= blocks.take(i));
                assert(dc[i] == data_chunks(filename, path, before)[i]);
            } else {
                assert(blocks.take(i) =~= before);
            }
        }
        if before.len() == 0 {
            assert(flatten(before) =~= Seq::<u8>::empty());
            assert(flatten(blocks) =~= Seq::<u8>::empty() + blocks.last());
        }
        assert(receive_all(fresh_receiver(), dc) == receive_step(
            receive_all(fresh_receiver(), data_chunks(filename, path, before)),
            dc.last(),
        ));
        assert(receive_all(fresh_receiver(), dc).written =~= flatten(blocks));
    }
}

/// Uploading keeps a file intact: the stream the sender makes of a file's
/// content, fed in order to a fresh receiver, creates `<dir>/<filename>`,
/// writes exactly that content, counts its size, and finishes at the closing
/// chunk and at no chunk before it. Every data chunk carries the offset at which
/// its bytes start.
pub proof fn lemma_upload_round_trip(filename: Seq<char>, path: Seq<char>, blocks: Seq<Seq<u8>>)
    ensures
        ({
            let r = receive_all(fresh_receiver(), sent_chunks(filename, path, blocks));
            &&& r.opened
            &&& r.filename == filename
            &&& r.target == target_path(path, filename)
            &&& r.target == path + seq!['/'] + filename
            &&& r.written == flatten(blocks)
            &&& r.total == flatten(blocks).len()
            &&& r.finished
        }),
        forall|k: int|
            0 <= k < sent_chunks(filename, path, blocks).len() ==> !(#[trigger] receive_all(
                fresh_receiver(),
                sent_chunks(filename, path, blocks).take(k),
            )).finished,
        forall|i: int|
            0 <= i < blocks.len() ==> (#[trigger] sent_chunks(filename, path, blocks)[i]).offset
                == flatten(blocks.take(i)).len() && sent_chunks(filename, path, blocks)[i].data == blocks[i],
{
    lemma_receive_data_chunks(filename, path, blocks);
    let sent = sent_chunks(filename, path, blocks);
    let dc = data_chunks(filename, path, blocks);
    assert(sent.drop_last() =~= dc);
    if blocks.len() == 0 {
        assert(flatten(blocks) =~= Seq::<u8>::empty());
        assert(receive_all(fresh_receiver(), sent).written =~= flatten(blocks));
    } else {
        assert(receive_all(fresh_receiver(), sent).written =~= flatten(blocks));
    }
    assert forall|k: int| 0 <= k < sent.len() implies !(#[trigger] receive_all(
        fresh_receiver(),
        sent.take(k),
    )).finished by {
        if k > 0 {
            assert(sent.take(k).last() == dc[k - 1]);
        }
    }
    assert forall|i: int| 0 <= i < blocks.len() implies (#[trigger] sent[i]).offset == flatten(
        blocks.take(i),
    ).len() && sent[i].data == blocks[i] by {
        assert(sent[i] == dc[i]);
    }
}

} // verus!
