//! The sending side of a file upload: the file is cut into data chunks that
//! carry their byte offset, followed by one empty chunk that marks the end.
use vstd::prelude::*;

verus! {

/// Size of the buffer the sender reads the file with.
pub const CHUNK_SIZE: usize = 2097152;

/// One message of an upload stream.
pub struct FileChunk {
    pub filename: String,
    pub data: Vec<u8>,
    pub offset: u64,
    pub is_last: bool,
    pub path: String,
}

/// A chunk as a value.
pub ghost struct ChunkView {
    pub filename: Seq<char>,
    pub data: Seq<u8>,
    pub offset: nat,
    pub is_last: bool,
    pub path: Seq<char>,
}

impl View for FileChunk {
    type V = ChunkView;

    open spec fn view(&self) -> ChunkView {
        ChunkView {
            filename: self.filename@,
            data: self.data@,
            offset: self.offset as nat,
            is_last: self.is_last,
            path: self.path@,
        }
    }
}

/// The bytes of `blocks`, one after the other.
pub open spec fn flatten(blocks: Seq<Seq<u8>>) -> Seq<u8>
    decreases blocks.len(),
{
    if blocks.len() == 0 {
        Seq::empty()
    } else {
        flatten(blocks.drop_last()) + blocks.last()
    }
}

/// Flattening keeps every byte in order: one block is its own bytes, and the
/// bytes of two runs of blocks are those of the first followed by those of the
/// second.
pub proof fn lemma_flatten_concat(a: Seq<Seq<u8>>, b: Seq<Seq<u8>>)
    ensures
        flatten(a + b) == flatten(a) + flatten(b),
    decreases b.len(),
{
    if b.len() == 0 {
        assert(a + b =~= a);
        assert(flatten(b) =~= Seq::<u8>::empty());
        assert(flatten(a) + flatten(b) =~= flatten(a));
    } else {
        lemma_flatten_concat(a, b.drop_last());
        assert((a + b).drop_last() =~= a + b.drop_last());
        assert((a + b).last() == b.last());
        assert(flatten(a + b) =~= flatten(a) + flatten(b));
    }
}

/// A single block flattens to itself.
pub proof fn lemma_flatten_single(b: Seq<u8>)
    ensures
        flatten(seq![b]) == b,
{
    let one = seq![b];
    assert(one.drop_last() =~= Seq::<Seq<u8>>::empty());
    assert(flatten(one.drop_last()) == Seq::<u8>::empty());
    assert(one.last() == b);
    assert(flatten(one) == flatten(one.drop_last()) + one.last());
    assert(flatten(one) =~= b);
}

/// The data chunks that carry `blocks`, the content of the file `filename`
/// in directory `path` as it was read: one chunk per block, at the offset where
/// the block starts.
pub open spec fn data_chunks(filename: Seq<char>, path: Seq<char>, blocks: Seq<Seq<u8>>) -> Seq<ChunkView>
    decreases blocks.len(),
{
    if blocks.len() == 0 {
        Seq::empty()
    } else {
        let before = blocks.drop_last();
        data_chunks(filename, path, before).push(
            ChunkView { filename, data: blocks.last(), offset: flatten(before).len(), is_last: false, path },
        )
    }
}

/// The whole upload stream: the data chunks, then the closing chunk at the end
/// offset.
pub open spec fn sent_chunks(filename: Seq<char>, path: Seq<char>, blocks: Seq<Seq<u8>>) -> Seq<ChunkView> {
    data_chunks(filename, path, blocks).push(
        ChunkView { filename, data: Seq::empty(), offset: flatten(blocks).len(), is_last: true, path },
    )
}

/// The sender of one file's chunks.
pub struct UploadStream {
    filename: String,
    path: String,
    offset: u64,
}

impl UploadStream {
    pub closed spec fn filename(&self) -> Seq<char> {
        self.filename@
    }

    pub closed spec fn path(&self) -> Seq<char> {
        self.path@
    }

    /// The number of bytes sent so far.
    pub closed spec fn offset(&self) -> nat {
        self.offset as nat
    }

    /// Starts the stream of the file `filename` in directory `path`.
    pub fn new(filename: String, path: String) -> (s: UploadStream)
        ensures
            s.filename() == filename@,
            s.path() == path@,
            s.offset() == 0,
    {
        UploadStream { filename, path, offset: 0 }
    }

    /// The number of bytes sent so far.
    pub fn bytes_sent(&self) -> (n: u64)
        ensures
            n == self.offset(),
    {
        self.offset
    }

    /// The chunk carrying `data`, the next bytes read from the file.
    pub fn data_chunk(&mut self, data: Vec<u8>) -> (c: FileChunk)
        requires
            old(self).offset() + data@.len() <= u64::MAX,
        ensures
            c@ == (ChunkView {
                filename: old(self).filename(),
                data: data@,
                offset: old(self).offset(),
                is_last: false,
                path: old(self).path(),
            }),
            final(self).filename() == old(self).filename(),
            final(self).path() == old(self).path(),
            final(self).offset() == old(self).offset() + data@.len(),
    {
        let n = data.len() as u64;
        let c = FileChunk {
            filename: self.filename.clone(),
            data,
            offset: self.offset,
            is_last: false,
            path: self.path.clone(),
        };
        self.offset = self.offset + n;
        c
    }

    /// The closing chunk: no data, at the offset where the file ended.
    pub fn last_chunk(&self) -> (c: FileChunk)
        ensures
            c@ == (ChunkView {
                filename: self.filename(),
                data: Seq::empty(),
                offset: self.offset(),
                is_last: true,
                path: self.path(),
            }),
    {
        FileChunk {
            filename: self.filename.clone(),
            data: Vec::new(),
            offset: self.offset,
            is_last: true,
            path: self.path.clone(),
        }
    }
}

} // verus!
