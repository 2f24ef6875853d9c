//! Records of where each moved file went.
use vstd::prelude::*;
use vstd::string::*;
use crate::utils::size::{bytes_to_gb_string, gib_text};

verus! {

/// A file placed on a worker, as the master records it.
pub struct MetadataItem {
    pub name: String,
    pub path: String,
    pub size_bytes: u32,
    pub server_address: String,
}

/// A row of the `metadata` table as searches return it.
pub struct MetadataRowItem {
    pub name: String,
    pub path: String,
    pub size_bytes: u32,
    pub discovered_at: String,
    pub server_address: String,
    pub created_at: String,
    pub updated_at: String,
}

/// The stored size of a file of `file_size` bytes: its low 32 bits.
pub open spec fn stored_size(file_size: nat) -> nat {
    file_size % 0x1_0000_0000
}

/// The stored size is the file's size whenever it fits in 32 bits, and its
/// remainder modulo `2^32` otherwise.
pub proof fn lemma_stored_size(file_size: u64)
    ensures
        stored_size(file_size as nat) == file_size as int % 4294967296,
        file_size <= u32::MAX ==> stored_size(file_size as nat) == file_size,
{
}

impl MetadataItem {
    /// The record of the file `name` in directory `path`, of `file_size`
    /// bytes, now kept by `server_address`.
    pub fn stored(name: String, path: String, file_size: u64, server_address: String) -> (item: MetadataItem)
        ensures
            item.name == name,
            item.path == path,
            item.size_bytes == stored_size(file_size as nat),
            item.size_bytes as int == file_size as int % 4294967296,
            file_size <= u32::MAX ==> item.size_bytes == file_size,
            item.server_address == server_address,
    {
        MetadataItem { name, path, size_bytes: (file_size % 0x1_0000_0000) as u32, server_address }
    }
}

/// The `LIKE` pattern that matches every name containing `name`: `%<name>%`.
pub fn search_pattern(name: &str) -> (pattern: String)
    ensures
        pattern@ == seq!['%'] + name@ + seq!['%'],
{
    proof {
        reveal_strlit("%");
    }
    let mut pattern = String::new();
    pattern.append("%");
    pattern.append(name);
    pattern.append("%");
    pattern
}

/// The line that shows a search hit: `[<server>] <size> <name>`.
pub open spec fn row_summary(server: Seq<char>, size_bytes: nat, name: Seq<char>) -> Seq<char> {
    seq!['['] + server + seq![']', ' '] + gib_text(size_bytes) + seq![' '] + name
}

impl MetadataRowItem {
    /// The line printed for this row.
    pub fn summary_line(&self) -> (line: String)
        ensures
            line@ == row_summary(self.server_address@, self.size_bytes as nat, self.name@),
            line@ == seq!['['] + self.server_address@ + seq![']', ' '] + gib_text(self.size_bytes as nat) + seq![' '] + self.name@,
    {
        proof {
            reveal_strlit("[");
            reveal_strlit("] ");
            reveal_strlit(" ");
        }
        let mut line = String::new();
        line.append("[");
        line.append(self.server_address.as_str());
        line.append("] ");
        let size = bytes_to_gb_string(self.size_bytes as u64);
        line.append(size.as_str());
        line.append(" ");
        line.append(self.name.as_str());
        proof {
            assert(line@ =~= row_summary(self.server_address@, self.size_bytes as nat, self.name@));
        }
        line
    }
}

} // verus!
