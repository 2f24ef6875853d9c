//! The virtual-node hash ring: the rows a server contributes to it, the ring read
//! back from those rows, and the order in which a file's coordinate visits it.
use std::collections::HashMap;
use vstd::prelude::*;
use vstd::string::*;
use vstd::utf8::encode_utf8;
use crate::service::hash::{coordinate, hash_to_coordinate, murmur3_32_hash};
use crate::text::{
    decimal, lemma_ascii_encoded_len, lemma_decimal_ascii, lemma_decimal_injective,
    lemma_decimal_short, lemma_encode_utf8_concat, push_decimal,
};

verus! {

broadcast use vstd::std_specs::hash::group_hash_axioms;

/// How many virtual nodes each server is partitioned into.
pub const VNODES_PER_SERVER: u64 = 126;

/// The key of the `index`-th virtual node of `server`: `<server>#<index>`.
pub open spec fn vnode_key_text(server: Seq<char>, index: nat) -> Seq<char> {
    server + seq!['#'] + decimal(index)
}

/// One row of the `vnodes` table.
pub struct VnodeRow {
    pub hash_coordinate: i64,
    pub server_address: String,
    pub server_key: String,
}

/// Builds the key `<server>#<index>` of a virtual node.
pub fn vnode_key(server: &str, index: u64) -> (key: String)
    ensures
        key@ == vnode_key_text(server@, index as nat),
        key@ == server@ + seq!['#'] + decimal(index as nat),
{
    let mut key = String::new();
    key.append(server);
    proof {
        reveal_strlit("#");
    }
    key.append("#");
    push_decimal(&mut key, index);
    proof {
        assert(key@ =~= vnode_key_text(server@, index as nat));
    }
    key
}

proof fn lemma_vnode_key_bytes(server: Seq<char>, index: nat)
    requires
        index < 1000,
    ensures
        encode_utf8(vnode_key_text(server, index)).len() <= encode_utf8(server).len() + 4,
{
    let tail = seq!['#'] + decimal(index);
    assert(vnode_key_text(server, index) =~= server + tail);
    lemma_encode_utf8_concat(server, tail);
    lemma_decimal_ascii(index);
    lemma_decimal_short(index);
    assert(vstd::utf8::is_ascii_chars(tail));
    lemma_ascii_encoded_len(tail);
}

/// Distinct indices give distinct virtual-node keys.
pub proof fn lemma_vnode_keys_distinct(server: Seq<char>, i: nat, j: nat)
    requires
        i != j,
    ensures
        vnode_key_text(server, i) != vnode_key_text(server, j),
{
    if vnode_key_text(server, i) == vnode_key_text(server, j) {
        let n = server.len() + 1;
        assert(vnode_key_text(server, i).subrange(n as int, vnode_key_text(server, i).len() as int)
            =~= decimal(i));
        assert(vnode_key_text(server, j).subrange(n as int, vnode_key_text(server, j).len() as int)
            =~= decimal(j));
        lemma_decimal_injective(i, j);
    }
}

/// A row as a value: (coordinate, server address, key).
pub type RowView = (int, Seq<char>, Seq<char>);

/// The values of `rows`.
pub open spec fn row_views(rows: Seq<VnodeRow>) -> Seq<RowView> {
    rows.map_values(|r: VnodeRow| (r.hash_coordinate as int, r.server_address@, r.server_key@))
}

/// The rows that register `server`, as values: virtual node `i` of `server` at
/// the coordinate of its key. They depend on `server` alone.
pub open spec fn vnode_row_views(server: Seq<char>) -> Seq<RowView> {
    Seq::new(
        VNODES_PER_SERVER as nat,
        |i: int| (coordinate(vnode_key_text(server, i as nat)), server, vnode_key_text(server, i as nat)),
    )
}

/// The rows that register `server` on the ring: one per virtual node
/// `0 .. VNODES_PER_SERVER`, each at the coordinate of its key.
pub fn vnode_rows(server: &str) -> (rows: Vec<VnodeRow>)
    requires
        encode_utf8(server@).len() + 4 <= u32::MAX,
    ensures
        rows.len() == VNODES_PER_SERVER,
        row_views(rows@) == vnode_row_views(server@),
        forall|i: int|
            #![trigger rows[i]]
            0 <= i < rows.len() ==> {
                &&& rows[i].server_key@ == vnode_key_text(server@, i as nat)
                &&& rows[i].server_key@ == server@ + seq!['#'] + decimal(i as nat)
                &&& rows[i].server_address@ == server@
                &&& rows[i].hash_coordinate == coordinate(rows[i].server_key@)
                &&& rows[i].hash_coordinate == murmur3_32_hash(encode_utf8(rows[i].server_key@), 0) as int
            },
{
    let mut rows: Vec<VnodeRow> = Vec::new();
    let mut i: u64 = 0;
    while i < VNODES_PER_SERVER
        invariant
            i <= VNODES_PER_SERVER,
            rows.len() == i,
            encode_utf8(server@).len() + 4 <= u32::MAX,
            forall|k: int|
                #![trigger rows[k]]
                0 <= k < rows.len() ==> {
                    &&& rows[k].server_key@ == vnode_key_text(server@, k as nat)
                    &&& rows[k].server_address@ == server@
                    &&& rows[k].hash_coordinate == coordinate(rows[k].server_key@)
                },
        decreases VNODES_PER_SERVER - i,
    {
        let key = vnode_key(server, i);
        proof {
            lemma_vnode_key_bytes(server@, i as nat);
        }
        let hash_coordinate = hash_to_coordinate(key.as_str());
        let mut server_address = String::new();
        server_address.append(server);
        rows.push(VnodeRow { hash_coordinate, server_address, server_key: key });
        i = i + 1;
    }
    proof {
        assert(row_views(rows@) =~= vnode_row_views(server@));
    }
    rows
}

/// The `vnodes` table, which keeps one row per coordinate: coordinate to
/// (server address, key).
pub type VnodeTable = Map<int, (Seq<char>, Seq<char>)>;

/// The table after writing `rows` in order, each replacing any row at its
/// coordinate.
pub open spec fn register_rows(table: VnodeTable, rows: Seq<RowView>) -> VnodeTable
    decreases rows.len(),
{
    if rows.len() == 0 {
        table
    } else {
        let r = rows.last();
        register_rows(table, rows.drop_last()).insert(r.0, (r.1, r.2))
    }
}

/// Some row of `rows` is at coordinate `k`.
pub open spec fn has_coordinate(rows: Seq<RowView>, k: int) -> bool {
    exists|i: int| 0 <= i < rows.len() && #[trigger] rows[i].0 == k
}

proof fn lemma_register_outside(table: VnodeTable, rows: Seq<RowView>, k: int)
    requires
        !has_coordinate(rows, k),
    ensures
        register_rows(table, rows).contains_key(k) == table.contains_key(k),
        table.contains_key(k) ==> register_rows(table, rows)[k] == table[k],
    decreases rows.len(),
{
    if rows.len() > 0 {
        let before = rows.drop_last();
        assert(!has_coordinate(before, k)) by {
            if has_coordinate(before, k) {
                let i = choose|i: int| 0 <= i < before.len() && #[trigger] before[i].0 == k;
                assert(rows[i].0 == k);
            }
        }
        assert(rows[rows.len() - 1].0 != k);
        lemma_register_outside(table, before, k);
    }
}

proof fn lemma_register_inside(t1: VnodeTable, t2: VnodeTable, rows: Seq<RowView>, k: int)
    requires
        has_coordinate(rows, k),
    ensures
        register_rows(t1, rows).contains_key(k),
        register_rows(t2, rows).contains_key(k),
        register_rows(t1, rows)[k] == register_rows(t2, rows)[k],
    decreases rows.len(),
{
    let before = rows.drop_last();
    let r = rows.last();
    if r.0 != k {
        let i = choose|i: int| 0 <= i < rows.len() && #[trigger] rows[i].0 == k;
        assert(i != rows.len() - 1);
        assert(before[i].0 == k);
        lemma_register_inside(t1, t2, before, k);
    }
}

proof fn lemma_register_owned(table: VnodeTable, rows: Seq<RowView>, server: Seq<char>)
    requires
        forall|i: int| 0 <= i < rows.len() ==> (#[trigger] rows[i]).1 == server,
    ensures
        forall|i: int|
            0 <= i < rows.len() ==> register_rows(table, rows).contains_key(#[trigger] rows[i].0)
                && register_rows(table, rows)[rows[i].0].0 == server,
    decreases rows.len(),
{
    if rows.len() > 0 {
        let before = rows.drop_last();
        assert forall|i: int| 0 <= i < before.len() implies (#[trigger] before[i]).1 == server by {
            assert(before[i] == rows[i]);
        }
        lemma_register_owned(table, before, server);
        assert forall|i: int| 0 <= i < rows.len() implies register_rows(table, rows).contains_key(
            #[trigger] rows[i].0,
        ) && register_rows(table, rows)[rows[i].0].0 == server by {
            if i < before.len() {
                assert(before[i] == rows[i]);
            }
            assert(rows[rows.len() - 1] == rows.last());
        }
    }
}

/// Registering a server writes the rows of its virtual nodes, each replacing
/// the row at its coordinate. Afterwards every virtual-node coordinate of the
/// server is owned by the server; rows at other coordinates are untouched; and
/// registering the same server again leaves the table as it is.
pub proof fn lemma_register_server(table: VnodeTable, server: Seq<char>)
    ensures
        ({
            let rows = vnode_row_views(server);
            let after = register_rows(table, rows);
            &&& forall|i: int|
                0 <= i < VNODES_PER_SERVER ==> after.contains_key(coordinate(#[trigger] vnode_key_text(server, i as nat)))
                    && after[coordinate(vnode_key_text(server, i as nat))].0 == server
            &&& forall|k: int|
                !has_coordinate(rows, k) ==> (#[trigger] after.contains_key(k) == table.contains_key(k) && (
                table.contains_key(k) ==> after[k] == table[k]))
            &&& register_rows(after, rows) == after
        }),
{
    let rows = vnode_row_views(server);
    let after = register_rows(table, rows);
    lemma_register_owned(table, rows, server);
    assert forall|i: int| 0 <= i < VNODES_PER_SERVER implies after.contains_key(
        coordinate(#[trigger] vnode_key_text(server, i as nat)),
    ) && after[coordinate(vnode_key_text(server, i as nat))].0 == server by {
        assert(rows[i].0 == coordinate(vnode_key_text(server, i as nat)));
    }
    assert forall|k: int| !has_coordinate(rows, k) implies (#[trigger] after.contains_key(k) == table.contains_key(k) && (
    table.contains_key(k) ==> after[k] == table[k])) by {
        lemma_register_outside(table, rows, k);
    }
    let again = register_rows(after, rows);
    assert forall|k: int| #[trigger] again.contains_key(k) <==> after.contains_key(k) by {
        if has_coordinate(rows, k) {
            lemma_register_inside(after, table, rows, k);
        } else {
            lemma_register_outside(after, rows, k);
        }
    }
    assert forall|k: int| #[trigger] again.contains_key(k) implies again[k] == after[k] by {
        if has_coordinate(rows, k) {
            lemma_register_inside(after, table, rows, k);
        } else {
            lemma_register_outside(after, rows, k);
        }
    }
    assert(again =~= after);
}

/// The ring as read from the table: coordinates in table order, and the server
/// that owns each coordinate.
pub struct HashRing {
    pub ring: Vec<i64>,
    pub vnode_map: HashMap<i64, String>,
}

/// The owner map built from rows read in order; a later row for the same
/// coordinate replaces an earlier one.
pub open spec fn rows_to_map(rows: Seq<(i64, String)>) -> Map<i64, String>
    decreases rows.len(),
{
    if rows.len() == 0 {
        Map::empty()
    } else {
        rows_to_map(rows.drop_last()).insert(rows.last().0, rows.last().1)
    }
}

/// The coordinates of rows, in order.
pub open spec fn rows_keys(rows: Seq<(i64, String)>) -> Seq<i64> {
    rows.map_values(|r: (i64, String)| r.0)
}

/// `p` is the first position of `ring` whose coordinate lies below `hashed`.
pub open spec fn is_first_below(ring: Seq<i64>, hashed: i64, p: int) -> bool {
    &&& 0 <= p < ring.len()
    &&& hashed > ring[p]
    &&& forall|j: int| 0 <= j < p ==> !(hashed > #[trigger] ring[j])
}

/// No coordinate of `ring` lies below `hashed`.
pub open spec fn none_below(ring: Seq<i64>, hashed: i64) -> bool {
    forall|j: int| 0 <= j < ring.len() ==> !(hashed > #[trigger] ring[j])
}

/// `ring` rotated left by `p`: its entries from `p` on, then those before `p`.
pub open spec fn rotate_left(ring: Seq<i64>, p: int) -> Seq<i64> {
    ring.subrange(p, ring.len() as int) + ring.subrange(0, p)
}

/// A rotation visits the ring from position `p` on and wraps around: entry `i`
/// of the rotation is entry `(p + i) mod n` of the ring, so every ring entry is
/// visited exactly once.
pub proof fn lemma_rotation_visits_ring(ring: Seq<i64>, p: int, i: int)
    requires
        0 <= p < ring.len(),
        0 <= i < ring.len(),
    ensures
        rotate_left(ring, p).len() == ring.len(),
        rotate_left(ring, p)[i] == ring[(p + i) % (ring.len() as int)],
{
    let n = ring.len() as int;
    if p + i < n {
        assert((p + i) % n == p + i) by {
            vstd::arithmetic::div_mod::lemma_small_mod((p + i) as nat, n as nat);
        }
    } else {
        assert((p + i) % n == p + i - n) by {
            vstd::arithmetic::div_mod::lemma_mod_add_multiples_vanish(p + i - n, n);
            vstd::arithmetic::div_mod::lemma_small_mod((p + i - n) as nat, n as nat);
        }
    }
}

/// Every coordinate registered by rows that all name `server` is owned by
/// `server` in the ring built from them, and the ring owns no other
/// coordinate.
pub proof fn lemma_rows_owned_by(rows: Seq<(i64, String)>, server: String)
    requires
        forall|i: int| 0 <= i < rows.len() ==> (#[trigger] rows[i]).1 == server,
    ensures
        forall|k: i64| #[trigger] rows_to_map(rows).contains_key(k) <==> rows_keys(rows).contains(k),
        forall|k: i64| #[trigger] rows_to_map(rows).contains_key(k) ==> rows_to_map(rows)[k] == server,
    decreases rows.len(),
{
    if rows.len() > 0 {
        let before = rows.drop_last();
        let last = rows.last();
        assert forall|i: int| 0 <= i < before.len() implies (#[trigger] before[i]).1 == server by {
            assert(before[i] == rows[i]);
        }
        lemma_rows_owned_by(before, server);
        let m = rows_to_map(rows);
        let mb = rows_to_map(before);
        assert(m == mb.insert(last.0, last.1));
        assert(last.1 == server) by {
            assert(rows[rows.len() - 1] == last);
        }
        assert(rows_keys(rows)[rows.len() - 1] == last.0);
        assert forall|k: i64| #[trigger] m.contains_key(k) implies m[k] == server by {
            if k != last.0 {
                assert(mb.contains_key(k));
            }
        }
        assert forall|k: i64| #[trigger] m.contains_key(k) <==> rows_keys(rows).contains(k) by {
            if m.contains_key(k) {
                if k == last.0 {
                    assert(rows_keys(rows)[rows.len() - 1] == k);
                } else {
                    assert(mb.contains_key(k));
                    assert(rows_keys(before).contains(k));
                    let j = choose|j: int| 0 <= j < rows_keys(before).len() && rows_keys(before)[j] == k;
                    assert(rows_keys(rows)[j] == k);
                }
            }
            if rows_keys(rows).contains(k) {
                let j = choose|j: int| 0 <= j < rows_keys(rows).len() && rows_keys(rows)[j] == k;
                if j < before.len() {
                    assert(rows_keys(before)[j] == k);
                    assert(mb.contains_key(k));
                }
            }
        }
    }
}

/// Rows at distinct coordinates give an owner map with exactly their
/// coordinates, one entry per row, each mapped to its row's server.
pub proof fn lemma_rows_to_map_distinct(rows: Seq<(i64, String)>)
    requires
        forall|i: int, j: int| 0 <= i < j < rows.len() ==> (#[trigger] rows[i]).0 != (#[trigger] rows[j]).0,
    ensures
        forall|k: i64| #[trigger] rows_to_map(rows).contains_key(k) <==> rows_keys(rows).contains(k),
        forall|i: int|
            0 <= i < rows.len() ==> rows_to_map(rows)[(#[trigger] rows[i]).0] == rows[i].1,
        rows_to_map(rows).dom().finite(),
        rows_to_map(rows).dom().len() == rows.len(),
    decreases rows.len(),
{
    if rows.len() > 0 {
        let before = rows.drop_last();
        let last = rows.last();
        let n = rows.len() - 1;
        assert(rows[n] == last);
        assert forall|i: int, j: int| 0 <= i < j < before.len() implies (#[trigger] before[i]).0 != (
        #[trigger] before[j]).0 by {
            assert(before[i] == rows[i] && before[j] == rows[j]);
        }
        lemma_rows_to_map_distinct(before);
        let mb = rows_to_map(before);
        assert(!mb.contains_key(last.0)) by {
            if mb.contains_key(last.0) {
                assert(rows_keys(before).contains(last.0));
                let j = choose|j: int| 0 <= j < rows_keys(before).len() && rows_keys(before)[j] == last.0;
                assert(before[j] == rows[j]);
                assert(rows[j].0 != rows[n].0);
            }
        }
        assert(rows_to_map(rows) == mb.insert(last.0, last.1));
        assert(rows_to_map(rows).dom() =~= mb.dom().insert(last.0));
        assert forall|k: i64| #[trigger] rows_to_map(rows).contains_key(k) <==> rows_keys(rows).contains(k) by {
            assert(rows_keys(rows)[n] == last.0);
            if mb.contains_key(k) {
                let j = choose|j: int| 0 <= j < rows_keys(before).len() && rows_keys(before)[j] == k;
                assert(rows_keys(rows)[j] == k);
            }
            if rows_keys(rows).contains(k) {
                let j = choose|j: int| 0 <= j < rows_keys(rows).len() && rows_keys(rows)[j] == k;
                if j < n {
                    assert(rows_keys(before)[j] == k);
                }
            }
        }
        assert forall|i: int| 0 <= i < rows.len() implies rows_to_map(rows)[(#[trigger] rows[i]).0] == rows[i].1 by {
            if i < n {
                assert(before[i] == rows[i]);
                assert(rows[i].0 != rows[n].0);
            }
        }
    }
}

/// Coordinates in strictly ascending order.
pub open spec fn strictly_ascending(keys: Seq<i64>) -> bool {
    forall|i: int, j: int| 0 <= i < j < keys.len() ==> #[trigger] keys[i] < #[trigger] keys[j]
}

/// The ring read back from the table: the table keeps one row per coordinate
/// and returns its rows by ascending coordinate, so the ring is strictly
/// ascending, has one owner entry per coordinate and no other, and each
/// coordinate is owned by its row's server.
pub proof fn lemma_ring_from_ascending_rows(rows: Seq<(i64, String)>)
    requires
        strictly_ascending(rows_keys(rows)),
    ensures
        strictly_ascending(rows_keys(rows)),
        forall|k: i64| #[trigger] rows_to_map(rows).contains_key(k) <==> rows_keys(rows).contains(k),
        forall|i: int|
            0 <= i < rows.len() ==> rows_to_map(rows)[(#[trigger] rows[i]).0] == rows[i].1,
        rows_to_map(rows).dom().finite(),
        rows_to_map(rows).dom().len() == rows_keys(rows).len(),
{
    assert forall|i: int, j: int| 0 <= i < j < rows.len() implies (#[trigger] rows[i]).0 != (
    #[trigger] rows[j]).0 by {
        assert(rows_keys(rows)[i] == rows[i].0 && rows_keys(rows)[j] == rows[j].0);
    }
    lemma_rows_to_map_distinct(rows);
}

/// Reading the table back: when `rows` list table entries at distinct
/// coordinates, the ring built from them gives each coordinate the server the
/// table holds for it.
pub proof fn lemma_ring_reads_table(rows: Seq<(i64, String)>, table: VnodeTable)
    requires
        forall|i: int, j: int| 0 <= i < j < rows.len() ==> (#[trigger] rows[i]).0 != (#[trigger] rows[j]).0,
        forall|i: int|
            0 <= i < rows.len() ==> table.contains_key((#[trigger] rows[i]).0 as int) && table[rows[i].0 as int].0
                == rows[i].1@,
    ensures
        forall|i: int|
            0 <= i < rows.len() ==> rows_to_map(rows).contains_key((#[trigger] rows[i]).0) && rows_to_map(rows)[rows[i].0]@
                == table[rows[i].0 as int].0,
    decreases rows.len(),
{
    if rows.len() > 0 {
        let before = rows.drop_last();
        assert forall|i: int, j: int| 0 <= i < j < before.len() implies (#[trigger] before[i]).0 != (
        #[trigger] before[j]).0 by {
            assert(before[i] == rows[i] && before[j] == rows[j]);
        }
        assert forall|i: int| 0 <= i < before.len() implies table.contains_key((#[trigger] before[i]).0 as int)
            && table[before[i].0 as int].0 == before[i].1@ by {
            assert(before[i] == rows[i]);
        }
        lemma_ring_reads_table(before, table);
        assert forall|i: int| 0 <= i < rows.len() implies rows_to_map(rows).contains_key((#[trigger] rows[i]).0)
            && rows_to_map(rows)[rows[i].0]@ == table[rows[i].0 as int].0 by {
            let last = rows.len() - 1;
            assert(rows[last] == rows.last());
            if i < last {
                assert(before[i] == rows[i]);
                assert(rows[i].0 != rows[last].0);
            }
        }
    }
}

impl HashRing {
    /// Builds the ring from `(coordinate, server)` rows in the order they were read.
    pub fn from_rows(rows: Vec<(i64, String)>) -> (r: HashRing)
        ensures
            r.ring@ == rows_keys(rows@),
            r.ring@.len() == rows@.len(),
            forall|i: int| 0 <= i < rows@.len() ==> r.ring@[i] == (#[trigger] rows@[i]).0,
            r.vnode_map@ == rows_to_map(rows@),
    {
        let mut ring: Vec<i64> = Vec::new();
        let mut vnode_map: HashMap<i64, String> = HashMap::new();
        let n = rows.len();
        let mut i: usize = 0;
        while i < n
            invariant
                n == rows.len(),
                i <= n,
                ring@ == rows_keys(rows@.subrange(0, i as int)),
                vnode_map@ == rows_to_map(rows@.subrange(0, i as int)),
            decreases n - i,
        {
            let hash = rows[i].0;
            let address = rows[i].1.clone();
            ring.push(hash);
            vnode_map.insert(hash, address);
            proof {
                let pre = rows@.subrange(0, i as int);
                let post = rows@.subrange(0, i + 1);
                assert(post.drop_last() =~= pre);
                assert(rows_keys(post) =~= rows_keys(pre).push(hash));
            }
            i = i + 1;
        }
        proof {
            assert(rows@.subrange(0, n as int) =~= rows@);
        }
        HashRing { ring, vnode_map }
    }

    /// The first position whose coordinate lies below `hashed`, if any.
    pub fn start_index(&self, hashed: i64) -> (p: Option<usize>)
        ensures
            match p {
                Some(p) => is_first_below(self.ring@, hashed, p as int),
                None => none_below(self.ring@, hashed),
            },
    {
        let n = self.ring.len();
        let mut i: usize = 0;
        while i < n
            invariant
                n == self.ring.len(),
                i <= n,
                forall|j: int| 0 <= j < i ==> !(hashed > #[trigger] self.ring@[j]),
            decreases n - i,
        {
            if hashed > self.ring[i] {
                return Some(i);
            }
            i = i + 1;
        }
        None
    }

    /// The coordinates in the order a file at `hashed` tries them: the ring
    /// rotated to start at the first coordinate below `hashed`; `None` when no
    /// coordinate lies below it.
    pub fn candidates(&self, hashed: i64) -> (c: Option<Vec<i64>>)
        ensures
            match c {
                Some(c) => exists|p: int|
                    is_first_below(self.ring@, hashed, p) && c@ == rotate_left(self.ring@, p),
                None => none_below(self.ring@, hashed),
            },
    {
        match self.start_index(hashed) {
            None => None,
            Some(p) => {
                let n = self.ring.len();
                let mut out: Vec<i64> = Vec::new();
                let mut i: usize = p;
                while i < n
                    invariant
                        n == self.ring.len(),
                        p <= i <= n,
                        out@ == self.ring@.subrange(p as int, i as int),
                    decreases n - i,
                {
                    out.push(self.ring[i]);
                    i = i + 1;
                }
                let mut j: usize = 0;
                while j < p
                    invariant
                        n == self.ring.len(),
                        p < n,
                        j <= p,
                        out@ == self.ring@.subrange(p as int, n as int) + self.ring@.subrange(0, j as int),
                    decreases p - j,
                {
                    out.push(self.ring[j]);
                    j = j + 1;
                }
                assert(is_first_below(self.ring@, hashed, p as int));
                assert(out@ =~= rotate_left(self.ring@, p as int));
                Some(out)
            },
        }
    }

    /// The server that owns coordinate `key`, if any.
    pub fn address_of(&self, key: i64) -> (a: Option<String>)
        ensures
            match a {
                Some(a) => self.vnode_map@.contains_key(key) && a == self.vnode_map@[key],
                None => !self.vnode_map@.contains_key(key),
            },
    {
        match self.vnode_map.get(&key) {
            Some(a) => Some(a.clone()),
            None => None,
        }
    }
}

} // verus!
