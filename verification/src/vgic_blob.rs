//! The saved form of a GICv2: a four-byte tag, then one fixed-size entry per
//! register.
//!
//! An entry is the attribute group, the attribute and the register value, each
//! little-endian: 4, 8 and 4 bytes.

use vstd::prelude::*;

verus! {

/// Blob tag, "GIC v2, format 1". A blob with any other tag is refused.
pub const GICV2_BLOB_TAG: [u8; 4] = [0x47, 0x56, 0x32, 0x01];

/// One saved register: where it lives and what it held.
#[derive(Clone, Copy, Debug, PartialEq, Eq, Structural)]
pub struct GicEntry {
    /// Device-attribute group of the register.
    pub group: u32,
    /// Encoded vCPU index and register offset.
    pub attr: u64,
    /// Register value.
    pub val: u32,
}

/// The four bytes of `x`, least significant first.
pub open spec fn u32_le(x: u32) -> Seq<u8> {
    seq![
        (x % 0x100) as u8,
        (x / 0x100 % 0x100) as u8,
        (x / 0x1_0000 % 0x100) as u8,
        (x / 0x100_0000) as u8,
    ]
}

/// The eight bytes of `x`, least significant first.
pub open spec fn u64_le(x: u64) -> Seq<u8> {
    seq![
        (x % 0x100) as u8,
        (x / 0x100 % 0x100) as u8,
        (x / 0x1_0000 % 0x100) as u8,
        (x / 0x100_0000 % 0x100) as u8,
        (x / 0x1_0000_0000 % 0x100) as u8,
        (x / 0x100_0000_0000 % 0x100) as u8,
        (x / 0x1_0000_0000_0000 % 0x100) as u8,
        (x / 0x100_0000_0000_0000) as u8,
    ]
}

/// The number that the four bytes of `b` from `pos` on stand for.
pub open spec fn u32_at(b: Seq<u8>, pos: int) -> u32 {
    (b[pos] + b[pos + 1] * 0x100 + b[pos + 2] * 0x1_0000 + b[pos + 3] * 0x100_0000) as u32
}

/// The number that the eight bytes of `b` from `pos` on stand for.
pub open spec fn u64_at(b: Seq<u8>, pos: int) -> u64 {
    (u32_at(b, pos) + u32_at(b, pos + 4) * 0x1_0000_0000) as u64
}

/// The sixteen bytes of an entry.
pub open spec fn entry_bytes(e: GicEntry) -> Seq<u8> {
    u32_le(e.group) + u64_le(e.attr) + u32_le(e.val)
}

/// The bytes of a list of entries, in order and without a separator.
pub open spec fn entries_bytes(entries: Seq<GicEntry>) -> Seq<u8>
    decreases entries.len(),
{
    if entries.len() == 0 {
        seq![]
    } else {
        entries_bytes(entries.drop_last()) + entry_bytes(entries.last())
    }
}

/// The blob that holds `entries`.
pub open spec fn blob_bytes(entries: Seq<GicEntry>) -> Seq<u8> {
    GICV2_BLOB_TAG@ + entries_bytes(entries)
}

/// Whether `blob` starts with the tag.
pub open spec fn is_tagged(blob: Seq<u8>) -> bool {
    blob.len() >= 4 && blob.take(4) == GICV2_BLOB_TAG@
}

/// How many whole entries follow the tag.
pub open spec fn entry_count(blob: Seq<u8>) -> int {
    (blob.len() - 4) / 16
}

/// Entry number `i` of `blob`.
pub open spec fn entry_at(blob: Seq<u8>, i: int) -> GicEntry {
    GicEntry {
        group: u32_at(blob, 4 + 16 * i),
        attr: u64_at(blob, 4 + 16 * i + 4),
        val: u32_at(blob, 4 + 16 * i + 12),
    }
}

/// All whole entries of `blob`, in order.
pub open spec fn blob_entries(blob: Seq<u8>) -> Seq<GicEntry> {
    Seq::new(entry_count(blob) as nat, |i: int| entry_at(blob, i))
}

/// Whether bytes are left behind the last whole entry.
pub open spec fn has_trailing_bytes(blob: Seq<u8>) -> bool {
    (blob.len() - 4) % 16 != 0
}

/// Four bytes give back the number that they were made from.
proof fn lemma_u32_round_trip(x: u32, b: Seq<u8>, pos: int)
    requires
        0 <= pos,
        pos + 4 <= b.len(),
        b.subrange(pos, pos + 4) == u32_le(x),
    ensures
        u32_at(b, pos) == x,
{
    let s = b.subrange(pos, pos + 4);
    assert(s[0] == b[pos] && s[1] == b[pos + 1] && s[2] == b[pos + 2] && s[3] == b[pos + 3]);
}

/// Eight bytes give back the number that they were made from.
proof fn lemma_u64_round_trip(x: u64, b: Seq<u8>, pos: int)
    requires
        0 <= pos,
        pos + 8 <= b.len(),
        b.subrange(pos, pos + 8) == u64_le(x),
    ensures
        u64_at(b, pos) == x,
{
    let lo = (x % 0x1_0000_0000) as u32;
    let hi = (x / 0x1_0000_0000) as u32;
    let s = b.subrange(pos, pos + 8);
    assert(forall|k: int| 0 <= k < 8 ==> s[k] == b[pos + k]);
    assert({
        &&& (x % 0x1_0000_0000) % 0x100 == x % 0x100
        &&& (x % 0x1_0000_0000) / 0x100 % 0x100 == x / 0x100 % 0x100
        &&& (x % 0x1_0000_0000) / 0x1_0000 % 0x100 == x / 0x1_0000 % 0x100
        &&& (x % 0x1_0000_0000) / 0x100_0000 == x / 0x100_0000 % 0x100
        &&& x / 0x1_0000_0000 / 0x100 % 0x100 == x / 0x100_0000_0000 % 0x100
        &&& x / 0x1_0000_0000 / 0x1_0000 % 0x100 == x / 0x1_0000_0000_0000 % 0x100
        &&& x / 0x1_0000_0000 / 0x100_0000 == x / 0x100_0000_0000_0000
    }) by (bit_vector);
    assert(u32_le(lo) =~= b.subrange(pos, pos + 4));
    assert(u32_le(hi) =~= b.subrange(pos + 4, pos + 8));
    lemma_u32_round_trip(lo, b, pos);
    lemma_u32_round_trip(hi, b, pos + 4);
}

/// Sixteen bytes per entry.
pub proof fn lemma_entries_bytes_len(entries: Seq<GicEntry>)
    ensures
        entries_bytes(entries).len() == 16 * entries.len(),
    decreases entries.len(),
{
    if entries.len() > 0 {
        lemma_entries_bytes_len(entries.drop_last());
    }
}

/// Entry `i` of an encoded list stands at byte `16 * i`.
proof fn lemma_entry_position(entries: Seq<GicEntry>, i: int)
    requires
        0 <= i < entries.len(),
    ensures
        entries_bytes(entries).len() == 16 * entries.len(),
        entries_bytes(entries).subrange(16 * i, 16 * i + 16) == entry_bytes(entries[i]),
    decreases entries.len(),
{
    lemma_entries_bytes_len(entries);
    lemma_entries_bytes_len(entries.drop_last());
    let all = entries_bytes(entries);
    if i == entries.len() - 1 {
        assert(all.subrange(16 * i, 16 * i + 16) =~= entry_bytes(entries.last()));
    } else {
        lemma_entry_position(entries.drop_last(), i);
        assert(all.subrange(16 * i, 16 * i + 16) =~= entries_bytes(entries.drop_last()).subrange(
            16 * i,
            16 * i + 16,
        ));
    }
}

/// Decoding a blob gives back the entries that it was made from, in their
/// order, with nothing behind them: restore replays exactly what save captured.
pub proof fn law_blob_round_trip(entries: Seq<GicEntry>)
    ensures
        is_tagged(blob_bytes(entries)),
        !has_trailing_bytes(blob_bytes(entries)),
        blob_entries(blob_bytes(entries)) == entries,
{
    let blob = blob_bytes(entries);
    lemma_entries_bytes_len(entries);
    assert(blob.take(4) =~= GICV2_BLOB_TAG@);
    assert forall|i: int| 0 <= i < entries.len() implies entry_at(blob, i) == entries[i] by {
        lemma_entry_position(entries, i);
        let e = entries[i];
        let pos = 4 + 16 * i;
        let body = entries_bytes(entries).subrange(16 * i, 16 * i + 16);
        assert(blob.subrange(pos, pos + 16) =~= body);
        assert(blob.subrange(pos, pos + 4) =~= body.subrange(0, 4));
        assert(body.subrange(0, 4) =~= u32_le(e.group));
        assert(blob.subrange(pos + 4, pos + 12) =~= body.subrange(4, 12));
        assert(body.subrange(4, 12) =~= u64_le(e.attr));
        assert(blob.subrange(pos + 12, pos + 16) =~= body.subrange(12, 16));
        assert(body.subrange(12, 16) =~= u32_le(e.val));
        lemma_u32_round_trip(e.group, blob, pos);
        lemma_u64_round_trip(e.attr, blob, pos + 4);
        lemma_u32_round_trip(e.val, blob, pos + 12);
    }
    assert(blob_entries(blob) =~= entries);
}

/// A number gives back the four bytes that it was read from.
proof fn lemma_u32_bytes(b: Seq<u8>, pos: int)
    requires
        0 <= pos,
        pos + 4 <= b.len(),
    ensures
        u32_le(u32_at(b, pos)) == b.subrange(pos, pos + 4),
{
    assert(u32_le(u32_at(b, pos)) =~= b.subrange(pos, pos + 4));
}

/// A number gives back the eight bytes that it was read from.
proof fn lemma_u64_bytes(b: Seq<u8>, pos: int)
    requires
        0 <= pos,
        pos + 8 <= b.len(),
    ensures
        u64_le(u64_at(b, pos)) == b.subrange(pos, pos + 8),
{
    let lo = u32_at(b, pos);
    let hi = u32_at(b, pos + 4);
    let x = u64_at(b, pos);
    lemma_u32_bytes(b, pos);
    lemma_u32_bytes(b, pos + 4);
    assert({
        &&& x % 0x100 == lo % 0x100
        &&& x / 0x100 % 0x100 == lo / 0x100 % 0x100
        &&& x / 0x1_0000 % 0x100 == lo / 0x1_0000 % 0x100
        &&& x / 0x100_0000 % 0x100 == lo / 0x100_0000
        &&& x / 0x1_0000_0000 % 0x100 == hi % 0x100
        &&& x / 0x100_0000_0000 % 0x100 == hi / 0x100 % 0x100
        &&& x / 0x1_0000_0000_0000 % 0x100 == hi / 0x1_0000 % 0x100
        &&& x / 0x100_0000_0000_0000 == hi / 0x100_0000
    }) by (bit_vector)
        requires
            x == lo + hi * 0x1_0000_0000,
    ;
    assert(b.subrange(pos, pos + 8) =~= b.subrange(pos, pos + 4) + b.subrange(pos + 4, pos + 8));
    assert(u64_le(x) =~= u32_le(lo) + u32_le(hi));
}

/// The first `n` entries of a blob encode to the bytes that they were read from.
proof fn lemma_entries_reencode(blob: Seq<u8>, n: int)
    requires
        0 <= n,
        4 + 16 * n <= blob.len(),
    ensures
        entries_bytes(blob_entries(blob).take(n)) == blob.subrange(4, 4 + 16 * n),
    decreases n,
{
    let entries = blob_entries(blob);
    if n == 0 {
        assert(entries.take(0) =~= seq![]);
        assert(blob.subrange(4, 4) =~= seq![]);
    } else {
        let pos = 4 + 16 * (n - 1);
        lemma_entries_reencode(blob, n - 1);
        assert(entries.take(n).drop_last() =~= entries.take(n - 1));
        assert(entries.take(n).last() == entry_at(blob, n - 1));
        lemma_u32_bytes(blob, pos);
        lemma_u64_bytes(blob, pos + 4);
        lemma_u32_bytes(blob, pos + 12);
        assert(blob.subrange(4, 4 + 16 * n) =~= blob.subrange(4, pos) + blob.subrange(pos, pos + 4)
            + blob.subrange(pos + 4, pos + 12) + blob.subrange(pos + 12, pos + 16));
        assert(entries_bytes(entries.take(n)) =~= blob.subrange(4, 4 + 16 * n));
    }
}

/// A blob that a restore accepts to the end is the encoding of its entries: no
/// two such blobs hold the same entries.
pub proof fn law_accepted_blob_is_canonical(blob: Seq<u8>)
    requires
        is_tagged(blob),
        !has_trailing_bytes(blob),
    ensures
        blob_bytes(blob_entries(blob)) == blob,
{
    let entries = blob_entries(blob);
    let n = entry_count(blob);
    lemma_entries_reencode(blob, n);
    assert(entries.take(n) =~= entries);
    assert(blob =~= blob.take(4) + blob.subrange(4, blob.len() as int));
}

/// The blob format, byte by byte: the tag `GV2` and 1, then sixteen bytes per
/// entry, which hold the group, the attribute and the value, each with its
/// least significant byte first.
pub proof fn law_blob_layout(entries: Seq<GicEntry>, i: int)
    ensures
        ({
            let b = blob_bytes(entries);
            &&& b.len() == 4 + 16 * entries.len()
            &&& b[0] == 0x47 && b[1] == 0x56 && b[2] == 0x32 && b[3] == 0x01
            &&& 0 <= i < entries.len() ==> {
                let p = 4 + 16 * i;
                &&& b[p] + b[p + 1] * 0x100 + b[p + 2] * 0x1_0000 + b[p + 3] * 0x100_0000
                    == entries[i].group
                &&& b[p + 4] + b[p + 5] * 0x100 + b[p + 6] * 0x1_0000 + b[p + 7] * 0x100_0000
                    + b[p + 8] * 0x1_0000_0000 + b[p + 9] * 0x100_0000_0000 + b[p + 10]
                    * 0x1_0000_0000_0000 + b[p + 11] * 0x100_0000_0000_0000 == entries[i].attr
                &&& b[p + 12] + b[p + 13] * 0x100 + b[p + 14] * 0x1_0000 + b[p + 15] * 0x100_0000
                    == entries[i].val
            }
        }),
{
    let b = blob_bytes(entries);
    lemma_entries_bytes_len(entries);
    assert(b[0] == GICV2_BLOB_TAG@[0]);
    assert(b[1] == GICV2_BLOB_TAG@[1]);
    assert(b[2] == GICV2_BLOB_TAG@[2]);
    assert(b[3] == GICV2_BLOB_TAG@[3]);
    if 0 <= i < entries.len() {
        law_blob_round_trip(entries);
        assert(blob_entries(b)[i] == entries[i]);
        law_entry_decoding(b, i);
    }
}

/// What an entry of any blob stands for, byte by byte.
pub proof fn law_entry_decoding(b: Seq<u8>, i: int)
    ensures
        ({
            let e = entry_at(b, i);
            let p = 4 + 16 * i;
            &&& e.group == b[p] + b[p + 1] * 0x100 + b[p + 2] * 0x1_0000 + b[p + 3] * 0x100_0000
            &&& e.attr == b[p + 4] + b[p + 5] * 0x100 + b[p + 6] * 0x1_0000 + b[p + 7]
                * 0x100_0000 + b[p + 8] * 0x1_0000_0000 + b[p + 9] * 0x100_0000_0000 + b[p + 10]
                * 0x1_0000_0000_0000 + b[p + 11] * 0x100_0000_0000_0000
            &&& e.val == b[p + 12] + b[p + 13] * 0x100 + b[p + 14] * 0x1_0000 + b[p + 15]
                * 0x100_0000
        }),
{
}

/// Appends the four bytes of `x`.
fn push_u32(out: &mut Vec<u8>, x: u32)
    ensures
        final(out)@ == old(out)@ + u32_le(x),
{
    out.push((x % 0x100) as u8);
    out.push((x / 0x100 % 0x100) as u8);
    out.push((x / 0x1_0000 % 0x100) as u8);
    out.push((x / 0x100_0000) as u8);
}

/// Appends the eight bytes of `x`.
fn push_u64(out: &mut Vec<u8>, x: u64)
    ensures
        final(out)@ == old(out)@ + u64_le(x),
{
    out.push((x % 0x100) as u8);
    out.push((x / 0x100 % 0x100) as u8);
    out.push((x / 0x1_0000 % 0x100) as u8);
    out.push((x / 0x100_0000 % 0x100) as u8);
    out.push((x / 0x1_0000_0000 % 0x100) as u8);
    out.push((x / 0x100_0000_0000 % 0x100) as u8);
    out.push((x / 0x1_0000_0000_0000 % 0x100) as u8);
    out.push((x / 0x100_0000_0000_0000) as u8);
}

/// Appends one entry to `out`.
pub fn push_entry(out: &mut Vec<u8>, group: u32, attr: u64, val: u32)
    ensures
        final(out)@ == old(out)@ + entry_bytes(GicEntry { group, attr, val }),
        final(out)@.len() == old(out)@.len() + 16,
        final(out)@.take(old(out)@.len() as int) == old(out)@,
        ({
            let b = final(out)@.skip(old(out)@.len() as int);
            &&& b[0] + b[1] * 0x100 + b[2] * 0x1_0000 + b[3] * 0x100_0000 == group
            &&& b[4] + b[5] * 0x100 + b[6] * 0x1_0000 + b[7] * 0x100_0000 + b[8] * 0x1_0000_0000
                + b[9] * 0x100_0000_0000 + b[10] * 0x1_0000_0000_0000 + b[11]
                * 0x100_0000_0000_0000 == attr
            &&& b[12] + b[13] * 0x100 + b[14] * 0x1_0000 + b[15] * 0x100_0000 == val
        }),
{
    push_u32(out, group);
    push_u64(out, attr);
    push_u32(out, val);
    proof {
        let e = GicEntry { group, attr, val };
        let entry = entry_bytes(e);
        assert(out@ =~= old(out)@ + entry);
        assert(out@.take(old(out)@.len() as int) =~= old(out)@);
        assert(out@.skip(old(out)@.len() as int) =~= entry);
        law_blob_layout(seq![e], 0);
        assert(seq![e].drop_last() =~= seq![]);
        let blob = blob_bytes(seq![e]);
        assert(entries_bytes(seq![e]) =~= entry);
        assert(forall|j: int| 0 <= j < 16 ==> blob[4 + j] == entry[j]);
    }
}

/// Reads four little-endian bytes.
fn read_u32(b: &[u8], pos: usize) -> (x: u32)
    requires
        pos + 4 <= b.len(),
    ensures
        x == u32_at(b@, pos as int),
{
    b[pos] as u32 + b[pos + 1] as u32 * 0x100 + b[pos + 2] as u32 * 0x1_0000 + b[pos + 3] as u32
        * 0x100_0000
}

/// Reads eight little-endian bytes.
fn read_u64(b: &[u8], pos: usize) -> (x: u64)
    requires
        pos + 8 <= b.len(),
    ensures
        x == u64_at(b@, pos as int),
{
    read_u32(b, pos) as u64 + read_u32(b, pos + 4) as u64 * 0x1_0000_0000
}

/// Reads the entry at byte `pos`.
pub fn read_entry(blob: &[u8], pos: usize) -> (e: GicEntry)
    requires
        pos + 16 <= blob.len(),
    ensures
        e.group == u32_at(blob@, pos as int),
        e.attr == u64_at(blob@, pos + 4),
        e.val == u32_at(blob@, pos + 12),
        e.group == blob@[pos as int] + blob@[pos + 1] * 0x100 + blob@[pos + 2] * 0x1_0000 + blob@[
        pos + 3] * 0x100_0000,
        e.attr == blob@[pos + 4] + blob@[pos + 5] * 0x100 + blob@[pos + 6] * 0x1_0000 + blob@[pos
            + 7] * 0x100_0000 + blob@[pos + 8] * 0x1_0000_0000 + blob@[pos + 9] * 0x100_0000_0000
            + blob@[pos + 10] * 0x1_0000_0000_0000 + blob@[pos + 11] * 0x100_0000_0000_0000,
        e.val == blob@[pos + 12] + blob@[pos + 13] * 0x100 + blob@[pos + 14] * 0x1_0000 + blob@[pos
            + 15] * 0x100_0000,
{
    GicEntry {
        group: read_u32(blob, pos),
        attr: read_u64(blob, pos + 4),
        val: read_u32(blob, pos + 12),
    }
}

/// Whether `blob` starts with the tag.
pub fn has_blob_tag(blob: &[u8]) -> (r: bool)
    ensures
        r == is_tagged(blob@),
        r == (blob@.len() >= 4 && blob@[0] == 0x47 && blob@[1] == 0x56 && blob@[2] == 0x32 && blob@[3]
            == 0x01),
{
    if blob.len() < 4 {
        return false;
    }
    let r = blob[0] == GICV2_BLOB_TAG[0] && blob[1] == GICV2_BLOB_TAG[1] && blob[2]
        == GICV2_BLOB_TAG[2] && blob[3] == GICV2_BLOB_TAG[3];
    proof {
        let head = blob@.take(4);
        assert(head[0] == blob@[0] && head[1] == blob@[1] && head[2] == blob@[2] && head[3]
            == blob@[3]);
        if r {
            assert(head =~= GICV2_BLOB_TAG@);
        }
    }
    r
}

} // verus!
