//! The byte layout shared by instruction payloads and stored records:
//! integers are little-endian and fixed-width, a key is its 32 bytes, a byte
//! vector is its length as a 32-bit integer followed by its bytes, and a
//! variant is selected by one leading byte.

use vstd::prelude::*;
use vstd::bytes::*;
use vstd::slice::slice_subrange;
use crate::key::Key;

verus! {

/// The encoding of a 64-bit integer: eight bytes, least significant first.
pub open spec fn u64_bytes(v: u64) -> Seq<u8> {
    spec_u64_to_le_bytes(v)
}

/// The 64-bit integer that eight bytes encode.
pub open spec fn u64_at(bytes: Seq<u8>, at: int) -> u64 {
    spec_u64_from_le_bytes(bytes.subrange(at, at + 8))
}

/// The 32-bit integer that four bytes encode.
pub open spec fn u32_at(bytes: Seq<u8>, at: int) -> u32 {
    spec_u32_from_le_bytes(bytes.subrange(at, at + 4))
}

/// The key that 32 bytes encode.
pub open spec fn key_at(bytes: Seq<u8>, at: int) -> Key {
    Key::from_seq(bytes.subrange(at, at + 32))
}

/// The encoding of a byte vector: its length in four bytes, then the bytes.
pub open spec fn vec_bytes(data: Seq<u8>) -> Seq<u8> {
    spec_u32_to_le_bytes(data.len() as u32) + data
}

/// Whether `bytes` is one byte, the tag, followed by exactly the encoding of
/// one byte vector.
pub open spec fn is_tagged_vec(bytes: Seq<u8>) -> bool {
    bytes.len() >= 5 && bytes.len() == 5 + u32_at(bytes, 1)
}

/// An encoded 64-bit integer has eight bytes and decodes to itself, wherever
/// it stands.
pub proof fn lemma_u64_round_trip(head: Seq<u8>, v: u64, tail: Seq<u8>)
    ensures
        u64_bytes(v).len() == 8,
        u64_at(head + u64_bytes(v) + tail, head.len() as int) == v,
{
    lemma_auto_spec_u64_to_from_le_bytes();
    let all = head + u64_bytes(v) + tail;
    assert(all.subrange(head.len() as int, head.len() as int + 8) =~= u64_bytes(v));
}

/// Eight bytes are the encoding of the integer that they decode to.
pub proof fn lemma_u64_canonical(bytes: Seq<u8>, at: int)
    requires
        0 <= at,
        at + 8 <= bytes.len(),
    ensures
        u64_bytes(u64_at(bytes, at)) == bytes.subrange(at, at + 8),
{
    lemma_auto_spec_u64_to_from_le_bytes();
}

/// An encoded length has four bytes and decodes to itself, wherever it
/// stands.
pub proof fn lemma_u32_round_trip(head: Seq<u8>, v: u32, tail: Seq<u8>)
    ensures
        spec_u32_to_le_bytes(v).len() == 4,
        u32_at(head + spec_u32_to_le_bytes(v) + tail, head.len() as int) == v,
{
    lemma_auto_spec_u32_to_from_le_bytes();
    let all = head + spec_u32_to_le_bytes(v) + tail;
    assert(all.subrange(head.len() as int, head.len() as int + 4) =~= spec_u32_to_le_bytes(v));
}

/// Four bytes are the encoding of the length that they decode to.
pub proof fn lemma_u32_canonical(bytes: Seq<u8>, at: int)
    requires
        0 <= at,
        at + 4 <= bytes.len(),
    ensures
        spec_u32_to_le_bytes(u32_at(bytes, at)) == bytes.subrange(at, at + 4),
{
    lemma_auto_spec_u32_to_from_le_bytes();
}

/// An encoded key decodes to itself, wherever it stands.
pub proof fn lemma_key_round_trip(head: Seq<u8>, k: Key, tail: Seq<u8>)
    ensures
        key_at(head + k@ + tail, head.len() as int) == k,
{
    let all = head + k@ + tail;
    assert(all.subrange(head.len() as int, head.len() as int + 32) =~= k@);
    Key::lemma_from_view(k);
}

/// 32 bytes are the encoding of the key that they decode to.
pub proof fn lemma_key_canonical(bytes: Seq<u8>, at: int)
    requires
        0 <= at,
        at + 32 <= bytes.len(),
    ensures
        key_at(bytes, at)@ == bytes.subrange(at, at + 32),
{
    Key::lemma_from_seq(bytes.subrange(at, at + 32));
}

/// Reads the 64-bit integer at `at`.
pub fn read_u64(bytes: &[u8], at: usize) -> (r: u64)
    requires
        at + 8 <= bytes@.len(),
    ensures
        r == u64_at(bytes@, at as int),
{
    proof {
        vstd::slice::axiom_spec_len(bytes);
    }
    u64_from_le_bytes(slice_subrange(bytes, at, at + 8))
}

/// Reads the 32-bit integer at `at`.
pub fn read_u32(bytes: &[u8], at: usize) -> (r: u32)
    requires
        at + 4 <= bytes@.len(),
    ensures
        r == u32_at(bytes@, at as int),
{
    proof {
        vstd::slice::axiom_spec_len(bytes);
    }
    u32_from_le_bytes(slice_subrange(bytes, at, at + 4))
}

/// Reads the key at `at`.
pub fn read_key(bytes: &[u8], at: usize) -> (r: Key)
    requires
        at + 32 <= bytes@.len(),
    ensures
        r == key_at(bytes@, at as int),
{
    proof {
        vstd::slice::axiom_spec_len(bytes);
    }
    let mut out: [u8; 32] = [0u8; 32];
    let mut i: usize = 0;
    while i < 32
        invariant
            i <= 32,
            at + 32 <= bytes@.len() <= usize::MAX,
            forall|j: int| 0 <= j < i ==> out@[j] == bytes@[at + j],
        decreases 32 - i,
    {
        out[i] = bytes[at + i];
        i = i + 1;
    }
    let r = Key::new(out);
    proof {
        let s = bytes@.subrange(at as int, at + 32);
        assert(r@ =~= s);
        Key::lemma_from_seq(s);
        Key::lemma_view_injective(r, Key::from_seq(s));
    }
    r
}

/// Copies the bytes from `from` up to `to`.
pub fn read_bytes(bytes: &[u8], from: usize, to: usize) -> (r: Vec<u8>)
    requires
        from <= to <= bytes@.len(),
    ensures
        r@ == bytes@.subrange(from as int, to as int),
{
    let mut out: Vec<u8> = Vec::new();
    let mut i: usize = from;
    while i < to
        invariant
            from <= i <= to <= bytes@.len(),
            out@ == bytes@.subrange(from as int, i as int),
        decreases to - i,
    {
        out.push(bytes[i]);
        i = i + 1;
        assert(out@ =~= bytes@.subrange(from as int, i as int));
    }
    out
}

/// Appends `bytes` to `out`.
pub fn push_bytes(out: &mut Vec<u8>, bytes: &[u8])
    ensures
        final(out)@ == old(out)@ + bytes@,
{
    let mut i: usize = 0;
    while i < bytes.len()
        invariant
            i <= bytes@.len(),
            out@ == old(out)@ + bytes@.subrange(0, i as int),
        decreases bytes@.len() - i,
    {
        out.push(bytes[i]);
        i = i + 1;
        assert(out@ =~= old(out)@ + bytes@.subrange(0, i as int));
    }
    assert(bytes@.subrange(0, bytes@.len() as int) =~= bytes@);
}

/// Appends the encoding of `v` to `out`.
pub fn push_u64(out: &mut Vec<u8>, v: u64)
    ensures
        final(out)@ == old(out)@ + u64_bytes(v),
{
    let encoded = u64_to_le_bytes(v);
    push_bytes(out, encoded.as_slice());
}

/// Appends the encoding of `v` to `out`.
pub fn push_u32(out: &mut Vec<u8>, v: u32)
    ensures
        final(out)@ == old(out)@ + spec_u32_to_le_bytes(v),
{
    let encoded = u32_to_le_bytes(v);
    push_bytes(out, encoded.as_slice());
}

/// Appends the 32 bytes of `k` to `out`.
pub fn push_key(out: &mut Vec<u8>, k: &Key)
    ensures
        final(out)@ == old(out)@ + k@,
{
    let mut i: usize = 0;
    while i < 32
        invariant
            i <= 32,
            out@ == old(out)@ + k@.subrange(0, i as int),
        decreases 32 - i,
    {
        out.push(k.bytes[i]);
        i = i + 1;
        assert(out@ =~= old(out)@ + k@.subrange(0, i as int));
    }
    assert(k@.subrange(0, 32) =~= k@);
}

/// Writes `record` over the first bytes of `cell`, in place: the cell keeps
/// its length and every byte behind the record.
pub fn overwrite(cell: &mut Vec<u8>, record: &Vec<u8>)
    requires
        record@.len() <= old(cell)@.len(),
    ensures
        final(cell)@ == record@ + old(cell)@.skip(record@.len() as int),
{
    let mut i: usize = 0;
    while i < record.len()
        invariant
            i <= record@.len() <= cell@.len(),
            cell@.len() == old(cell)@.len(),
            cell@ == record@.subrange(0, i as int) + old(cell)@.skip(i as int),
        decreases record@.len() - i,
    {
        cell[i] = record[i];
        i = i + 1;
        assert(cell@ =~= record@.subrange(0, i as int) + old(cell)@.skip(i as int));
    }
    assert(record@.subrange(0, record@.len() as int) =~= record@);
}

/// The byte vector that follows the tag.
pub open spec fn tagged_vec(bytes: Seq<u8>) -> Seq<u8> {
    bytes.subrange(5, bytes.len() as int)
}

/// A tag followed by an encoded byte vector holds that vector.
pub proof fn lemma_vec_round_trip(tag: u8, data: Seq<u8>)
    requires
        data.len() <= u32::MAX,
    ensures
        is_tagged_vec(seq![tag] + vec_bytes(data)),
        tagged_vec(seq![tag] + vec_bytes(data)) == data,
{
    let bytes = seq![tag] + vec_bytes(data);
    lemma_u32_round_trip(seq![tag], data.len() as u32, data);
    assert(seq![tag] + spec_u32_to_le_bytes(data.len() as u32) + data =~= bytes);
    assert(tagged_vec(bytes) =~= data);
}

/// Bytes that hold a byte vector behind their first byte are that byte
/// followed by the encoding of the vector.
pub proof fn lemma_vec_canonical(bytes: Seq<u8>)
    requires
        is_tagged_vec(bytes),
    ensures
        tagged_vec(bytes).len() <= u32::MAX,
        seq![bytes[0]] + vec_bytes(tagged_vec(bytes)) == bytes,
{
    lemma_u32_canonical(bytes, 1);
    assert(seq![bytes[0]] + bytes.subrange(1, 5) + tagged_vec(bytes) =~= bytes);
}

/// Reads the byte vector that follows the tag, if the bytes are a tag and a
/// byte vector.
pub fn read_tagged_vec(bytes: &[u8]) -> (r: Option<Vec<u8>>)
    ensures
        match r {
            Some(data) => is_tagged_vec(bytes@) && data@ == tagged_vec(bytes@),
            None => !is_tagged_vec(bytes@),
        },
{
    if bytes.len() < 5 {
        return None;
    }
    let len = read_u32(bytes, 1);
    if bytes.len() - 5 != len as usize {
        return None;
    }
    Some(read_bytes(bytes, 5, bytes.len()))
}

/// Appends the encoding of the byte vector `data` to `out`, if its length
/// fits in 32 bits; otherwise `out` stays as it is.
pub fn push_vec(out: &mut Vec<u8>, data: &[u8]) -> (r: bool)
    ensures
        r == (data@.len() <= u32::MAX),
        r ==> final(out)@ == old(out)@ + vec_bytes(data@),
        !r ==> final(out)@ == old(out)@,
{
    if data.len() > u32::MAX as usize {
        return false;
    }
    push_u32(out, data.len() as u32);
    push_bytes(out, data);
    assert(out@ =~= old(out)@ + vec_bytes(data@));
    true
}

} // verus!
