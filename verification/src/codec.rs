//! The record codec: a fixed, versionless binary schema.
//!
//! The index record is the entry count, four bytes little-endian. An entry
//! record is a length-prefixed title followed by a length-prefixed body, each
//! prefix four bytes little-endian. Decoding consumes the whole input: any
//! leftover or missing byte is a schema violation.

use vstd::bytes::*;
use vstd::prelude::*;
use vstd::slice::*;

verus! {

/// Most bytes a title may hold; fixed policy baked into the schema.
pub const TITLE_LENGTH_LIMIT: usize = 20;

/// Most bytes a body may hold; fixed policy baked into the schema.
pub const CONTENT_LENGTH_LIMIT: usize = 1000;

/// The singleton index record: how many entries have been appended so far.
pub struct IndexAccountData {
    pub cur_index: u32,
}

/// One appended entry: a title and a body, both raw bytes.
pub struct PostArticleData {
    pub title: Vec<u8>,
    pub content: Vec<u8>,
}

/// Byte layout of the index record.
pub open spec fn spec_encode_index(count: u32) -> Seq<u8> {
    spec_u32_to_le_bytes(count)
}

/// Reading an index record back: exactly four bytes, little-endian.
pub open spec fn spec_decode_index(b: Seq<u8>) -> Option<u32> {
    if b.len() == 4 {
        Some(spec_u32_from_le_bytes(b))
    } else {
        None
    }
}

/// Byte layout of an entry record.
pub open spec fn spec_encode_entry(title: Seq<u8>, content: Seq<u8>) -> Seq<u8> {
    spec_u32_to_le_bytes(title.len() as u32) + title
        + spec_u32_to_le_bytes(content.len() as u32) + content
}

/// Reading an entry record back; `None` on any truncated, oversized or
/// misdeclared input.
pub open spec fn spec_decode_entry(b: Seq<u8>) -> Option<(Seq<u8>, Seq<u8>)> {
    if b.len() < 4 {
        None
    } else {
        let tl = spec_u32_from_le_bytes(b.subrange(0, 4)) as int;
        if b.len() < 8 + tl {
            None
        } else {
            let cl = spec_u32_from_le_bytes(b.subrange(4 + tl, 8 + tl)) as int;
            if b.len() != 8 + tl + cl {
                None
            } else {
                Some((b.subrange(4, 4 + tl), b.subrange(8 + tl, 8 + tl + cl)))
            }
        }
    }
}

/// Appends every byte of `src` to `dst`.
fn push_all(dst: &mut Vec<u8>, src: &[u8])
    ensures
        final(dst)@ == old(dst)@ + src@,
{
    let mut i: usize = 0;
    while i < src.len()
        invariant
            i <= src@.len(),
            dst@ == old(dst)@ + src@.subrange(0, i as int),
        decreases src@.len() - i,
    {
        let b = *slice_index_get(src, i);
        dst.push(b);
        assert(src@.subrange(0, i as int).push(b) =~= src@.subrange(0, i + 1));
        i += 1;
    }
    assert(src@.subrange(0, src@.len() as int) =~= src@);
}

pub fn encode_index(d: &IndexAccountData) -> (r: Vec<u8>)
    ensures
        r@ == spec_encode_index(d.cur_index),
        r@.len() == 4,
{
    u32_to_le_bytes(d.cur_index)
}

pub fn decode_index(b: &[u8]) -> (r: Option<IndexAccountData>)
    ensures
        match r {
            Some(d) => spec_decode_index(b@) == Some(d.cur_index),
            None => spec_decode_index(b@) is None,
        },
{
    if b.len() == 4 {
        Some(IndexAccountData { cur_index: u32_from_le_bytes(b) })
    } else {
        None
    }
}

/// Encodes an entry record. The result's length is also the exact storage
/// size the record needs: eight bytes of prefixes plus the two fields.
pub fn encode_entry(d: &PostArticleData) -> (r: Vec<u8>)
    requires
        d.title@.len() <= TITLE_LENGTH_LIMIT,
        d.content@.len() <= CONTENT_LENGTH_LIMIT,
    ensures
        r@ == spec_encode_entry(d.title@, d.content@),
        r@.len() == 8 + d.title@.len() + d.content@.len(),
{
    let mut out = u32_to_le_bytes(d.title.len() as u32);
    push_all(&mut out, d.title.as_slice());
    let mut body_len = u32_to_le_bytes(d.content.len() as u32);
    out.append(&mut body_len);
    push_all(&mut out, d.content.as_slice());
    out
}

pub fn decode_entry(b: &[u8]) -> (r: Option<PostArticleData>)
    ensures
        match r {
            Some(d) => spec_decode_entry(b@) == Some((d.title@, d.content@)),
            None => spec_decode_entry(b@) is None,
        },
{
    if b.len() < 4 {
        return None;
    }
    let tl = u32_from_le_bytes(slice_subrange(b, 0, 4)) as usize;
    if b.len() - 4 < tl {
        return None;
    }
    if b.len() - 4 - tl < 4 {
        return None;
    }
    let cl = u32_from_le_bytes(slice_subrange(b, 4 + tl, 8 + tl)) as usize;
    if b.len() - 8 - tl != cl {
        return None;
    }
    let title = slice_to_vec(slice_subrange(b, 4, 4 + tl));
    let content = slice_to_vec(slice_subrange(b, 8 + tl, 8 + tl + cl));
    Some(PostArticleData { title, content })
}

/// Law: the index record codec round-trips — decoding an encoded count gives
/// the count back.
pub proof fn lemma_index_round_trip(count: u32)
    ensures
        spec_decode_index(spec_encode_index(count)) == Some(count),
{
    lemma_auto_spec_u32_to_from_le_bytes();
}

/// Law: the entry record codec round-trips — for any record within the field
/// length limits, decoding its encoding gives the record back.
pub proof fn lemma_entry_round_trip(title: Seq<u8>, content: Seq<u8>)
    requires
        title.len() <= TITLE_LENGTH_LIMIT,
        content.len() <= CONTENT_LENGTH_LIMIT,
    ensures
        spec_decode_entry(spec_encode_entry(title, content)) == Some((title, content)),
{
    lemma_auto_spec_u32_to_from_le_bytes();
    let e = spec_encode_entry(title, content);
    let tl = title.len() as int;
    let cl = content.len() as int;
    assert(e.len() == 8 + tl + cl);
    assert(e.subrange(0, 4) =~= spec_u32_to_le_bytes(title.len() as u32));
    assert(spec_u32_from_le_bytes(e.subrange(0, 4)) == title.len() as u32);
    assert(e.subrange(4 + tl, 8 + tl) =~= spec_u32_to_le_bytes(content.len() as u32));
    assert(spec_u32_from_le_bytes(e.subrange(4 + tl, 8 + tl)) == content.len() as u32);
    assert(e.subrange(4, 4 + tl) =~= title);
    assert(e.subrange(8 + tl, 8 + tl + cl) =~= content);
}

} // verus!
