//! The address deriver: a pure map from a namespace tag plus optional ordinal
//! seed to a deterministic storage address and a bump nonce.
//!
//! Re-derive-and-compare is the store's sole access control: every operation
//! recomputes the address it expects and refuses any handle that differs.
//! The derivation itself is the host's; its result is named [`pda_of`] and
//! reached through one trusted wrapper.

use vstd::array::*;
use vstd::bytes::*;
use vstd::prelude::*;
use vstd::slice::*;

verus! {

/// The namespace tag of the singleton index record: the bytes of `INDEX_PDA`.
pub open spec fn index_tag() -> Seq<u8> {
    seq![0x49u8, 0x4e, 0x44, 0x45, 0x58, 0x5f, 0x50, 0x44, 0x41]
}

/// The namespace tag of entry records: the bytes of `ARTICLE_PDA`.
pub open spec fn article_tag() -> Seq<u8> {
    seq![0x41u8, 0x52, 0x54, 0x49, 0x43, 0x4c, 0x45, 0x5f, 0x50, 0x44, 0x41]
}

/// What the host's program-address derivation returns for a seed list and a
/// program id: `None` when no bump seed yields an off-curve address or a seed
/// is over the host's limits, else the address and the bump.
pub uninterp spec fn pda_of(seeds: Seq<Seq<u8>>, program_id: Seq<u8>) -> Option<(Seq<u8>, u8)>;

/// True when a concrete derivation result `r` agrees with the mathematical
/// one `p`.
pub open spec fn matches_pda(r: Option<([u8; 32], u8)>, p: Option<(Seq<u8>, u8)>) -> bool {
    match (r, p) {
        (Some(a), Some(b)) => a.0@ == b.0 && a.1 == b.1,
        (None, None) => true,
        _ => false,
    }
}

/// Relies on `Pubkey::try_find_program_address` of `solana_program`: its
/// result is a deterministic function of the seeds and the program id alone —
/// it hashes them with a fixed marker, stepping a bump seed down from 255
/// until the address leaves the ed25519 curve — and is `None` when no bump
/// works or the seeds break the host's count or length limits. Unlike
/// `find_program_address` it does not panic.
#[verifier::external_body]
fn find_pda(seeds: &Vec<Vec<u8>>, program_id: &[u8; 32]) -> (r: Option<([u8; 32], u8)>)
    ensures
        matches_pda(r, pda_of(seeds@.map_values(|s: Vec<u8>| s@), program_id@)),
{
    let seed_slices: Vec<&[u8]> = seeds.iter().map(|s| s.as_slice()).collect();
    let key = solana_program::pubkey::Pubkey::new_from_array(*program_id);
    match solana_program::pubkey::Pubkey::try_find_program_address(&seed_slices, &key) {
        Some((address, bump)) => Some((address.to_bytes(), bump)),
        None => None,
    }
}

/// The seed list a tag and an optional ordinal stand for: the tag, then the
/// ordinal's four little-endian bytes if there is one.
pub open spec fn seeds_of(tag: Seq<u8>, seed: Option<u32>) -> Seq<Seq<u8>> {
    match seed {
        None => seq![tag],
        Some(n) => seq![tag, spec_u32_to_le_bytes(n)],
    }
}

/// What `derive` returns for a tag and an optional ordinal seed.
pub open spec fn derived_pda(program_id: Seq<u8>, tag: Seq<u8>, seed: Option<u32>) -> Option<
    (Seq<u8>, u8),
> {
    pda_of(seeds_of(tag, seed), program_id)
}

/// Derives the storage address and bump nonce for `tag`, plus an optional
/// little-endian ordinal seed, under `program_id`. Pure: the result is
/// pinned to a function of the arguments alone, so two calls on equal inputs
/// return equal addresses and nonces.
pub fn derive(program_id: &[u8; 32], tag: &Vec<u8>, seed: Option<u32>) -> (r: Option<
    ([u8; 32], u8),
>)
    ensures
        matches_pda(r, derived_pda(program_id@, tag@, seed)),
{
    let mut seeds: Vec<Vec<u8>> = Vec::new();
    seeds.push(slice_to_vec(tag.as_slice()));
    match seed {
        Some(n) => seeds.push(u32_to_le_bytes(n)),
        None => (),
    }
    proof {
        assert(seeds@.map_values(|s: Vec<u8>| s@) =~= seeds_of(tag@, seed));
    }
    find_pda(&seeds, program_id)
}

/// The canonical derivation of the singleton index record's address.
pub open spec fn index_pda(program_id: Seq<u8>) -> Option<(Seq<u8>, u8)> {
    derived_pda(program_id, index_tag(), None)
}

/// The canonical derivation of the address of the entry record at `ordinal`.
pub open spec fn article_pda(program_id: Seq<u8>, ordinal: u32) -> Option<(Seq<u8>, u8)> {
    derived_pda(program_id, article_tag(), Some(ordinal))
}

fn index_tag_bytes() -> (r: Vec<u8>)
    ensures
        r@ == index_tag(),
{
    let mut v: Vec<u8> = Vec::new();
    v.push(0x49);
    v.push(0x4e);
    v.push(0x44);
    v.push(0x45);
    v.push(0x58);
    v.push(0x5f);
    v.push(0x50);
    v.push(0x44);
    v.push(0x41);
    assert(v@ =~= index_tag());
    v
}

fn article_tag_bytes() -> (r: Vec<u8>)
    ensures
        r@ == article_tag(),
{
    let mut v: Vec<u8> = Vec::new();
    v.push(0x41);
    v.push(0x52);
    v.push(0x54);
    v.push(0x49);
    v.push(0x43);
    v.push(0x4c);
    v.push(0x45);
    v.push(0x5f);
    v.push(0x50);
    v.push(0x44);
    v.push(0x41);
    assert(v@ =~= article_tag());
    v
}

/// The address and nonce of the singleton index record.
pub fn derive_index_address(program_id: &[u8; 32]) -> (r: Option<([u8; 32], u8)>)
    ensures
        matches_pda(r, index_pda(program_id@)),
{
    let tag = index_tag_bytes();
    derive(program_id, &tag, None)
}

/// The address and nonce of the entry record at `ordinal`.
pub fn derive_article_address(program_id: &[u8; 32], ordinal: u32) -> (r: Option<([u8; 32], u8)>)
    ensures
        matches_pda(r, article_pda(program_id@, ordinal)),
{
    let tag = article_tag_bytes();
    derive(program_id, &tag, Some(ordinal))
}

/// Law: derivation is pure — any two derivation results for the same
/// program id, tag and seed agree: both succeed or both fail, and on success
/// they carry the same address bytes and the same bump nonce.
pub proof fn lemma_derive_deterministic(
    program_id: Seq<u8>,
    tag: Seq<u8>,
    seed: Option<u32>,
    r1: Option<([u8; 32], u8)>,
    r2: Option<([u8; 32], u8)>,
)
    requires
        matches_pda(r1, derived_pda(program_id, tag, seed)),
        matches_pda(r2, derived_pda(program_id, tag, seed)),
    ensures
        r1 is Some <==> r2 is Some,
        (match (r1, r2) {
            (Some(a), Some(b)) => a.0@ == b.0@ && a.1 == b.1,
            _ => true,
        }),
{
}

/// Byte-for-byte equality of two addresses.
pub fn addresses_equal(a: &[u8; 32], b: &[u8; 32]) -> (r: bool)
    ensures
        r == (a@ == b@),
{
    let mut i: usize = 0;
    while i < 32
        invariant
            i <= 32,
            forall|j: int| 0 <= j < i ==> a@[j] == b@[j],
        decreases 32 - i,
    {
        if *array_index_get(a, i) != *array_index_get(b, i) {
            return false;
        }
        i += 1;
    }
    assert(a@ =~= b@);
    true
}

} // verus!
