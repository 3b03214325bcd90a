//! The record lifecycle: bootstrap, append, enumerate.
//!
//! [`Store`] models what the program and its host jointly hold: the raw bytes
//! of the index record once it is provisioned, and the raw bytes of every
//! entry record, in ordinal order. The host applies each operation whole or
//! not at all, so every operation here either commits in full or returns an
//! error and leaves the store exactly as it was.

use crate::codec::{
    decode_entry, decode_index, encode_entry, encode_index, lemma_entry_round_trip,
    lemma_index_round_trip, spec_decode_entry, spec_encode_entry, spec_encode_index,
    IndexAccountData, CONTENT_LENGTH_LIMIT, TITLE_LENGTH_LIMIT,
};
use crate::error::StoreError;
use crate::pda::{addresses_equal, article_pda, derive_article_address, derive_index_address, index_pda};
use vstd::prelude::*;

verus! {

/// A deployment of the store: one program id, the index record's bytes once
/// bootstrap has provisioned it, and each entry record's bytes at its
/// ordinal.
pub struct Store {
    pub program_id: [u8; 32],
    pub index: Option<Vec<u8>>,
    pub entries: Vec<Vec<u8>>,
}

impl Store {
    /// How many entries have been appended.
    pub open spec fn count(self) -> nat {
        self.entries@.len()
    }

    /// The decoded entry records, in ordinal order.
    pub open spec fn records(self) -> Seq<(Seq<u8>, Seq<u8>)> {
        Seq::new(
            self.entries@.len(),
            |i: int|
                match spec_decode_entry(self.entries@[i]@) {
                    Some(r) => r,
                    None => (Seq::<u8>::empty(), Seq::<u8>::empty()),
                },
        )
    }

    /// True when the index record holds exactly the encoded count `c`.
    pub open spec fn index_is(self, c: u32) -> bool {
        match self.index {
            Some(b) => b@ == spec_encode_index(c),
            None => false,
        }
    }

    /// Well-formedness: the count fits its field, no entry precedes the
    /// bootstrap, the index record holds exactly the encoded entry count,
    /// and every entry record decodes to a record within the field length
    /// limits — entries come into being only through a validated append.
    pub open spec fn wf(self) -> bool {
        &&& self.entries@.len() <= u32::MAX
        &&& (match self.index {
            Some(b) => b@ == spec_encode_index(self.entries@.len() as u32),
            None => self.entries@.len() == 0,
        })
        &&& (forall|i: int|
            0 <= i < self.entries@.len() ==> match #[trigger] spec_decode_entry(
                self.entries@[i]@,
            ) {
                Some(rec) => rec.0.len() <= TITLE_LENGTH_LIMIT && rec.1.len()
                    <= CONTENT_LENGTH_LIMIT,
                None => false,
            })
    }

    /// A fresh deployment: nothing provisioned yet.
    pub fn new(program_id: [u8; 32]) -> (s: Store)
        ensures
            s.wf(),
            s.program_id == program_id,
            s.index is None,
            s.count() == 0,
    {
        Store { program_id, index: None, entries: Vec::new() }
    }
}

/// Does the supplied handle equal the derived index address?
pub open spec fn index_handle_ok(program_id: Seq<u8>, handle: Seq<u8>) -> bool {
    match index_pda(program_id) {
        Some(p) => p.0 == handle,
        None => false,
    }
}

/// Does the supplied handle equal the derived address of the entry at
/// `ordinal`?
pub open spec fn article_handle_ok(program_id: Seq<u8>, ordinal: u32, handle: Seq<u8>) -> bool {
    match article_pda(program_id, ordinal) {
        Some(p) => p.0 == handle,
        None => false,
    }
}

/// The outcome bootstrap owes: an address-mismatch for a wrong index handle,
/// a provisioning failure when the index record already exists, success
/// otherwise.
pub open spec fn init_result(s: Store, index_handle: Seq<u8>) -> Result<(), StoreError> {
    if !index_handle_ok(s.program_id@, index_handle) {
        Err(StoreError::AddressMismatch)
    } else if s.index is Some {
        Err(StoreError::HostProvisioningError)
    } else {
        Ok(())
    }
}

/// Bootstrap: provisions the singleton index record at its derived address
/// and writes the encoded count zero into it. Fails — leaving the store
/// untouched — exactly as [`init_result`] says.
pub fn init(store: &mut Store, index_handle: &[u8; 32]) -> (r: Result<(), StoreError>)
    requires
        old(store).wf(),
    ensures
        final(store).wf(),
        final(store).program_id == old(store).program_id,
        r == init_result(*old(store), index_handle@),
        r is Ok ==> final(store).index_is(0) && final(store).entries == old(store).entries
            && final(store).count() == 0,
        r is Err ==> *final(store) == *old(store),
{
    let derived = derive_index_address(&store.program_id);
    let handle_ok = match &derived {
        Some((addr, _bump)) => addresses_equal(index_handle, addr),
        None => false,
    };
    if !handle_ok {
        return Err(StoreError::AddressMismatch);
    }
    if store.index.is_some() {
        return Err(StoreError::HostProvisioningError);
    }
    let data = encode_index(&IndexAccountData { cur_index: 0 });
    store.index = Some(data);
    Ok(())
}

/// The outcome append owes, and on success the decoded record it appends:
/// handle checks first (index, then the new entry at the current count),
/// then payload decoding, then the field length limits.
pub open spec fn append_result(
    s: Store,
    index_handle: Seq<u8>,
    entry_handle: Seq<u8>,
    payload: Seq<u8>,
) -> Result<(Seq<u8>, Seq<u8>), StoreError> {
    if !index_handle_ok(s.program_id@, index_handle) {
        Err(StoreError::AddressMismatch)
    } else if s.index is None {
        Err(StoreError::DecodeError)
    } else if !article_handle_ok(s.program_id@, s.count() as u32, entry_handle) {
        Err(StoreError::AddressMismatch)
    } else {
        match spec_decode_entry(payload) {
            None => Err(StoreError::DecodeError),
            Some(rec) => {
                if rec.0.len() > TITLE_LENGTH_LIMIT || rec.1.len() > CONTENT_LENGTH_LIMIT {
                    Err(StoreError::ValidationError)
                } else {
                    Ok(rec)
                }
            },
        }
    }
}

/// Append: validates both handles against their derivations, decodes and
/// validates the posted record, provisions the entry record of exactly the
/// encoded size at the next ordinal, writes it, and only then advances the
/// index — so a failure never leaves the count ahead of the entries. Fails —
/// leaving the store untouched — exactly as [`append_result`] says.
pub fn post_article(
    store: &mut Store,
    index_handle: &[u8; 32],
    new_entry_handle: &[u8; 32],
    payload: &[u8],
) -> (r: Result<(), StoreError>)
    requires
        old(store).wf(),
        old(store).count() < u32::MAX,
    ensures
        final(store).wf(),
        final(store).program_id == old(store).program_id,
        (match append_result(*old(store), index_handle@, new_entry_handle@, payload@) {
            Ok(rec) => {
                &&& r is Ok
                &&& final(store).count() == old(store).count() + 1
                &&& final(store).records() == old(store).records().push(rec)
                &&& final(store).entries@[old(store).count() as int]@ == spec_encode_entry(
                    rec.0,
                    rec.1,
                )
                &&& final(store).index_is((old(store).count() + 1) as u32)
            },
            Err(e) => r == Err::<(), StoreError>(e) && *final(store) == *old(store),
        }),
{
    let derived_index = derive_index_address(&store.program_id);
    let index_ok = match &derived_index {
        Some((addr, _bump)) => addresses_equal(index_handle, addr),
        None => false,
    };
    if !index_ok {
        return Err(StoreError::AddressMismatch);
    }
    proof {
        lemma_index_round_trip(old(store).entries@.len() as u32);
    }
    let count = match &store.index {
        None => {
            return Err(StoreError::DecodeError);
        },
        Some(bytes) => match decode_index(bytes.as_slice()) {
            None => {
                proof {
                    assert(false);
                }
                return Err(StoreError::DecodeError);
            },
            Some(d) => d.cur_index,
        },
    };
    let derived_entry = derive_article_address(&store.program_id, count);
    let entry_ok = match &derived_entry {
        Some((addr, _bump)) => addresses_equal(new_entry_handle, addr),
        None => false,
    };
    if !entry_ok {
        return Err(StoreError::AddressMismatch);
    }
    let data = match decode_entry(payload) {
        None => {
            return Err(StoreError::DecodeError);
        },
        Some(d) => d,
    };
    if data.title.len() > TITLE_LENGTH_LIMIT || data.content.len() > CONTENT_LENGTH_LIMIT {
        return Err(StoreError::ValidationError);
    }
    let record = encode_entry(&data);
    proof {
        lemma_entry_round_trip(data.title@, data.content@);
    }
    store.entries.push(record);
    let new_index = encode_index(&IndexAccountData { cur_index: count + 1 });
    store.index = Some(new_index);
    proof {
        assert(final(store).records() =~= old(store).records().push(
            (data.title@, data.content@),
        ));
    }
    Ok(())
}

/// Law: bootstrap is single-shot. In any store whose index record already
/// exists, bootstrap fails — with a provisioning error whenever the supplied
/// handle matches the derived index address — and, by [`init`]'s contract,
/// leaves the count whatever it was.
pub proof fn lemma_second_bootstrap_fails(s: Store, index_handle: Seq<u8>)
    requires
        s.index is Some,
    ensures
        init_result(s, index_handle) is Err,
        index_handle_ok(s.program_id@, index_handle) ==> init_result(s, index_handle) == Err::<
            (),
            StoreError,
        >(StoreError::HostProvisioningError),
{
}

/// Law: an oversized field is rejected. Whenever the posted payload decodes
/// to a record whose title or body exceeds its limit, append fails — with a
/// validation error whenever both handles pass their derivation checks —
/// and, by [`post_article`]'s contract, leaves the count and the storage
/// unchanged.
pub proof fn lemma_oversized_record_rejected(
    s: Store,
    index_handle: Seq<u8>,
    entry_handle: Seq<u8>,
    payload: Seq<u8>,
)
    requires
        spec_decode_entry(payload) matches Some(rec) && (rec.0.len() > TITLE_LENGTH_LIMIT
            || rec.1.len() > CONTENT_LENGTH_LIMIT),
    ensures
        append_result(s, index_handle, entry_handle, payload) is Err,
        index_handle_ok(s.program_id@, index_handle) && s.index is Some && article_handle_ok(
            s.program_id@,
            s.count() as u32,
            entry_handle,
        ) ==> append_result(s, index_handle, entry_handle, payload) == Err::<
            (Seq<u8>, Seq<u8>),
            StoreError,
        >(StoreError::ValidationError),
{
}

/// Law: a listing demands exactly one handle per entry. Whenever the
/// supplied handle count differs from the entry count, the listing fails —
/// with a validation error whenever the index handle passes its derivation
/// check — and, by [`list_articles`]'s contract, emits no partial output.
pub proof fn lemma_wrong_handle_count_rejected(s: Store, index_handle: Seq<u8>, handles: Seq<Seq<u8>>)
    requires
        handles.len() != s.count(),
    ensures
        list_check(s, index_handle, handles) is Err,
        index_handle_ok(s.program_id@, index_handle) && s.index is Some ==> list_check(
            s,
            index_handle,
            handles,
        ) == Err::<(), StoreError>(StoreError::ValidationError),
{
}

/// Law: a listing reflects appends in append order. An append extends the
/// record sequence by exactly the posted record: every earlier record keeps
/// its ordinal and its bytes, and the new record stands last — so after any
/// run of successful appends, a successful listing (whose items `list_articles`
/// pins to the record sequence, ordinal by ordinal) returns exactly the
/// appended records, in the order they were appended.
pub proof fn lemma_append_keeps_listing_order(
    base: Seq<(Seq<u8>, Seq<u8>)>,
    rec: (Seq<u8>, Seq<u8>),
)
    ensures
        base.push(rec).len() == base.len() + 1,
        forall|i: int| 0 <= i < base.len() ==> base.push(rec)[i] == base[i],
        base.push(rec)[base.len() as int] == rec,
{
}

/// The view of a handle list as byte sequences.
pub open spec fn spec_handles(handles: Seq<[u8; 32]>) -> Seq<Seq<u8>> {
    handles.map_values(|h: [u8; 32]| h@)
}

/// The decision enumerate owes: handle check on the index, a readable index
/// record, exactly one supplied handle per entry, every handle equal to its
/// ordinal's derived address.
pub open spec fn list_check(s: Store, index_handle: Seq<u8>, handles: Seq<Seq<u8>>) -> Result<
    (),
    StoreError,
> {
    if !index_handle_ok(s.program_id@, index_handle) {
        Err(StoreError::AddressMismatch)
    } else if s.index is None {
        Err(StoreError::DecodeError)
    } else if handles.len() != s.count() {
        Err(StoreError::ValidationError)
    } else if exists|i: int|
        0 <= i < handles.len() && !article_handle_ok(s.program_id@, i as u32, handles[i]) {
        Err(StoreError::AddressMismatch)
    } else {
        Ok(())
    }
}

/// Enumerate: checks the index handle, the handle count, and every entry
/// handle against its derived address, then decodes and returns every entry
/// with its ordinal, in ordinal order. Read-only and all-or-nothing: either
/// the whole listing or an error, exactly as [`list_check`] says.
pub fn list_articles(
    store: &Store,
    index_handle: &[u8; 32],
    entry_handles: &[[u8; 32]],
) -> (r: Result<Vec<(u32, Vec<u8>, Vec<u8>)>, StoreError>)
    requires
        store.wf(),
    ensures
        (match r {
            Ok(out) => {
                &&& list_check(*store, index_handle@, spec_handles(entry_handles@)) is Ok
                &&& out@.len() == store.count()
                &&& (forall|i: int|
                    0 <= i < out@.len() ==> (#[trigger] out@[i]).0 == i as u32
                        && out@[i].1@ == store.records()[i].0 && out@[i].2@
                        == store.records()[i].1)
            },
            Err(e) => list_check(*store, index_handle@, spec_handles(entry_handles@)) == Err::<
                (),
                StoreError,
            >(e),
        }),
{
    let derived_index = derive_index_address(&store.program_id);
    let index_ok = match &derived_index {
        Some((addr, _bump)) => addresses_equal(index_handle, addr),
        None => false,
    };
    if !index_ok {
        return Err(StoreError::AddressMismatch);
    }
    proof {
        lemma_index_round_trip(store.entries@.len() as u32);
    }
    let count = match &store.index {
        None => {
            return Err(StoreError::DecodeError);
        },
        Some(bytes) => match decode_index(bytes.as_slice()) {
            None => {
                proof {
                    assert(false);
                }
                return Err(StoreError::DecodeError);
            },
            Some(d) => d.cur_index,
        },
    };
    if entry_handles.len() != count as usize {
        return Err(StoreError::ValidationError);
    }
    let mut i: usize = 0;
    while i < entry_handles.len()
        invariant
            store.wf(),
            i <= entry_handles@.len(),
            entry_handles@.len() == store.count(),
            store.count() <= u32::MAX,
            forall|j: int|
                0 <= j < i ==> #[trigger] article_handle_ok(
                    store.program_id@,
                    j as u32,
                    entry_handles@[j]@,
                ),
        decreases entry_handles@.len() - i,
    {
        let derived = derive_article_address(&store.program_id, i as u32);
        let handle_ok = match &derived {
            Some((addr, _bump)) => addresses_equal(&entry_handles[i], addr),
            None => false,
        };
        if !handle_ok {
            proof {
                assert(spec_handles(entry_handles@)[i as int] == entry_handles@[i as int]@);
                assert(!article_handle_ok(
                    store.program_id@,
                    i as u32,
                    spec_handles(entry_handles@)[i as int],
                ));
            }
            return Err(StoreError::AddressMismatch);
        }
        i += 1;
    }
    let mut out: Vec<(u32, Vec<u8>, Vec<u8>)> = Vec::new();
    let mut k: usize = 0;
    while k < store.entries.len()
        invariant
            store.wf(),
            k <= store.count(),
            store.count() <= u32::MAX,
            out@.len() == k,
            forall|j: int|
                0 <= j < k ==> (#[trigger] out@[j]).0 == j as u32 && out@[j].1@
                    == store.records()[j].0 && out@[j].2@ == store.records()[j].1,
        decreases store.entries@.len() - k,
    {
        let rec = match decode_entry(store.entries[k].as_slice()) {
            None => {
                proof {
                    assert(false);
                }
                return Err(StoreError::DecodeError);
            },
            Some(d) => d,
        };
        out.push((k as u32, rec.title, rec.content));
        k += 1;
    }
    Ok(out)
}

} // verus!
