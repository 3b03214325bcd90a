//! The instruction dispatcher: one opcode byte, then the operation-specific
//! payload. Pure routing plus payload slicing — the business logic lives in
//! [`crate::store`].
//!
//! The caller-supplied handle list is positional: the payer first, then the
//! index handle, then — for an append — the new entry's handle, then the
//! host allocator's handle, then — for a listing — one handle per entry.

use crate::error::StoreError;
use crate::store::{
    append_result, init, init_result, list_articles, list_check, post_article, spec_handles,
    Store,
};
use vstd::prelude::*;
use vstd::slice::{slice_index_get, slice_subrange};

verus! {

/// The opcode of bootstrap.
pub const OP_INIT: u8 = 0;

/// The opcode of append.
pub const OP_POST: u8 = 1;

/// The opcode of enumerate.
pub const OP_LIST: u8 = 2;

/// What a routed operation hands back: nothing for bootstrap and append, the
/// listing for enumerate.
pub enum ProcessOutput {
    Done,
    Listing(Vec<(u32, Vec<u8>, Vec<u8>)>),
}

/// Routes one instruction: the first byte picks the operation, the rest is
/// its payload. Performs no business logic of its own; each outcome below is
/// exactly the routed operation's, a too-short handle list counts as a
/// handle-count violation, and an unknown opcode fails on its own.
pub fn process_instruction(
    store: &mut Store,
    account_keys: &[[u8; 32]],
    instruction_data: &[u8],
) -> (r: Result<ProcessOutput, StoreError>)
    requires
        old(store).wf(),
        instruction_data@.len() >= 1,
        instruction_data@[0] == OP_POST ==> old(store).count() < u32::MAX,
    ensures
        final(store).wf(),
        final(store).program_id == old(store).program_id,
        instruction_data@[0] == OP_INIT && account_keys@.len() >= 3 ==> (
        match init_result(*old(store), account_keys@[1]@) {
            Ok(()) => r matches Ok(ProcessOutput::Done)
                && final(store).index_is(0)
                && final(store).count() == 0,
            Err(e) => r == Err::<ProcessOutput, StoreError>(e) && *final(store) == *old(store),
        }),
        instruction_data@[0] == OP_POST && account_keys@.len() >= 4 ==> (
        match append_result(
            *old(store),
            account_keys@[1]@,
            account_keys@[2]@,
            instruction_data@.subrange(1, instruction_data@.len() as int),
        ) {
            Ok(rec) => r matches Ok(ProcessOutput::Done)
                && final(store).count() == old(store).count() + 1
                && final(store).records() == old(store).records().push(rec)
                && final(store).index_is((old(store).count() + 1) as u32),
            Err(e) => r == Err::<ProcessOutput, StoreError>(e) && *final(store) == *old(store),
        }),
        instruction_data@[0] == OP_LIST && account_keys@.len() >= 3 ==> *final(store) == *old(store)
            && (match list_check(
            *old(store),
            account_keys@[1]@,
            spec_handles(account_keys@.subrange(3, account_keys@.len() as int)),
        ) {
            Ok(()) => r matches Ok(ProcessOutput::Listing(out))
                && out@.len() == old(store).count()
                && (forall|i: int|
                    0 <= i < out@.len() ==> (#[trigger] out@[i]).0 == i as u32
                        && out@[i].1@ == old(store).records()[i].0
                        && out@[i].2@ == old(store).records()[i].1),
            Err(e) => r == Err::<ProcessOutput, StoreError>(e),
        }),
        (instruction_data@[0] == OP_INIT || instruction_data@[0] == OP_LIST)
            && account_keys@.len() < 3 ==> r == Err::<ProcessOutput, StoreError>(
            StoreError::ValidationError,
        ) && *final(store) == *old(store),
        instruction_data@[0] == OP_POST && account_keys@.len() < 4 ==> r == Err::<
            ProcessOutput,
            StoreError,
        >(StoreError::ValidationError) && *final(store) == *old(store),
        instruction_data@[0] != OP_INIT && instruction_data@[0] != OP_POST
            && instruction_data@[0] != OP_LIST ==> r == Err::<ProcessOutput, StoreError>(
            StoreError::UnrecognizedOperation,
        ) && *final(store) == *old(store),
{
    let opcode = *slice_index_get(instruction_data, 0);
    if opcode == OP_INIT {
        if account_keys.len() < 3 {
            return Err(StoreError::ValidationError);
        }
        match init(store, slice_index_get(account_keys, 1)) {
            Ok(()) => Ok(ProcessOutput::Done),
            Err(e) => Err(e),
        }
    } else if opcode == OP_POST {
        if account_keys.len() < 4 {
            return Err(StoreError::ValidationError);
        }
        let payload = slice_subrange(instruction_data, 1, instruction_data.len());
        match post_article(
            store,
            slice_index_get(account_keys, 1),
            slice_index_get(account_keys, 2),
            payload,
        ) {
            Ok(()) => Ok(ProcessOutput::Done),
            Err(e) => Err(e),
        }
    } else if opcode == OP_LIST {
        if account_keys.len() < 3 {
            return Err(StoreError::ValidationError);
        }
        let entry_handles = slice_subrange(account_keys, 3, account_keys.len());
        match list_articles(store, slice_index_get(account_keys, 1), entry_handles) {
            Ok(out) => Ok(ProcessOutput::Listing(out)),
            Err(e) => Err(e),
        }
    } else {
        Err(StoreError::UnrecognizedOperation)
    }
}

} // verus!
