use vstd::prelude::*;

verus! {

/// The failure taxonomy of the store. Every operation either commits in full
/// or fails with exactly one of these and leaves the store unchanged.
#[derive(Clone, Copy, Debug, PartialEq, Eq, Structural)]
pub enum StoreError {
    /// A caller-supplied handle does not equal the address derived for it.
    AddressMismatch,
    /// A field exceeds its length limit, or a handle count is wrong.
    ValidationError,
    /// Bytes do not match the record schema.
    DecodeError,
    /// Storage at the derived address is already provisioned.
    HostProvisioningError,
    /// The opcode names none of the three operations.
    UnrecognizedOperation,
}

} // verus!
