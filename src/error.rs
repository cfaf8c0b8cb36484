use vstd::prelude::*;

verus! {

/// Why an instruction was refused.
#[derive(Clone, Copy, Debug, PartialEq, Eq, Structural)]
pub enum NftError {
    /// The instruction bytes are no known operation, or its fields do not decode.
    InvalidPayload,
    /// The bytes held by the record account are not an encoded record.
    MalformedRecord,
    /// The account that must authorize the operation did not sign.
    Unauthorized,
    /// Fewer accounts were supplied than the operation reads.
    MissingAccount,
    /// The record is minted already.
    AlreadyMinted,
    /// The record is not minted yet.
    NotYetMinted,
    /// The copyright of the record is registered already.
    AlreadyRegistered,
    /// The signer is not the record's current controller.
    NotCreator,
    /// The host refused to create the record's storage.
    AllocationFailed,
}

} // verus!
