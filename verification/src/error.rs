//! Error taxonomy: local validation errors, contract-reported errors, and
//! ledger-level rejections.

use vstd::prelude::*;

verus! {

/// Every way a command or contract call can fail.
///
/// `InvalidInputFormat` and `MalformedFingerprint` are local validation
/// errors, raised before any network round trip. `NotOwner`,
/// `AssetAlreadyExists`, `ZeroStringLength`, `ZeroValue` and `AssetNotFound`
/// are reported by the contract on a failed transactional call.
/// `ContractNotFound`, `AddressInUse`, `AlreadyInitialized`,
/// `InsufficientFunds` and `Overflow` are rejections at the ledger boundary.
#[derive(Clone, Copy, PartialEq, Eq, Structural, Debug)]
pub enum Error {
    /// A textual fingerprint does not have the canonical 66-character length.
    InvalidInputFormat,
    /// A textual fingerprint has the right length but is not `0x` + 64 hex digits.
    MalformedFingerprint,
    /// A bech32 address does not parse: wrong length, character, case
    /// mixing, padding or checksum.
    MalformedAddress,
    /// The signer of an owner-gated call is not the current contract owner.
    NotOwner,
    /// An asset with the same (name, symbol) pair is already registered.
    AssetAlreadyExists,
    /// A new asset's name or symbol is empty.
    ZeroStringLength,
    /// A mint was attempted with amount zero.
    ZeroValue,
    /// The asset fingerprint is not registered with the contract.
    AssetNotFound,
    /// No contract is deployed at the target address.
    ContractNotFound,
    /// A deployment collided with an existing contract address.
    AddressInUse,
    /// The one-time ownership initialization was attempted twice.
    AlreadyInitialized,
    /// The signer cannot pay the transaction fee.
    InsufficientFunds,
    /// The mint would overflow the asset's supply or the recipient's balance.
    Overflow,
}

} // verus!
