//! The failure taxonomy of the settlement core.

use vstd::prelude::*;

verus! {

/// Everything that can go wrong while settling, each surfaced to the
/// operator with the context of the event that hit it.
#[derive(Clone, Copy, PartialEq, Eq, Structural, Debug)]
pub enum SettlementError {
    /// The asset ledger cannot supply the requested allocation; channel
    /// funding aborts before anything is signed.
    InsufficientAssetFunds,
    /// The counterparty was unreachable or rejected the transfer proof;
    /// funding aborts before the transaction reaches the engine.
    ProofRelayFailed,
    /// A proof file that must exist is absent, or lacks the allocation
    /// it should carry; fatal for that output.
    ProofMissing,
    /// An intercepted HTLC does not match its whitelist entry; that
    /// HTLC is rejected, the entry stays.
    SwapTermsMismatch,
    /// The wallet or chain-query service failed to build, sign or
    /// broadcast; the operation aborts with no further state committed.
    WalletOperationFailed,
}

impl SettlementError {
    /// A short operator-readable name.
    pub fn text(&self) -> (r: &'static str)
        ensures
            (*self is InsufficientAssetFunds) ==> r@ == "insufficient asset funds"@,
            (*self is ProofRelayFailed) ==> r@ == "proof relay failed"@,
            (*self is ProofMissing) ==> r@ == "proof missing"@,
            (*self is SwapTermsMismatch) ==> r@ == "swap terms mismatch"@,
            (*self is WalletOperationFailed) ==> r@ == "wallet operation failed"@,
    {
        match self {
            SettlementError::InsufficientAssetFunds => "insufficient asset funds",
            SettlementError::ProofRelayFailed => "proof relay failed",
            SettlementError::ProofMissing => "proof missing",
            SettlementError::SwapTermsMismatch => "swap terms mismatch",
            SettlementError::WalletOperationFailed => "wallet operation failed",
        }
    }
}

} // verus!
