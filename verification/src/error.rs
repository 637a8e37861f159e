//! Why an invocation fails.

use vstd::prelude::*;

verus! {

/// A rejection by the asset-custody facility. The operation hands it on as it
/// came and does not try again.
#[derive(Clone, Copy, Debug, PartialEq, Eq, Structural)]
pub enum CloseFailure {
    /// The account still holds some of its asset.
    BalanceNotZero,
    /// The owner's signature is missing, or is not that of the account's owner.
    SignatureRejected,
    /// No such account is on the ledger: it never existed or was closed before.
    AccountNotFound,
    /// The facility could not be reached, or it refused the request as a whole.
    FacilityRejected,
}

/// The two kinds of error an invocation ends with.
#[derive(Clone, Copy, Debug, PartialEq, Eq, Structural)]
pub enum SwapError {
    /// The signer is not the account's recorded owner. Found by this crate,
    /// before anything was asked of the custody facility.
    Unauthorized,
    /// The custody facility rejected the close.
    CloseFailure(CloseFailure),
}

} // verus!
