//! The operation: validate the owner, then close the account.

use vstd::prelude::*;
use crate::account::{ContextView, SwapAndClose};
use crate::error::{CloseFailure, SwapError};
use crate::identity::custody_program_id;
use crate::ledger::{credited, Ledger, LedgerView};
use crate::request::close_request;

verus! {

impl ContextView {
    /// The signer is the owner that the account records.
    pub open spec fn signer_owns_account(self) -> bool {
        self.account.owner == self.signer
    }

    /// The context's account is on `ledger`, exactly as the context holds it.
    pub open spec fn resolved_on(self, ledger: LedgerView) -> bool {
        &&& ledger.accounts.contains_key(self.account.address)
        &&& ledger.accounts[self.account.address] == self.account
    }
}

/// What the close stage returns for `ctx` on `ledger`: the first of these
/// that applies.
pub open spec fn close_outcome(ctx: ContextView, ledger: LedgerView) -> Result<(), SwapError> {
    let address = ctx.account.address;
    if ctx.token_program != custody_program_id() {
        Err(SwapError::CloseFailure(CloseFailure::FacilityRejected))
    } else if !ledger.accounts.contains_key(address) {
        Err(SwapError::CloseFailure(CloseFailure::AccountNotFound))
    } else if ledger.accounts[address].balance != 0 {
        Err(SwapError::CloseFailure(CloseFailure::BalanceNotZero))
    } else if ledger.accounts[address].owner != ctx.signer {
        Err(SwapError::CloseFailure(CloseFailure::SignatureRejected))
    } else {
        Ok(())
    }
}

/// The ledger after the close stage: without the account and with its
/// reserve paid to the signer if the stage succeeded, untouched if not.
pub open spec fn close_effect(ctx: ContextView, ledger: LedgerView) -> LedgerView {
    let address = ctx.account.address;
    if close_outcome(ctx, ledger) is Ok {
        LedgerView {
            accounts: ledger.accounts.remove(address),
            reserves: credited(ledger.reserves, ctx.signer, ledger.accounts[address].reserve),
        }
    } else {
        ledger
    }
}

/// What the whole operation returns for `ctx` on `ledger`.
pub open spec fn outcome(ctx: ContextView, ledger: LedgerView) -> Result<(), SwapError> {
    if !ctx.signer_owns_account() {
        Err(SwapError::Unauthorized)
    } else {
        close_outcome(ctx, ledger)
    }
}

/// The ledger after the whole operation.
pub open spec fn effect(ctx: ContextView, ledger: LedgerView) -> LedgerView {
    if !ctx.signer_owns_account() {
        ledger
    } else {
        close_effect(ctx, ledger)
    }
}

/// Checks that the signer is the owner that the account records. Reads the
/// context and nothing else.
pub fn validate(ctx: &SwapAndClose) -> (checked: Result<(), SwapError>)
    ensures
        checked is Ok <==> ctx@.signer_owns_account(),
        checked is Err ==> checked->Err_0 == SwapError::Unauthorized,
{
    if ctx.token_account.owner.same(&ctx.owner.key()) {
        Ok(())
    } else {
        Err(SwapError::Unauthorized)
    }
}

/// Asks the custody facility to close the context's account and to pay its
/// reserve to the signer, on the signer's authority.
///
/// The facility's rejection comes back as it was given. Nothing is tried
/// twice, and a rejected close leaves the ledger as it was.
pub fn close(ctx: &SwapAndClose, ledger: &mut Ledger) -> (closed: Result<(), SwapError>)
    requires
        old(ledger).wf(),
    ensures
        final(ledger).wf(),
        closed == close_outcome(ctx@, old(ledger)@),
        final(ledger)@ == close_effect(ctx@, old(ledger)@),
        final(ledger).supply() == old(ledger).supply(),
{
    let request = match close_request(ctx) {
        Ok(request) => request,
        Err(error) => {
            return Err(error);
        },
    };
    match ledger.execute(&request, &ctx.owner) {
        Ok(()) => Ok(()),
        Err(failure) => Err(SwapError::CloseFailure(failure)),
    }
}

/// The operation. It validates the owner, then closes the account; the first
/// failure ends it, and then the ledger is as it was before.
///
/// No conversion happens between the two stages. An account that still holds
/// some of its asset is therefore not emptied here: the close stage fails on
/// it with `BalanceNotZero`, and emptying it beforehand is the caller's part.
pub fn swap_and_close(ctx: &SwapAndClose, ledger: &mut Ledger) -> (done: Result<(), SwapError>)
    requires
        old(ledger).wf(),
    ensures
        final(ledger).wf(),
        done == outcome(ctx@, old(ledger)@),
        final(ledger)@ == effect(ctx@, old(ledger)@),
        final(ledger).supply() == old(ledger).supply(),
{
    match validate(ctx) {
        Ok(()) => close(ctx, ledger),
        Err(error) => Err(error),
    }
}

} // verus!
