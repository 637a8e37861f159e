//! What the operation guarantees, proved from the contracts of its parts.

use vstd::prelude::*;
use crate::account::ContextView;
use crate::error::{CloseFailure, SwapError};
use crate::identity::custody_program_id;
use crate::ledger::LedgerView;
use crate::operation::{close_effect, close_outcome, effect, outcome};
use crate::request::close_request_for;
use crate::stage::Stage;

verus! {

/// The stage an invocation ends in: it validates, and if that passed, it
/// closes.
pub open spec fn final_stage(ctx: ContextView, ledger: LedgerView) -> Stage {
    let validated = Stage::Open.after(ctx.signer_owns_account());
    if validated.is_terminal() {
        validated
    } else {
        validated.after(close_outcome(ctx, ledger) is Ok)
    }
}

/// Through a context that reaches the custody facility, the close stage is the
/// facility's answer to one request: close the context's account, on the
/// signer's authority, and pay the reserve to the signer.
pub proof fn lemma_close_stage_is_the_facility_answer(ctx: ContextView, ledger: LedgerView)
    requires
        ctx.token_program == custody_program_id(),
    ensures
        ({
            let request = close_request_for(
                ctx.token_program,
                ctx.account.address,
                ctx.signer,
                ctx.signer,
            );
            &&& close_outcome(ctx, ledger) == match ledger.verdict(request, ctx.signer) {
                Ok(()) => Ok::<(), SwapError>(()),
                Err(failure) => Err(SwapError::CloseFailure(failure)),
            }
            &&& close_effect(ctx, ledger) == ledger.after(request, ctx.signer)
        }),
{
}

/// When the signer owns an account that is on the ledger and holds nothing,
/// the operation succeeds. Afterwards the account is gone, the owner can
/// reclaim exactly the account's reserve more than before, and every other
/// account and every other party's reserve is as it was.
pub proof fn lemma_owner_closes_empty_account(ctx: ContextView, ledger: LedgerView)
    requires
        ctx.well_formed(),
        ctx.resolved_on(ledger),
        ctx.signer_owns_account(),
        ctx.account.balance == 0,
    ensures
        outcome(ctx, ledger) == Ok::<(), SwapError>(()),
        !effect(ctx, ledger).accounts.contains_key(ctx.account.address),
        effect(ctx, ledger).reserves[ctx.account.owner] == ledger.reserves[ctx.account.owner]
            + ctx.account.reserve,
        forall|other: Seq<u8>|
            other != ctx.account.address ==> effect(ctx, ledger).accounts.contains_key(other)
                == ledger.accounts.contains_key(other) && effect(ctx, ledger).accounts[other]
                == ledger.accounts[other],
        forall|other: Seq<u8>|
            other != ctx.account.owner ==> effect(ctx, ledger).reserves[other]
                == ledger.reserves[other],
{
}

/// When the signer is not the owner that the account records, the operation
/// fails with `Unauthorized` and the ledger is as it was.
pub proof fn lemma_foreign_signer_is_refused(ctx: ContextView, ledger: LedgerView)
    requires
        !ctx.signer_owns_account(),
    ensures
        outcome(ctx, ledger) == Err::<(), SwapError>(SwapError::Unauthorized),
        effect(ctx, ledger) == ledger,
{
}

/// When the account on the ledger still holds some of its asset, the close
/// stage fails with a `CloseFailure` and the ledger is as it was; so does the
/// whole operation, unless it already failed as `Unauthorized`. Through a
/// context that reaches the custody facility, the failure is `BalanceNotZero`.
pub proof fn lemma_funded_account_stays_open(ctx: ContextView, ledger: LedgerView)
    requires
        ledger.accounts.contains_key(ctx.account.address),
        ledger.accounts[ctx.account.address].balance != 0,
    ensures
        close_outcome(ctx, ledger) is Err,
        close_outcome(ctx, ledger)->Err_0 is CloseFailure,
        ctx.token_program == custody_program_id() ==> close_outcome(ctx, ledger) == Err::<
            (),
            SwapError,
        >(SwapError::CloseFailure(CloseFailure::BalanceNotZero)),
        close_effect(ctx, ledger) == ledger,
        outcome(ctx, ledger) is Err,
        effect(ctx, ledger) == ledger,
{
}

/// Once the operation has succeeded, invoking it again with the same context
/// fails with `AccountNotFound` and changes nothing.
pub proof fn lemma_second_invocation_finds_no_account(ctx: ContextView, ledger: LedgerView)
    requires
        outcome(ctx, ledger) is Ok,
    ensures
        outcome(ctx, effect(ctx, ledger)) == Err::<(), SwapError>(
            SwapError::CloseFailure(CloseFailure::AccountNotFound),
        ),
        effect(ctx, effect(ctx, ledger)) == effect(ctx, ledger),
{
}

/// All or nothing: an invocation that fails, at whatever stage, leaves the
/// ledger as it was.
pub proof fn lemma_failure_changes_nothing(ctx: ContextView, ledger: LedgerView)
    requires
        outcome(ctx, ledger) is Err,
    ensures
        effect(ctx, ledger) == ledger,
{
}

/// Every invocation ends in a terminal stage: `Closed` exactly when the
/// operation succeeds, `Failed` exactly when it fails. There is nothing in
/// between.
pub proof fn lemma_invocation_ends_closed_or_failed(ctx: ContextView, ledger: LedgerView)
    ensures
        final_stage(ctx, ledger).is_terminal(),
        final_stage(ctx, ledger) == Stage::Closed <==> outcome(ctx, ledger) is Ok,
        final_stage(ctx, ledger) == Stage::Failed <==> outcome(ctx, ledger) is Err,
{
}

/// A terminal stage is never left.
pub proof fn lemma_terminal_stage_is_kept(stage: Stage, passed: bool)
    requires
        stage.is_terminal(),
    ensures
        stage.after(passed) == stage,
{
}

} // verus!
