//! The close request that is handed to the asset-custody facility.

use vstd::prelude::*;
use spl_token::instruction::close_account;
use spl_token::solana_program::program_error::ProgramError;
use spl_token::solana_program::pubkey::Pubkey;
use crate::account::SwapAndClose;
use crate::error::{CloseFailure, SwapError};
use crate::identity::{custody_program_id, Identity};

verus! {

/// One account that a request names, with what the facility may do with it.
#[derive(Clone, Copy, Debug, PartialEq, Eq)]
pub struct AccountSlot {
    pub key: Identity,
    /// The request claims this party's signature.
    pub is_signer: bool,
    /// The facility may change this account.
    pub is_writable: bool,
}

/// An account slot as a mathematical record.
pub struct SlotView {
    pub key: Seq<u8>,
    pub is_signer: bool,
    pub is_writable: bool,
}

impl View for AccountSlot {
    type V = SlotView;

    open spec fn view(&self) -> SlotView {
        SlotView { key: self.key@, is_signer: self.is_signer, is_writable: self.is_writable }
    }
}

/// A request to a facility: which facility, the accounts it concerns, and the
/// encoded command.
#[derive(Clone, Debug, PartialEq, Eq)]
pub struct CloseRequest {
    pub program: Identity,
    pub slots: Vec<AccountSlot>,
    pub data: Vec<u8>,
}

/// A request as a mathematical record.
pub struct RequestView {
    pub program: Seq<u8>,
    pub slots: Seq<SlotView>,
    pub data: Seq<u8>,
}

impl View for CloseRequest {
    type V = RequestView;

    open spec fn view(&self) -> RequestView {
        RequestView {
            program: self.program@,
            slots: self.slots@.map_values(|slot: AccountSlot| slot@),
            data: self.data@,
        }
    }
}

/// The command byte by which the custody facility knows a close.
pub open spec fn close_command() -> Seq<u8> {
    seq![9u8]
}

impl RequestView {
    /// The request is a close in the form the custody facility serves: sent to
    /// the facility, with the close command and nothing after it, naming
    /// exactly the account, the receiver and one authority, the first two
    /// open to change.
    pub open spec fn is_close(self) -> bool {
        &&& self.program == custody_program_id()
        &&& self.data == close_command()
        &&& self.slots.len() == 3
        &&& self.slots[0].is_writable
        &&& self.slots[1].is_writable
    }

    /// The account that a close request asks to close.
    pub open spec fn account(self) -> Seq<u8> {
        self.slots[0].key
    }

    /// The party that a close request pays the reserve to.
    pub open spec fn destination(self) -> Seq<u8> {
        self.slots[1].key
    }

    /// The party on whose authority a close request is made.
    pub open spec fn authority(self) -> Seq<u8> {
        self.slots[2].key
    }
}

impl CloseRequest {
    /// Whether the request is a close in the form the custody facility serves.
    pub fn is_close(&self) -> (close: bool)
        ensures
            close == self@.is_close(),
    {
        let close = self.program.same(&Identity::custody_program()) && self.data.len() == 1
            && self.data[0] == 9 && self.slots.len() == 3 && self.slots[0].is_writable
            && self.slots[1].is_writable;
        proof {
            if self.data@.len() == 1 && self.data@[0] == 9 {
                assert(self.data@ =~= close_command());
            }
        }
        close
    }
}

/// The request that closes `account`, pays its reserve to `destination`, and
/// is authorised by the signature of `authority` alone.
pub open spec fn close_request_for(
    program: Seq<u8>,
    account: Seq<u8>,
    destination: Seq<u8>,
    authority: Seq<u8>,
) -> RequestView {
    RequestView {
        program,
        slots: seq![
            SlotView { key: account, is_signer: false, is_writable: true },
            SlotView { key: destination, is_signer: false, is_writable: true },
            SlotView { key: authority, is_signer: true, is_writable: false },
        ],
        data: close_command(),
    }
}

/// The error type of the token library, carried through unread.
#[verifier::external_type_specification]
#[verifier::external_body]
pub struct ExProgramError(spl_token::solana_program::program_error::ProgramError);

/// Calls `spl_token::instruction::close_account` with no further signers.
///
/// Trusted, not proved: when `program` is the custody facility's address the
/// call succeeds, and the instruction it builds carries that address, the
/// one-byte close command, and three accounts in this order: `account`
/// (writable), `destination` (writable), `authority` (read-only, signer). For
/// any other `program` the call fails.
#[verifier::external_body]
fn build_close_instruction(
    program: &Identity,
    account: &Identity,
    destination: &Identity,
    authority: &Identity,
) -> (built: Result<CloseRequest, ProgramError>)
    ensures
        program@ == custody_program_id() ==> built is Ok && built->Ok_0@ == close_request_for(
            program@,
            account@,
            destination@,
            authority@,
        ),
        program@ != custody_program_id() ==> built is Err,
{
    let instruction = close_account(
        &Pubkey::new_from_array(program.bytes),
        &Pubkey::new_from_array(account.bytes),
        &Pubkey::new_from_array(destination.bytes),
        &Pubkey::new_from_array(authority.bytes),
        &[],
    )?;
    let slots = instruction.accounts.iter().map(|meta| AccountSlot {
        key: Identity { bytes: meta.pubkey.to_bytes() },
        is_signer: meta.is_signer,
        is_writable: meta.is_writable,
    });
    let program = Identity { bytes: instruction.program_id.to_bytes() };
    Ok(CloseRequest { program, slots: slots.collect(), data: instruction.data })
}

/// Builds the request that closes the context's account: it is addressed to the
/// custody facility, and names the signer both as the authority that orders the
/// close and as the receiver of the account's reserve.
///
/// A context whose custody handle does not name the custody facility has no
/// facility to address: the result is `FacilityRejected`.
pub fn close_request(ctx: &SwapAndClose) -> (request: Result<CloseRequest, SwapError>)
    ensures
        request is Ok <==> ctx.token_program@ == custody_program_id(),
        request is Ok ==> request->Ok_0@ == close_request_for(
            ctx.token_program@,
            ctx.token_account.address@,
            ctx.owner@,
            ctx.owner@,
        ),
        request is Err ==> request->Err_0 == SwapError::CloseFailure(
            CloseFailure::FacilityRejected,
        ),
{
    let account = ctx.token_account.key();
    let signer = ctx.owner.key();
    match build_close_instruction(&ctx.token_program, &account, &signer, &signer) {
        Ok(request) => Ok(request),
        Err(_) => Err(SwapError::CloseFailure(CloseFailure::FacilityRejected)),
    }
}

} // verus!
