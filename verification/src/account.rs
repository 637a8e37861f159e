//! The value account, the signer, and the context that bundles them.

use vstd::prelude::*;
use crate::identity::{custody_program_id, system_program_id, Identity};

verus! {

/// A ledger record that holds an asset for its owner.
///
/// It carries two amounts. `balance` is how much of the asset the account
/// holds; the custody facility closes an account only when it is zero.
/// `reserve` is the deposit that keeps the account on the ledger; closing the
/// account hands it to the owner.
#[derive(Clone, Copy, Debug, PartialEq, Eq)]
pub struct ValueAccount {
    /// Where the account lives on the ledger.
    pub address: Identity,
    /// The party entitled to act on the account.
    pub owner: Identity,
    /// Which asset the account holds.
    pub asset: Identity,
    /// How much of the asset it holds.
    pub balance: u64,
    /// The deposit reclaimed on closure.
    pub reserve: u64,
}

/// A value account as a mathematical record.
pub struct AccountView {
    pub address: Seq<u8>,
    pub owner: Seq<u8>,
    pub asset: Seq<u8>,
    pub balance: nat,
    pub reserve: nat,
}

impl View for ValueAccount {
    type V = AccountView;

    open spec fn view(&self) -> AccountView {
        AccountView {
            address: self.address@,
            owner: self.owner@,
            asset: self.asset@,
            balance: self.balance as nat,
            reserve: self.reserve as nat,
        }
    }
}

impl ValueAccount {
    /// The account's address.
    pub fn key(&self) -> (address: Identity)
        ensures
            address@ == self.address@,
    {
        self.address
    }
}

/// The signer of the transaction: the capability to act as one identity.
///
/// Whoever holds a value of this type has been authenticated as `key()` by the
/// layer that submitted the transaction. The operation passes the value on
/// explicitly wherever the owner's authority is needed.
#[derive(Clone, Copy, Debug, PartialEq, Eq)]
pub struct OwnerIdentity {
    identity: Identity,
}

impl View for OwnerIdentity {
    type V = Seq<u8>;

    closed spec fn view(&self) -> Seq<u8> {
        self.identity@
    }
}

impl OwnerIdentity {
    /// The capability of the party that was authenticated as `identity`.
    pub fn authenticated(identity: Identity) -> (signer: OwnerIdentity)
        ensures
            signer@ == identity@,
    {
        OwnerIdentity { identity }
    }

    /// The identity that signed.
    pub fn key(&self) -> (identity: Identity)
        ensures
            identity@ == self@,
    {
        self.identity
    }
}

/// Everything one invocation works on, resolved by the caller beforehand.
/// The operation only reads it.
#[derive(Clone, Copy, Debug, PartialEq, Eq)]
pub struct SwapAndClose {
    /// The account to close, as the ledger recorded it when the caller
    /// resolved the context.
    pub token_account: ValueAccount,
    /// The signer, who must be the account's owner.
    pub owner: OwnerIdentity,
    /// Handle to the generic system facility.
    pub system_program: Identity,
    /// Handle to the asset-custody facility.
    pub token_program: Identity,
}

/// A context as a mathematical record.
pub struct ContextView {
    pub account: AccountView,
    pub signer: Seq<u8>,
    pub system_program: Seq<u8>,
    pub token_program: Seq<u8>,
}

impl View for SwapAndClose {
    type V = ContextView;

    open spec fn view(&self) -> ContextView {
        ContextView {
            account: self.token_account@,
            signer: self.owner@,
            system_program: self.system_program@,
            token_program: self.token_program@,
        }
    }
}

impl ContextView {
    /// Both facility handles name the facility they stand for.
    pub open spec fn well_formed(self) -> bool {
        &&& self.system_program == system_program_id()
        &&& self.token_program == custody_program_id()
    }
}

impl SwapAndClose {
    /// Whether the context has the shape the operation is meant for: each
    /// facility handle names its facility. A caller runs this before any stage.
    pub fn check_shape(&self) -> (well_formed: bool)
        ensures
            well_formed == self@.well_formed(),
    {
        self.system_program.same(&Identity::system_program())
            && self.token_program.same(&Identity::custody_program())
    }
}

} // verus!
