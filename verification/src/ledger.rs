//! The ledger and the asset-custody facility's contract, as a verified model.
//!
//! On a live ledger the custody facility is reached by a privileged call that
//! this crate cannot make. The model here states what that facility promises:
//! which close requests it accepts, and what an accepted one does to the
//! ledger. The guarantees of the operation are stated against it.

use vstd::prelude::*;
use crate::account::{AccountView, OwnerIdentity, ValueAccount};
use crate::error::CloseFailure;
use crate::identity::Identity;
use crate::request::{CloseRequest, RequestView};

verus! {

/// What one party can reclaim: the reserves that closed accounts paid out to
/// it, and what it was funded with.
#[derive(Clone, Copy, Debug)]
struct Wallet {
    identity: Identity,
    reserve: u64,
}

/// The state of the ledger: the value accounts that exist, and every party's
/// recoverable reserve.
///
/// No two accounts share an address, and all reserves together fit in a `u64`.
#[derive(Clone, Debug)]
pub struct Ledger {
    accounts: Vec<ValueAccount>,
    wallets: Vec<Wallet>,
    supply: u64,
}

/// A ledger as a mathematical record.
pub struct LedgerView {
    /// The accounts that exist, by address.
    pub accounts: Map<Seq<u8>, AccountView>,
    /// Every party's recoverable reserve; zero for a party never paid.
    pub reserves: Map<Seq<u8>, nat>,
}

impl LedgerView {
    /// The ledger with no account and no reserve.
    pub open spec fn empty() -> LedgerView {
        LedgerView {
            accounts: Map::empty(),
            reserves: Map::new(|who: Seq<u8>| true, |who: Seq<u8>| 0nat),
        }
    }

    /// Every account is filed under its own address, and every party has a
    /// reserve.
    pub open spec fn well_formed(self) -> bool {
        &&& forall|address: Seq<u8>| #[trigger]
            self.accounts.contains_key(address) ==> self.accounts[address].address == address
        &&& forall|who: Seq<u8>| #[trigger] self.reserves.contains_key(who)
    }

    /// What the custody facility answers to `request`, made with the
    /// capability of `signer`. It serves closes only; the account must exist
    /// and hold nothing; the authority named must have signed and must be the
    /// account's owner.
    pub open spec fn verdict(self, request: RequestView, signer: Seq<u8>) -> Result<
        (),
        CloseFailure,
    > {
        if !request.is_close() {
            Err(CloseFailure::FacilityRejected)
        } else if !self.accounts.contains_key(request.account()) {
            Err(CloseFailure::AccountNotFound)
        } else if self.accounts[request.account()].balance != 0 {
            Err(CloseFailure::BalanceNotZero)
        } else if !request.slots[2].is_signer || request.authority() != signer
            || request.authority() != self.accounts[request.account()].owner {
            Err(CloseFailure::SignatureRejected)
        } else {
            Ok(())
        }
    }

    /// The ledger once the facility has answered `request`. A rejected
    /// request leaves it as it was. An accepted one removes the account and
    /// pays the account's reserve to the destination.
    pub open spec fn after(self, request: RequestView, signer: Seq<u8>) -> LedgerView {
        if self.verdict(request, signer) is Ok {
            LedgerView {
                accounts: self.accounts.remove(request.account()),
                reserves: credited(
                    self.reserves,
                    request.destination(),
                    self.accounts[request.account()].reserve,
                ),
            }
        } else {
            self
        }
    }
}

/// The reserves after `who` was paid `amount`.
pub open spec fn credited(reserves: Map<Seq<u8>, nat>, who: Seq<u8>, amount: nat) -> Map<
    Seq<u8>,
    nat,
> {
    reserves.insert(who, (reserves[who] + amount) as nat)
}

/// The address of each account, in the order they are stored.
spec fn addresses(accounts: Seq<ValueAccount>) -> Seq<Seq<u8>> {
    accounts.map_values(|account: ValueAccount| account.address@)
}

/// The party of each wallet, in the order they are stored.
spec fn parties(wallets: Seq<Wallet>) -> Seq<Seq<u8>> {
    wallets.map_values(|wallet: Wallet| wallet.identity@)
}

/// The reserve of each account, in the order they are stored.
spec fn account_reserves(accounts: Seq<ValueAccount>) -> Seq<nat> {
    accounts.map_values(|account: ValueAccount| account.reserve as nat)
}

/// The reserve of each wallet, in the order they are stored.
spec fn wallet_reserves(wallets: Seq<Wallet>) -> Seq<nat> {
    wallets.map_values(|wallet: Wallet| wallet.reserve as nat)
}

/// The amounts added up.
spec fn sum(amounts: Seq<nat>) -> nat
    decreases amounts.len(),
{
    if amounts.len() == 0 {
        0
    } else {
        sum(amounts.drop_last()) + amounts.last()
    }
}

/// What the wallets record for `who`: nothing, if none is kept for it.
spec fn reserve_in(wallets: Seq<Wallet>, who: Seq<u8>) -> nat {
    if parties(wallets).contains(who) {
        wallets[parties(wallets).index_of(who)].reserve as nat
    } else {
        0
    }
}

/// The stored accounts, by address.
spec fn accounts_map(accounts: Seq<ValueAccount>) -> Map<Seq<u8>, AccountView> {
    Map::new(
        |address: Seq<u8>| addresses(accounts).contains(address),
        |address: Seq<u8>| accounts[addresses(accounts).index_of(address)]@,
    )
}

/// The stored wallets as every party's reserve.
spec fn reserves_map(wallets: Seq<Wallet>) -> Map<Seq<u8>, nat> {
    Map::new(|who: Seq<u8>| true, |who: Seq<u8>| reserve_in(wallets, who))
}

/// Among keys that are all different, a key is found where it stands.
proof fn lemma_found(keys: Seq<Seq<u8>>, i: int)
    requires
        keys.no_duplicates(),
        0 <= i < keys.len(),
    ensures
        keys.contains(keys[i]),
        keys.index_of(keys[i]) == i,
{
    let j = keys.index_of(keys[i]);
    assert(0 <= j < keys.len() && keys[j] == keys[i]);
}

/// One more amount adds itself to the sum.
proof fn lemma_sum_push(amounts: Seq<nat>, amount: nat)
    ensures
        sum(amounts.push(amount)) == sum(amounts) + amount,
{
    assert(amounts.push(amount).drop_last() =~= amounts);
}

/// Replacing an amount changes the sum by the difference.
proof fn lemma_sum_update(amounts: Seq<nat>, i: int, amount: nat)
    requires
        0 <= i < amounts.len(),
    ensures
        sum(amounts.update(i, amount)) == sum(amounts) - amounts[i] + amount,
    decreases amounts.len(),
{
    if i == amounts.len() - 1 {
        assert(amounts.update(i, amount).drop_last() =~= amounts.drop_last());
    } else {
        lemma_sum_update(amounts.drop_last(), i, amount);
        assert(amounts.update(i, amount).drop_last() =~= amounts.drop_last().update(i, amount));
    }
}

/// Taking an amount out takes it off the sum.
proof fn lemma_sum_remove(amounts: Seq<nat>, i: int)
    requires
        0 <= i < amounts.len(),
    ensures
        sum(amounts.remove(i)) == sum(amounts) - amounts[i],
    decreases amounts.len(),
{
    if i == amounts.len() - 1 {
        assert(amounts.remove(i) =~= amounts.drop_last());
    } else {
        lemma_sum_remove(amounts.drop_last(), i);
        assert(amounts.remove(i).drop_last() =~= amounts.drop_last().remove(i));
        assert(amounts.remove(i).last() == amounts.last());
    }
}

/// Storing an account at a free address files it there and leaves the others.
proof fn lemma_account_added(before: Seq<ValueAccount>, account: ValueAccount)
    requires
        addresses(before).no_duplicates(),
        !addresses(before).contains(account.address@),
    ensures
        addresses(before.push(account)).no_duplicates(),
        accounts_map(before.push(account)) == accounts_map(before).insert(
            account.address@,
            account@,
        ),
        sum(account_reserves(before.push(account))) == sum(account_reserves(before))
            + account.reserve,
{
    let after = before.push(account);
    let last = before.len() as int;
    lemma_sum_push(account_reserves(before), account.reserve as nat);
    assert(account_reserves(after) =~= account_reserves(before).push(account.reserve as nat));
    assert(addresses(after) =~= addresses(before).push(account.address@));
    assert forall|a: int, b: int|
        0 <= a < addresses(after).len() && 0 <= b < addresses(after).len() && a
            != b implies addresses(after)[a] != addresses(after)[b] by {
        if a < last {
            assert(addresses(before)[a] == addresses(after)[a]);
        }
        if b < last {
            assert(addresses(before)[b] == addresses(after)[b]);
        }
    }
    lemma_found(addresses(after), last);
    assert forall|k: Seq<u8>|
        accounts_map(after).contains_key(k) == #[trigger] accounts_map(before).insert(
            account.address@,
            account@,
        ).contains_key(k) by {
        if addresses(before).contains(k) {
            let j = addresses(before).index_of(k);
            assert(addresses(after)[j] == k);
        } else if addresses(after).contains(k) {
            let j = addresses(after).index_of(k);
            assert(addresses(after)[j] == k);
            if j < last {
                assert(addresses(before)[j] == k);
            }
        }
    }
    assert forall|k: Seq<u8>| #[trigger]
        accounts_map(after).contains_key(k) implies accounts_map(after)[k] == accounts_map(
            before,
        ).insert(account.address@, account@)[k] by {
        if k != account.address@ {
            let j = addresses(before).index_of(k);
            assert(addresses(before)[j] == k);
            assert(addresses(after)[j] == k);
            lemma_found(addresses(after), j);
        }
    }
    assert(accounts_map(after) =~= accounts_map(before).insert(account.address@, account@));
}

/// Dropping a stored account removes its address and leaves the others.
proof fn lemma_account_removed(before: Seq<ValueAccount>, i: int)
    requires
        addresses(before).no_duplicates(),
        0 <= i < before.len(),
    ensures
        addresses(before.remove(i)).no_duplicates(),
        accounts_map(before.remove(i)) == accounts_map(before).remove(before[i].address@),
        sum(account_reserves(before.remove(i))) == sum(account_reserves(before))
            - before[i].reserve,
        before[i].reserve <= sum(account_reserves(before)),
{
    let after = before.remove(i);
    let gone = before[i].address@;
    lemma_sum_remove(account_reserves(before), i);
    assert(account_reserves(after) =~= account_reserves(before).remove(i));
    assert(addresses(after) =~= addresses(before).remove(i));
    assert forall|a: int| 0 <= a < after.len() implies #[trigger] addresses(after)[a]
        == addresses(before)[if a < i { a } else { a + 1 }] by {}
    assert forall|a: int, b: int|
        0 <= a < addresses(after).len() && 0 <= b < addresses(after).len() && a
            != b implies addresses(after)[a] != addresses(after)[b] by {}
    assert(addresses(before)[i] == gone);
    assert forall|k: Seq<u8>|
        accounts_map(after).contains_key(k) == #[trigger] accounts_map(before).remove(
            gone,
        ).contains_key(k) by {
        if addresses(after).contains(k) {
            let j = addresses(after).index_of(k);
            assert(addresses(after)[j] == k);
            let j0 = if j < i { j } else { j + 1 };
            assert(addresses(before)[j0] == k);
        } else if addresses(before).contains(k) && k != gone {
            let j0 = addresses(before).index_of(k);
            assert(addresses(before)[j0] == k);
            let j = if j0 < i { j0 } else { j0 - 1 };
            assert(addresses(after)[j] == k);
        }
    }
    assert forall|k: Seq<u8>| #[trigger]
        accounts_map(after).contains_key(k) implies accounts_map(after)[k] == accounts_map(
            before,
        ).remove(gone)[k] by {
        let j = addresses(after).index_of(k);
        assert(addresses(after)[j] == k);
        let j0 = if j < i { j } else { j + 1 };
        assert(addresses(before)[j0] == k);
        lemma_found(addresses(before), j0);
    }
    assert(accounts_map(after) =~= accounts_map(before).remove(gone));
}

/// Where the wallet of `who` is stored, if one is.
fn find_wallet(wallets: &Vec<Wallet>, who: &Identity) -> (found: Option<usize>)
    ensures
        match found {
            Some(i) => i < wallets@.len() && wallets@[i as int].identity@ == who@,
            None => !parties(wallets@).contains(who@),
        },
{
    let mut i: usize = 0;
    while i < wallets.len()
        invariant
            i <= wallets@.len(),
            forall|j: int| 0 <= j < i ==> parties(wallets@)[j] != who@,
        decreases wallets@.len() - i,
    {
        if wallets[i].identity.same(who) {
            return Some(i);
        }
        i += 1;
    }
    None
}

/// Adds `amount` to what `who` can reclaim.
fn credit(wallets: &mut Vec<Wallet>, who: &Identity, amount: u64)
    requires
        parties(old(wallets)@).no_duplicates(),
        sum(wallet_reserves(old(wallets)@)) + amount <= u64::MAX,
    ensures
        parties(final(wallets)@).no_duplicates(),
        sum(wallet_reserves(final(wallets)@)) == sum(wallet_reserves(old(wallets)@)) + amount,
        reserves_map(final(wallets)@) == credited(
            reserves_map(old(wallets)@),
            who@,
            amount as nat,
        ),
{
    let ghost before = wallets@;
    let found = find_wallet(wallets, who);
    match found {
        Some(at) => {
            let wallet = wallets[at];
            proof {
                lemma_sum_remove(wallet_reserves(before), at as int);
                lemma_sum_update(
                    wallet_reserves(before),
                    at as int,
                    (wallet.reserve + amount) as nat,
                );
                assert(parties(before)[at as int] == who@);
                lemma_found(parties(before), at as int);
            }
            wallets.set(at, Wallet { identity: wallet.identity, reserve: wallet.reserve + amount });
            proof {
                assert(parties(wallets@) =~= parties(before));
                assert(wallet_reserves(wallets@) =~= wallet_reserves(before).update(
                    at as int,
                    (wallet.reserve + amount) as nat,
                ));
                assert forall|k: Seq<u8>| #[trigger]
                    reserve_in(wallets@, k) == credited(
                        reserves_map(before),
                        who@,
                        amount as nat,
                    )[k] by {
                    if k != who@ && parties(before).contains(k) {
                        let j = parties(before).index_of(k);
                        assert(parties(before)[j] == k);
                    }
                }
            }
        },
        None => {
            wallets.push(Wallet { identity: *who, reserve: amount });
            proof {
                lemma_sum_push(wallet_reserves(before), amount as nat);
                assert(parties(wallets@) =~= parties(before).push(who@));
                assert(wallet_reserves(wallets@) =~= wallet_reserves(before).push(amount as nat));
                let last = before.len() as int;
                assert(parties(wallets@)[last] == who@);
                assert(parties(wallets@).no_duplicates()) by {
                    assert forall|a: int, b: int|
                        0 <= a < parties(wallets@).len() && 0 <= b < parties(wallets@).len() && a
                            != b implies parties(wallets@)[a] != parties(wallets@)[b] by {
                        if a < last {
                            assert(parties(before)[a] == parties(wallets@)[a]);
                        }
                        if b < last {
                            assert(parties(before)[b] == parties(wallets@)[b]);
                        }
                    }
                }
                lemma_found(parties(wallets@), last);
                assert forall|k: Seq<u8>| #[trigger]
                    reserve_in(wallets@, k) == credited(
                        reserves_map(before),
                        who@,
                        amount as nat,
                    )[k] by {
                    if k != who@ {
                        if parties(before).contains(k) {
                            let j = parties(before).index_of(k);
                            assert(parties(before)[j] == k);
                            assert(parties(wallets@)[j] == k);
                            lemma_found(parties(wallets@), j);
                        } else if parties(wallets@).contains(k) {
                            let j = parties(wallets@).index_of(k);
                            assert(parties(wallets@)[j] == k);
                            assert(j < last);
                            assert(parties(before)[j] == k);
                        }
                    }
                }
            }
        },
    }
    assert(reserves_map(wallets@) =~= credited(reserves_map(before), who@, amount as nat));
}

impl View for Ledger {
    type V = LedgerView;

    closed spec fn view(&self) -> LedgerView {
        LedgerView {
            accounts: accounts_map(self.accounts@),
            reserves: reserves_map(self.wallets@),
        }
    }
}

impl Ledger {
    /// The invariant of a ledger: no address and no party is recorded twice,
    /// and `supply` is the sum of all reserves.
    pub closed spec fn wf(&self) -> bool {
        &&& addresses(self.accounts@).no_duplicates()
        &&& parties(self.wallets@).no_duplicates()
        &&& self.supply as nat == sum(account_reserves(self.accounts@)) + sum(
            wallet_reserves(self.wallets@),
        )
    }

    /// All reserves on the ledger together: those that accounts hold and those
    /// that parties can reclaim.
    pub closed spec fn supply(&self) -> nat {
        self.supply as nat
    }

    /// A valid ledger has a well-formed view, and its supply fits in a `u64`.
    pub proof fn lemma_view_well_formed(&self)
        requires
            self.wf(),
        ensures
            self@.well_formed(),
            self.supply() <= u64::MAX,
    {
        assert forall|address: Seq<u8>| #[trigger]
            self@.accounts.contains_key(address) implies self@.accounts[address].address
            == address by {
            let i = addresses(self.accounts@).index_of(address);
            assert(addresses(self.accounts@)[i] == address);
        }
    }

    /// The empty ledger.
    pub fn new() -> (ledger: Ledger)
        ensures
            ledger.wf(),
            ledger@ == LedgerView::empty(),
            ledger.supply() == 0,
    {
        let ledger = Ledger { accounts: Vec::new(), wallets: Vec::new(), supply: 0 };
        assert(ledger@.accounts =~= LedgerView::empty().accounts);
        assert(ledger@.reserves =~= LedgerView::empty().reserves);
        ledger
    }

    /// Where the account at `address` is stored, if one is.
    fn find_account(&self, address: &Identity) -> (found: Option<usize>)
        ensures
            match found {
                Some(i) => i < self.accounts@.len() && self.accounts@[i as int].address@
                    == address@,
                None => !addresses(self.accounts@).contains(address@),
            },
    {
        let mut i: usize = 0;
        while i < self.accounts.len()
            invariant
                i <= self.accounts@.len(),
                forall|j: int| 0 <= j < i ==> addresses(self.accounts@)[j] != address@,
            decreases self.accounts@.len() - i,
        {
            if self.accounts[i].address.same(address) {
                return Some(i);
            }
            i += 1;
        }
        None
    }

    /// The account at `address`, if there is one.
    pub fn account(&self, address: &Identity) -> (account: Option<ValueAccount>)
        requires
            self.wf(),
        ensures
            account is Some <==> self@.accounts.contains_key(address@),
            account is Some ==> account->Some_0@ == self@.accounts[address@]
                && account->Some_0.address@ == address@,
    {
        match self.find_account(address) {
            Some(i) => {
                proof {
                    assert(addresses(self.accounts@)[i as int] == address@);
                    lemma_found(addresses(self.accounts@), i as int);
                    self.lemma_view_well_formed();
                }
                Some(self.accounts[i])
            },
            None => None,
        }
    }

    /// What `who` can reclaim.
    pub fn reserve_of(&self, who: &Identity) -> (reserve: u64)
        requires
            self.wf(),
        ensures
            reserve == self@.reserves[who@],
    {
        match find_wallet(&self.wallets, who) {
            Some(i) => {
                proof {
                    assert(parties(self.wallets@)[i as int] == who@);
                    lemma_found(parties(self.wallets@), i as int);
                }
                self.wallets[i].reserve
            },
            None => 0,
        }
    }

    /// Pays `amount` into what `who` can reclaim, unless the ledger's supply
    /// would no longer fit in a `u64`; then nothing changes.
    pub fn fund(&mut self, who: &Identity, amount: u64) -> (funded: bool)
        requires
            old(self).wf(),
        ensures
            final(self).wf(),
            funded == (old(self).supply() + amount <= u64::MAX),
            funded ==> final(self)@ == (LedgerView {
                accounts: old(self)@.accounts,
                reserves: credited(old(self)@.reserves, who@, amount as nat),
            }) && final(self).supply() == old(self).supply() + amount,
            !funded ==> final(self)@ == old(self)@ && final(self).supply() == old(self).supply(),
    {
        if amount > u64::MAX - self.supply {
            return false;
        }
        credit(&mut self.wallets, who, amount);
        self.supply = self.supply + amount;
        true
    }

    /// Puts `account` on the ledger, unless its address is taken or the
    /// ledger's supply would no longer fit in a `u64`; then nothing changes.
    pub fn open_account(&mut self, account: ValueAccount) -> (opened: bool)
        requires
            old(self).wf(),
        ensures
            final(self).wf(),
            opened == (!old(self)@.accounts.contains_key(account.address@) && old(self).supply()
                + account.reserve <= u64::MAX),
            opened ==> final(self)@ == (LedgerView {
                accounts: old(self)@.accounts.insert(account.address@, account@),
                reserves: old(self)@.reserves,
            }) && final(self).supply() == old(self).supply() + account.reserve,
            !opened ==> final(self)@ == old(self)@ && final(self).supply() == old(self).supply(),
    {
        if account.reserve > u64::MAX - self.supply {
            return false;
        }
        match self.find_account(&account.address) {
            Some(i) => {
                proof {
                    assert(addresses(self.accounts@)[i as int] == account.address@);
                }
                false
            },
            None => {
                proof {
                    lemma_account_added(self.accounts@, account);
                }
                self.accounts.push(account);
                self.supply = self.supply + account.reserve;
                true
            },
        }
    }

    /// The custody facility's answer to `request`, made with the capability
    /// of `signer`, and its effect on the ledger.
    ///
    /// The facility serves closes only. It rejects one whose account is not on
    /// the ledger, whose account still holds some of its asset, or whose
    /// authority did not sign or is not the account's owner, in this order. An
    /// accepted close removes the account and pays its reserve to the
    /// destination; a rejected one changes nothing.
    pub fn execute(&mut self, request: &CloseRequest, signer: &OwnerIdentity) -> (verdict: Result<
        (),
        CloseFailure,
    >)
        requires
            old(self).wf(),
        ensures
            final(self).wf(),
            verdict == old(self)@.verdict(request@, signer@),
            final(self)@ == old(self)@.after(request@, signer@),
            final(self).supply() == old(self).supply(),
    {
        if !request.is_close() {
            return Err(CloseFailure::FacilityRejected);
        }
        let source = request.slots[0].key;
        let destination = request.slots[1].key;
        let authority = request.slots[2];
        let at: usize = match self.find_account(&source) {
            Some(i) => i,
            None => {
                return Err(CloseFailure::AccountNotFound);
            },
        };
        let account = self.accounts[at];
        proof {
            assert(addresses(self.accounts@)[at as int] == source@);
            lemma_found(addresses(self.accounts@), at as int);
            lemma_account_removed(self.accounts@, at as int);
        }
        if account.balance != 0 {
            return Err(CloseFailure::BalanceNotZero);
        }
        if !authority.is_signer || !authority.key.same(&signer.key()) || !authority.key.same(
            &account.owner,
        ) {
            return Err(CloseFailure::SignatureRejected);
        }
        self.accounts.remove(at);
        credit(&mut self.wallets, &destination, account.reserve);
        Ok(())
    }

    /// All reserves on the ledger together.
    pub fn total_supply(&self) -> (supply: u64)
        ensures
            supply == self.supply(),
    {
        self.supply
    }
}

} // verus!
