use auto_swap::{
    close, swap_and_close, validate, CloseFailure, Identity, Ledger, OwnerIdentity, SwapAndClose,
    SwapError, ValueAccount,
};

fn id(byte: u8) -> Identity {
    Identity::new([byte; 32])
}

fn account(address: u8, owner: u8, balance: u64, reserve: u64) -> ValueAccount {
    ValueAccount { address: id(address), owner: id(owner), asset: id(200), balance, reserve }
}

fn context(token_account: ValueAccount, signer: u8) -> SwapAndClose {
    SwapAndClose {
        token_account,
        owner: OwnerIdentity::authenticated(id(signer)),
        system_program: Identity::system_program(),
        token_program: Identity::custody_program(),
    }
}

#[test]
fn owner_closes_empty_account() {
    let a = account(1, 2, 0, 2_039_280);
    let mut ledger = Ledger::new();
    assert!(ledger.fund(&id(2), 1_000));
    assert!(ledger.open_account(a));

    assert_eq!(swap_and_close(&context(a, 2), &mut ledger), Ok(()));

    assert_eq!(ledger.account(&id(1)), None);
    assert_eq!(ledger.reserve_of(&id(2)), 1_000 + 2_039_280);
}

#[test]
fn foreign_signer_is_unauthorized() {
    let a = account(1, 2, 0, 2_039_280);
    let mut ledger = Ledger::new();
    assert!(ledger.open_account(a));

    assert_eq!(swap_and_close(&context(a, 3), &mut ledger), Err(SwapError::Unauthorized));

    assert_eq!(ledger.account(&id(1)), Some(a));
    assert_eq!(ledger.reserve_of(&id(2)), 0);
    assert_eq!(ledger.reserve_of(&id(3)), 0);
}

#[test]
fn account_with_balance_is_not_closed() {
    let a = account(1, 2, 5, 2_039_280);
    let mut ledger = Ledger::new();
    assert!(ledger.open_account(a));

    assert_eq!(
        swap_and_close(&context(a, 2), &mut ledger),
        Err(SwapError::CloseFailure(CloseFailure::BalanceNotZero))
    );

    let kept = ledger.account(&id(1)).unwrap();
    assert_eq!(kept, a);
    assert_eq!(kept.balance, 5);
    assert_eq!(ledger.reserve_of(&id(2)), 0);
}

#[test]
fn second_invocation_finds_no_account() {
    let a = account(1, 2, 0, 500);
    let mut ledger = Ledger::new();
    assert!(ledger.open_account(a));
    let ctx = context(a, 2);

    assert_eq!(swap_and_close(&ctx, &mut ledger), Ok(()));
    assert_eq!(
        swap_and_close(&ctx, &mut ledger),
        Err(SwapError::CloseFailure(CloseFailure::AccountNotFound))
    );

    assert_eq!(ledger.account(&id(1)), None);
    assert_eq!(ledger.reserve_of(&id(2)), 500);
    assert_eq!(ledger.total_supply(), 500);
}

#[test]
fn success_touches_nothing_else() {
    let a = account(1, 2, 0, 700);
    let b = account(4, 2, 9, 300);
    let c = account(5, 6, 0, 40);
    let mut ledger = Ledger::new();
    assert!(ledger.open_account(a));
    assert!(ledger.open_account(b));
    assert!(ledger.open_account(c));
    assert!(ledger.fund(&id(6), 11));
    assert!(ledger.fund(&id(2), 5));
    let supply = ledger.total_supply();
    assert_eq!(supply, 700 + 300 + 40 + 11 + 5);

    assert_eq!(swap_and_close(&context(a, 2), &mut ledger), Ok(()));

    assert_eq!(ledger.account(&id(1)), None);
    assert_eq!(ledger.account(&id(4)), Some(b));
    assert_eq!(ledger.account(&id(5)), Some(c));
    assert_eq!(ledger.reserve_of(&id(2)), 705);
    assert_eq!(ledger.reserve_of(&id(6)), 11);
    assert_eq!(ledger.total_supply(), supply);
}

#[test]
fn closing_the_middle_account_keeps_its_neighbours() {
    let a = account(1, 9, 0, 1);
    let b = account(2, 9, 0, 2);
    let c = account(3, 9, 0, 4);
    let mut ledger = Ledger::new();
    assert!(ledger.open_account(a));
    assert!(ledger.open_account(b));
    assert!(ledger.open_account(c));

    assert_eq!(swap_and_close(&context(b, 9), &mut ledger), Ok(()));
    assert_eq!(ledger.account(&id(1)), Some(a));
    assert_eq!(ledger.account(&id(2)), None);
    assert_eq!(ledger.account(&id(3)), Some(c));
    assert_eq!(ledger.reserve_of(&id(9)), 2);

    assert_eq!(swap_and_close(&context(c, 9), &mut ledger), Ok(()));
    assert_eq!(swap_and_close(&context(a, 9), &mut ledger), Ok(()));
    assert_eq!(ledger.reserve_of(&id(9)), 7);
    assert_eq!(ledger.total_supply(), 7);
}

#[test]
fn unauthorized_comes_before_any_close_failure() {
    let a = account(1, 2, 5, 10);
    let mut ledger = Ledger::new();
    assert!(ledger.open_account(a));
    let mut ctx = context(a, 3);
    ctx.token_program = id(77);

    assert_eq!(swap_and_close(&ctx, &mut ledger), Err(SwapError::Unauthorized));
    assert_eq!(ledger.account(&id(1)), Some(a));
}

#[test]
fn close_stage_fails_on_balance_without_validation() {
    let a = account(1, 2, 1, 10);
    let mut ledger = Ledger::new();
    assert!(ledger.open_account(a));

    assert_eq!(
        close(&context(a, 2), &mut ledger),
        Err(SwapError::CloseFailure(CloseFailure::BalanceNotZero))
    );
    assert_eq!(ledger.account(&id(1)), Some(a));
    assert_eq!(ledger.total_supply(), 10);
}

#[test]
fn close_stage_rejects_a_signer_who_is_not_the_owner() {
    let a = account(1, 2, 0, 10);
    let mut ledger = Ledger::new();
    assert!(ledger.open_account(a));

    assert_eq!(
        close(&context(a, 3), &mut ledger),
        Err(SwapError::CloseFailure(CloseFailure::SignatureRejected))
    );
    assert_eq!(ledger.account(&id(1)), Some(a));
    assert_eq!(ledger.reserve_of(&id(3)), 0);
}

#[test]
fn stale_owner_in_context_is_rejected_by_the_facility() {
    let recorded = account(1, 2, 0, 10);
    let mut ledger = Ledger::new();
    assert!(ledger.open_account(recorded));
    let stale = account(1, 3, 0, 10);

    assert_eq!(
        swap_and_close(&context(stale, 3), &mut ledger),
        Err(SwapError::CloseFailure(CloseFailure::SignatureRejected))
    );
    assert_eq!(ledger.account(&id(1)), Some(recorded));
}

#[test]
fn balance_is_reported_before_signature() {
    let recorded = account(1, 2, 8, 10);
    let mut ledger = Ledger::new();
    assert!(ledger.open_account(recorded));

    assert_eq!(
        close(&context(recorded, 3), &mut ledger),
        Err(SwapError::CloseFailure(CloseFailure::BalanceNotZero))
    );
}

#[test]
fn account_that_never_existed_is_not_found() {
    let mut ledger = Ledger::new();
    assert_eq!(
        swap_and_close(&context(account(1, 2, 0, 10), 2), &mut ledger),
        Err(SwapError::CloseFailure(CloseFailure::AccountNotFound))
    );
    assert_eq!(ledger.total_supply(), 0);
}

#[test]
fn wrong_custody_handle_is_rejected() {
    let a = account(1, 2, 0, 10);
    let mut ledger = Ledger::new();
    assert!(ledger.open_account(a));
    let mut ctx = context(a, 2);
    ctx.token_program = Identity::system_program();

    assert!(!ctx.check_shape());
    assert_eq!(
        swap_and_close(&ctx, &mut ledger),
        Err(SwapError::CloseFailure(CloseFailure::FacilityRejected))
    );
    assert_eq!(ledger.account(&id(1)), Some(a));
}

#[test]
fn account_with_no_reserve_closes_and_pays_nothing() {
    let a = account(1, 2, 0, 0);
    let mut ledger = Ledger::new();
    assert!(ledger.open_account(a));

    assert_eq!(swap_and_close(&context(a, 2), &mut ledger), Ok(()));
    assert_eq!(ledger.account(&id(1)), None);
    assert_eq!(ledger.reserve_of(&id(2)), 0);
}

#[test]
fn owner_may_share_the_address_of_its_account() {
    let a = account(7, 7, 0, 33);
    let mut ledger = Ledger::new();
    assert!(ledger.open_account(a));

    assert_eq!(swap_and_close(&context(a, 7), &mut ledger), Ok(()));
    assert_eq!(ledger.account(&id(7)), None);
    assert_eq!(ledger.reserve_of(&id(7)), 33);
}

#[test]
fn largest_reserve_is_paid_in_full() {
    let a = account(1, 2, 0, u64::MAX);
    let mut ledger = Ledger::new();
    assert!(ledger.open_account(a));

    assert_eq!(swap_and_close(&context(a, 2), &mut ledger), Ok(()));
    assert_eq!(ledger.reserve_of(&id(2)), u64::MAX);
    assert_eq!(ledger.total_supply(), u64::MAX);
}

#[test]
fn validate_accepts_the_owner() {
    assert_eq!(validate(&context(account(1, 2, 0, 0), 2)), Ok(()));
}

#[test]
fn validate_refuses_anyone_else() {
    assert_eq!(validate(&context(account(1, 2, 0, 0), 1)), Err(SwapError::Unauthorized));
}

#[test]
fn validate_compares_every_byte() {
    let mut owner = [2u8; 32];
    let a = ValueAccount {
        address: id(1),
        owner: Identity::new(owner),
        asset: id(200),
        balance: 0,
        reserve: 0,
    };
    owner[31] = 3;
    let ctx = SwapAndClose {
        token_account: a,
        owner: OwnerIdentity::authenticated(Identity::new(owner)),
        system_program: Identity::system_program(),
        token_program: Identity::custody_program(),
    };
    assert_eq!(validate(&ctx), Err(SwapError::Unauthorized));
}

#[test]
fn validate_ignores_balance_and_handles() {
    let mut ctx = context(account(1, 2, 99, 0), 2);
    ctx.token_program = id(0);
    ctx.system_program = id(1);
    assert_eq!(validate(&ctx), Ok(()));
}

#[test]
fn check_shape_wants_both_handles() {
    let good = context(account(1, 2, 0, 0), 2);
    assert!(good.check_shape());

    let mut wrong_system = good;
    wrong_system.system_program = id(1);
    assert!(!wrong_system.check_shape());

    let mut wrong_custody = good;
    wrong_custody.token_program = id(1);
    assert!(!wrong_custody.check_shape());
}

#[test]
fn signer_reports_its_identity() {
    assert_eq!(OwnerIdentity::authenticated(id(4)).key(), id(4));
    assert_eq!(account(1, 2, 0, 0).key(), id(1));
}
