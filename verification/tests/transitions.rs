use time_locked_wallet::ErrorCode;
use time_locked_wallet::Identity;
use time_locked_wallet::InitializeLock;
use time_locked_wallet::LockLedger;
use time_locked_wallet::STORAGE_DEPOSIT;
use time_locked_wallet::Withdraw;

fn ident(b: u8) -> Identity {
    Identity { bytes: [b; 32] }
}

fn scenario_a_ledger() -> (LockLedger, u64) {
    let mut ledger = LockLedger::new();
    let mut ctx = InitializeLock { owner: ident(1), owner_lamports: 10_000_000 };
    let r = ledger.initialize_lock(&mut ctx, 1000, 4600, 1000);
    assert_eq!(r, Ok(()));
    (ledger, ctx.owner_lamports)
}

#[test]
fn create_at_1000_locks_until_4600() {
    let (ledger, balance) = scenario_a_ledger();
    assert_eq!(ledger.records.len(), 1);
    let rec = &ledger.records[0];
    assert_eq!(rec.wallet.owner.bytes, [1u8; 32]);
    assert_eq!(rec.wallet.amount, 1000);
    assert_eq!(rec.wallet.unlock_timestamp, 4600);
    assert_eq!(rec.wallet.created_at, 1000);
    assert_eq!(rec.lamports, 1000 + STORAGE_DEPOSIT);
    assert_eq!(balance, 10_000_000 - 1000 - STORAGE_DEPOSIT);
}

#[test]
fn release_before_unlock_fails_and_changes_nothing() {
    let (mut ledger, balance) = scenario_a_ledger();
    let mut ctx = Withdraw { owner: ident(1), owner_lamports: balance };
    let r = ledger.withdraw(&mut ctx, 4000);
    assert_eq!(r, Err(ErrorCode::FundsStillLocked));
    assert_eq!(ledger.records.len(), 1);
    assert_eq!(ledger.records[0].wallet.amount, 1000);
    assert_eq!(ctx.owner_lamports, balance);
}

#[test]
fn release_at_unlock_instant_returns_amount_and_deposit() {
    let (mut ledger, balance) = scenario_a_ledger();
    let mut ctx = Withdraw { owner: ident(1), owner_lamports: balance };
    let r = ledger.withdraw(&mut ctx, 4600);
    assert_eq!(r, Ok(()));
    assert_eq!(ctx.owner_lamports, balance + 1000 + STORAGE_DEPOSIT);
    assert_eq!(ctx.owner_lamports, 10_000_000);
    assert_eq!(ledger.records.len(), 0);
}

#[test]
fn create_with_zero_amount_fails() {
    let mut ledger = LockLedger::new();
    let mut ctx = InitializeLock { owner: ident(1), owner_lamports: 10_000_000 };
    let r = ledger.initialize_lock(&mut ctx, 0, 1010, 1000);
    assert_eq!(r, Err(ErrorCode::InvalidAmount));
    assert_eq!(ledger.records.len(), 0);
    assert_eq!(ctx.owner_lamports, 10_000_000);
}

#[test]
fn create_with_past_unlock_fails() {
    let mut ledger = LockLedger::new();
    let mut ctx = InitializeLock { owner: ident(1), owner_lamports: 10_000_000 };
    let r = ledger.initialize_lock(&mut ctx, 5, 999, 1000);
    assert_eq!(r, Err(ErrorCode::InvalidUnlockTime));
    assert_eq!(ledger.records.len(), 0);
    assert_eq!(ctx.owner_lamports, 10_000_000);
}

#[test]
fn create_with_unlock_equal_to_now_fails() {
    let mut ledger = LockLedger::new();
    let mut ctx = InitializeLock { owner: ident(1), owner_lamports: 10_000_000 };
    let r = ledger.initialize_lock(&mut ctx, 5, 1000, 1000);
    assert_eq!(r, Err(ErrorCode::InvalidUnlockTime));
}

#[test]
fn create_beyond_balance_fails() {
    let mut ledger = LockLedger::new();
    // The balance covers the amount but not the storage deposit on top.
    let mut ctx = InitializeLock { owner: ident(1), owner_lamports: 1000 + STORAGE_DEPOSIT - 1 };
    let r = ledger.initialize_lock(&mut ctx, 1000, 4600, 1000);
    assert_eq!(r, Err(ErrorCode::InsufficientBalance));
    assert_eq!(ledger.records.len(), 0);
    assert_eq!(ctx.owner_lamports, 1000 + STORAGE_DEPOSIT - 1);
}

#[test]
fn create_with_exactly_sufficient_balance_succeeds() {
    let mut ledger = LockLedger::new();
    let mut ctx = InitializeLock { owner: ident(1), owner_lamports: 1000 + STORAGE_DEPOSIT };
    let r = ledger.initialize_lock(&mut ctx, 1000, 4600, 1000);
    assert_eq!(r, Ok(()));
    assert_eq!(ctx.owner_lamports, 0);
    assert_eq!(ledger.records[0].lamports, 1000 + STORAGE_DEPOSIT);
}

#[test]
fn create_over_existing_record_fails() {
    let (mut ledger, balance) = scenario_a_ledger();
    let mut ctx = InitializeLock { owner: ident(1), owner_lamports: balance };
    let r = ledger.initialize_lock(&mut ctx, 500, 9000, 2000);
    assert_eq!(r, Err(ErrorCode::NotFound));
    assert_eq!(ledger.records.len(), 1);
    assert_eq!(ledger.records[0].wallet.amount, 1000);
    assert_eq!(ctx.owner_lamports, balance);
}

#[test]
fn second_release_by_same_owner_fails_not_found() {
    let (mut ledger, balance) = scenario_a_ledger();
    let mut ctx = Withdraw { owner: ident(1), owner_lamports: balance };
    assert_eq!(ledger.withdraw(&mut ctx, 4600), Ok(()));
    let r = ledger.withdraw(&mut ctx, 5000);
    assert_eq!(r, Err(ErrorCode::NotFound));
    assert_eq!(ctx.owner_lamports, 10_000_000);
}

#[test]
fn release_by_stranger_fails_and_leaves_lock_untouched() {
    let (mut ledger, _) = scenario_a_ledger();
    let mut ctx = Withdraw { owner: ident(2), owner_lamports: 777 };
    let r = ledger.withdraw(&mut ctx, 9_999);
    assert_eq!(r, Err(ErrorCode::NotFound));
    assert_eq!(ctx.owner_lamports, 777);
    assert_eq!(ledger.records.len(), 1);
    assert_eq!(ledger.records[0].wallet.owner.bytes, [1u8; 32]);
    assert_eq!(ledger.records[0].wallet.amount, 1000);
}

#[test]
fn locks_of_two_owners_live_side_by_side() {
    let mut ledger = LockLedger::new();
    let mut ctx_a = InitializeLock { owner: ident(1), owner_lamports: 10_000_000 };
    let mut ctx_b = InitializeLock { owner: ident(2), owner_lamports: 20_000_000 };
    assert_eq!(ledger.initialize_lock(&mut ctx_a, 1000, 4600, 1000), Ok(()));
    assert_eq!(ledger.initialize_lock(&mut ctx_b, 3000, 5000, 1200), Ok(()));
    assert_eq!(ledger.records.len(), 2);
    // Releasing one lock leaves the other exactly as created.
    let mut w_a = Withdraw { owner: ident(1), owner_lamports: ctx_a.owner_lamports };
    assert_eq!(ledger.withdraw(&mut w_a, 4600), Ok(()));
    assert_eq!(w_a.owner_lamports, 10_000_000);
    assert_eq!(ledger.records.len(), 1);
    assert_eq!(ledger.records[0].wallet.owner.bytes, [2u8; 32]);
    assert_eq!(ledger.records[0].wallet.amount, 3000);
    assert_eq!(ledger.records[0].lamports, 3000 + STORAGE_DEPOSIT);
}

#[test]
fn conservation_across_create_and_release() {
    let mut ledger = LockLedger::new();
    let mut ctx = InitializeLock { owner: ident(9), owner_lamports: 5_000_000 };
    assert_eq!(ledger.initialize_lock(&mut ctx, 42, 2000, 1500), Ok(()));
    let escrowed = ledger.records[0].lamports;
    assert_eq!(ctx.owner_lamports as u128 + escrowed as u128, 5_000_000);
    let mut w = Withdraw { owner: ident(9), owner_lamports: ctx.owner_lamports };
    assert_eq!(ledger.withdraw(&mut w, 2000), Ok(()));
    assert_eq!(w.owner_lamports, 5_000_000);
}

#[test]
fn lookup_finds_the_live_record_and_only_it() {
    let (ledger, _) = scenario_a_ledger();
    let found = ledger.lookup(&ident(1));
    assert!(found.is_some());
    assert_eq!(found.unwrap().wallet.unlock_timestamp, 4600);
    assert!(ledger.lookup(&ident(3)).is_none());
}
