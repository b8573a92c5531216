//! The laws the transitions obey, stated and proved once for all inputs.
//!
//! Each law is a proof function over the transition outcomes that the
//! executable transitions are specified against, so what is proved here
//! holds of every run of `initialize_lock` and `withdraw`.

use vstd::prelude::*;
use crate::ledger::LockLedger;
use crate::ledger::STORAGE_DEPOSIT;
use crate::wallet::ErrorCode;

verus! {

/// An empty ledger holds no record for any owner.
pub proof fn law_empty_ledger_has_no_record(l: LockLedger, owner: Seq<u8>)
    requires
        l.records@.len() == 0,
    ensures
        !l.has_record(owner),
{
}

/// Amount positivity: with the caller's address free and a future unlock
/// instant, creation of an empty escrow fails with `InvalidAmount`, and
/// creation of any positive escrow within the caller's balance succeeds.
pub proof fn law_amount_positivity(
    l: LockLedger,
    owner: Seq<u8>,
    balance: u64,
    amount: u64,
    unlock_timestamp: i64,
    now: i64,
)
    requires
        !l.has_record(owner),
        unlock_timestamp > now,
    ensures
        amount == 0 ==> l.create_outcome(owner, balance, amount, unlock_timestamp, now)
            == Err::<(), ErrorCode>(ErrorCode::InvalidAmount),
        amount > 0 && balance >= amount + STORAGE_DEPOSIT
            ==> l.create_outcome(owner, balance, amount, unlock_timestamp, now)
                == Ok::<(), ErrorCode>(()),
{
}

/// Future lock: with the caller's address free, creation fails with
/// `InvalidUnlockTime` for every unlock instant at or before the clock —
/// equality included — and succeeds for every strictly future instant,
/// given a positive amount within the caller's balance.
pub proof fn law_future_lock(
    l: LockLedger,
    owner: Seq<u8>,
    balance: u64,
    amount: u64,
    unlock_timestamp: i64,
    now: i64,
)
    requires
        !l.has_record(owner),
    ensures
        unlock_timestamp <= now ==> l.create_outcome(owner, balance, amount, unlock_timestamp, now)
            == Err::<(), ErrorCode>(ErrorCode::InvalidUnlockTime),
        unlock_timestamp > now && amount > 0 && balance >= amount + STORAGE_DEPOSIT
            ==> l.create_outcome(owner, balance, amount, unlock_timestamp, now)
                == Ok::<(), ErrorCode>(()),
{
}

/// Lock enforcement: while the caller's record lives, release fails with
/// `FundsStillLocked` at every instant strictly before the unlock instant
/// and succeeds at the unlock instant and ever after.
pub proof fn law_lock_enforcement(l: LockLedger, owner: Seq<u8>, now: i64)
    requires
        l.has_record(owner),
    ensures
        now < l.record_of(owner).wallet.unlock_timestamp
            ==> l.withdraw_outcome(owner, now) == Err::<(), ErrorCode>(ErrorCode::FundsStillLocked),
        now >= l.record_of(owner).wallet.unlock_timestamp
            ==> l.withdraw_outcome(owner, now) == Ok::<(), ErrorCode>(()),
{
}

/// Single use: a successful release leaves the owner without a record —
/// `withdraw` ensures exactly that — and against a ledger without a record
/// for the owner every further release fails with `NotFound`, at every
/// later instant.
pub proof fn law_single_use(l: LockLedger, owner: Seq<u8>, now: i64)
    requires
        !l.has_record(owner),
    ensures
        l.withdraw_outcome(owner, now) == Err::<(), ErrorCode>(ErrorCode::NotFound),
{
}

/// Ownership: a caller distinct from the record's owner resolves its own
/// derived address, where no record lives, so its release fails with
/// `NotFound`; and `withdraw` ensures that a failed release moves no
/// balance and that a record of any other owner is never touched.
pub proof fn law_ownership(l: LockLedger, owner: Seq<u8>, stranger: Seq<u8>, now: i64)
    requires
        l.has_record(owner),
        stranger != owner,
        !l.has_record(stranger),
    ensures
        l.withdraw_outcome(stranger, now) == Err::<(), ErrorCode>(ErrorCode::NotFound),
{
}

/// Conservation: across a creation the caller's spendable balance drops by
/// exactly what the new record escrows — the amount plus the storage
/// deposit — and across a release it rises by exactly what the record
/// escrowed.  The sum of spendable balance and escrowed balance is the
/// clause `final(ctx).owner_lamports + final(self).escrowed_of(..) ==
/// old(ctx).owner_lamports + old(self).escrowed_of(..)` in the contracts of
/// both transitions; this law restates the bookkeeping it rests on: an
/// owner with no record escrows nothing, and a record escrows everything it
/// holds.
pub proof fn law_conservation(l: LockLedger, owner: Seq<u8>)
    ensures
        !l.has_record(owner) ==> l.escrowed_of(owner) == 0,
        l.has_record(owner) ==> l.escrowed_of(owner) == l.record_of(owner).lamports,
{
}

} // verus!
