//! The lock ledger and its two transitions.

use vstd::prelude::*;
use crate::identity::Identity;
use crate::identity::derive_tag;
use crate::identity::identities_equal;
use crate::identity::spec_derive_tag;
use crate::wallet::ErrorCode;
use crate::wallet::TimeLockedWallet;

verus! {

/// The fixed storage deposit a creator pays for the record's allocation.
/// It is escrowed beside the locked amount and refunded in full at release.
pub const STORAGE_DEPOSIT: u64 = 1000000;

/// A live record together with the value it holds in escrow: the locked
/// amount plus the storage deposit.
#[derive(Clone, Copy, Debug)]
pub struct LockRecord {
    pub wallet: TimeLockedWallet,
    /// Everything the record holds, refunded in full at release.
    pub lamports: u64,
}

impl LockRecord {
    /// A live record is well formed and holds exactly its amount plus the
    /// storage deposit.
    pub open spec fn well_formed(self) -> bool {
        &&& self.wallet.well_formed()
        &&& self.lamports == self.wallet.amount + STORAGE_DEPOSIT
    }
}

/// The durable state the transitions act on: the live lock records, at most
/// one per owner identity.
#[derive(Debug)]
pub struct LockLedger {
    pub records: Vec<LockRecord>,
}

/// The caller-side context of a creation: the authenticated identity that
/// will fund and own the lock, and its spendable balance.
#[derive(Clone, Copy, Debug)]
pub struct InitializeLock {
    pub owner: Identity,
    pub owner_lamports: u64,
}

/// The caller-side context of a release: the identity claiming the lock,
/// and its spendable balance.
#[derive(Clone, Copy, Debug)]
pub struct Withdraw {
    pub owner: Identity,
    pub owner_lamports: u64,
}

impl LockLedger {
    /// The owner bytes of the record at index `i`.
    pub open spec fn owner_at(self, i: int) -> Seq<u8> {
        self.records@[i].wallet.owner@
    }

    /// Whether a live record exists for `owner`.
    pub open spec fn has_record(self, owner: Seq<u8>) -> bool {
        exists|i: int| 0 <= i < self.records@.len() && #[trigger] self.owner_at(i) == owner
    }

    /// The live record for `owner`; meaningful only when `has_record` holds.
    pub open spec fn record_of(self, owner: Seq<u8>) -> LockRecord {
        self.records@[choose|i: int|
            0 <= i < self.records@.len() && #[trigger] self.owner_at(i) == owner]
    }

    /// The value escrowed for `owner`: everything its record holds, or
    /// nothing when no record exists.
    pub open spec fn escrowed_of(self, owner: Seq<u8>) -> int {
        if self.has_record(owner) {
            self.record_of(owner).lamports as int
        } else {
            0
        }
    }

    /// The ledger's invariant: every record is well formed, and no two
    /// records share an owner.
    pub open spec fn well_formed(self) -> bool {
        &&& forall|i: int|
            0 <= i < self.records@.len() ==> (#[trigger] self.records@[i]).well_formed()
        &&& forall|i: int, j: int|
            0 <= i < j < self.records@.len() ==> #[trigger] self.owner_at(i) != #[trigger] self.owner_at(j)
    }

    /// An empty ledger: no lock exists yet.
    pub fn new() -> (r: LockLedger)
        ensures
            r.well_formed(),
            r.records@.len() == 0,
    {
        LockLedger { records: Vec::new() }
    }
}

impl LockLedger {
    /// Finds the index of the caller's record, if one exists: address
    /// resolution against the ledger.
    fn find_index(&self, owner: &Identity) -> (r: Option<usize>)
        ensures
            match r {
                Some(i) => 0 <= i < self.records@.len() && self.owner_at(i as int) == owner@,
                None => !self.has_record(owner@),
            },
    {
        let n = self.records.len();
        let mut i: usize = 0;
        while i < n
            invariant
                n == self.records@.len(),
                0 <= i <= n,
                forall|j: int| 0 <= j < i ==> #[trigger] self.owner_at(j) != owner@,
            decreases n - i,
        {
            if identities_equal(&self.records[i].wallet.owner, owner) {
                return Some(i);
            }
            i += 1;
        }
        None
    }

    /// Looks up the live record for `owner`, if any.
    pub fn lookup(&self, owner: &Identity) -> (r: Option<&LockRecord>)
        requires
            self.well_formed(),
        ensures
            match r {
                Some(rec) => self.has_record(owner@) && *rec == self.record_of(owner@),
                None => !self.has_record(owner@),
            },
    {
        match self.find_index(owner) {
            Some(i) => {
                proof {
                    lemma_record_at_index(*self, i as int, owner@);
                }
                Some(&self.records[i])
            }
            None => None,
        }
    }
}

impl LockLedger {
    /// What a creation request answers, as a function of the ledger, the
    /// caller, its balance and the clock.  The checks run in order and the
    /// first failure wins: address occupied, unlock instant not in the
    /// future, empty amount, balance too small for amount plus deposit.
    pub open spec fn create_outcome(
        self,
        owner: Seq<u8>,
        balance: u64,
        amount: u64,
        unlock_timestamp: i64,
        now: i64,
    ) -> Result<(), ErrorCode> {
        if self.has_record(owner) {
            Err(ErrorCode::NotFound)
        } else if unlock_timestamp <= now {
            Err(ErrorCode::InvalidUnlockTime)
        } else if amount == 0 {
            Err(ErrorCode::InvalidAmount)
        } else if balance < amount + STORAGE_DEPOSIT {
            Err(ErrorCode::InsufficientBalance)
        } else {
            Ok(())
        }
    }

    /// What a release request answers: no record at the caller's derived
    /// address, funds still locked, or success at or after the unlock
    /// instant.
    pub open spec fn withdraw_outcome(self, caller: Seq<u8>, now: i64) -> Result<(), ErrorCode> {
        if !self.has_record(caller) {
            Err(ErrorCode::NotFound)
        } else if now < self.record_of(caller).wallet.unlock_timestamp {
            Err(ErrorCode::FundsStillLocked)
        } else {
            Ok(())
        }
    }

    /// Creates the caller's lock: validates the request against the clock
    /// and the caller's balance, then — in one atomic step — moves the
    /// amount and the storage deposit out of the caller's spendable balance
    /// and into a fresh record owned by the caller.  A refused request
    /// changes nothing.  The sum of the caller's spendable balance and the
    /// caller's escrowed balance is conserved.
    pub fn initialize_lock(
        &mut self,
        ctx: &mut InitializeLock,
        amount: u64,
        unlock_timestamp: i64,
        now: i64,
    ) -> (r: Result<(), ErrorCode>)
        requires
            old(self).well_formed(),
        ensures
            final(self).well_formed(),
            r == old(self).create_outcome(
                old(ctx).owner@, old(ctx).owner_lamports, amount, unlock_timestamp, now),
            final(ctx).owner@ == old(ctx).owner@,
            r is Err ==> *final(self) == *old(self) && *final(ctx) == *old(ctx),
            r is Ok ==> {
                &&& final(ctx).owner_lamports ==
                    old(ctx).owner_lamports - amount - STORAGE_DEPOSIT
                &&& final(self).has_record(old(ctx).owner@)
                &&& final(self).record_of(old(ctx).owner@).wallet.owner@ == old(ctx).owner@
                &&& final(self).record_of(old(ctx).owner@).wallet.amount == amount
                &&& final(self).record_of(old(ctx).owner@).wallet.unlock_timestamp
                    == unlock_timestamp
                &&& final(self).record_of(old(ctx).owner@).wallet.created_at == now
                &&& final(self).record_of(old(ctx).owner@).wallet.bump
                    == spec_derive_tag(old(ctx).owner@)
                &&& final(self).record_of(old(ctx).owner@).lamports == amount + STORAGE_DEPOSIT
            },
            forall|o: Seq<u8>|
                o != old(ctx).owner@ ==> #[trigger] final(self).has_record(o)
                    == old(self).has_record(o),
            forall|o: Seq<u8>|
                o != old(ctx).owner@ && old(self).has_record(o)
                    ==> #[trigger] final(self).record_of(o) == old(self).record_of(o),
            final(ctx).owner_lamports + final(self).escrowed_of(old(ctx).owner@)
                == old(ctx).owner_lamports + old(self).escrowed_of(old(ctx).owner@),
    {
        if let Some(_) = self.find_index(&ctx.owner) {
            return Err(ErrorCode::NotFound);
        }
        if unlock_timestamp <= now {
            return Err(ErrorCode::InvalidUnlockTime);
        }
        if amount == 0 {
            return Err(ErrorCode::InvalidAmount);
        }
        if ctx.owner_lamports < amount || ctx.owner_lamports - amount < STORAGE_DEPOSIT {
            return Err(ErrorCode::InsufficientBalance);
        }
        let bump = derive_tag(&ctx.owner);
        let wallet = TimeLockedWallet {
            owner: ctx.owner,
            amount,
            unlock_timestamp,
            bump,
            created_at: now,
        };
        let record = LockRecord { wallet, lamports: amount + STORAGE_DEPOSIT };
        ctx.owner_lamports = ctx.owner_lamports - amount - STORAGE_DEPOSIT;
        let ghost before = *self;
        self.records.push(record);
        proof {
            lemma_push_preserves(before, *self, record, ctx.owner@);
        }
        Ok(())
    }

    /// Releases the caller's lock: resolves the caller's derived address,
    /// re-verifies the stored derivation tag, and once the unlock instant
    /// has passed moves everything the record holds — amount and deposit —
    /// back into the caller's spendable balance and deletes the record, all
    /// in one atomic step.  A refused request changes nothing.  The sum of
    /// the caller's spendable balance and the caller's escrowed balance is
    /// conserved.
    pub fn withdraw(&mut self, ctx: &mut Withdraw, now: i64) -> (r: Result<(), ErrorCode>)
        requires
            old(self).well_formed(),
            old(ctx).owner_lamports + old(self).escrowed_of(old(ctx).owner@) <= u64::MAX,
        ensures
            final(self).well_formed(),
            r == old(self).withdraw_outcome(old(ctx).owner@, now),
            final(ctx).owner@ == old(ctx).owner@,
            r is Err ==> *final(self) == *old(self) && *final(ctx) == *old(ctx),
            r is Ok ==> {
                &&& !final(self).has_record(old(ctx).owner@)
                &&& final(ctx).owner_lamports ==
                    old(ctx).owner_lamports + old(self).escrowed_of(old(ctx).owner@)
            },
            forall|o: Seq<u8>|
                o != old(ctx).owner@ ==> #[trigger] final(self).has_record(o)
                    == old(self).has_record(o),
            forall|o: Seq<u8>|
                o != old(ctx).owner@ && old(self).has_record(o)
                    ==> #[trigger] final(self).record_of(o) == old(self).record_of(o),
            final(ctx).owner_lamports + final(self).escrowed_of(old(ctx).owner@)
                == old(ctx).owner_lamports + old(self).escrowed_of(old(ctx).owner@),
    {
        let at = match self.find_index(&ctx.owner) {
            Some(at) => at,
            None => {
                return Err(ErrorCode::NotFound);
            }
        };
        proof {
            lemma_record_at_index(*self, at as int, ctx.owner@);
        }
        // Defense in depth: the stored derivation tag must re-derive from
        // the claiming identity.  Under the ledger invariant a mismatch is
        // impossible.
        if self.records[at].wallet.bump != derive_tag(&ctx.owner) {
            proof {
                assert(false);
            }
            return Err(ErrorCode::Unauthorized);
        }
        if now < self.records[at].wallet.unlock_timestamp {
            return Err(ErrorCode::FundsStillLocked);
        }
        let held = self.records[at].lamports;
        ctx.owner_lamports = ctx.owner_lamports + held;
        let ghost before = *self;
        self.records.remove(at);
        proof {
            lemma_remove_preserves(before, *self, at as int, ctx.owner@);
        }
        Ok(())
    }
}

/// A record found at an index is the record `record_of` speaks of: owners
/// are unique, so the index pins it down.
pub proof fn lemma_record_at_index(l: LockLedger, i: int, owner: Seq<u8>)
    requires
        l.well_formed(),
        0 <= i < l.records@.len(),
        l.owner_at(i) == owner,
    ensures
        l.has_record(owner),
        l.record_of(owner) == l.records@[i],
{
    assert(l.has_record(owner));
    let j = choose|j: int| 0 <= j < l.records@.len() && #[trigger] l.owner_at(j) == owner;
    if i < j {
        assert(l.owner_at(i) != l.owner_at(j));
    } else if j < i {
        assert(l.owner_at(j) != l.owner_at(i));
    }
}

/// Appending a fresh, well-formed record for an owner with no live record
/// keeps the ledger well formed, installs exactly that record for that
/// owner, and leaves every other owner's view of the ledger unchanged.
proof fn lemma_push_preserves(l_old: LockLedger, l_new: LockLedger, rec: LockRecord, owner: Seq<u8>)
    requires
        l_old.well_formed(),
        !l_old.has_record(owner),
        rec.well_formed(),
        rec.wallet.owner@ == owner,
        l_new.records@ == l_old.records@.push(rec),
    ensures
        l_new.well_formed(),
        l_new.has_record(owner),
        l_new.record_of(owner) == rec,
        forall|o: Seq<u8>| o != owner ==> #[trigger] l_new.has_record(o) == l_old.has_record(o),
        forall|o: Seq<u8>|
            o != owner && l_old.has_record(o) ==> #[trigger] l_new.record_of(o) == l_old.record_of(o),
{
    let n = l_old.records@.len() as int;
    assert forall|i: int| 0 <= i < n implies l_old.owner_at(i) != owner by {
        if l_old.owner_at(i) == owner {
            assert(l_old.has_record(owner));
        }
    }
    assert forall|i: int, j: int|
        0 <= i < j < l_new.records@.len() implies #[trigger] l_new.owner_at(i) != #[trigger] l_new.owner_at(j) by {
        if j < n {
            assert(l_new.owner_at(i) == l_old.owner_at(i));
            assert(l_new.owner_at(j) == l_old.owner_at(j));
        } else {
            assert(l_new.owner_at(j) == owner);
            assert(l_new.owner_at(i) == l_old.owner_at(i));
        }
    }
    assert(l_new.owner_at(n) == owner);
    lemma_record_at_index(l_new, n, owner);
    assert forall|o: Seq<u8>| o != owner implies #[trigger] l_new.has_record(o) == l_old.has_record(o) by {
        if l_new.has_record(o) {
            let i = choose|i: int| 0 <= i < l_new.records@.len() && #[trigger] l_new.owner_at(i) == o;
            assert(i < n);
            assert(l_old.owner_at(i) == o);
        }
        if l_old.has_record(o) {
            let i = choose|i: int| 0 <= i < l_old.records@.len() && #[trigger] l_old.owner_at(i) == o;
            assert(l_new.owner_at(i) == o);
        }
    }
    assert forall|o: Seq<u8>|
        o != owner && l_old.has_record(o) implies #[trigger] l_new.record_of(o) == l_old.record_of(o) by {
        let i = choose|i: int| 0 <= i < l_old.records@.len() && #[trigger] l_old.owner_at(i) == o;
        assert(l_new.owner_at(i) == o);
        lemma_record_at_index(l_old, i, o);
        lemma_record_at_index(l_new, i, o);
    }
}

/// Removing the one record an owner holds keeps the ledger well formed,
/// leaves that owner without a record, and leaves every other owner's view
/// of the ledger unchanged.
proof fn lemma_remove_preserves(l_old: LockLedger, l_new: LockLedger, at: int, owner: Seq<u8>)
    requires
        l_old.well_formed(),
        0 <= at < l_old.records@.len(),
        l_old.owner_at(at) == owner,
        l_new.records@ == l_old.records@.remove(at),
    ensures
        l_new.well_formed(),
        !l_new.has_record(owner),
        forall|o: Seq<u8>| o != owner ==> #[trigger] l_new.has_record(o) == l_old.has_record(o),
        forall|o: Seq<u8>|
            o != owner && l_old.has_record(o) ==> #[trigger] l_new.record_of(o) == l_old.record_of(o),
{
    let n = l_old.records@.len() as int;
    // Each index of the shortened ledger maps to an old index other than `at`.
    assert forall|i: int| 0 <= i < n - 1 implies #[trigger] l_new.records@[i] == l_old.records@[
        if i < at { i } else { i + 1 }] by {}
    assert forall|i: int, j: int|
        0 <= i < j < l_new.records@.len() implies #[trigger] l_new.owner_at(i) != #[trigger] l_new.owner_at(j) by {
        let i0 = if i < at { i } else { i + 1 };
        let j0 = if j < at { j } else { j + 1 };
        assert(l_new.owner_at(i) == l_old.owner_at(i0));
        assert(l_new.owner_at(j) == l_old.owner_at(j0));
        assert(i0 < j0);
    }
    assert forall|i: int| 0 <= i < n - 1 implies #[trigger] l_new.owner_at(i) != owner by {
        let i0 = if i < at { i } else { i + 1 };
        assert(l_new.owner_at(i) == l_old.owner_at(i0));
        if i0 < at {
            assert(l_old.owner_at(i0) != l_old.owner_at(at));
        } else if at < i0 {
            assert(l_old.owner_at(at) != l_old.owner_at(i0));
        }
    }
    assert forall|o: Seq<u8>| o != owner implies #[trigger] l_new.has_record(o) == l_old.has_record(o) by {
        if l_new.has_record(o) {
            let i = choose|i: int| 0 <= i < l_new.records@.len() && #[trigger] l_new.owner_at(i) == o;
            let i0 = if i < at { i } else { i + 1 };
            assert(l_old.owner_at(i0) == o);
        }
        if l_old.has_record(o) {
            let i0 = choose|i: int| 0 <= i < l_old.records@.len() && #[trigger] l_old.owner_at(i) == o;
            assert(i0 != at);
            let i = if i0 < at { i0 } else { i0 - 1 };
            assert(l_new.owner_at(i) == l_old.owner_at(i0));
            assert(l_new.owner_at(i) == o);
        }
    }
    assert forall|o: Seq<u8>|
        o != owner && l_old.has_record(o) implies #[trigger] l_new.record_of(o) == l_old.record_of(o) by {
        let i0 = choose|i: int| 0 <= i < l_old.records@.len() && #[trigger] l_old.owner_at(i) == o;
        assert(i0 != at);
        lemma_record_at_index(l_old, i0, o);
        let i = if i0 < at { i0 } else { i0 - 1 };
        assert(l_new.owner_at(i) == l_old.owner_at(i0));
        lemma_record_at_index(l_new, i, o);
        assert(l_new.records@[i] == l_old.records@[i0]);
    }
}

} // verus!
