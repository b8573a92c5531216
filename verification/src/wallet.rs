//! The persisted lock record and the error taxonomy.

use vstd::prelude::*;
use crate::identity::Identity;
use crate::identity::spec_derive_tag;

verus! {

/// Why a transition was refused.  Every failure is a precondition violation:
/// a refused transition changes nothing.
#[derive(Clone, Copy, Debug, PartialEq, Eq, Structural)]
pub enum ErrorCode {
    /// Creation asked for an unlock instant that is not in the future.
    InvalidUnlockTime,
    /// Creation asked to escrow nothing.
    InvalidAmount,
    /// Release asked for before the unlock instant.
    FundsStillLocked,
    /// Address resolution failed: release found no record at the caller's
    /// derived address, or creation found that address already occupied.
    NotFound,
    /// The caller is not the record's stored owner.
    Unauthorized,
    /// The caller's spendable balance cannot fund the escrow and the
    /// storage deposit.
    InsufficientBalance,
}

/// The persisted record of one owner's lock.  Every field is immutable for
/// the record's whole lifetime; the record is deleted, never rewritten.
#[derive(Clone, Copy, Debug)]
pub struct TimeLockedWallet {
    /// The sole party authorized to release the escrow.
    pub owner: Identity,
    /// The escrowed quantity.
    pub amount: u64,
    /// The earliest instant (epoch seconds) at which release is permitted.
    pub unlock_timestamp: i64,
    /// The derivation tag proving the record occupies its canonical address.
    pub bump: u8,
    /// When the record was created (epoch seconds); informational only.
    pub created_at: i64,
}

impl TimeLockedWallet {
    /// The record's size in storage: an eight-byte record-type discriminator,
    /// then owner, amount, unlock instant, derivation tag and creation time.
    pub const LEN: usize = 8 + 32 + 8 + 8 + 1 + 8;

    /// What every live record satisfies: a positive escrow, an unlock
    /// instant strictly after creation, and a derivation tag that matches
    /// its owner.
    pub open spec fn well_formed(self) -> bool {
        &&& self.amount > 0
        &&& self.unlock_timestamp > self.created_at
        &&& self.bump == spec_derive_tag(self.owner@)
    }
}

} // verus!
