//! A single-owner, time-locked custodial balance.
//!
//! A depositor locks a quantity of a fungible asset until a chosen future
//! instant; from that instant on, the depositor — and nobody else — may
//! reclaim the whole balance in one step.  The library holds the state
//! machine that validates and executes the two transitions, `initialize_lock`
//! and `withdraw`, together with the invariants of the ledger they act on.
//! Reading the clock and persisting the ledger are the caller's business.

pub mod identity;
pub mod wallet;
pub mod ledger;
pub mod codec;
pub mod laws;

pub use codec::decode_record;
pub use codec::encode_record;
pub use identity::Identity;
pub use identity::derive_tag;
pub use identity::identities_equal;
pub use wallet::ErrorCode;
pub use wallet::TimeLockedWallet;
pub use ledger::InitializeLock;
pub use ledger::LockLedger;
pub use ledger::LockRecord;
pub use ledger::Withdraw;
pub use ledger::STORAGE_DEPOSIT;
