use time_locked_wallet::Identity;
use time_locked_wallet::InitializeLock;
use time_locked_wallet::LockLedger;
use time_locked_wallet::derive_tag;
use time_locked_wallet::identities_equal;

#[test]
fn equal_identities_compare_equal() {
    let a = Identity { bytes: [7u8; 32] };
    let b = Identity { bytes: [7u8; 32] };
    assert!(identities_equal(&a, &b));
}

#[test]
fn identities_differing_in_one_byte_compare_unequal() {
    let a = Identity { bytes: [7u8; 32] };
    let mut bytes = [7u8; 32];
    bytes[31] = 8;
    let b = Identity { bytes };
    assert!(!identities_equal(&a, &b));
    assert!(!identities_equal(&b, &a));
}

#[test]
fn derivation_tag_is_deterministic() {
    let a = Identity { bytes: [0x11u8; 32] };
    let b = Identity { bytes: [0x11u8; 32] };
    assert_eq!(derive_tag(&a), derive_tag(&b));
}

#[test]
fn derivation_tag_has_an_exact_value() {
    // Folding the domain tag 0x4c with thirty-two 0x11 bytes cancels them
    // out pairwise, leaving the domain tag itself.
    let a = Identity { bytes: [0x11u8; 32] };
    assert_eq!(derive_tag(&a), 0x4c);
    // An all-zero identity also leaves the domain tag untouched.
    let z = Identity { bytes: [0u8; 32] };
    assert_eq!(derive_tag(&z), 0x4c);
    // A single one-bit in the last byte flips that bit of the tag.
    let mut bytes = [0u8; 32];
    bytes[31] = 0x01;
    let c = Identity { bytes };
    assert_eq!(derive_tag(&c), 0x4d);
}

#[test]
fn created_record_stores_its_derivation_tag() {
    let mut ledger = LockLedger::new();
    let owner = Identity { bytes: [0x11u8; 32] };
    let mut ctx = InitializeLock { owner, owner_lamports: 10_000_000 };
    assert_eq!(ledger.initialize_lock(&mut ctx, 1, 2, 1), Ok(()));
    assert_eq!(ledger.records[0].wallet.bump, derive_tag(&owner));
    assert_eq!(ledger.records[0].wallet.bump, 0x4c);
}
