use time_locked_wallet::Identity;
use time_locked_wallet::TimeLockedWallet;
use time_locked_wallet::decode_record;
use time_locked_wallet::encode_record;

fn sample() -> TimeLockedWallet {
    let mut bytes = [0u8; 32];
    bytes[0] = 0xaa;
    bytes[31] = 0x55;
    TimeLockedWallet {
        owner: Identity { bytes },
        amount: 0x0102_0304_0506_0708,
        unlock_timestamp: 4600,
        bump: 0x19,
        created_at: 1000,
    }
}

#[test]
fn encoding_fills_exactly_the_storage_size() {
    let bytes = encode_record(&sample());
    assert_eq!(bytes.len(), TimeLockedWallet::LEN);
    assert_eq!(bytes.len(), 65);
}

#[test]
fn encoding_opens_with_the_discriminator() {
    let bytes = encode_record(&sample());
    assert_eq!(&bytes[0..8], b"timelock");
}

#[test]
fn encoding_lays_the_fields_out_little_endian() {
    let bytes = encode_record(&sample());
    assert_eq!(bytes[8], 0xaa);
    assert_eq!(bytes[39], 0x55);
    // amount = 0x0102030405060708, least significant byte first
    assert_eq!(
        &bytes[40..48],
        &[0x08, 0x07, 0x06, 0x05, 0x04, 0x03, 0x02, 0x01],
    );
    // unlock_timestamp = 4600 = 0x11f8
    assert_eq!(&bytes[48..56], &[0xf8, 0x11, 0, 0, 0, 0, 0, 0]);
    assert_eq!(bytes[56], 0x19);
    // created_at = 1000 = 0x3e8
    assert_eq!(&bytes[57..65], &[0xe8, 0x03, 0, 0, 0, 0, 0, 0]);
}

#[test]
fn decoding_inverts_encoding() {
    let w = sample();
    let back = decode_record(&encode_record(&w)).unwrap();
    assert_eq!(back.owner.bytes, w.owner.bytes);
    assert_eq!(back.amount, w.amount);
    assert_eq!(back.unlock_timestamp, w.unlock_timestamp);
    assert_eq!(back.bump, w.bump);
    assert_eq!(back.created_at, w.created_at);
}

#[test]
fn negative_instants_survive_the_round_trip() {
    let mut w = sample();
    w.unlock_timestamp = -1;
    w.created_at = i64::MIN;
    let back = decode_record(&encode_record(&w)).unwrap();
    assert_eq!(back.unlock_timestamp, -1);
    assert_eq!(back.created_at, i64::MIN);
}

#[test]
fn encoding_inverts_decoding() {
    let mut bytes = b"timelock".to_vec();
    bytes.extend((0u8..32).map(|i| i.wrapping_mul(7)));
    bytes.extend([1, 2, 3, 4, 5, 6, 7, 8]);
    bytes.extend([0xff; 8]);
    bytes.push(0x2c);
    bytes.extend([9, 8, 7, 6, 5, 4, 3, 2]);
    assert_eq!(bytes.len(), 65);
    let w = decode_record(&bytes).unwrap();
    assert_eq!(encode_record(&w), bytes);
}

#[test]
fn a_short_byte_string_is_refused() {
    let bytes = b"timelock".to_vec();
    assert!(decode_record(&bytes).is_none());
}

#[test]
fn a_wrong_discriminator_is_refused() {
    let w = sample();
    let mut bytes = encode_record(&w);
    bytes[7] = b'x';
    assert!(decode_record(&bytes).is_none());
}
