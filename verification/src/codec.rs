//! The persisted form of a lock record.
//!
//! A record is stored as a fixed-size byte string: an eight-byte record-type
//! discriminator, then the owner's bytes, the amount, the unlock instant,
//! the derivation tag and the creation time, the integers little-endian and
//! the signed ones in two's complement.  Encoding and decoding invert one
//! another, so a record survives a round trip through storage unchanged.

use vstd::prelude::*;
use crate::identity::Identity;
use crate::wallet::TimeLockedWallet;

verus! {

broadcast use vstd::array::group_array_axioms;

/// The little-endian bytes of a 64-bit word.
pub open spec fn u64_le(x: u64) -> Seq<u8> {
    seq![
        ((x >> 0) & 0xff) as u8,
        ((x >> 8) & 0xff) as u8,
        ((x >> 16) & 0xff) as u8,
        ((x >> 24) & 0xff) as u8,
        ((x >> 32) & 0xff) as u8,
        ((x >> 40) & 0xff) as u8,
        ((x >> 48) & 0xff) as u8,
        ((x >> 56) & 0xff) as u8,
    ]
}

/// The 64-bit word eight little-endian bytes spell.
pub open spec fn le_u64(b: Seq<u8>) -> u64
    recommends
        b.len() == 8,
{
    ((b[0] as u64) << 0) | ((b[1] as u64) << 8) | ((b[2] as u64) << 16) | ((b[3] as u64) << 24)
        | ((b[4] as u64) << 32) | ((b[5] as u64) << 40) | ((b[6] as u64) << 48) | ((b[7] as u64)
        << 56)
}

/// Reading back the little-endian bytes of a word yields the word.
pub proof fn lemma_le_u64_of_u64_le(x: u64)
    ensures
        le_u64(u64_le(x)) == x,
{
    assert(((((x >> 0) & 0xff) as u8 as u64) << 0) | ((((x >> 8) & 0xff) as u8 as u64) << 8) | ((((
    x >> 16) & 0xff) as u8 as u64) << 16) | ((((x >> 24) & 0xff) as u8 as u64) << 24) | ((((x
        >> 32) & 0xff) as u8 as u64) << 32) | ((((x >> 40) & 0xff) as u8 as u64) << 40) | ((((x
        >> 48) & 0xff) as u8 as u64) << 48) | ((((x >> 56) & 0xff) as u8 as u64) << 56) == x)
        by (bit_vector);
}

/// Writing out the word eight bytes spell yields those bytes again.
pub proof fn lemma_u64_le_of_le_u64(b: Seq<u8>)
    requires
        b.len() == 8,
    ensures
        u64_le(le_u64(b)) == b,
{
    let x = le_u64(b);
    let b0 = b[0];
    let b1 = b[1];
    let b2 = b[2];
    let b3 = b[3];
    let b4 = b[4];
    let b5 = b[5];
    let b6 = b[6];
    let b7 = b[7];
    let y = ((b0 as u64) << 0) | ((b1 as u64) << 8) | ((b2 as u64) << 16) | ((b3 as u64) << 24) | (
    (b4 as u64) << 32) | ((b5 as u64) << 40) | ((b6 as u64) << 48) | ((b7 as u64) << 56);
    assert(((y >> 0) & 0xff) as u8 == b0 && ((y >> 8) & 0xff) as u8 == b1 && ((y >> 16) & 0xff)
        as u8 == b2 && ((y >> 24) & 0xff) as u8 == b3 && ((y >> 32) & 0xff) as u8 == b4 && ((y
        >> 40) & 0xff) as u8 == b5 && ((y >> 48) & 0xff) as u8 == b6 && ((y >> 56) & 0xff) as u8
        == b7) by (bit_vector)
        requires
            y == ((b0 as u64) << 0) | ((b1 as u64) << 8) | ((b2 as u64) << 16) | ((b3 as u64)
                << 24) | ((b4 as u64) << 32) | ((b5 as u64) << 40) | ((b6 as u64) << 48) | ((
            b7 as u64) << 56),
    ;
    assert(x == y);
    assert(u64_le(x) =~= b);
}

/// The two's-complement bit pattern of a signed 64-bit value, as a word.
pub open spec fn i64_bits(x: i64) -> u64 {
    if x >= 0 {
        x as u64
    } else {
        (x + 0x10000000000000000) as u64
    }
}

/// The signed 64-bit value a word's bit pattern stands for.
pub open spec fn bits_i64(u: u64) -> i64 {
    if u < 0x8000000000000000 {
        u as i64
    } else {
        (u - 0x10000000000000000) as i64
    }
}

/// The two conversions invert one another.
pub proof fn lemma_bits_i64_of_i64_bits(x: i64)
    ensures
        bits_i64(i64_bits(x)) == x,
{
}

/// ... in the other direction too.
pub proof fn lemma_i64_bits_of_bits_i64(u: u64)
    ensures
        i64_bits(bits_i64(u)) == u,
{
}

/// Computes the bit pattern of a signed value.
pub fn i64_to_bits(x: i64) -> (r: u64)
    ensures
        r == i64_bits(x),
{
    if x >= 0 {
        x as u64
    } else {
        let flipped: i64 = -(x + 1);
        u64::MAX - (flipped as u64)
    }
}

/// Reads a signed value back off its bit pattern.
pub fn bits_to_i64(u: u64) -> (r: i64)
    ensures
        r == bits_i64(u),
{
    if u < 0x8000000000000000 {
        u as i64
    } else {
        let flipped: u64 = u64::MAX - u;
        -(flipped as i64) - 1
    }
}

/// The eight-byte record-type discriminator preceding every stored record:
/// the ASCII bytes of "timelock".
pub open spec fn record_tag() -> Seq<u8> {
    seq![0x74u8, 0x69u8, 0x6du8, 0x65u8, 0x6cu8, 0x6fu8, 0x63u8, 0x6bu8]
}

/// The stored bytes of a record: discriminator, owner, amount, unlock
/// instant, derivation tag, creation time.
pub open spec fn spec_record_bytes(w: TimeLockedWallet) -> Seq<u8> {
    record_tag() + w.owner@ + u64_le(w.amount) + u64_le(i64_bits(w.unlock_timestamp)) + seq![
        w.bump,
    ] + u64_le(i64_bits(w.created_at))
}

/// An encoded record always fills exactly its storage size, discriminator
/// first.
pub proof fn lemma_record_bytes_len(w: TimeLockedWallet)
    ensures
        spec_record_bytes(w).len() == TimeLockedWallet::LEN,
        spec_record_bytes(w).subrange(0, 8) == record_tag(),
{
    assert(spec_record_bytes(w).subrange(0, 8) =~= record_tag());
}

/// Appends the little-endian bytes of a word.
fn push_u64_le(v: &mut Vec<u8>, x: u64)
    ensures
        final(v)@ == old(v)@ + u64_le(x),
{
    proof {
        assert((x >> 0) & 0xff < 256 && (x >> 8) & 0xff < 256 && (x >> 16) & 0xff < 256 && (x
            >> 24) & 0xff < 256 && (x >> 32) & 0xff < 256 && (x >> 40) & 0xff < 256 && (x >> 48)
            & 0xff < 256 && (x >> 56) & 0xff < 256) by (bit_vector);
    }
    v.push(((x >> 0) & 0xff) as u8);
    v.push(((x >> 8) & 0xff) as u8);
    v.push(((x >> 16) & 0xff) as u8);
    v.push(((x >> 24) & 0xff) as u8);
    v.push(((x >> 32) & 0xff) as u8);
    v.push(((x >> 40) & 0xff) as u8);
    v.push(((x >> 48) & 0xff) as u8);
    v.push(((x >> 56) & 0xff) as u8);
    proof {
        assert(v@ =~= old(v)@ + u64_le(x));
    }
}

/// Encodes a record into its stored bytes.
pub fn encode_record(w: &TimeLockedWallet) -> (r: Vec<u8>)
    ensures
        r@ == spec_record_bytes(*w),
        r@.len() == TimeLockedWallet::LEN,
{
    let mut v: Vec<u8> = Vec::new();
    v.push(0x74);
    v.push(0x69);
    v.push(0x6d);
    v.push(0x65);
    v.push(0x6c);
    v.push(0x6f);
    v.push(0x63);
    v.push(0x6b);
    proof {
        assert(v@ =~= record_tag());
    }
    let mut i: usize = 0;
    while i < 32
        invariant
            0 <= i <= 32,
            v@ == record_tag() + w.owner@.take(i as int),
        decreases 32 - i,
    {
        v.push(w.owner.bytes[i]);
        proof {
            assert(record_tag() + w.owner@.take(i + 1) =~= (record_tag() + w.owner@.take(
                i as int)).push(w.owner@[i as int]));
        }
        i += 1;
    }
    proof {
        assert(w.owner@.take(32) =~= w.owner@);
    }
    push_u64_le(&mut v, w.amount);
    push_u64_le(&mut v, i64_to_bits(w.unlock_timestamp));
    v.push(w.bump);
    push_u64_le(&mut v, i64_to_bits(w.created_at));
    proof {
        assert(v@ =~= spec_record_bytes(*w));
        lemma_record_bytes_len(*w);
    }
    v
}

/// Reads the word whose little-endian bytes start at `off`.
fn read_u64_le(b: &Vec<u8>, off: usize) -> (r: u64)
    requires
        off + 8 <= b@.len(),
    ensures
        r == le_u64(b@.subrange(off as int, off as int + 8)),
{
    let n: usize = b.len();
    proof {
        assert(off + 8 <= n);
    }
    let r = ((b[off] as u64) << 0) | ((b[off + 1] as u64) << 8) | ((b[off + 2] as u64) << 16) | ((
    b[off + 3] as u64) << 24) | ((b[off + 4] as u64) << 32) | ((b[off + 5] as u64) << 40) | ((b[off
        + 6] as u64) << 48) | ((b[off + 7] as u64) << 56);
    proof {
        let s = b@.subrange(off as int, off as int + 8);
        assert(s[0] == b@[off as int] && s[1] == b@[off as int + 1] && s[2] == b@[off as int + 2]
            && s[3] == b@[off as int + 3] && s[4] == b@[off as int + 4] && s[5] == b@[off as int
            + 5] && s[6] == b@[off as int + 6] && s[7] == b@[off as int + 7]);
    }
    r
}

/// Decodes stored bytes back into a record.  Exactly the byte strings of
/// the record's storage size that open with the record-type discriminator
/// decode; each field is read back off its place in the layout.
pub fn decode_record(b: &Vec<u8>) -> (r: Option<TimeLockedWallet>)
    ensures
        r is Some <==> (b@.len() == TimeLockedWallet::LEN && b@.subrange(0, 8) == record_tag()),
        r matches Some(w) ==> {
            &&& w.owner@ == b@.subrange(8, 40)
            &&& w.amount == le_u64(b@.subrange(40, 48))
            &&& w.unlock_timestamp == bits_i64(le_u64(b@.subrange(48, 56)))
            &&& w.bump == b@[56]
            &&& w.created_at == bits_i64(le_u64(b@.subrange(57, 65)))
        },
{
    if b.len() != 65 {
        return None;
    }
    if b[0] != 0x74 || b[1] != 0x69 || b[2] != 0x6d || b[3] != 0x65 || b[4] != 0x6c || b[5] != 0x6f
        || b[6] != 0x63 || b[7] != 0x6b {
        proof {
            assert(b@.subrange(0, 8) != record_tag()) by {
                let s = b@.subrange(0, 8);
                assert(s[0] == b@[0] && s[1] == b@[1] && s[2] == b@[2] && s[3] == b@[3] && s[4]
                    == b@[4] && s[5] == b@[5] && s[6] == b@[6] && s[7] == b@[7]);
            }
        }
        return None;
    }
    proof {
        assert(b@.subrange(0, 8) =~= record_tag());
    }
    let mut owner_bytes = [0u8; 32];
    let mut i: usize = 0;
    while i < 32
        invariant
            0 <= i <= 32,
            b@.len() == 65,
            forall|j: int| 0 <= j < i ==> owner_bytes@[j] == b@[8 + j],
        decreases 32 - i,
    {
        owner_bytes[i] = b[8 + i];
        i += 1;
    }
    proof {
        assert(owner_bytes@ =~= b@.subrange(8, 40));
    }
    let amount = read_u64_le(b, 40);
    let unlock_timestamp = bits_to_i64(read_u64_le(b, 48));
    let bump = b[56];
    let created_at = bits_to_i64(read_u64_le(b, 57));
    Some(
        TimeLockedWallet {
            owner: Identity { bytes: owner_bytes },
            amount,
            unlock_timestamp,
            bump,
            created_at,
        },
    )
}

/// Round trip through storage: the stored bytes of a record carry the
/// discriminator and read back, field by field, to the record itself — so
/// decoding what encoding produced returns the record unchanged.
pub proof fn lemma_record_round_trip(w: TimeLockedWallet)
    ensures
        spec_record_bytes(w).len() == TimeLockedWallet::LEN,
        spec_record_bytes(w).subrange(0, 8) == record_tag(),
        spec_record_bytes(w).subrange(8, 40) == w.owner@,
        le_u64(spec_record_bytes(w).subrange(40, 48)) == w.amount,
        bits_i64(le_u64(spec_record_bytes(w).subrange(48, 56))) == w.unlock_timestamp,
        spec_record_bytes(w)[56] == w.bump,
        bits_i64(le_u64(spec_record_bytes(w).subrange(57, 65))) == w.created_at,
{
    let b = spec_record_bytes(w);
    lemma_record_bytes_len(w);
    assert(b.subrange(8, 40) =~= w.owner@);
    assert(b.subrange(40, 48) =~= u64_le(w.amount));
    lemma_le_u64_of_u64_le(w.amount);
    assert(b.subrange(48, 56) =~= u64_le(i64_bits(w.unlock_timestamp)));
    lemma_le_u64_of_u64_le(i64_bits(w.unlock_timestamp));
    lemma_bits_i64_of_i64_bits(w.unlock_timestamp);
    assert(b.subrange(57, 65) =~= u64_le(i64_bits(w.created_at)));
    lemma_le_u64_of_u64_le(i64_bits(w.created_at));
    lemma_bits_i64_of_i64_bits(w.created_at);
}

/// Round trip in the other direction: a byte string of the storage size
/// that opens with the discriminator is exactly the stored bytes of the
/// record its fields read back as — so encoding what decoding produced
/// returns the bytes unchanged.
pub proof fn lemma_record_bytes_of_fields(b: Seq<u8>, w: TimeLockedWallet)
    requires
        b.len() == TimeLockedWallet::LEN,
        b.subrange(0, 8) == record_tag(),
        w.owner@ == b.subrange(8, 40),
        w.amount == le_u64(b.subrange(40, 48)),
        w.unlock_timestamp == bits_i64(le_u64(b.subrange(48, 56))),
        w.bump == b[56],
        w.created_at == bits_i64(le_u64(b.subrange(57, 65))),
    ensures
        spec_record_bytes(w) == b,
{
    lemma_u64_le_of_le_u64(b.subrange(40, 48));
    lemma_i64_bits_of_bits_i64(le_u64(b.subrange(48, 56)));
    lemma_u64_le_of_le_u64(b.subrange(48, 56));
    lemma_i64_bits_of_bits_i64(le_u64(b.subrange(57, 65)));
    lemma_u64_le_of_le_u64(b.subrange(57, 65));
    assert(spec_record_bytes(w) =~= b);
}

} // verus!
