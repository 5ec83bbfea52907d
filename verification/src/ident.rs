//! Identifiers and random material. Records are keyed by ULIDs: 128-bit
//! numbers whose upper 48 bits are the time of creation in milliseconds and
//! whose lower 80 bits are random, so that identifiers sort by time.

use vstd::prelude::*;
use rand::rngs::StdRng;
use rand::RngCore;

verus! {

/// `rand::rngs::StdRng`, the generator that random material is drawn from.
/// Nothing is known of its state.
#[verifier::external_type_specification]
#[verifier::external_body]
pub struct ExStdRng(StdRng);

/// The largest time, in milliseconds, that an identifier can hold.
pub const MAX_ULID_MILLIS: u64 = 0xFFFF_FFFF_FFFF;

/// The most random bytes that are drawn in one call.
pub const MAX_RANDOM_BYTES: usize = 4096;

/// The time that an identifier holds, in milliseconds since the Unix epoch.
pub open spec fn spec_timestamp_ms(id: u128) -> u64 {
    (id >> 80) as u64
}

/// The time in milliseconds that an identifier made at `now` (in seconds)
/// holds: `now` in milliseconds, or the largest time that fits.
pub open spec fn spec_id_millis(now: u64) -> u64 {
    if now * 1000 > MAX_ULID_MILLIS {
        MAX_ULID_MILLIS
    } else {
        (now * 1000) as u64
    }
}

/// Calls `ulid::Ulid::from_datetime_with_source` for the time `unix_ms`
/// milliseconds after the Unix epoch and returns the identifier's 128 bits.
/// The function puts the time in the upper 48 bits and draws the lower 80
/// from `rng`; the contract states the former and nothing of the latter.
#[verifier::external_body]
fn ulid_from_millis(unix_ms: u64, rng: &mut StdRng) -> (id: u128)
    requires
        unix_ms <= MAX_ULID_MILLIS,
    ensures
        id >> 80 == unix_ms,
{
    let at = std::time::UNIX_EPOCH + std::time::Duration::from_millis(unix_ms);
    ulid::Ulid::from_datetime_with_source(at, rng).0
}

/// Calls `rand::RngCore::fill_bytes` on a buffer of `n` bytes and returns
/// the buffer. Only the length of the result is known.
#[verifier::external_body]
fn fill_random(rng: &mut StdRng, n: usize) -> (r: Vec<u8>)
    requires
        n <= MAX_RANDOM_BYTES,
    ensures
        r@.len() == n,
{
    let mut buf = vec![0u8; n];
    rng.fill_bytes(&mut buf);
    buf
}

/// The character of Crockford's base 32 alphabet, `0`-`9` and `A`-`Z`
/// without `I`, `L`, `O` and `U`, that stands for the five-bit value `v`.
pub open spec fn crockford_char(v: u8) -> u8 {
    if v < 10 {
        (48 + v) as u8
    } else if v < 18 {
        (55 + v) as u8
    } else if v < 20 {
        (56 + v) as u8
    } else if v < 22 {
        (57 + v) as u8
    } else if v < 27 {
        (58 + v) as u8
    } else {
        (59 + v) as u8
    }
}

/// The text of an identifier: 26 characters of Crockford's base 32, the most
/// significant five bits first.
pub open spec fn spec_id_text(id: u128) -> Seq<u8> {
    Seq::new(26, |k: int| crockford_char(((id >> ((5 * (25 - k)) as u128)) & 0x1f) as u8))
}

/// Calls `ulid::Ulid::to_string`, which writes the 128 bits as 26 characters
/// of Crockford's base 32, most significant first; the contract states
/// exactly that.
#[verifier::external_body]
fn ulid_to_string(id: u128) -> (r: Vec<u8>)
    ensures
        r@ == spec_id_text(id),
{
    ulid::Ulid(id).to_string().into_bytes()
}

/// The text of an identifier.
pub fn id_text(id: u128) -> (r: Vec<u8>)
    ensures
        r@ == spec_id_text(id),
{
    ulid_to_string(id)
}

/// The time in milliseconds that an identifier made at `now` holds.
pub fn id_millis(now: u64) -> (ms: u64)
    ensures
        ms == spec_id_millis(now),
        ms <= MAX_ULID_MILLIS,
{
    if now > MAX_ULID_MILLIS / 1000 {
        MAX_ULID_MILLIS
    } else {
        now * 1000
    }
}

/// The time that an identifier holds, in milliseconds since the Unix epoch.
pub fn timestamp_ms(id: u128) -> (ms: u64)
    ensures
        ms == spec_timestamp_ms(id),
{
    let hi: u128 = id >> 80;
    assert(hi <= 0xFFFF_FFFF_FFFF) by (bit_vector)
        requires
            hi == id >> 80,
    ;
    hi as u64
}

/// The time that an identifier made at `unix_ms`, in milliseconds, holds:
/// `unix_ms`, or the largest time that fits.
pub open spec fn spec_clamped_millis(unix_ms: u64) -> u64 {
    if unix_ms > MAX_ULID_MILLIS {
        MAX_ULID_MILLIS
    } else {
        unix_ms
    }
}

/// A fresh identifier for a record created at `unix_ms`, in milliseconds
/// since the Unix epoch. It holds that time to the millisecond; the rest of
/// it is random.
pub fn new_id_at_millis(unix_ms: u64, rng: &mut StdRng) -> (id: u128)
    ensures
        spec_timestamp_ms(id) == spec_clamped_millis(unix_ms),
{
    let ms = if unix_ms > MAX_ULID_MILLIS {
        MAX_ULID_MILLIS
    } else {
        unix_ms
    };
    ulid_from_millis(ms, rng)
}

/// A fresh identifier for a record created at `now`, in seconds since the
/// Unix epoch. It holds the first millisecond of that second; the rest of
/// it is random.
pub fn new_id(now: u64, rng: &mut StdRng) -> (id: u128)
    ensures
        spec_timestamp_ms(id) == spec_id_millis(now),
{
    let ms = id_millis(now);
    new_id_at_millis(ms, rng)
}

/// Identifiers sort by the time they hold: of two identifiers, the one that
/// holds the earlier time is the smaller, whatever their random parts.
pub proof fn lemma_ids_sort_by_time(a: u128, b: u128)
    requires
        spec_timestamp_ms(a) < spec_timestamp_ms(b),
    ensures
        a < b,
{
    let x: u128 = a >> 80;
    let y: u128 = b >> 80;
    assert(x <= 0xFFFF_FFFF_FFFF) by (bit_vector)
        requires
            x == a >> 80,
    ;
    assert(y <= 0xFFFF_FFFF_FFFF) by (bit_vector)
        requires
            y == b >> 80,
    ;
    assert(x < y);
    assert(a < b) by (bit_vector)
        requires
            a >> 80 < b >> 80,
    ;
}

/// An identifier made a millisecond or more after another is the greater of
/// the two, as long as the later time is one that an identifier can hold: so
/// records listed by identifier stand in the order of their making.
pub proof fn lemma_later_id_is_greater(a: u128, b: u128, made_a: u64, made_b: u64)
    requires
        spec_timestamp_ms(a) == spec_clamped_millis(made_a),
        spec_timestamp_ms(b) == spec_clamped_millis(made_b),
        made_a < made_b <= MAX_ULID_MILLIS,
    ensures
        a < b,
        a != b,
{
    lemma_ids_sort_by_time(a, b);
}

/// An identifier made for a later second than another is the greater of the
/// two, as long as the later time is one that an identifier can hold.
pub proof fn lemma_later_second_id_is_greater(a: u128, b: u128, made_a: u64, made_b: u64)
    requires
        spec_timestamp_ms(a) == spec_id_millis(made_a),
        spec_timestamp_ms(b) == spec_id_millis(made_b),
        made_a < made_b,
        made_b * 1000 <= MAX_ULID_MILLIS,
    ensures
        a < b,
{
    assert(made_a * 1000 < made_b * 1000) by (nonlinear_arith)
        requires
            made_a < made_b,
    ;
    lemma_ids_sort_by_time(a, b);
}

/// `n` random bytes, for `n` up to `MAX_RANDOM_BYTES`; nothing is drawn for
/// more.
pub fn random_bytes(rng: &mut StdRng, n: usize) -> (r: Option<Vec<u8>>)
    ensures
        r is Some <==> n <= MAX_RANDOM_BYTES,
        r matches Some(bytes) ==> bytes@.len() == n,
{
    if n <= MAX_RANDOM_BYTES {
        Some(fill_random(rng, n))
    } else {
        None
    }
}

} // verus!
