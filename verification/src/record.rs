//! The stored sample record: its sixteen bytes, its freshness, and the
//! difference of two counters that wrap around.

use vstd::prelude::*;

verus! {

/// The eight bytes of `v`, most significant first.
pub open spec fn encoded_u64(v: u64) -> Seq<u8> {
    seq![
        (v / 0x100_0000_0000_0000) as u8,
        (v / 0x1_0000_0000_0000 % 256) as u8,
        (v / 0x100_0000_0000 % 256) as u8,
        (v / 0x1_0000_0000 % 256) as u8,
        (v / 0x100_0000 % 256) as u8,
        (v / 0x1_0000 % 256) as u8,
        (v / 0x100 % 256) as u8,
        (v % 256) as u8,
    ]
}

/// The number whose big-endian bytes are the eight bytes of `bytes` from
/// position `at` on.
pub open spec fn decoded_u64(bytes: Seq<u8>, at: int) -> int {
    bytes[at] * 0x100_0000_0000_0000 + bytes[at + 1] * 0x1_0000_0000_0000 + bytes[at + 2]
        * 0x100_0000_0000 + bytes[at + 3] * 0x1_0000_0000 + bytes[at + 4] * 0x100_0000 + bytes[at
        + 5] * 0x1_0000 + bytes[at + 6] * 0x100 + bytes[at + 7]
}

/// A sample record as it is stored: sixteen bytes, `a` then `b`.
pub open spec fn encoded_record(a: u64, b: u64) -> Seq<u8> {
    encoded_u64(a) + encoded_u64(b)
}

/// The record that stored bytes hold: none where there are fewer than
/// sixteen, else the two counters in the first sixteen.
pub open spec fn decoded_record(bytes: Seq<u8>) -> Option<(u64, u64)> {
    if bytes.len() < 16 {
        None
    } else {
        Some((decoded_u64(bytes, 0) as u64, decoded_u64(bytes, 8) as u64))
    }
}

/// What a file holds after `record` was written over its beginning.
pub open spec fn overwritten(content: Seq<u8>, record: Seq<u8>) -> Seq<u8> {
    if content.len() <= record.len() {
        record
    } else {
        record + content.subrange(record.len() as int, content.len() as int)
    }
}

/// Whether a sample last modified at `mtime` may still be used at `now`:
/// its age is at most `max_age`.
pub open spec fn fresh(mtime: int, max_age: int, now: int) -> bool {
    now - mtime <= max_age
}

/// The previous sample that may be used at `now`: the stored record, unless
/// nothing is stored or what is stored is older than `max_age`.
pub open spec fn recent_record(content: Seq<u8>, mtime: int, max_age: int, now: int) -> Option<
    (u64, u64),
> {
    if fresh(mtime, max_age, now) {
        decoded_record(content)
    } else {
        None
    }
}

fn encode_u64(v: u64, out: &mut Vec<u8>)
    ensures
        final(out)@ == old(out)@ + encoded_u64(v),
{
    out.push((v / 0x100_0000_0000_0000) as u8);
    out.push((v / 0x1_0000_0000_0000 % 256) as u8);
    out.push((v / 0x100_0000_0000 % 256) as u8);
    out.push((v / 0x1_0000_0000 % 256) as u8);
    out.push((v / 0x100_0000 % 256) as u8);
    out.push((v / 0x1_0000 % 256) as u8);
    out.push((v / 0x100 % 256) as u8);
    out.push((v % 256) as u8);
    assert(out@ =~= old(out)@ + encoded_u64(v));
}

fn decode_u64(bytes: &Vec<u8>, at: usize) -> (v: u64)
    requires
        at + 8 <= bytes@.len(),
    ensures
        v == decoded_u64(bytes@, at as int),
{
    let n: usize = bytes.len();
    let b0: u64 = bytes[at] as u64;
    let b1: u64 = bytes[at + 1] as u64;
    let b2: u64 = bytes[at + 2] as u64;
    let b3: u64 = bytes[at + 3] as u64;
    let b4: u64 = bytes[at + 4] as u64;
    let b5: u64 = bytes[at + 5] as u64;
    let b6: u64 = bytes[at + 6] as u64;
    let b7: u64 = bytes[at + 7] as u64;
    b0 * 0x100_0000_0000_0000 + b1 * 0x1_0000_0000_0000 + b2 * 0x100_0000_0000 + b3
        * 0x1_0000_0000 + b4 * 0x100_0000 + b5 * 0x1_0000 + b6 * 0x100 + b7
}

/// Encodes a sample record as its sixteen stored bytes.
pub fn encode_record(a: u64, b: u64) -> (bytes: Vec<u8>)
    ensures
        bytes@ == encoded_record(a, b),
{
    let mut bytes: Vec<u8> = Vec::new();
    encode_u64(a, &mut bytes);
    encode_u64(b, &mut bytes);
    bytes
}

/// Decodes the record that stored bytes hold, if they hold one.
pub fn decode_record(bytes: &Vec<u8>) -> (record: Option<(u64, u64)>)
    ensures
        record == decoded_record(bytes@),
{
    if bytes.len() < 16 {
        None
    } else {
        Some((decode_u64(bytes, 0), decode_u64(bytes, 8)))
    }
}

/// Every eight bytes denote a number that fits 64 bits.
pub proof fn decoded_u64_bounds(bytes: Seq<u8>, at: int)
    requires
        0 <= at,
        at + 8 <= bytes.len(),
    ensures
        0 <= decoded_u64(bytes, at) <= u64::MAX,
{
}

/// A number is what its eight big-endian bytes denote.
pub proof fn u64_round_trip(v: u64)
    ensures
        decoded_u64(encoded_u64(v), 0) == v,
{
    let q1 = v / 0x100;
    let q2 = q1 / 0x100;
    let q3 = q2 / 0x100;
    let q4 = q3 / 0x100;
    let q5 = q4 / 0x100;
    let q6 = q5 / 0x100;
    let q7 = q6 / 0x100;
    assert(v / 0x1_0000 == q2);
    assert(v / 0x100_0000 == q3);
    assert(v / 0x1_0000_0000 == q4);
    assert(v / 0x100_0000_0000 == q5);
    assert(v / 0x1_0000_0000_0000 == q6);
    assert(v / 0x100_0000_0000_0000 == q7);
    assert(q7 < 256);
}

/// A record that was encoded is decoded as itself.
pub proof fn record_round_trip(a: u64, b: u64)
    ensures
        encoded_record(a, b).len() == 16,
        decoded_record(encoded_record(a, b)) == Some((a, b)),
{
    u64_round_trip(a);
    u64_round_trip(b);
    let r = encoded_record(a, b);
    assert(decoded_u64(r, 0) == decoded_u64(encoded_u64(a), 0));
    assert(decoded_u64(r, 8) == decoded_u64(encoded_u64(b), 0));
}

/// A record written over any earlier content and read again within the
/// freshness window is the record that was written.
pub proof fn written_then_read(
    content: Seq<u8>,
    a: u64,
    b: u64,
    written_at: int,
    max_age: int,
    now: int,
)
    requires
        now - written_at <= max_age,
    ensures
        recent_record(overwritten(content, encoded_record(a, b)), written_at, max_age, now)
            == Some((a, b)),
{
    record_round_trip(a, b);
    let r = encoded_record(a, b);
    let w = overwritten(content, r);
    assert(decoded_u64(w, 0) == decoded_u64(r, 0));
    assert(decoded_u64(w, 8) == decoded_u64(r, 8));
}

/// With a freshness window of zero, whatever is stored is stale as soon as
/// any time has passed since it was written.
pub proof fn stale_after_delay(content: Seq<u8>, written_at: int, now: int)
    requires
        now > written_at,
    ensures
        recent_record(content, written_at, 0, now) == None::<(u64, u64)>,
{
}

/// The difference of two counters that wrap around at 64 bits.
pub open spec fn wrapped_difference(now: u64, before: u64) -> int {
    if now >= before {
        now - before
    } else {
        now - before + 0x1_0000_0000_0000_0000
    }
}

/// The wrapped difference is the difference modulo 2^64: it is never
/// negative and always fits 64 bits, whichever counter is the larger.
pub proof fn wrapped_difference_is_modular(now: u64, before: u64)
    ensures
        0 <= wrapped_difference(now, before) <= u64::MAX,
        wrapped_difference(now, before) == (now - before) % 0x1_0000_0000_0000_0000,
        now == before ==> wrapped_difference(now, before) == 0,
{
}

/// Returns how far a 64-bit counter has advanced from `before` to `now`,
/// counting across a wrap-around.
pub fn counter_delta(now: u64, before: u64) -> (delta: u64)
    ensures
        delta == wrapped_difference(now, before),
{
    now.wrapping_sub(before)
}

} // verus!
