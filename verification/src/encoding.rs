//! The hashed message: two 64-bit integers, big-endian, back to back.

use vstd::prelude::*;

verus! {

/// The eight bytes of `x`, most significant first.
pub open spec fn be_bytes(x: u64) -> Seq<u8> {
    seq![
        (x >> 56) as u8,
        (x >> 48) as u8,
        (x >> 40) as u8,
        (x >> 32) as u8,
        (x >> 24) as u8,
        (x >> 16) as u8,
        (x >> 8) as u8,
        x as u8,
    ]
}

/// The number that eight bytes spell when read most significant first.
pub open spec fn be_value(bytes: Seq<u8>) -> int
    recommends
        bytes.len() == 8,
{
    bytes[0] * 0x0100_0000_0000_0000 + bytes[1] * 0x0001_0000_0000_0000 + bytes[2]
        * 0x0000_0100_0000_0000 + bytes[3] * 0x0000_0001_0000_0000 + bytes[4] * 0x0100_0000
        + bytes[5] * 0x0001_0000 + bytes[6] * 0x0100 + bytes[7]
}

/// The 16-byte message that is hashed for one draw: the timestamp's bytes
/// followed by the salt's bytes.
pub open spec fn message(timestamp: u64, salt: u64) -> Seq<u8> {
    be_bytes(timestamp) + be_bytes(salt)
}

/// `be_bytes` yields exactly eight bytes.
pub proof fn lemma_be_bytes_len(x: u64)
    ensures
        be_bytes(x).len() == 8,
{
}

/// The bytes of `be_bytes(x)` spell `x` again: the encoding is big-endian and
/// loses nothing.
pub proof fn lemma_be_bytes_value(x: u64)
    ensures
        be_value(be_bytes(x)) == x,
{
    let b0 = (x >> 56) as u8;
    let b1 = (x >> 48) as u8;
    let b2 = (x >> 40) as u8;
    let b3 = (x >> 32) as u8;
    let b4 = (x >> 24) as u8;
    let b5 = (x >> 16) as u8;
    let b6 = (x >> 8) as u8;
    let b7 = x as u8;
    assert(b0 * 0x0100_0000_0000_0000 + b1 * 0x0001_0000_0000_0000 + b2 * 0x0000_0100_0000_0000
        + b3 * 0x0000_0001_0000_0000 + b4 * 0x0100_0000 + b5 * 0x0001_0000 + b6 * 0x0100 + b7
        == x) by (bit_vector)
        requires
            b0 == (x >> 56) as u8,
            b1 == (x >> 48) as u8,
            b2 == (x >> 40) as u8,
            b3 == (x >> 32) as u8,
            b4 == (x >> 24) as u8,
            b5 == (x >> 16) as u8,
            b6 == (x >> 8) as u8,
            b7 == x as u8,
    ;
}

/// Different integers have different encodings.
pub proof fn lemma_be_bytes_injective(a: u64, b: u64)
    requires
        be_bytes(a) == be_bytes(b),
    ensures
        a == b,
{
    lemma_be_bytes_value(a);
    lemma_be_bytes_value(b);
}

/// A message has sixteen bytes; the first eight are the timestamp's, the
/// last eight the salt's.
pub proof fn lemma_message_layout(timestamp: u64, salt: u64)
    ensures
        message(timestamp, salt).len() == 16,
        message(timestamp, salt).subrange(0, 8) == be_bytes(timestamp),
        message(timestamp, salt).subrange(8, 16) == be_bytes(salt),
{
    assert(message(timestamp, salt).subrange(0, 8) =~= be_bytes(timestamp));
    assert(message(timestamp, salt).subrange(8, 16) =~= be_bytes(salt));
}

/// A message determines both the timestamp and the salt it was built from.
pub proof fn lemma_message_injective(t1: u64, s1: u64, t2: u64, s2: u64)
    requires
        message(t1, s1) == message(t2, s2),
    ensures
        t1 == t2,
        s1 == s2,
{
    lemma_message_layout(t1, s1);
    lemma_message_layout(t2, s2);
    lemma_be_bytes_injective(t1, t2);
    lemma_be_bytes_injective(s1, s2);
}

/// Two draws with different salts never hash the same message, whatever the
/// timestamps are. With one timestamp the two messages agree on their first
/// eight bytes and differ only within the last eight.
pub proof fn lemma_messages_differ(t1: u64, s1: u64, t2: u64, s2: u64)
    requires
        s1 != s2,
    ensures
        message(t1, s1) != message(t2, s2),
        message(t1, s1).subrange(8, 16) != message(t2, s2).subrange(8, 16),
        t1 == t2 ==> message(t1, s1).subrange(0, 8) == message(t2, s2).subrange(0, 8),
{
    lemma_message_layout(t1, s1);
    lemma_message_layout(t2, s2);
    if be_bytes(s1) == be_bytes(s2) {
        lemma_be_bytes_injective(s1, s2);
    }
}

/// Appends the big-endian bytes of `x` to `buf`.
pub fn push_be_bytes(buf: &mut Vec<u8>, x: u64)
    ensures
        final(buf)@ == old(buf)@ + be_bytes(x),
{
    buf.push(#[verifier::truncate] ((x >> 56) as u8));
    buf.push(#[verifier::truncate] ((x >> 48) as u8));
    buf.push(#[verifier::truncate] ((x >> 40) as u8));
    buf.push(#[verifier::truncate] ((x >> 32) as u8));
    buf.push(#[verifier::truncate] ((x >> 24) as u8));
    buf.push(#[verifier::truncate] ((x >> 16) as u8));
    buf.push(#[verifier::truncate] ((x >> 8) as u8));
    buf.push(#[verifier::truncate] (x as u8));
    assert(buf@ =~= old(buf)@ + be_bytes(x));
}

/// Builds the message hashed for one draw.
pub fn encode_message(timestamp: u64, salt: u64) -> (input: Vec<u8>)
    ensures
        input@ == message(timestamp, salt),
{
    let mut input: Vec<u8> = Vec::new();
    push_be_bytes(&mut input, timestamp);
    push_be_bytes(&mut input, salt);
    assert(input@ =~= message(timestamp, salt));
    input
}

} // verus!
