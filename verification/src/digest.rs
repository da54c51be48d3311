//! Content addresses: the SHA-256 digest of a payload, written as 64
//! lower-case hexadecimal digits.
use vstd::prelude::*;
use crate::outside::{sha256, sha256_of};

verus! {

/// The character for a value below sixteen.
pub open spec fn hex_digit(n: int) -> char {
    if n < 10 {
        (('0' as int) + n) as char
    } else {
        (('a' as int) + n - 10) as char
    }
}

/// Bytes written as hexadecimal digits, the high half of each byte first.
pub open spec fn hex_text(data: Seq<u8>) -> Seq<char> {
    Seq::new(
        2 * data.len(),
        |i: int|
            if i % 2 == 0 {
                hex_digit((data[i / 2] as int) / 16)
            } else {
                hex_digit((data[i / 2] as int) % 16)
            },
    )
}

/// The content address of a payload.
pub open spec fn content_hash(data: Seq<u8>) -> Seq<char> {
    hex_text(sha256_of(data))
}

/// The hexadecimal digit of a value below sixteen.
fn digit(n: u8) -> (c: char)
    requires
        n < 16,
    ensures
        c == hex_digit(n as int),
{
    if n < 10 {
        (48u8 + n) as char
    } else {
        (97u8 + (n - 10)) as char
    }
}

/// Writes bytes as lower-case hexadecimal digits.
pub fn to_hex(data: &[u8]) -> (r: String)
    ensures
        r@ == hex_text(data@),
{
    let mut r = String::new();
    let mut i: usize = 0;
    while i < data.len()
        invariant
            i <= data.len(),
            r@ == hex_text(data@.take(i as int)),
        decreases data.len() - i,
    {
        let b = data[i];
        r.push(digit(b / 16));
        r.push(digit(b % 16));
        i += 1;
        assert(r@ =~= hex_text(data@.take(i as int)));
    }
    assert(data@.take(data.len() as int) =~= data@);
    r
}

/// Computes the content address of a payload.
pub fn hash_of(data: &[u8]) -> (r: String)
    ensures
        r@ == content_hash(data@),
        r@.len() == 64,
{
    let d = sha256(data);
    to_hex(d.as_slice())
}

} // verus!
