//! Content hashing: SHA-256 digests and their lower-case hex encoding.

use vstd::prelude::*;
use vstd::string::StringExecFns;

verus! {

/// The SHA-256 digest of a byte sequence: the 32 digest bytes.
pub uninterp spec fn sha256_of(data: Seq<u8>) -> Seq<u8>;

/// Relies on sha2::Sha256 through digest::Digest::digest: the digest is a
/// function of the input bytes alone, and is exactly 32 bytes long.
#[verifier::external_body]
pub fn sha256_digest(data: &[u8]) -> (digest: Vec<u8>)
    ensures
        digest@ == sha256_of(data@),
        digest@.len() == 32,
{
    <sha2::Sha256 as sha2::Digest>::digest(data).as_slice().to_vec()
}

/// The lower-case hex character for a value below 16.
pub open spec fn hex_digit_lower(d: u8) -> char {
    if d == 0 { '0' } else if d == 1 { '1' } else if d == 2 { '2' } else if d == 3 { '3' }
    else if d == 4 { '4' } else if d == 5 { '5' } else if d == 6 { '6' } else if d == 7 { '7' }
    else if d == 8 { '8' } else if d == 9 { '9' } else if d == 10 { 'a' } else if d == 11 { 'b' }
    else if d == 12 { 'c' } else if d == 13 { 'd' } else if d == 14 { 'e' } else { 'f' }
}

/// Lower-case hex encoding of a byte sequence: two characters per byte,
/// high nibble first.
pub open spec fn spec_hex_lower(data: Seq<u8>) -> Seq<char> {
    Seq::new(
        data.len() * 2,
        |i: int|
            if i % 2 == 0 {
                hex_digit_lower((data[i / 2] / 16) as u8)
            } else {
                hex_digit_lower((data[i / 2] % 16) as u8)
            },
    )
}

/// Returns the lower-case hex character for `d`, which must be below 16,
/// as a one-character string.
fn hex_digit_str(d: u8) -> (r: &'static str)
    requires
        d < 16,
    ensures
        r@ =~= seq![hex_digit_lower(d)],
{
    proof {
        reveal_strlit("0");
        reveal_strlit("1");
        reveal_strlit("2");
        reveal_strlit("3");
        reveal_strlit("4");
        reveal_strlit("5");
        reveal_strlit("6");
        reveal_strlit("7");
        reveal_strlit("8");
        reveal_strlit("9");
        reveal_strlit("a");
        reveal_strlit("b");
        reveal_strlit("c");
        reveal_strlit("d");
        reveal_strlit("e");
        reveal_strlit("f");
    }
    match d {
        0 => "0",
        1 => "1",
        2 => "2",
        3 => "3",
        4 => "4",
        5 => "5",
        6 => "6",
        7 => "7",
        8 => "8",
        9 => "9",
        10 => "a",
        11 => "b",
        12 => "c",
        13 => "d",
        14 => "e",
        _ => "f",
    }
}

/// Encodes a byte slice as a lower-case hex string.
pub fn to_hex_lower(data: &[u8]) -> (out: String)
    ensures
        out@ == spec_hex_lower(data@),
{
    let mut out = String::new();
    let n = data.len();
    let mut i: usize = 0;
    while i < n
        invariant
            i <= n,
            n == data@.len(),
            out@ =~= spec_hex_lower(data@.take(i as int)),
        decreases n - i,
    {
        let b = data[i];
        out.append(hex_digit_str(b / 16));
        out.append(hex_digit_str(b % 16));
        i = i + 1;
        assert(out@ =~= spec_hex_lower(data@.take(i as int)));
    }
    assert(data@.take(n as int) =~= data@);
    out
}

/// The hex form of the SHA-256 digest of `data`: 64 lower-case characters.
pub fn sha256_hex(data: &[u8]) -> (out: String)
    ensures
        out@ == spec_hex_lower(sha256_of(data@)),
        out@.len() == 64,
{
    let digest = sha256_digest(data);
    to_hex_lower(digest.as_slice())
}

} // verus!
