//! Content identifiers: the lower-case hex form of the SHA-256 digest of an
//! object's bytes.

use vstd::prelude::*;

verus! {

/// What SHA-256 computes of a byte string.
pub uninterp spec fn sha256(data: Seq<u8>) -> Seq<u8>;

/// The SHA-256 digest of `data`, computed by `sha2::Sha256` through the
/// `sha2::Digest::digest` function (a fresh hasher, one `update`, `finalize`).
/// Claimed: the result is `sha256(data)` and holds 32 bytes, the output size of
/// SHA-256 that the `sha2` crate fixes in its type (`U32`).
#[verifier::external_body]
fn sha256_digest(data: &[u8]) -> (digest: Vec<u8>)
    ensures
        digest@ == sha256(data@),
        digest@.len() == 32,
{
    <sha2::Sha256 as sha2::Digest>::digest(data).to_vec()
}

/// `String::push` of std: appends one character.
#[verifier::external_body]
pub(crate) fn push_char(s: &mut String, c: char)
    ensures
        final(s)@ == old(s)@.push(c),
{
    s.push(c)
}

/// The hex digit of a value below sixteen, lower case.
pub open spec fn hex_digit(n: int) -> char {
    seq!['0', '1', '2', '3', '4', '5', '6', '7', '8', '9', 'a', 'b', 'c', 'd', 'e', 'f'][n]
}

/// Lower-case hex of a byte string: byte `k` gives characters `2k` (its high
/// nibble) and `2k + 1` (its low nibble).
pub open spec fn lower_hex(bytes: Seq<u8>) -> Seq<char> {
    Seq::new(
        2 * bytes.len(),
        |i: int|
            if i % 2 == 0 {
                hex_digit(bytes[i / 2] as int / 16)
            } else {
                hex_digit(bytes[i / 2] as int % 16)
            },
    )
}

/// A character of lower-case hex.
pub open spec fn is_lower_hex_char(c: char) -> bool {
    ('0' <= c && c <= '9') || ('a' <= c && c <= 'f')
}

/// The shape of every content identifier: 64 characters of lower-case hex.
pub open spec fn is_content_id(cid: Seq<char>) -> bool {
    &&& cid.len() == 64
    &&& forall|i: int| 0 <= i < cid.len() ==> is_lower_hex_char(#[trigger] cid[i])
}

/// The content identifier of `content`.
pub open spec fn spec_content_id(content: Seq<u8>) -> Seq<char> {
    lower_hex(sha256(content))
}

fn hex_char(n: u8) -> (c: char)
    requires
        n < 16,
    ensures
        c == hex_digit(n as int),
        is_lower_hex_char(c),
{
    let digits: [char; 16] = ['0', '1', '2', '3', '4', '5', '6', '7', '8', '9', 'a', 'b', 'c', 'd', 'e', 'f'];
    assert(digits@ == seq!['0', '1', '2', '3', '4', '5', '6', '7', '8', '9', 'a', 'b', 'c', 'd', 'e', 'f']);
    digits[n as usize]
}

/// Lower-case hex encoding of a byte string, two characters per byte.
pub fn to_lower_hex(bytes: &[u8]) -> (hex: String)
    requires
        2 * bytes@.len() <= usize::MAX,
    ensures
        hex@ == lower_hex(bytes@),
{
    let mut hex = String::new();
    let n = bytes.len();
    for k in 0..n
        invariant
            n == bytes@.len(),
            hex@.len() == 2 * k,
            forall|i: int| 0 <= i < 2 * k ==> hex@[i] == #[trigger] lower_hex(bytes@)[i],
    {
        let b = bytes[k];
        let hi = hex_char(b / 16);
        let lo = hex_char(b % 16);
        push_char(&mut hex, hi);
        push_char(&mut hex, lo);
        assert(lower_hex(bytes@)[2 * k as int] == hi);
        assert(lower_hex(bytes@)[2 * k + 1] == lo);
    }
    assert(hex@ =~= lower_hex(bytes@));
    hex
}

/// The content identifier of an object: the lower-case hex of the SHA-256 of
/// its bytes.
pub fn content_id(content: &[u8]) -> (cid: String)
    ensures
        cid@ == spec_content_id(content@),
        is_content_id(cid@),
{
    let digest = sha256_digest(content);
    let cid = to_lower_hex(digest.as_slice());
    proof {
        lemma_lower_hex_is_content_id(digest@);
    }
    cid
}

/// Every 32-byte digest gives a well-formed content identifier.
pub proof fn lemma_lower_hex_is_content_id(digest: Seq<u8>)
    requires
        digest.len() == 32,
    ensures
        is_content_id(lower_hex(digest)),
{
    let h = lower_hex(digest);
    assert forall|i: int| 0 <= i < h.len() implies is_lower_hex_char(#[trigger] h[i]) by {
        let b = digest[i / 2] as int;
        let n = if i % 2 == 0 { b / 16 } else { b % 16 };
        assert(0 <= n < 16);
        let t = seq!['0', '1', '2', '3', '4', '5', '6', '7', '8', '9', 'a', 'b', 'c', 'd', 'e', 'f'];
        assert(is_lower_hex_char(t[n]));
    }
}

/// Distinct hex digits stand for distinct values.
proof fn lemma_hex_digit_injective(n: int, m: int)
    requires
        0 <= n < 16,
        0 <= m < 16,
        hex_digit(n) == hex_digit(m),
    ensures
        n == m,
{
    let t = seq!['0', '1', '2', '3', '4', '5', '6', '7', '8', '9', 'a', 'b', 'c', 'd', 'e', 'f'];
    assert(t[n] == t[m]);
}

/// Lower-case hex loses nothing: equal hex means equal bytes.
pub proof fn lemma_lower_hex_injective(d1: Seq<u8>, d2: Seq<u8>)
    requires
        lower_hex(d1) == lower_hex(d2),
    ensures
        d1 == d2,
{
    let h1 = lower_hex(d1);
    let h2 = lower_hex(d2);
    assert(d1.len() == d2.len()) by {
        assert(h1.len() == 2 * d1.len());
        assert(h2.len() == 2 * d2.len());
    }
    assert forall|k: int| 0 <= k < d1.len() implies d1[k] == d2[k] by {
        let i = 2 * k;
        let j = 2 * k + 1;
        assert(i / 2 == k && i % 2 == 0);
        assert(j / 2 == k && j % 2 == 1);
        assert(h1[i] == hex_digit(d1[k] as int / 16));
        assert(h2[i] == hex_digit(d2[k] as int / 16));
        assert(h1[j] == hex_digit(d1[k] as int % 16));
        assert(h2[j] == hex_digit(d2[k] as int % 16));
        lemma_hex_digit_injective(d1[k] as int / 16, d2[k] as int / 16);
        lemma_hex_digit_injective(d1[k] as int % 16, d2[k] as int % 16);
    }
    assert(d1 =~= d2);
}

/// Content addressing: two objects get the same identifier exactly when their
/// SHA-256 digests are equal, and every identifier is 64 characters of
/// lower-case hex.
pub proof fn law_content_addressing(a: Seq<u8>, b: Seq<u8>)
    requires
        sha256(a).len() == 32,
        sha256(b).len() == 32,
    ensures
        (spec_content_id(a) == spec_content_id(b)) <==> (sha256(a) == sha256(b)),
        is_content_id(spec_content_id(a)),
{
    lemma_lower_hex_is_content_id(sha256(a));
    if spec_content_id(a) == spec_content_id(b) {
        lemma_lower_hex_injective(sha256(a), sha256(b));
    }
}

} // verus!
