//! SHA-2 digests and their hexadecimal form.

use sha2::{Digest, Sha256, Sha512};
use vstd::prelude::*;

verus! {

/// The SHA-256 digest of a message.
pub uninterp spec fn sha256_digest(data: Seq<u8>) -> Seq<u8>;

/// The SHA-512 digest of a message.
pub uninterp spec fn sha512_digest(data: Seq<u8>) -> Seq<u8>;

/// `sha2::Sha256::digest`: the digest depends on the message alone, and has
/// 32 bytes.
#[verifier::external_body]
pub(crate) fn sha256_of(data: &[u8]) -> (r: Vec<u8>)
    ensures
        r@ == sha256_digest(data@),
        r@.len() == 32,
{
    Sha256::digest(data).to_vec()
}

/// `sha2::Sha512::digest`: the digest depends on the message alone, and has
/// 64 bytes.
#[verifier::external_body]
pub(crate) fn sha512_of(data: &[u8]) -> (r: Vec<u8>)
    ensures
        r@ == sha512_digest(data@),
        r@.len() == 64,
{
    Sha512::digest(data).to_vec()
}

/// The lower-case hexadecimal digit of a value below sixteen.
pub open spec fn hex_digit(v: int) -> char {
    if v < 10 {
        (('0' as u8 + v) as u8) as char
    } else {
        (('a' as u8 + v - 10) as u8) as char
    }
}

/// Two lower-case hexadecimal digits for each byte, the high half first.
pub open spec fn hex_lower(data: Seq<u8>) -> Seq<char> {
    Seq::new(
        2 * data.len(),
        |i: int| hex_digit(if i % 2 == 0 { data[i / 2] as int / 16 } else { data[i / 2] as int % 16 }),
    )
}

/// Whether a character is a lower-case hexadecimal digit.
pub open spec fn is_lower_hex(c: char) -> bool {
    48 <= c as u32 <= 57 || 97 <= c as u32 <= 102
}

/// Whether a text is made of `n` lower-case hexadecimal digits.
pub open spec fn is_hex_of_length(text: Seq<char>, n: nat) -> bool {
    &&& text.len() == n
    &&& forall|i: int| 0 <= i < text.len() ==> is_lower_hex(#[trigger] text[i])
}

/// The hexadecimal form of a byte string has two digits for each byte.
pub proof fn lemma_hex_lower_shape(data: Seq<u8>)
    ensures
        is_hex_of_length(hex_lower(data), 2 * data.len()),
{
    assert forall|i: int| 0 <= i < hex_lower(data).len() implies is_lower_hex(
        #[trigger] hex_lower(data)[i],
    ) by {
        let v = if i % 2 == 0 {
            data[i / 2] as int / 16
        } else {
            data[i / 2] as int % 16
        };
        assert(0 <= v < 16);
        assert(hex_lower(data)[i] == hex_digit(v));
        assert((hex_digit(v) as u32) as int == (if v < 10 {
            48 + v
        } else {
            87 + v
        }));
    }
}

/// `hex::encode`: each byte becomes its two lower-case hexadecimal digits.
#[verifier::external_body]
pub(crate) fn hex_encode(data: &[u8]) -> (r: String)
    ensures
        r@ == hex_lower(data@),
{
    hex::encode(data)
}

/// Different byte strings have different hexadecimal forms.
pub proof fn lemma_hex_lower_injective(a: Seq<u8>, b: Seq<u8>)
    requires
        hex_lower(a) == hex_lower(b),
    ensures
        a == b,
{
    assert(hex_lower(a).len() == 2 * a.len());
    assert(hex_lower(b).len() == 2 * b.len());
    assert forall|k: int| 0 <= k < a.len() implies a[k] == b[k] by {
        let hi_a = hex_lower(a)[2 * k];
        let lo_a = hex_lower(a)[2 * k + 1];
        let hi_b = hex_lower(b)[2 * k];
        let lo_b = hex_lower(b)[2 * k + 1];
        assert(hi_a == hex_digit(a[k] as int / 16));
        assert(lo_a == hex_digit(a[k] as int % 16));
        assert(hi_b == hex_digit(b[k] as int / 16));
        assert(lo_b == hex_digit(b[k] as int % 16));
        lemma_hex_digit_injective(a[k] as int / 16, b[k] as int / 16);
        lemma_hex_digit_injective(a[k] as int % 16, b[k] as int % 16);
    }
    assert(a =~= b);
}

/// Different values below sixteen have different digits.
pub proof fn lemma_hex_digit_injective(v: int, w: int)
    requires
        0 <= v < 16,
        0 <= w < 16,
        hex_digit(v) == hex_digit(w),
    ensures
        v == w,
{
    assert((hex_digit(v) as u8) as int == (if v < 10 { 48 + v } else { 87 + v }));
    assert((hex_digit(w) as u8) as int == (if w < 10 { 48 + w } else { 87 + w }));
}

} // verus!
