use vstd::prelude::*;

use vstd::string::StringSliceAdditionalSpecFns;
use vstd::utf8::is_ascii_chars;

use crate::error::PinError;

verus! {

/// An ASCII hex digit, in either case.
pub open spec fn is_hex_byte(b: u8) -> bool {
    (48 <= b <= 57) || (65 <= b <= 70) || (97 <= b <= 102)
}

/// The value of the hex digit `b`.
pub open spec fn hex_val(b: u8) -> u8 {
    if 48 <= b <= 57 {
        (b - 48) as u8
    } else if 65 <= b <= 70 {
        (b - 55) as u8
    } else {
        (b - 87) as u8
    }
}

/// A text that decodes as hex: an even number of hex digits.
pub open spec fn is_hex_text(s: Seq<u8>) -> bool {
    &&& s.len() % 2 == 0
    &&& forall|i: int| 0 <= i < s.len() ==> is_hex_byte(#[trigger] s[i])
}

/// The bytes that a hex text stands for, two digits per byte, high nibble first.
pub open spec fn hex_bytes(s: Seq<u8>) -> Seq<u8> {
    Seq::new(s.len() / 2, |i: int| (hex_val(s[2 * i]) * 16 + hex_val(s[2 * i + 1])) as u8)
}

/// The uppercase hex digit for a nibble `n < 16`.
pub open spec fn upper_digit(n: u8) -> char {
    if n < 10 {
        (n + 48) as char
    } else {
        (n + 55) as char
    }
}

/// Uppercase hex text of a byte string, two digits per byte, high nibble first.
pub open spec fn hex_upper(b: Seq<u8>) -> Seq<char> {
    Seq::new(
        2 * b.len(),
        |i: int|
            if i % 2 == 0 {
                upper_digit(b[i / 2] / 16)
            } else {
                upper_digit(b[i / 2] % 16)
            },
    )
}

/// Byte-wise XOR of two byte strings of equal length.
pub open spec fn xor_seq(x: Seq<u8>, y: Seq<u8>) -> Seq<u8> {
    Seq::new(x.len(), |i: int| x[i] ^ y[i])
}

/// What the hex XOR of the texts `a` and `b` gives.
pub open spec fn xor_hex_spec(a: Seq<u8>, b: Seq<u8>) -> Result<Seq<char>, PinError> {
    if a.len() != b.len() {
        Err(PinError::LengthMismatch)
    } else if !is_hex_text(a) || !is_hex_text(b) {
        Err(PinError::InvalidEncoding)
    } else {
        Ok(hex_upper(xor_seq(hex_bytes(a), hex_bytes(b))))
    }
}

/// A `Result` holding a `String`, seen through the string's characters.
pub open spec fn chars_result(r: Result<String, PinError>) -> Result<Seq<char>, PinError> {
    match r {
        Ok(s) => Ok(s@),
        Err(e) => Err(e),
    }
}

#[verifier::external_type_specification]
#[verifier::external_body]
pub struct ExFromHexError(hex::FromHexError);

/// Relies on hex::decode: it accepts an even number of hex digits of either
/// case and yields one byte per pair, high nibble first; anything else is an error.
#[verifier::external_body]
pub(crate) fn decode_hex(s: &[u8]) -> (r: Result<Vec<u8>, hex::FromHexError>)
    ensures
        r is Ok <==> is_hex_text(s@),
        r is Ok ==> r->Ok_0@ == hex_bytes(s@),
{
    hex::decode(s)
}

/// Relies on hex::encode_upper: two uppercase hex digits per byte, high nibble first.
#[verifier::external_body]
pub(crate) fn encode_hex_upper(b: &[u8]) -> (r: String)
    ensures
        r@ == hex_upper(b@),
{
    hex::encode_upper(b)
}

/// Hex XOR of two byte texts: both are decoded, XORed byte by byte, and
/// the result is written as uppercase hex.
pub(crate) fn xor_hex_bytes(a: &[u8], b: &[u8]) -> (r: Result<String, PinError>)
    ensures
        chars_result(r) == xor_hex_spec(a@, b@),
{
    if a.len() != b.len() {
        return Err(PinError::LengthMismatch);
    }
    let ab = match decode_hex(a) {
        Ok(v) => v,
        Err(_) => return Err(PinError::InvalidEncoding),
    };
    let bb = match decode_hex(b) {
        Ok(v) => v,
        Err(_) => return Err(PinError::InvalidEncoding),
    };
    let mut out: Vec<u8> = Vec::new();
    let mut i: usize = 0;
    while i < ab.len()
        invariant
            ab@ == hex_bytes(a@),
            bb@ == hex_bytes(b@),
            ab@.len() == bb@.len(),
            i <= ab@.len(),
            out@.len() == i,
            forall|j: int| 0 <= j < i ==> #[trigger] out@[j] == ab@[j] ^ bb@[j],
        decreases ab.len() - i,
    {
        out.push(ab[i] ^ bb[i]);
        i = i + 1;
    }
    assert(out@ =~= xor_seq(ab@, bb@));
    Ok(encode_hex_upper(out.as_slice()))
}

/// XORs two hex texts of equal length byte by byte and gives the result as
/// uppercase hex, as long as each input.
pub fn xor_hex(a: &str, b: &str) -> (r: Result<String, PinError>)
    ensures
        chars_result(r) == xor_hex_spec(a.spec_bytes(), b.spec_bytes()),
        r is Ok ==> r->Ok_0@.len() == a.spec_bytes().len(),
{
    xor_hex_bytes(a.as_bytes(), b.as_bytes())
}

/// The ASCII codes of a character sequence.
pub open spec fn ascii_codes(c: Seq<char>) -> Seq<u8> {
    Seq::new(c.len(), |i: int| c[i] as u8)
}

/// An uppercase hex digit.
pub open spec fn is_upper_hex_byte(b: u8) -> bool {
    (48 <= b <= 57) || (65 <= b <= 70)
}

/// A hex text written in uppercase digits only.
pub open spec fn is_upper_hex_text(s: Seq<u8>) -> bool {
    &&& s.len() % 2 == 0
    &&& forall|i: int| 0 <= i < s.len() ==> is_upper_hex_byte(#[trigger] s[i])
}

/// The characters of an ASCII byte string.
pub open spec fn ascii_chars(s: Seq<u8>) -> Seq<char> {
    Seq::new(s.len(), |i: int| s[i] as char)
}

proof fn lemma_nibble_digit(n: u8)
    requires
        n < 16,
    ensures
        is_upper_hex_byte(upper_digit(n) as u8),
        hex_val(upper_digit(n) as u8) == n,
        upper_digit(n) as u8 as char == upper_digit(n),
{
}

proof fn lemma_digit_nibble(b: u8)
    requires
        is_upper_hex_byte(b),
    ensures
        hex_val(b) < 16,
        upper_digit(hex_val(b)) == b as char,
{
}

/// Uppercase hex of any bytes is ASCII, decodes as hex, and decodes back to
/// the same bytes.
pub proof fn lemma_hex_upper_decodes(x: Seq<u8>)
    ensures
        is_ascii_chars(hex_upper(x)),
        is_upper_hex_text(ascii_codes(hex_upper(x))),
        is_hex_text(ascii_codes(hex_upper(x))),
        hex_bytes(ascii_codes(hex_upper(x))) == x,
        ascii_chars(ascii_codes(hex_upper(x))) == hex_upper(x),
{
    let h = hex_upper(x);
    let c = ascii_codes(h);
    assert forall|i: int| 0 <= i < c.len() implies is_upper_hex_byte(#[trigger] c[i])
        && h[i] as u8 as char == h[i] by {
        lemma_nibble_digit(x[i / 2] / 16);
        lemma_nibble_digit(x[i / 2] % 16);
    }
    assert forall|i: int| 0 <= i < h.len() implies '\0' <= #[trigger] h[i] <= '\u{7f}' by {
        lemma_nibble_digit(x[i / 2] / 16);
        lemma_nibble_digit(x[i / 2] % 16);
    }
    assert forall|i: int| 0 <= i < x.len() implies #[trigger] hex_bytes(c)[i] == x[i] by {
        lemma_nibble_digit(x[i] / 16);
        lemma_nibble_digit(x[i] % 16);
        assert(c[2 * i] == upper_digit(x[i] / 16) as u8);
        assert(c[2 * i + 1] == upper_digit(x[i] % 16) as u8);
    }
    assert(hex_bytes(c) =~= x);
    assert(ascii_chars(c) =~= h);
}

/// Decoding an uppercase hex text and writing it again in uppercase gives
/// the text back.
pub proof fn lemma_upper_text_reencodes(s: Seq<u8>)
    requires
        is_upper_hex_text(s),
    ensures
        hex_upper(hex_bytes(s)) == ascii_chars(s),
{
    let b = hex_bytes(s);
    assert forall|i: int| 0 <= i < s.len() implies #[trigger] hex_upper(b)[i] == s[i] as char by {
        let k = i / 2;
        let hi = s[2 * k];
        let lo = s[2 * k + 1];
        lemma_digit_nibble(hi);
        lemma_digit_nibble(lo);
        assert(b[k] == hex_val(hi) * 16 + hex_val(lo));
        assert(b[k] / 16 == hex_val(hi));
        assert(b[k] % 16 == hex_val(lo));
    }
    assert(hex_upper(b) =~= ascii_chars(s));
}

/// XOR with the same bytes twice gives the first operand back.
pub proof fn lemma_xor_cancel(p: Seq<u8>, q: Seq<u8>)
    requires
        p.len() == q.len(),
    ensures
        xor_seq(q, xor_seq(p, q)) == p,
{
    assert forall|i: int| 0 <= i < p.len() implies #[trigger] xor_seq(q, xor_seq(p, q))[i]
        == p[i] by {
        let a = p[i];
        let c = q[i];
        assert(c ^ (a ^ c) == a) by (bit_vector);
    }
    assert(xor_seq(q, xor_seq(p, q)) =~= p);
}

} // verus!
