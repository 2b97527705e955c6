use vstd::prelude::*;
use vstd::string::StrSliceExecFns;
use vstd::string::StringSliceAdditionalSpecFns;
use vstd::utf8::encode_utf8;
use vstd::utf8::is_ascii_chars_encode_utf8;

use crate::error::PinError;
use crate::hex_text::ascii_chars;
use crate::hex_text::ascii_codes;
use crate::hex_text::chars_result;
use crate::hex_text::hex_bytes;
use crate::hex_text::hex_upper;
use crate::hex_text::is_upper_hex_text;
use crate::hex_text::lemma_hex_upper_decodes;
use crate::hex_text::lemma_upper_text_reencodes;
use crate::hex_text::lemma_xor_cancel;
use crate::hex_text::xor_hex_bytes;
use crate::hex_text::xor_hex_spec;
use crate::hex_text::xor_seq;

verus! {

/// The ISO-0 PIN field: the PIN's length as two decimal digits, the PIN, and
/// `F` fill up to 16 characters.
pub open spec fn pin_field(pin: Seq<u8>) -> Seq<u8> {
    seq![48u8, (48 + pin.len()) as u8] + pin + Seq::new((14 - pin.len()) as nat, |i: int| 70u8)
}

/// The ISO-0 PAN field: four `0` digits and the PAN's rightmost 12 digits.
pub open spec fn pan_field(pan: Seq<u8>) -> Seq<u8> {
    seq![48u8, 48u8, 48u8, 48u8] + pan.subrange(pan.len() - 12, pan.len() as int)
}

/// What building the PIN block of `pin` under `pan` gives.
pub open spec fn encode_spec(pin: Seq<u8>, pan: Seq<u8>) -> Result<Seq<char>, PinError> {
    if pin.len() < 4 || pin.len() > 6 {
        Err(PinError::InvalidPinLength)
    } else if pan.len() < 13 {
        Err(PinError::InvalidPanLength)
    } else {
        xor_hex_spec(pin_field(pin), pan_field(pan))
    }
}

/// A decimal digit character.
pub open spec fn is_decimal_char(c: char) -> bool {
    '0' <= c <= '9'
}

/// The PIN held in a recovered PIN field: its first two characters give the
/// length `n` in decimal, and the PIN is the `n` characters that follow.
pub open spec fn pin_of_field(f: Seq<char>) -> Result<Seq<char>, PinError> {
    if f.len() < 2 || !is_decimal_char(f[0]) || !is_decimal_char(f[1]) {
        Err(PinError::InvalidLengthDigit)
    } else {
        let n = 10 * (f[0] as int - 48) + (f[1] as int - 48);
        if n < 1 || n > 6 || 2 + n > f.len() {
            Err(PinError::PinOutOfRange)
        } else {
            Ok(f.subrange(2, 2 + n))
        }
    }
}

/// What reading the PIN out of `block` under `pan` gives.
pub open spec fn decode_spec(block: Seq<u8>, pan: Seq<u8>) -> Result<Seq<char>, PinError> {
    if block.len() != 16 {
        Err(PinError::InvalidBlockLength)
    } else if pan.len() < 13 {
        Err(PinError::InvalidPanLength)
    } else {
        match xor_hex_spec(pan_field(pan), block) {
            Ok(f) => pin_of_field(f),
            Err(e) => Err(e),
        }
    }
}

fn build_pin_field(pin: &[u8]) -> (r: Vec<u8>)
    requires
        4 <= pin@.len() <= 6,
    ensures
        r@ == pin_field(pin@),
{
    let n = pin.len();
    let mut r: Vec<u8> = Vec::new();
    r.push(48u8);
    r.push(48u8 + n as u8);
    let mut i: usize = 0;
    while i < n
        invariant
            n == pin@.len(),
            i <= n,
            r@ == seq![48u8, (48 + n) as u8] + pin@.subrange(0, i as int),
        decreases n - i,
    {
        assert(pin@.subrange(0, i + 1) =~= pin@.subrange(0, i as int).push(pin@[i as int]));
        r.push(pin[i]);
        i = i + 1;
    }
    assert(pin@.subrange(0, n as int) =~= pin@);
    let mut k: usize = 2 + n;
    while k < 16
        invariant
            n == pin@.len(),
            2 + n <= k <= 16,
            r@ == seq![48u8, (48 + n) as u8] + pin@ + Seq::new((k - 2 - n) as nat, |i: int| 70u8),
        decreases 16 - k,
    {
        r.push(70u8);
        k = k + 1;
        assert(Seq::new((k - 2 - n) as nat, |i: int| 70u8) =~= Seq::new(
            (k - 3 - n) as nat,
            |i: int| 70u8,
        ).push(70u8));
    }
    r
}

fn build_pan_field(pan: &[u8]) -> (r: Vec<u8>)
    requires
        pan@.len() >= 12,
    ensures
        r@ == pan_field(pan@),
{
    let n = pan.len();
    let mut r: Vec<u8> = Vec::new();
    r.push(48u8);
    r.push(48u8);
    r.push(48u8);
    r.push(48u8);
    let start: usize = n - 12;
    let mut i: usize = start;
    while i < n
        invariant
            n == pan@.len(),
            start == n - 12,
            start <= i <= n,
            r@ == seq![48u8, 48u8, 48u8, 48u8] + pan@.subrange(start as int, i as int),
        decreases n - i,
    {
        assert(pan@.subrange(start as int, i + 1) =~= pan@.subrange(start as int, i as int).push(
            pan@[i as int],
        ));
        r.push(pan[i]);
        i = i + 1;
    }
    r
}

/// Builds the ISO-0 PIN block of `pin` under the card number `card_number`:
/// the hex XOR of the PIN field and the PAN field, in uppercase.
pub fn generate_pin_block(pin: &str, card_number: &str) -> (r: Result<String, PinError>)
    ensures
        chars_result(r) == encode_spec(pin.spec_bytes(), card_number.spec_bytes()),
        r is Ok ==> r->Ok_0@.len() == 16,
{
    let pin_bytes = pin.as_bytes();
    let n = pin_bytes.len();
    if n < 4 || n > 6 {
        return Err(PinError::InvalidPinLength);
    }
    let card = card_number.as_bytes();
    if card.len() < 13 {
        return Err(PinError::InvalidPanLength);
    }
    let field = build_pin_field(pin_bytes);
    let pan = build_pan_field(card);
    xor_hex_bytes(field.as_slice(), pan.as_slice())
}

/// Reads the PIN out of a recovered PIN field.
pub fn pin_from_field(field: &str) -> (r: Result<String, PinError>)
    ensures
        chars_result(r) == pin_of_field(field@),
{
    let len = field.unicode_len();
    if len < 2 {
        return Err(PinError::InvalidLengthDigit);
    }
    let c0 = field.get_char(0);
    let c1 = field.get_char(1);
    if !('0' <= c0 && c0 <= '9') || !('0' <= c1 && c1 <= '9') {
        return Err(PinError::InvalidLengthDigit);
    }
    let n: usize = ((c0 as u32 - 48) * 10 + (c1 as u32 - 48)) as usize;
    if n < 1 || n > 6 || 2 + n > len {
        return Err(PinError::PinOutOfRange);
    }
    Ok(field.substring_char(2, 2 + n).to_owned())
}

/// Recovers the PIN from an ISO-0 PIN block under the card number
/// `card_number`.
pub fn extract_pin_from_block(encrypted_pin: &str, card_number: &str) -> (r: Result<
    String,
    PinError,
>)
    ensures
        chars_result(r) == decode_spec(encrypted_pin.spec_bytes(), card_number.spec_bytes()),
{
    let block = encrypted_pin.as_bytes();
    if block.len() != 16 {
        return Err(PinError::InvalidBlockLength);
    }
    let card = card_number.as_bytes();
    if card.len() < 13 {
        return Err(PinError::InvalidPanLength);
    }
    let pan = build_pan_field(card);
    match xor_hex_bytes(pan.as_slice(), block) {
        Ok(field) => pin_from_field(field.as_str()),
        Err(e) => Err(e),
    }
}

/// A text of decimal digits.
pub open spec fn is_decimal_text(s: Seq<u8>) -> bool {
    forall|i: int| 0 <= i < s.len() ==> 48 <= #[trigger] s[i] <= 57
}

/// Reading the PIN back out of the PIN block built from it, under the same
/// PAN, gives the PIN, for every decimal PIN of 4 to 6 digits and every
/// decimal PAN of at least 13 digits.
pub proof fn lemma_pin_block_round_trip(pin: Seq<u8>, pan: Seq<u8>)
    requires
        4 <= pin.len() <= 6,
        pan.len() >= 13,
        is_decimal_text(pin),
        is_decimal_text(pan),
    ensures
        encode_spec(pin, pan) is Ok,
        decode_spec(encode_utf8(encode_spec(pin, pan)->Ok_0), pan) == Ok::<Seq<char>, PinError>(ascii_chars(pin)),
{
    let pf = pin_field(pin);
    let nf = pan_field(pan);
    assert(is_upper_hex_text(pf)) by {
        assert forall|i: int| 0 <= i < pf.len() implies (48 <= #[trigger] pf[i] <= 57 || pf[i]
            == 70) by {
            if 2 <= i < 2 + pin.len() {
                assert(pf[i] == pin[i - 2]);
            }
        }
    }
    assert(is_upper_hex_text(nf)) by {
        assert forall|i: int| 0 <= i < nf.len() implies 48 <= #[trigger] nf[i] <= 57 by {
            if 4 <= i {
                assert(nf[i] == pan[pan.len() - 12 + i - 4]);
            }
        }
    }
    let p = hex_bytes(pf);
    let q = hex_bytes(nf);
    let x = xor_seq(p, q);
    let b = hex_upper(x);
    assert(encode_spec(pin, pan) == Ok::<Seq<char>, PinError>(b));
    lemma_hex_upper_decodes(x);
    is_ascii_chars_encode_utf8(b);
    let bb = encode_utf8(b);
    assert(bb =~= ascii_codes(b));
    lemma_xor_cancel(p, q);
    lemma_upper_text_reencodes(pf);
    let f = ascii_chars(pf);
    assert(xor_hex_spec(nf, bb) == Ok::<Seq<char>, PinError>(f));
    assert(f.subrange(2, 2 + pin.len() as int) =~= ascii_chars(pin));
}

} // verus!
