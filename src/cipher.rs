use vstd::prelude::*;
use vstd::string::StringSliceAdditionalSpecFns;
use vstd::utf8::encode_utf8;
use vstd::utf8::is_ascii_chars_encode_utf8;

use openssl::error::ErrorStack;
use openssl::symm::Cipher;
use openssl::symm::Crypter;
use openssl::symm::Mode;

use crate::error::PinError;
use crate::hex_text::ascii_chars;
use crate::hex_text::ascii_codes;
use crate::hex_text::chars_result;
use crate::hex_text::decode_hex;
use crate::hex_text::encode_hex_upper;
use crate::hex_text::hex_bytes;
use crate::hex_text::hex_upper;
use crate::hex_text::is_hex_text;
use crate::hex_text::is_upper_hex_text;
use crate::hex_text::lemma_hex_upper_decodes;
use crate::hex_text::lemma_upper_text_reencodes;
use crate::hex_text::xor_seq;
use crate::pin_block::decode_spec;
use crate::pin_block::encode_spec;
use crate::pin_block::is_decimal_text;
use crate::pin_block::lemma_pin_block_round_trip;
use crate::pin_block::pan_field;
use crate::pin_block::pin_field;

verus! {

/// The longest hex text that the cipher functions take: the cipher library
/// handles at most `i32::MAX` bytes in one call.
pub const MAX_CIPHER_HEX_LEN: usize = 0x7fff_0000;

/// Triple-DES (EDE, three 8-byte keys) in ECB mode without padding, encrypting
/// `data` under `key`.
pub uninterp spec fn des_ede3_ecb_encrypted(key: Seq<u8>, data: Seq<u8>) -> Seq<u8>;

/// Triple-DES (EDE, three 8-byte keys) in ECB mode without padding, decrypting
/// `data` under `key`.
pub uninterp spec fn des_ede3_ecb_decrypted(key: Seq<u8>, data: Seq<u8>) -> Seq<u8>;

#[verifier::external_type_specification]
#[verifier::external_body]
pub struct ExErrorStack(ErrorStack);

/// Relies on openssl's `Crypter` over `Cipher::des_ede3_ecb()` in encrypt
/// mode with padding off (`new`, `pad`, `update`, `finalize`): what it returns
/// on success is the Triple-DES ECB encryption of `data` under `key`, as long
/// as `data` (no padding), which decryption under the same key turns back
/// into `data`.
#[verifier::external_body]
fn des_ede3_ecb_encrypt(key: &[u8], data: &[u8]) -> (r: Result<Vec<u8>, ErrorStack>)
    requires
        key@.len() == 24,
        data@.len() <= MAX_CIPHER_HEX_LEN,
    ensures
        r is Ok ==> r->Ok_0@ == des_ede3_ecb_encrypted(key@, data@),
        r is Ok ==> r->Ok_0@.len() == data@.len(),
        r is Ok ==> des_ede3_ecb_decrypted(key@, r->Ok_0@) == data@,
{
    let cipher = Cipher::des_ede3_ecb();
    let mut crypter = Crypter::new(cipher, Mode::Encrypt, key, None)?;
    crypter.pad(false);
    let mut out = vec![0u8; data.len() + cipher.block_size()];
    let count = crypter.update(data, &mut out)?;
    let rest = crypter.finalize(&mut out[count..])?;
    out.truncate(count + rest);
    Ok(out)
}

/// Relies on openssl's `Crypter` over `Cipher::des_ede3_ecb()` in decrypt
/// mode with padding off (`new`, `pad`, `update`, `finalize`): what it returns
/// on success is the Triple-DES ECB decryption of `data` under `key`, as long
/// as `data` (no padding), which encryption under the same key turns back
/// into `data`.
#[verifier::external_body]
fn des_ede3_ecb_decrypt(key: &[u8], data: &[u8]) -> (r: Result<Vec<u8>, ErrorStack>)
    requires
        key@.len() == 24,
        data@.len() <= MAX_CIPHER_HEX_LEN,
    ensures
        r is Ok ==> r->Ok_0@ == des_ede3_ecb_decrypted(key@, data@),
        r is Ok ==> r->Ok_0@.len() == data@.len(),
        r is Ok ==> des_ede3_ecb_encrypted(key@, r->Ok_0@) == data@,
{
    let cipher = Cipher::des_ede3_ecb();
    let mut crypter = Crypter::new(cipher, Mode::Decrypt, key, None)?;
    crypter.pad(false);
    let mut out = vec![0u8; data.len() + cipher.block_size()];
    let count = crypter.update(data, &mut out)?;
    let rest = crypter.finalize(&mut out[count..])?;
    out.truncate(count + rest);
    Ok(out)
}

/// The error that a key text and a data text are rejected with before any
/// cipher work, if any: the key must be 48 characters, both texts must be
/// hex, and the data must be a positive number of whole 8-byte blocks that
/// the cipher library can take in one call.
pub open spec fn cipher_input_error(key: Seq<u8>, data: Seq<u8>) -> Option<PinError> {
    if key.len() != 48 {
        Some(PinError::InvalidKeyLength)
    } else if !is_hex_text(key) || !is_hex_text(data) {
        Some(PinError::InvalidEncoding)
    } else if data.len() == 0 || data.len() % 16 != 0 || data.len() > MAX_CIPHER_HEX_LEN {
        Some(PinError::InvalidBlockLength)
    } else {
        None
    }
}

/// What encrypting the hex text `data` under the hex key `key` may give:
/// the input error if there is one; else either the uppercase hex of the
/// Triple-DES encryption, as long as the data and decrypting back to it, or
/// a cipher failure.
pub open spec fn encrypt_outcome(key: Seq<u8>, data: Seq<u8>, r: Result<Seq<char>, PinError>) -> bool {
    match cipher_input_error(key, data) {
        Some(e) => r == Err::<Seq<char>, PinError>(e),
        None => match r {
            Ok(c) => {
                let k = hex_bytes(key);
                let d = hex_bytes(data);
                &&& c == hex_upper(des_ede3_ecb_encrypted(k, d))
                &&& c.len() == data.len()
                &&& des_ede3_ecb_encrypted(k, d).len() == d.len()
                &&& des_ede3_ecb_decrypted(k, des_ede3_ecb_encrypted(k, d)) == d
            },
            Err(e) => e is CipherFailure,
        },
    }
}

/// What decrypting the hex text `data` under the hex key `key` may give:
/// the input error if there is one; else either the uppercase hex of the
/// Triple-DES decryption, as long as the data and encrypting back to it, or
/// a cipher failure.
pub open spec fn decrypt_outcome(key: Seq<u8>, data: Seq<u8>, r: Result<Seq<char>, PinError>) -> bool {
    match cipher_input_error(key, data) {
        Some(e) => r == Err::<Seq<char>, PinError>(e),
        None => match r {
            Ok(p) => {
                let k = hex_bytes(key);
                let d = hex_bytes(data);
                &&& p == hex_upper(des_ede3_ecb_decrypted(k, d))
                &&& p.len() == data.len()
                &&& des_ede3_ecb_decrypted(k, d).len() == d.len()
                &&& des_ede3_ecb_encrypted(k, des_ede3_ecb_decrypted(k, d)) == d
            },
            Err(e) => e is CipherFailure,
        },
    }
}

/// Checks the key and data texts and decodes both from hex.
fn cipher_inputs(key: &[u8], data: &[u8]) -> (r: Result<(Vec<u8>, Vec<u8>), PinError>)
    ensures
        match cipher_input_error(key@, data@) {
            Some(e) => r == Err::<(Vec<u8>, Vec<u8>), PinError>(e),
            None => r is Ok && r->Ok_0.0@ == hex_bytes(key@) && r->Ok_0.1@ == hex_bytes(data@),
        },
{
    if key.len() != 48 {
        return Err(PinError::InvalidKeyLength);
    }
    let key_bytes = match decode_hex(key) {
        Ok(v) => v,
        Err(_) => return Err(PinError::InvalidEncoding),
    };
    let data_bytes = match decode_hex(data) {
        Ok(v) => v,
        Err(_) => return Err(PinError::InvalidEncoding),
    };
    if data.len() == 0 || data.len() % 16 != 0 || data.len() > MAX_CIPHER_HEX_LEN {
        return Err(PinError::InvalidBlockLength);
    }
    Ok((key_bytes, data_bytes))
}

/// Encrypts the hex text `data` with Triple-DES in ECB mode, without padding,
/// under the 48-hex-digit key `key`, and gives the ciphertext as uppercase hex.
pub fn encrypt_data(key: &str, data: &str) -> (r: Result<String, PinError>)
    ensures
        encrypt_outcome(key.spec_bytes(), data.spec_bytes(), chars_result(r)),
        key.spec_bytes().len() != 48 ==> r == Err::<String, PinError>(PinError::InvalidKeyLength),
{
    let (key_bytes, data_bytes) = match cipher_inputs(key.as_bytes(), data.as_bytes()) {
        Ok(p) => p,
        Err(e) => return Err(e),
    };
    match des_ede3_ecb_encrypt(key_bytes.as_slice(), data_bytes.as_slice()) {
        Ok(out) => Ok(encode_hex_upper(out.as_slice())),
        Err(e) => Err(PinError::CipherFailure(e.to_string())),
    }
}

/// Decrypts the hex text `data` with Triple-DES in ECB mode, without padding,
/// under the 48-hex-digit key `key`, and gives the plaintext as uppercase hex.
pub fn decrypt_data(key: &str, data: &str) -> (r: Result<String, PinError>)
    ensures
        decrypt_outcome(key.spec_bytes(), data.spec_bytes(), chars_result(r)),
        key.spec_bytes().len() != 48 ==> r == Err::<String, PinError>(PinError::InvalidKeyLength),
{
    let (key_bytes, data_bytes) = match cipher_inputs(key.as_bytes(), data.as_bytes()) {
        Ok(p) => p,
        Err(e) => return Err(e),
    };
    match des_ede3_ecb_decrypt(key_bytes.as_slice(), data_bytes.as_slice()) {
        Ok(out) => Ok(encode_hex_upper(out.as_slice())),
        Err(e) => Err(PinError::CipherFailure(e.to_string())),
    }
}

/// Decrypting what encryption gave, under the same valid key, gives back the
/// plaintext, for every plaintext of whole 8-byte blocks in uppercase hex.
pub proof fn lemma_cipher_round_trip(key: Seq<u8>, pt: Seq<u8>, ct: Seq<char>, back: Seq<char>)
    requires
        key.len() == 48,
        is_hex_text(key),
        pt.len() > 0,
        pt.len() % 16 == 0,
        is_upper_hex_text(pt),
        encrypt_outcome(key, pt, Ok(ct)),
        decrypt_outcome(key, encode_utf8(ct), Ok(back)),
    ensures
        back == ascii_chars(pt),
{
    let k = hex_bytes(key);
    let d = hex_bytes(pt);
    let e = des_ede3_ecb_encrypted(k, d);
    lemma_hex_upper_decodes(e);
    is_ascii_chars_encode_utf8(ct);
    assert(encode_utf8(ct) =~= ascii_codes(ct));
    lemma_upper_text_reencodes(pt);
}

/// Encrypting what decryption gave, under the same valid key, gives back the
/// ciphertext, for every ciphertext of whole 8-byte blocks in uppercase hex.
pub proof fn lemma_cipher_inverse_round_trip(
    key: Seq<u8>,
    ct: Seq<u8>,
    pt: Seq<char>,
    again: Seq<char>,
)
    requires
        key.len() == 48,
        is_hex_text(key),
        ct.len() > 0,
        ct.len() % 16 == 0,
        is_upper_hex_text(ct),
        decrypt_outcome(key, ct, Ok(pt)),
        encrypt_outcome(key, encode_utf8(pt), Ok(again)),
    ensures
        again == ascii_chars(ct),
{
    let k = hex_bytes(key);
    let d = hex_bytes(ct);
    let p = des_ede3_ecb_decrypted(k, d);
    lemma_hex_upper_decodes(p);
    is_ascii_chars_encode_utf8(pt);
    assert(encode_utf8(pt) =~= ascii_codes(pt));
    lemma_upper_text_reencodes(ct);
}

/// Building a PIN block, encrypting it, decrypting what came out and reading
/// the PIN back, under one valid key and one PAN, gives the PIN, for every
/// decimal PIN of 4 to 6 digits and every decimal PAN of at least 13 digits.
pub proof fn lemma_end_to_end_round_trip(
    pin: Seq<u8>,
    pan: Seq<u8>,
    key: Seq<u8>,
    ct: Seq<char>,
    back: Seq<char>,
)
    requires
        4 <= pin.len() <= 6,
        pan.len() >= 13,
        is_decimal_text(pin),
        is_decimal_text(pan),
        key.len() == 48,
        is_hex_text(key),
        encrypt_outcome(key, encode_utf8(encode_spec(pin, pan)->Ok_0), Ok(ct)),
        decrypt_outcome(key, encode_utf8(ct), Ok(back)),
    ensures
        decode_spec(encode_utf8(back), pan) == Ok::<Seq<char>, PinError>(ascii_chars(pin)),
{
    lemma_pin_block_round_trip(pin, pan);
    let b = encode_spec(pin, pan)->Ok_0;
    let pf = pin_field(pin);
    let nf = pan_field(pan);
    let x = xor_seq(hex_bytes(pf), hex_bytes(nf));
    assert(b == hex_upper(x));
    lemma_hex_upper_decodes(x);
    is_ascii_chars_encode_utf8(b);
    let pt = encode_utf8(b);
    assert(pt =~= ascii_codes(b));
    lemma_cipher_round_trip(key, pt, ct, back);
    assert(back =~= b);
}

} // verus!
