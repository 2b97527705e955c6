use vstd::prelude::*;

verus! {

/// The ways in which building, reading or enciphering a PIN block can fail.
#[derive(Debug, Clone, PartialEq, Eq)]
pub enum PinError {
    /// The PIN is shorter than 4 or longer than 6 characters.
    InvalidPinLength,
    /// The PAN has fewer than 13 characters.
    InvalidPanLength,
    /// A PIN block is not 16 hex characters long, or cipher input is not a
    /// positive number of whole 8-byte blocks (or is too long for the cipher
    /// library to take in one call).
    InvalidBlockLength,
    /// The length prefix of a recovered PIN field is not two decimal digits.
    InvalidLengthDigit,
    /// The length prefix of a recovered PIN field is outside 1 to 6.
    PinOutOfRange,
    /// A Triple-DES key is not 48 hex characters long.
    InvalidKeyLength,
    /// A text that must be hex holds an odd number of characters or a
    /// character that is not a hex digit.
    InvalidEncoding,
    /// The two operands of a hex XOR differ in length.
    LengthMismatch,
    /// The cipher library reported an error; the text is its own account of it.
    CipherFailure(String),
}

} // verus!
