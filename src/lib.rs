//! ISO 9564 Format-0 PIN blocks: building them from a PIN and a card number,
//! reading the PIN back, and enciphering blocks with Triple-DES in ECB mode.
pub mod cipher;
pub mod error;
pub mod hex_text;
pub mod pin_block;
