//! A hex-text / byte-buffer codec with live validation, and a random
//! byte-buffer generator that feeds the same kind of buffer.
//!
//! The codec treats arbitrary user-typed text as a sequence of hex digits:
//! every character must be a hex digit for the text to be valid, characters
//! are paired left to right into bytes, and a trailing unpaired digit is
//! silently dropped. Encoding produces two uppercase digits per byte.

mod codec;
mod generator;

pub use codec::DecodeResult;
pub use codec::all_hex;
pub use codec::decode;
pub use codec::decode_pairs;
pub use codec::encode;
pub use codec::encode_bytes;
pub use codec::hex_char;
pub use codec::is_hex_digit;
pub use codec::nibble_val;
pub use codec::pair_val;
pub use codec::lemma_decoded_length;
pub use codec::lemma_round_trip;
pub use generator::GenerationFailure;
pub use generator::generate;
