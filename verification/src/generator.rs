//! The random byte-buffer generator.
//!
//! `generate` fills a buffer of a requested length with bytes drawn from the
//! operating system's entropy source. A request for zero bytes is rejected
//! outright, and an unavailable entropy source is reported as a failure
//! rather than surfacing as partially filled or all-zero data.

use vstd::prelude::*;

verus! {

/// Why a generation request produced no buffer.
#[derive(Debug, Clone, Copy, PartialEq, Eq)]
pub enum GenerationFailure {
    /// The requested length was zero; a generated buffer is never empty.
    ZeroLength,
    /// The entropy source reported an error instead of filling the buffer.
    EntropyUnavailable,
}

#[verifier::external_type_specification]
#[verifier::external_body]
pub struct ExGetrandomError(getrandom::Error);

/// Relies on `getrandom::getrandom`: fills the whole slice with bytes from
/// the system's preferred random source, or returns an error on any
/// failure, partial reads included. Nothing is promised of the contents
/// either way — they come from an entropy source on success and are left
/// unspecified on failure — but the buffer keeps its length.
#[verifier::external_body]
fn fill_random(buf: &mut Vec<u8>) -> (r: Result<(), getrandom::Error>)
    ensures
        final(buf)@.len() == old(buf)@.len(),
{
    getrandom::getrandom(buf.as_mut_slice())
}

/// Generate a buffer of exactly `length` random bytes.
///
/// A zero length is rejected as `ZeroLength`. For a positive length the
/// result is either a buffer of exactly that many bytes, or
/// `EntropyUnavailable` when the entropy source fails.
pub fn generate(length: u32) -> (r: Result<Vec<u8>, GenerationFailure>)
    ensures
        length == 0 ==> (r matches Err(e) && e == GenerationFailure::ZeroLength),
        length > 0 ==> ((r matches Ok(v) && v@.len() == length as nat) || (r matches Err(e)
            && e == GenerationFailure::EntropyUnavailable)),
{
    if length == 0 {
        return Err(GenerationFailure::ZeroLength);
    }
    let mut buf: Vec<u8> = Vec::new();
    let mut i: u32 = 0;
    while i < length
        invariant
            i <= length,
            buf@.len() == i as nat,
        decreases length - i,
    {
        buf.push(0);
        i += 1;
    }
    match fill_random(&mut buf) {
        Ok(()) => Ok(buf),
        Err(_) => Err(GenerationFailure::EntropyUnavailable),
    }
}

} // verus!
