//! Random bytes of the system.

use vstd::prelude::*;

verus! {

/// `getrandom::fill` fills all of a buffer with random bytes, or fails; the buffer keeps its
/// length. The reason of a failure is its text. Nothing is said of the bytes.
#[verifier::external_body]
pub(crate) fn random_bytes(length: usize) -> (r: Result<Vec<u8>, String>)
    ensures
        r matches Ok(bytes) ==> bytes@.len() == length,
{
    let mut bytes = vec![0u8; length];
    match getrandom::fill(&mut bytes) {
        Ok(()) => Ok(bytes),
        Err(error) => Err(error.to_string()),
    }
}

} // verus!
