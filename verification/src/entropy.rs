//! Randomness from the operating system.

use vstd::prelude::*;
use vstd::string::*;

use crate::text::{hex, hex_of};

verus! {

/// `getrandom::fill`: fills the buffer from the operating system's randomness
/// source. Nothing is claimed of the bytes, or of when the source is available. A
/// failure carries the message of the source's error.
#[verifier::external_body]
fn fill_random(dest: &mut [u8]) -> (filled: Result<(), String>)
    ensures
        final(dest)@.len() == old(dest)@.len(),
{
    getrandom::fill(dest).map_err(|err| err.to_string())
}

/// A random token: `n` bytes of randomness in hexadecimal.
///
/// There is no fallback: a predictable token would look like protection while
/// providing none.
pub fn random_token(n: usize) -> (token: Result<String, String>)
    ensures
        match token {
            Ok(text) => exists|entropy: Seq<u8>|
                entropy.len() == n && text@ == #[trigger] hex(entropy),
            Err(reason) => exists|cause: Seq<char>|
                reason@ == #[trigger] ("system randomness unavailable: "@ + cause),
        },
{
    let mut bytes: Vec<u8> = Vec::new();
    let mut i: usize = 0;
    while i < n
        invariant
            i <= n,
            bytes@.len() == i,
        decreases n - i,
    {
        bytes.push(0);
        i = i + 1;
    }
    match fill_random(bytes.as_mut_slice()) {
        Ok(()) => Ok(hex_of(bytes.as_slice())),
        Err(cause) => {
            let mut reason = "system randomness unavailable: ".to_owned();
            reason.append(cause.as_str());
            Err(reason)
        },
    }
}

} // verus!
