//! The password generator: a requested number of characters drawn
//! uniformly from the 62-symbol alphanumeric alphabet.

use vstd::prelude::*;
use rand::RngExt;
use crate::strutil::parse_usize;
use crate::strutil::spec_parse_usize;
use crate::strutil::string_from_chars;

verus! {

/// Whether `c` belongs to the alphanumeric alphabet `[A-Za-z0-9]`.
pub open spec fn is_alnum_char(c: char) -> bool {
    ||| (0x30 <= c as u32 && c as u32 <= 0x39)
    ||| (0x41 <= c as u32 && c as u32 <= 0x5A)
    ||| (0x61 <= c as u32 && c as u32 <= 0x7A)
}

/// Relies on rand's `Alphanumeric` distribution: every sample is one of the
/// 62 symbols `a-z`, `A-Z`, `0-9`, and taking `len` samples yields exactly
/// `len` of them.
#[verifier::external_body]
fn sample_alphanumeric(len: usize) -> (r: Vec<char>)
    ensures
        r@.len() == len,
        forall|k: int| 0 <= k < r@.len() ==> is_alnum_char(#[trigger] r@[k]),
{
    rand::rng().sample_iter(rand::distr::Alphanumeric).take(len).map(char::from).collect()
}

/// The password length a given input requests: the decimal number it holds,
/// or 32 when it holds none.
pub open spec fn spec_password_len(s: Seq<char>) -> int {
    match spec_parse_usize(s) {
        Some(n) => n,
        None => 32,
    }
}

/// Generate a password of the length the input requests (32 when the input
/// is not a number), drawn from the alphanumeric alphabet.
pub fn gen_password(input: &str) -> (r: String)
    ensures
        r@.len() == spec_password_len(input@),
        forall|k: int| 0 <= k < r@.len() ==> is_alnum_char(#[trigger] r@[k]),
{
    let length: usize = match parse_usize(input) {
        Some(n) => n,
        None => 32,
    };
    let v = sample_alphanumeric(length);
    string_from_chars(&v)
}

} // verus!
