//! Confirmation tokens: random strings of 32 letters and digits.

use rand::Rng;
use rand_distr::Alphanumeric;
use vstd::prelude::*;

verus! {

/// The number of characters of a token.
pub const TOKEN_LENGTH: usize = 32;

/// Whether `c` is an ASCII letter or digit.
pub open spec fn is_alphanumeric(c: char) -> bool {
    ('0' <= c && c <= '9') || ('a' <= c && c <= 'z') || ('A' <= c && c <= 'Z')
}

/// Whether every character of `s` is an ASCII letter or digit.
pub open spec fn all_alphanumeric(s: Seq<char>) -> bool {
    forall|i: int| 0 <= i < s.len() ==> is_alphanumeric(#[trigger] s[i])
}

/// Whether `s` has the shape of a token: 32 ASCII letters and digits.
pub open spec fn is_token(s: Seq<char>) -> bool {
    s.len() == TOKEN_LENGTH && all_alphanumeric(s)
}

/// Draws `len` characters from `rand`'s `Alphanumeric` distribution with the
/// thread's generator (`rand::rng`). The contract claims what holds of every
/// draw: the string has `len` characters and each is an ASCII letter or
/// digit. Which ones they are is left open.
#[verifier::external_body]
pub(crate) fn random_alphanumeric(len: usize) -> (r: String)
    ensures
        r@.len() == len,
        all_alphanumeric(r@),
{
    rand::rng().sample_iter(&Alphanumeric).take(len).map(char::from).collect()
}

/// A fresh random token.
pub fn fresh_token() -> (r: String)
    ensures
        is_token(r@),
{
    random_alphanumeric(TOKEN_LENGTH)
}

/// A string that has the shape of a token.
pub proof fn lemma_token_exists() -> (s: Seq<char>)
    ensures
        is_token(s),
{
    Seq::new(TOKEN_LENGTH as nat, |i: int| 'a')
}

} // verus!
