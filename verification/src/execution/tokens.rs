//! Counting tokens, by the `cl100k_base` encoding.

use vstd::prelude::*;

verus! {

/// The `cl100k_base` tokens of a text, no special token among them; `None` for
/// a text that the encoder gives up on.
pub uninterp spec fn cl100k_tokens(text: Seq<char>) -> Option<Seq<u32>>;

/// `tiktoken_rs::CoreBPE::encode` of the `cl100k_base` encoding, with no
/// special token allowed. It gives the same tokens as `encode_ordinary`, which
/// panics on the texts that this call reports an error for: those whose
/// splitting exceeds the backtracking limit of the pattern.
#[verifier::external_body]
fn encode(text: &str) -> (r: Option<Vec<u32>>)
    ensures
        (match r {
            Some(tokens) => cl100k_tokens(text@) == Some(tokens@),
            None => cl100k_tokens(text@) is None,
        }),
{
    let none = std::collections::HashSet::new();
    match tiktoken_rs::cl100k_base_singleton().encode(text, &none) {
        Ok((tokens, _)) => Some(tokens),
        Err(_) => None,
    }
}

/// The number of tokens in a text that can be encoded.
pub fn count_tokens(text: &str) -> (r: usize)
    requires
        cl100k_tokens(text@) is Some,
    ensures
        r == cl100k_tokens(text@)->0.len(),
{
    match encode(text) {
        Some(tokens) => tokens.len(),
        None => 0,
    }
}

/// The number of tokens in a text; `None` where it cannot be encoded.
pub fn try_count_tokens(text: &str) -> (r: Option<usize>)
    ensures
        (match r {
            Some(n) => cl100k_tokens(text@) is Some && n == cl100k_tokens(text@)->0.len(),
            None => cl100k_tokens(text@) is None,
        }),
{
    match encode(text) {
        Some(_) => Some(count_tokens(text)),
        None => None,
    }
}

} // verus!
