//! Case folding and substring tests on text, as the request logic needs them.
use vstd::prelude::*;

verus! {

/// The characters of `s` in lower case, as `str::to_lowercase` gives them.
pub uninterp spec fn lower_of(s: Seq<char>) -> Seq<char>;

/// `part` occurs in `whole` as a run of consecutive characters.
pub open spec fn occurs_in(part: Seq<char>, whole: Seq<char>) -> bool {
    exists|i: int| 0 <= i <= whole.len() - part.len() && #[trigger] whole.subrange(i, i + part.len()) == part
}

/// Relies on `str::to_lowercase`: the result depends on the characters alone,
/// and an empty string stays empty.
#[verifier::external_body]
pub(crate) fn lowercase(s: &str) -> (r: String)
    ensures
        r@ == lower_of(s@),
        s@.len() == 0 ==> r@.len() == 0,
{
    s.to_lowercase()
}

/// Relies on `str::contains` with a `&str` pattern: true exactly when the
/// pattern matches a sub-slice of `s`.
#[verifier::external_body]
pub(crate) fn contains_text(s: &str, part: &str) -> (r: bool)
    ensures
        r == occurs_in(part@, s@),
{
    s.contains(part)
}

/// Marks in an upstream error text that tell the provider is throttling us.
pub open spec fn names_rate_limit(folded: Seq<char>) -> bool {
    occurs_in("429"@, folded) || occurs_in("rate"@, folded)
}

/// An upstream error, given by its message, signals throttling.
pub open spec fn signals_throttling(message: Seq<char>) -> bool {
    names_rate_limit(lower_of(message))
}

/// Whether an already lower-cased error message carries a throttling mark:
/// the status code 429 or the word "rate".
pub fn mentions_rate_limit(folded: &str) -> (r: bool)
    ensures
        r == names_rate_limit(folded@),
{
    contains_text(folded, "429") || contains_text(folded, "rate")
}

/// Whether an upstream error message signals throttling, ignoring case.
pub fn is_throttle_signal(message: &str) -> (r: bool)
    ensures
        r == signals_throttling(message@),
{
    let folded = lowercase(message);
    mentions_rate_limit(folded.as_str())
}

/// A lower-cased query matches a token whose lower-cased name, symbol or id
/// holds it.
pub open spec fn folded_match(
    query: Seq<char>,
    name: Seq<char>,
    symbol: Seq<char>,
    id: Seq<char>,
) -> bool {
    occurs_in(query, name) || occurs_in(query, symbol) || occurs_in(query, id)
}

/// Whether a lower-cased query occurs in any of a token's lower-cased name,
/// symbol or id.
pub fn matches_folded(query: &str, name: &str, symbol: &str, id: &str) -> (r: bool)
    ensures
        r == folded_match(query@, name@, symbol@, id@),
{
    contains_text(name, query) || contains_text(symbol, query) || contains_text(id, query)
}

} // verus!
