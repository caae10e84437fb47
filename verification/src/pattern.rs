//! Regular expressions, as far as the library needs them: whether a pattern
//! compiles, where it first matches, and what a text becomes when every
//! match is replaced.

use vstd::prelude::*;

verus! {

/// `regex::Error`: why a pattern did not compile. Nothing of it is read.
#[verifier::external_type_specification]
#[verifier::external_body]
pub struct ExPatternError(regex::Error);

/// Whether `regex::Regex::new` accepts the pattern.
pub uninterp spec fn pattern_compiles(pattern: Seq<char>) -> bool;

/// Start and end, as byte offsets into the text, of the match that
/// `regex::Regex::find` reports for the compiled pattern, if it reports one.
pub uninterp spec fn leftmost_match(pattern: Seq<char>, text: Seq<char>) -> Option<(usize, usize)>;

/// What `regex::Regex::replace_all` makes of the text for the compiled
/// pattern and the replacement.
pub uninterp spec fn replaced_all(
    pattern: Seq<char>,
    text: Seq<char>,
    replacement: Seq<char>,
) -> Seq<char>;

/// Compiles the pattern with `regex::Regex::new` and searches the text with
/// `regex::Regex::find`. The error is that of the compilation; the offsets
/// are those of `Match::start` and `Match::end`.
#[verifier::external_body]
pub(crate) fn find_match(pattern: &str, text: &str) -> (r: Result<
    Option<(usize, usize)>,
    regex::Error,
>)
    ensures
        r is Ok <==> pattern_compiles(pattern@),
        r matches Ok(m) ==> m == leftmost_match(pattern@, text@),
{
    regex::Regex::new(pattern).map(|re| re.find(text).map(|m| (m.start(), m.end())))
}

/// Compiles the pattern with `regex::Regex::new` and replaces every match in
/// the text with `regex::Regex::replace_all`. The error is that of the
/// compilation.
#[verifier::external_body]
pub(crate) fn replace_matches(pattern: &str, text: &str, replacement: &str) -> (r: Result<
    String,
    regex::Error,
>)
    ensures
        r is Ok <==> pattern_compiles(pattern@),
        r matches Ok(s) ==> s@ == replaced_all(pattern@, text@, replacement@),
{
    regex::Regex::new(pattern).map(|re| re.replace_all(text, replacement).into_owned())
}

/// Whether the pattern compiles and its first match in the text is the
/// whole text.
pub open spec fn full_match(pattern: Seq<char>, text: Seq<char>) -> bool {
    pattern_compiles(pattern) && leftmost_match(pattern, text) == Some(
        (0usize, vstd::utf8::encode_utf8(text).len() as usize),
    )
}

/// What a search reports is a match of the whole text where it starts at
/// the first byte and ends after the last.
pub fn spans_all(found: &Result<Option<(usize, usize)>, regex::Error>, len: usize) -> (r: bool)
    ensures
        r == (found matches Ok(Some(m)) && m.0 == 0 && m.1 == len),
{
    match found {
        Ok(Some(m)) => m.0 == 0 && m.1 == len,
        Ok(None) => false,
        Err(_) => false,
    }
}

/// Whether the whole of `text` is the first match of `pattern`. A pattern
/// that does not compile matches nothing.
pub fn matches_fully(pattern: &str, text: &str) -> (r: bool)
    ensures
        r == full_match(pattern@, text@),
{
    let found = find_match(pattern, text);
    spans_all(&found, text.len())
}

/// Whether the pattern compiles and matches somewhere in the text.
pub open spec fn matched(pattern: Seq<char>, text: Seq<char>) -> bool {
    pattern_compiles(pattern) && leftmost_match(pattern, text) is Some
}

/// The text with every match of the pattern replaced; the text as it is
/// where the pattern does not compile.
pub open spec fn replaced(pattern: Seq<char>, text: Seq<char>, replacement: Seq<char>) -> Seq<
    char,
> {
    if pattern_compiles(pattern) {
        replaced_all(pattern, text, replacement)
    } else {
        text
    }
}

/// Whether a search found a match.
pub fn found_some(found: &Result<Option<(usize, usize)>, regex::Error>) -> (r: bool)
    ensures
        r == (found matches Ok(Some(m))),
{
    match found {
        Ok(Some(_)) => true,
        Ok(None) => false,
        Err(_) => false,
    }
}

/// Whether the pattern matches somewhere in the text. A pattern that does
/// not compile matches nothing.
pub fn is_match(pattern: &str, text: &str) -> (r: bool)
    ensures
        r == matched(pattern@, text@),
{
    let found = find_match(pattern, text);
    found_some(&found)
}

/// What a replacement gave, or the text as it was where the pattern did not
/// compile.
pub fn replaced_or(outcome: Result<String, regex::Error>, text: &str) -> (r: String)
    ensures
        r@ == match outcome {
            Ok(s) => s@,
            Err(_) => text@,
        },
{
    match outcome {
        Ok(s) => s,
        Err(_) => text.to_owned(),
    }
}

/// The text with every match of the pattern replaced. In the replacement,
/// `$name` stands for what the group of that name matched.
pub fn replace(pattern: &str, text: &str, replacement: &str) -> (r: String)
    ensures
        r@ == replaced(pattern@, text@, replacement@),
{
    replaced_or(replace_matches(pattern, text, replacement), text)
}

/// Whether the pattern compiles.
pub fn is_valid(pattern: &str) -> (r: bool)
    ensures
        r == pattern_compiles(pattern@),
{
    find_match(pattern, "").is_ok()
}

} // verus!
