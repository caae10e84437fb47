//! Media types, guessed from the extension of a path.

use vstd::prelude::*;

verus! {

/// The first media type that `mime_guess::from_path` holds for the path, as
/// `MimeGuess::first` gives it and `Mime` prints it; none where the guess is
/// empty. The path is read as `std::path::Path` reads it where `/` sets
/// the components apart.
pub uninterp spec fn guessed_mime(path: Seq<char>) -> Option<Seq<char>>;

/// Guesses the media type of a path with `mime_guess::from_path`, takes
/// the first guess with `MimeGuess::first` and prints it. Only the path's
/// extension is looked at, never the disk.
#[verifier::external_body]
pub(crate) fn guess_first(path: &str) -> (r: Option<String>)
    ensures
        r is Some <==> guessed_mime(path@) is Some,
        r matches Some(m) ==> guessed_mime(path@) == Some(m@),
{
    mime_guess::from_path(path).first().map(|m| m.to_string())
}

/// The guess, or else the fallback.
pub open spec fn mime_or(guess: Option<Seq<char>>, fallback: Seq<char>) -> Seq<char> {
    match guess {
        Some(m) => m,
        None => fallback,
    }
}

/// The media type for a path: the first guess for its extension, or else
/// the fallback.
pub fn mime_for(path: &str, fallback: &str) -> (m: String)
    ensures
        m@ == mime_or(guessed_mime(path@), fallback@),
{
    match guess_first(path) {
        Some(m) => m,
        None => fallback.to_owned(),
    }
}

} // verus!
