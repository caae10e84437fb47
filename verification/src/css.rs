//! Style sheets: Sass in, CSS out.

use vstd::prelude::*;

verus! {

/// How a style sheet is compiled.
#[derive(Clone, Copy, Debug, PartialEq, Eq, Structural)]
pub struct SassOptions {
    /// The whole style sheet on one line, with as few characters as can be.
    pub compressed: bool,
    /// No warnings while compiling.
    pub quiet: bool,
}

/// The options that the server compiles with: compressed, with warnings.
pub open spec fn server_options() -> SassOptions {
    SassOptions { compressed: true, quiet: false }
}

pub fn get_default_grass_options() -> (options: SassOptions)
    ensures
        options == server_options(),
{
    SassOptions { compressed: true, quiet: false }
}

/// The CSS of a style sheet, from what its compilation gave: the compiled
/// text, or the empty text where the style sheet did not compile. A style
/// sheet with an error in it is served empty.
pub fn sass_to_css(compiled: Option<String>) -> (css: String)
    ensures
        css@ == match compiled {
            Some(c) => c@,
            None => Seq::<char>::empty(),
        },
{
    match compiled {
        Some(c) => c,
        None => String::new(),
    }
}

} // verus!
