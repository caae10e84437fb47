//! What the command line's options mean.

use crate::config::{ParsedArgs, DEFAULT_VERB};
use crate::text::{chars_of, text_is};
use vstd::prelude::*;

verus! {

/// How the verbosity came about.
#[derive(Clone, Copy, Debug, PartialEq, Eq, Structural)]
pub enum Verbosity {
    /// Silent mode: nothing is printed.
    Silent,
    /// The level that was asked for: 1, 2 or 3.
    Level(u8),
    /// A level was asked for that is none of 1, 2 and 3: the default holds.
    Invalid,
    /// No level was asked for: the default holds.
    Unset,
}

impl Verbosity {
    /// The verbosity that holds.
    pub open spec fn value(self) -> u8 {
        match self {
            Verbosity::Silent => 0,
            Verbosity::Level(n) => n,
            Verbosity::Invalid => DEFAULT_VERB,
            Verbosity::Unset => DEFAULT_VERB,
        }
    }

    pub fn level(&self) -> (n: u8)
        ensures
            n == self.value(),
    {
        match self {
            Verbosity::Silent => 0,
            Verbosity::Level(n) => *n,
            Verbosity::Invalid => DEFAULT_VERB,
            Verbosity::Unset => DEFAULT_VERB,
        }
    }
}

/// What the options say of the verbosity. Silent mode comes before a level;
/// a level is one of the words `1`, `2` and `3`.
pub open spec fn chosen_verbosity(silent: bool, level: Option<Seq<char>>) -> Verbosity {
    if silent {
        Verbosity::Silent
    } else {
        match level {
            None => Verbosity::Unset,
            Some(w) => if w == "1"@ {
                Verbosity::Level(1)
            } else if w == "2"@ {
                Verbosity::Level(2)
            } else if w == "3"@ {
                Verbosity::Level(3)
            } else {
                Verbosity::Invalid
            },
        }
    }
}

/// The level's word, if one was given.
pub open spec fn word_view(level: Option<&str>) -> Option<Seq<char>> {
    match level {
        Some(w) => Some(w@),
        None => None,
    }
}

pub fn choose_verbosity(silent: bool, level: Option<&str>) -> (v: Verbosity)
    ensures
        v == chosen_verbosity(silent, word_view(level)),
{
    if silent {
        return Verbosity::Silent;
    }
    match level {
        None => Verbosity::Unset,
        Some(w) => {
            let word = chars_of(w);
            if text_is(&word, "1") {
                Verbosity::Level(1)
            } else if text_is(&word, "2") {
                Verbosity::Level(2)
            } else if text_is(&word, "3") {
                Verbosity::Level(3)
            } else {
                Verbosity::Invalid
            }
        },
    }
}

/// The settings that the options give: the verbosity as chosen, and TLS
/// unless it was switched off.
pub fn parse_args(silent: bool, level: Option<&str>, no_tls: bool) -> (args: ParsedArgs)
    ensures
        args.verbosity == chosen_verbosity(silent, word_view(level)).value(),
        args.use_tls == !no_tls,
{
    let v = choose_verbosity(silent, level);
    ParsedArgs { verbosity: v.level(), use_tls: !no_tls }
}

} // verus!
