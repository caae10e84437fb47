//! Which messages are shown at which verbosity, and how they are marked.

use vstd::prelude::*;

verus! {

#[derive(Clone, Copy, Debug, PartialEq, Eq, Structural)]
pub enum MsgType {
    Error,
    Warning,
    Info,
}

impl MsgType {
    /// The lowest verbosity at which a message of this type is shown: 1 for
    /// errors, 2 for warnings, 3 for information.
    pub open spec fn level(self) -> u8 {
        match self {
            MsgType::Error => 1,
            MsgType::Warning => 2,
            MsgType::Info => 3,
        }
    }

    /// What stands before a message of this type.
    pub open spec fn marker_text(self) -> Seq<char> {
        match self {
            MsgType::Error => "[E]"@,
            MsgType::Warning => "[W]"@,
            MsgType::Info => "[I]"@,
        }
    }

    pub fn marker(&self) -> (m: &'static str)
        ensures
            m@ == self.marker_text(),
    {
        match self {
            MsgType::Error => "[E]",
            MsgType::Warning => "[W]",
            MsgType::Info => "[I]",
        }
    }

    /// Whether a message of this type is shown at the given verbosity.
    pub fn shown(&self, verbosity: u8) -> (r: bool)
        ensures
            r == (verbosity >= self.level()),
    {
        match self {
            MsgType::Error => verbosity >= 1,
            MsgType::Warning => verbosity >= 2,
            MsgType::Info => verbosity >= 3,
        }
    }
}

/// Whether empty lines set messages apart at the given verbosity: they do
/// unless nothing is printed at all.
pub fn shows_separator(verbosity: u8) -> (r: bool)
    ensures
        r == (verbosity != 0),
{
    verbosity != 0
}

/// The legend in full: one entry for each type of message.
pub open spec fn legend() -> Seq<(MsgType, Seq<char>)> {
    seq![
        (MsgType::Error, "<- Error"@),
        (MsgType::Warning, "<- Warning"@),
        (MsgType::Info, "<- Info"@),
    ]
}

/// What a list of messages holds.
pub open spec fn message_views(ms: Seq<(MsgType, String)>) -> Seq<(MsgType, Seq<char>)> {
    ms.map_values(|m: (MsgType, String)| (m.0, m.1@))
}

/// The entries of the legend that are shown at the given verbosity, in the
/// legend's order. Since a lower level is shown wherever a higher one is,
/// they are the first `verbosity` entries.
pub fn print_markers(verbosity: u8) -> (shown: Vec<(MsgType, String)>)
    ensures
        message_views(shown@) == legend().take(
            if verbosity >= 3 {
                3int
            } else {
                verbosity as int
            },
        ),
{
    let mut shown: Vec<(MsgType, String)> = Vec::new();
    if MsgType::Error.shown(verbosity) {
        shown.push((MsgType::Error, "<- Error".to_owned()));
    }
    if MsgType::Warning.shown(verbosity) {
        shown.push((MsgType::Warning, "<- Warning".to_owned()));
    }
    if MsgType::Info.shown(verbosity) {
        shown.push((MsgType::Info, "<- Info".to_owned()));
    }
    assert(message_views(shown@) =~= legend().take(
        if verbosity >= 3 {
            3int
        } else {
            verbosity as int
        },
    ));
    shown
}

} // verus!
