//! What has to be there before the server runs: the configuration file and
//! the content root with its first page, its icon and its styles.

use crate::text::{chars_of, ends_with, push_str, string_of};
use vstd::prelude::*;

verus! {

/// A path to create, and what to write into it where it is a file that has
/// content from the start.
pub struct Entry {
    pub path: String,
    pub content: Option<String>,
}

/// What an entry holds.
pub struct EntryView {
    pub path: Seq<char>,
    pub content: Option<Seq<char>>,
}

impl View for Entry {
    type V = EntryView;

    open spec fn view(&self) -> EntryView {
        EntryView {
            path: self.path@,
            content: match self.content {
                Some(c) => Some(c@),
                None => None,
            },
        }
    }
}

/// What a list of entries holds.
pub open spec fn entry_views(es: Seq<Entry>) -> Seq<EntryView> {
    es.map_values(|e: Entry| e@)
}

/// A path that ends in a slash is a directory; any other is a file.
pub open spec fn names_directory(path: Seq<char>) -> bool {
    "/"@.is_suffix_of(path)
}

pub fn is_directory(path: &str) -> (r: bool)
    ensures
        r == names_directory(path@),
{
    ends_with(&chars_of(path), &chars_of("/"))
}

/// What has to be there: the configuration file with its first content;
/// below the content root the index page, the icon, the default style
/// sheet with its first content, and the directory for fonts.
pub open spec fn base(
    www_path: Seq<char>,
    config_content: Seq<char>,
    style_content: Seq<char>,
) -> Seq<EntryView> {
    seq![
        EntryView { path: "config.toml"@, content: Some(config_content) },
        EntryView { path: www_path + "index.md"@, content: Some("Hello World!"@) },
        EntryView { path: www_path + "favicon.ico"@, content: None },
        EntryView { path: www_path + "style/default.scss"@, content: Some(style_content) },
        EntryView { path: www_path + "style/font/"@, content: None },
    ]
}

/// `www_path` with `name` behind it.
fn below(www_path: &str, name: &str) -> (path: String)
    ensures
        path@ == www_path@ + name@,
{
    let mut p = chars_of(www_path);
    push_str(&mut p, name);
    string_of(&p)
}

/// The entries that have to be there, in the order in which they are made.
pub fn base_entries(www_path: &str, config_content: &str, style_content: &str) -> (entries: Vec<
    Entry,
>)
    ensures
        entry_views(entries@) == base(www_path@, config_content@, style_content@),
{
    let mut entries: Vec<Entry> = Vec::new();
    entries.push(
        Entry { path: "config.toml".to_owned(), content: Some(config_content.to_owned()) },
    );
    entries.push(
        Entry { path: below(www_path, "index.md"), content: Some("Hello World!".to_owned()) },
    );
    entries.push(Entry { path: below(www_path, "favicon.ico"), content: None });
    entries.push(
        Entry {
            path: below(www_path, "style/default.scss"),
            content: Some(style_content.to_owned()),
        },
    );
    entries.push(Entry { path: below(www_path, "style/font/"), content: None });
    assert(entry_views(entries@) =~= base(www_path@, config_content@, style_content@));
    entries
}

} // verus!
