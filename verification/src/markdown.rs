//! A Markdown text together with the settings of the page it becomes.

use crate::pattern::{is_match, matched, replace, replaced};
use crate::text::{
    chars_of, join_from, join_lines, lines, push_all, push_str, slice_of, split_lines, string_of,
    string_views, text_is, texts,
};
use vstd::prelude::*;
use vstd::utf8::encode_utf8;

verus! {

/// The settings of a page.
#[derive(Debug)]
pub struct MdSettings {
    /// Style sheets that the page links to, below the style directory.
    css_styles_link: Vec<String>,
    /// Style sheets that the page holds itself.
    css_styles_embedded: Vec<String>,
    page_title: String,
    page_lang: Option<String>,
}

/// What the settings of a page hold.
pub struct MdSettingsView {
    pub css_styles_link: Seq<Seq<char>>,
    pub css_styles_embedded: Seq<Seq<char>>,
    pub page_title: Seq<char>,
    pub page_lang: Option<Seq<char>>,
}

/// A Markdown text and the settings of its page.
#[derive(Debug)]
pub struct Markdown {
    content: String,
    settings: MdSettings,
}

/// What a Markdown text with its settings holds.
pub struct MarkdownView {
    pub content: Seq<char>,
    pub settings: MdSettingsView,
}

/// The language that is set, if one is.
pub open spec fn lang_view(lang: Option<String>) -> Option<Seq<char>> {
    match lang {
        Some(l) => Some(l@),
        None => None,
    }
}

impl View for MdSettings {
    type V = MdSettingsView;

    closed spec fn view(&self) -> MdSettingsView {
        MdSettingsView {
            css_styles_link: string_views(self.css_styles_link@),
            css_styles_embedded: string_views(self.css_styles_embedded@),
            page_title: self.page_title@,
            page_lang: lang_view(self.page_lang),
        }
    }
}

impl View for Markdown {
    type V = MarkdownView;

    closed spec fn view(&self) -> MarkdownView {
        MarkdownView { content: self.content@, settings: self.settings@ }
    }
}

/// The settings of a page of which nothing is said: the style sheet for
/// Markdown, no title, no language.
pub open spec fn default_settings() -> MdSettingsView {
    MdSettingsView {
        css_styles_link: seq!["markdown.css"@],
        css_styles_embedded: Seq::empty(),
        page_title: Seq::empty(),
        page_lang: None,
    }
}

impl MdSettings {
    /// Settings with the given style sheets, title and language. The style
    /// sheet for Markdown is linked after the given ones.
    pub fn new(
        css_styles_link: Vec<String>,
        css_styles_embedded: Vec<String>,
        page_title: String,
        page_lang: Option<String>,
    ) -> (settings: MdSettings)
        ensures
            settings@ == (MdSettingsView {
                css_styles_link: string_views(css_styles_link@).push("markdown.css"@),
                css_styles_embedded: string_views(css_styles_embedded@),
                page_title: page_title@,
                page_lang: lang_view(page_lang),
            }),
    {
        let mut links = css_styles_link;
        let own = "markdown.css".to_owned();
        proof {
            assert(string_views(links@.push(own)) == string_views(links@).push(own@));
        }
        links.push(own);
        MdSettings {
            css_styles_link: links,
            css_styles_embedded: css_styles_embedded,
            page_title: page_title,
            page_lang: page_lang,
        }
    }
}

impl Default for MdSettings {
    fn default() -> (settings: MdSettings)
        ensures
            settings@ == default_settings(),
    {
        let mut links: Vec<String> = Vec::new();
        links.push("markdown.css".to_owned());
        let settings = MdSettings {
            css_styles_link: links,
            css_styles_embedded: Vec::new(),
            page_title: String::new(),
            page_lang: None,
        };
        proof {
            assert(settings@.css_styles_link =~= default_settings().css_styles_link);
            assert(settings@.css_styles_embedded =~= default_settings().css_styles_embedded);
        }
        settings
    }
}

impl Markdown {
    /// An empty text with the default settings.
    pub fn new() -> (md: Markdown)
        ensures
            md@ == (MarkdownView { content: Seq::empty(), settings: default_settings() }),
    {
        Markdown { content: String::new(), settings: MdSettings::default() }
    }

    /// The given text with the default settings.
    pub fn from_string(content: &str) -> (md: Markdown)
        ensures
            md@ == (MarkdownView { content: content@, settings: default_settings() }),
    {
        Markdown { content: content.to_owned(), settings: MdSettings::default() }
    }

    /// The given text with the given settings.
    pub fn with_settings(content: &str, settings: MdSettings) -> (md: Markdown)
        ensures
            md@ == (MarkdownView { content: content@, settings: settings@ }),
    {
        Markdown { content: content.to_owned(), settings: settings }
    }

    pub fn content(&self) -> (content: &String)
        ensures
            content@ == self@.content,
    {
        &self.content
    }
}

/// A line that is indented as code is: by four spaces or more, or by tabs.
pub const CODE_LINE: &'static str = "(?m)^(?P<indentation>[ ]{4,}|[\\t]+[ ]*)(?P<text>.+)";

/// A text that starts as an item of a list does.
pub const LIST_START: &'static str = "(?m)^([ ]*(\\d.|-) )";

/// A line that is an item of a list: a digit, any character and a space
/// before the item's text.
pub const LIST_ITEM: &'static str = "(?m)^(?P<indentation>[ ]*)(?P<number>\\d). (?P<text>.+)";

/// The rules for what stands within a line, each a pattern and what its
/// matches become, in the order in which they are applied: headings from
/// the sixth level to the first, bold and italic, quotes, code.
pub open spec fn inline_rules() -> Seq<(Seq<char>, Seq<char>)> {
    seq![
        ("(?m)(^#{6}) (?P<text>.+)"@, "<h6> $text </h6>"@),
        ("(?m)(^#{5}) (?P<text>.+)"@, "<h5> $text </h5>"@),
        ("(?m)(^#{4}) (?P<text>.+)"@, "<h4> $text </h4>"@),
        ("(?m)(^#{3}) (?P<text>.+)"@, "<h3> $text </h3>"@),
        ("(?m)(^#{2}) (?P<text>.+)"@, "<h2> $text </h2>"@),
        ("(?m)(^#{1}) (?P<text>.+)"@, "<h1> $text </h1>"@),
        ("(?m)[*]{3}(?P<text>[^*\\n]+)[*]{3}"@, "<b><i> $text </i></b>"@),
        ("(?m)[*]{2}(?P<text>[^*\\n]+)[*]{2}"@, "<b> $text </b>"@),
        ("(?m)[*]{1}(?P<text>[^*\\n]+)[*]{1}"@, "<i> $text </i>"@),
        ("(?m)^> (?P<text>.+)"@, "<blockquote> $text </blockquote>"@),
        ("(?m)[`]{2}(?P<text>[^`\\n]+)[`]{2}"@, "<code> $text </code>"@),
        ("(?m)[`]{1}(?P<text>[^`\\n]+)[`]{1}"@, "<code> $text </code>"@),
    ]
}

/// What a list of rules holds.
pub open spec fn rule_views(rules: Seq<(&'static str, &'static str)>) -> Seq<
    (Seq<char>, Seq<char>),
> {
    rules.map_values(|r: (&'static str, &'static str)| (r.0@, r.1@))
}

/// The text after the first `k` of the rules have been applied, each to
/// what the one before it gave.
pub open spec fn inline_text(text: Seq<char>, k: nat) -> Seq<char>
    decreases k,
{
    if k == 0 {
        text
    } else {
        let rule = inline_rules()[k - 1];
        replaced(rule.0, inline_text(text, (k - 1) as nat), rule.1)
    }
}

/// The first `n` characters of `s`, or all of it where it has fewer.
pub open spec fn first_chars(s: Seq<char>, n: nat) -> Seq<char> {
    if n < s.len() {
        s.take(n as int)
    } else {
        s
    }
}

/// Where the pass over code blocks stands: the lines as they are now, the
/// indentation of the block's first line in bytes, and whether a block is
/// open.
pub struct CodeState {
    pub lines: Seq<Seq<char>>,
    pub indent: usize,
    pub open: bool,
}

/// One step of the pass over code blocks, for line `i` of the text as it
/// was when the pass began.
///
/// A line that is indented as code, and whose text does not start as a list
/// item does, belongs to a block. Before the first such line the block is
/// opened, at position `i` of the lines as they are now. Any later one
/// takes the place of the line at position `i`, with as much of its own
/// indentation as the first line had. A line that is not indented as code
/// closes an open block, at position `i`.
pub open spec fn code_step(st: CodeState, i: int, line: Seq<char>) -> CodeState {
    if matched(CODE_LINE@, line) {
        let code = replaced(CODE_LINE@, line, "$text"@);
        if matched(LIST_START@, code) {
            st
        } else {
            let ind = replaced(CODE_LINE@, line, "$indentation"@);
            if !st.open {
                CodeState {
                    lines: st.lines.insert(i, "<code>"@),
                    indent: encode_utf8(ind).len() as usize,
                    open: true,
                }
            } else {
                CodeState {
                    lines: st.lines.update(i, first_chars(ind, st.indent as nat) + code),
                    indent: st.indent,
                    open: true,
                }
            }
        }
    } else if st.open {
        CodeState { lines: st.lines.insert(i, "</code>"@), indent: st.indent, open: false }
    } else {
        st
    }
}

/// The pass over code blocks after the first `k` lines.
pub open spec fn code_fold(orig: Seq<Seq<char>>, k: nat) -> CodeState
    decreases k,
{
    if k == 0 {
        CodeState { lines: orig, indent: 0, open: false }
    } else {
        code_step(code_fold(orig, (k - 1) as nat), k - 1, orig[k - 1])
    }
}

/// The text with its code blocks marked.
pub open spec fn code_blocks(text: Seq<char>) -> Seq<char> {
    let orig = lines(text);
    join_lines(code_fold(orig, orig.len()).lines)
}

/// Where a pass over lists stands: the lines as they are now, the
/// indentation of the current level in bytes, whether a list has started,
/// how many lines the pass has put in, and whether the list at hand is one
/// that is left as it is.
pub struct ListState {
    pub lines: Seq<Seq<char>>,
    pub indent: usize,
    pub started: bool,
    pub inserted: nat,
    pub invalid: bool,
}

/// The tag that opens a list.
pub open spec fn open_tag(numbered: bool) -> Seq<char> {
    if numbered {
        "<ol>"@
    } else {
        "<ul>"@
    }
}

/// The tag that closes a list.
pub open spec fn close_tag(numbered: bool) -> Seq<char> {
    if numbered {
        "</ol>"@
    } else {
        "</ul>"@
    }
}

/// One step of a pass over lists, for line `i` of the text as it was when
/// the pass began. The line stands at position `i` plus the number of lines
/// put in so far.
///
/// A numbered list whose first item does not have the number 1 is left as
/// it is, up to the next line that is no item. Else an item becomes a `li`
/// element. Before the first item of a list, and before an item that is
/// indented more than the current level, a list is opened; before one that
/// is indented less, one is closed. A line that is no item closes a list
/// that has started.
pub open spec fn list_step(st: ListState, i: int, line: Seq<char>, numbered: bool) -> ListState {
    if matched(LIST_ITEM@, line) {
        if st.invalid {
            ListState { started: true, ..st }
        } else {
            let ind = encode_utf8(replaced(LIST_ITEM@, line, "$indentation"@)).len() as usize;
            let number = replaced(LIST_ITEM@, line, "$number"@);
            let item = "<li>"@ + replaced(LIST_ITEM@, line, "$text"@) + "</li>"@;
            let at = i + st.inserted;
            if numbered && !st.started && number != "1"@ {
                ListState { started: true, invalid: true, ..st }
            } else if !st.started || ind > st.indent {
                ListState {
                    lines: st.lines.insert(at, open_tag(numbered)).update(at + 1, item),
                    indent: ind,
                    started: true,
                    inserted: st.inserted + 1,
                    invalid: false,
                }
            } else if ind < st.indent {
                ListState {
                    lines: st.lines.insert(at, close_tag(numbered)).update(at + 1, item),
                    indent: st.indent,
                    started: true,
                    inserted: st.inserted + 1,
                    invalid: false,
                }
            } else {
                ListState { lines: st.lines.update(at, item), started: true, ..st }
            }
        }
    } else if st.started && !st.invalid {
        ListState {
            lines: st.lines.insert(i + st.inserted, close_tag(numbered)),
            indent: st.indent,
            started: false,
            inserted: st.inserted + 1,
            invalid: false,
        }
    } else {
        ListState { invalid: false, ..st }
    }
}

/// A pass over lists after the first `k` lines.
pub open spec fn list_fold(orig: Seq<Seq<char>>, k: nat, numbered: bool) -> ListState
    decreases k,
{
    if k == 0 {
        ListState { lines: orig, indent: 0, started: false, inserted: 0, invalid: false }
    } else {
        list_step(list_fold(orig, (k - 1) as nat, numbered), k - 1, orig[k - 1], numbered)
    }
}

/// The text with its lists marked: numbered ones, or else those that the
/// pass over numbered ones has left.
pub open spec fn list_items(text: Seq<char>, numbered: bool) -> Seq<char> {
    let orig = lines(text);
    join_lines(list_fold(orig, orig.len(), numbered).lines)
}

/// The text line by line, with one line feed between two lines.
pub open spec fn rejoined(text: Seq<char>) -> Seq<char> {
    join_lines(lines(text))
}

/// The `link` element for a style sheet.
pub open spec fn style_link(stylesheet: Seq<char>) -> Seq<char> {
    "<link rel=\"stylesheet\" href=\"style/"@ + stylesheet + "\">"@
}

/// The lines of the head that give the styles: a link for each linked style
/// sheet, then the embedded ones, if there are any, within one `style`
/// element.
pub open spec fn style_lines(settings: MdSettingsView) -> Seq<Seq<char>> {
    let links = settings.css_styles_link.map_values(|l: Seq<char>| style_link(l));
    if settings.css_styles_embedded.len() > 0 {
        links + seq!["<style>"@] + settings.css_styles_embedded + seq!["</style>"@]
    } else {
        links
    }
}

/// What stands at the top of every page.
pub open spec fn page_top() -> Seq<char> {
    "<!-- This document was automatically generated using a custom generator.\nFor more information visit: https://github.com/EdoardoLaGreca/webserver -->\n<!DOCTYPE html>\n<html>\n<meta charset=\"utf-8\">\n<head>\n<title>"@
}

/// A whole page around a body.
pub open spec fn page(body: Seq<char>, settings: MdSettingsView) -> Seq<char> {
    page_top() + settings.page_title + "</title>\n"@ + join_lines(style_lines(settings))
        + "\n</head>\n<body>\n"@ + body + "\n</body>\n</html>"@
}

/// The body that a Markdown text becomes: what stands within lines first,
/// then code blocks, numbered lists and other lists.
pub open spec fn body_text(content: Seq<char>) -> Seq<char> {
    rejoined(
        list_items(list_items(code_blocks(inline_text(content, inline_rules().len())), true), false),
    )
}

/// The rules for what stands within a line.
pub fn inline_table() -> (rules: Vec<(&'static str, &'static str)>)
    ensures
        rule_views(rules@) == inline_rules(),
{
    let mut rules: Vec<(&'static str, &'static str)> = Vec::new();
    rules.push(("(?m)(^#{6}) (?P<text>.+)", "<h6> $text </h6>"));
    rules.push(("(?m)(^#{5}) (?P<text>.+)", "<h5> $text </h5>"));
    rules.push(("(?m)(^#{4}) (?P<text>.+)", "<h4> $text </h4>"));
    rules.push(("(?m)(^#{3}) (?P<text>.+)", "<h3> $text </h3>"));
    rules.push(("(?m)(^#{2}) (?P<text>.+)", "<h2> $text </h2>"));
    rules.push(("(?m)(^#{1}) (?P<text>.+)", "<h1> $text </h1>"));
    rules.push(("(?m)[*]{3}(?P<text>[^*\\n]+)[*]{3}", "<b><i> $text </i></b>"));
    rules.push(("(?m)[*]{2}(?P<text>[^*\\n]+)[*]{2}", "<b> $text </b>"));
    rules.push(("(?m)[*]{1}(?P<text>[^*\\n]+)[*]{1}", "<i> $text </i>"));
    rules.push(("(?m)^> (?P<text>.+)", "<blockquote> $text </blockquote>"));
    rules.push(("(?m)[`]{2}(?P<text>[^`\\n]+)[`]{2}", "<code> $text </code>"));
    rules.push(("(?m)[`]{1}(?P<text>[^`\\n]+)[`]{1}", "<code> $text </code>"));
    assert(rule_views(rules@) =~= inline_rules());
    rules
}

/// Applies the rules for what stands within a line, one after the other.
pub fn convert_inline(text: &str) -> (r: String)
    ensures
        r@ == inline_text(text@, inline_rules().len()),
{
    let rules = inline_table();
    let mut r = text.to_owned();
    let mut k: usize = 0;
    while k < rules.len()
        invariant
            k <= rules.len(),
            rule_views(rules@) == inline_rules(),
            r@ == inline_text(text@, k as nat),
        decreases rules.len() - k,
    {
        proof {
            assert(rule_views(rules@)[k as int] == (rules@[k as int].0@, rules@[k as int].1@));
        }
        r = replace(rules[k].0, r.as_str(), rules[k].1);
        k += 1;
    }
    r
}

/// Marks the code blocks of a text.
pub fn convert_code_blocks(text: &str) -> (r: String)
    ensures
        r@ == code_blocks(text@),
{
    let orig = split_lines(&chars_of(text));
    let ghost ls = lines(text@);
    let mut cur = split_lines(&chars_of(text));
    let mut indent: usize = 0;
    let mut open = false;
    let mut i: usize = 0;
    proof {
        assert(texts(orig@).len() == orig.len());
        assert(texts(cur@).len() == cur.len());
    }
    while i < orig.len()
        invariant
            i <= orig.len(),
            texts(orig@) == ls,
            orig.len() <= cur.len(),
            texts(cur@) == code_fold(ls, i as nat).lines,
            indent == code_fold(ls, i as nat).indent,
            open == code_fold(ls, i as nat).open,
        decreases orig.len() - i,
    {
        let ghost st = code_fold(ls, i as nat);
        proof {
            assert(ls[i as int] == orig@[i as int]@);
        }
        let line = string_of(&orig[i]);
        if is_match(CODE_LINE, line.as_str()) {
            let code = replace(CODE_LINE, line.as_str(), "$text");
            if !is_match(LIST_START, code.as_str()) {
                let ind = replace(CODE_LINE, line.as_str(), "$indentation");
                if !open {
                    indent = ind.as_str().len();
                    let tag = chars_of("<code>");
                    proof {
                        assert(texts(cur@.insert(i as int, tag)) == texts(cur@).insert(
                            i as int,
                            tag@,
                        ));
                    }
                    cur.insert(i, tag);
                    open = true;
                } else {
                    let ind_chars = chars_of(ind.as_str());
                    let mut l = if indent < ind_chars.len() {
                        slice_of(&ind_chars, 0, indent)
                    } else {
                        ind_chars
                    };
                    proof {
                        assert(l@ == first_chars(ind@, indent as nat));
                    }
                    push_str(&mut l, code.as_str());
                    proof {
                        assert(texts(cur@.update(i as int, l)) == texts(cur@).update(
                            i as int,
                            l@,
                        ));
                    }
                    cur.set(i, l);
                }
            }
        } else if open {
            let tag = chars_of("</code>");
            proof {
                assert(texts(cur@.insert(i as int, tag)) == texts(cur@).insert(i as int, tag@));
            }
            cur.insert(i, tag);
            open = false;
        }
        proof {
            assert(code_fold(ls, (i + 1) as nat) == code_step(st, i as int, ls[i as int]));
        }
        i += 1;
    }
    proof {
        assert(texts(cur@).skip(0) == texts(cur@));
    }
    string_of(&join_from(&cur, 0))
}

/// Marks the lists of a text: the numbered ones, or else those that are
/// left.
pub fn convert_lists(text: &str, numbered: bool) -> (r: String)
    ensures
        r@ == list_items(text@, numbered),
{
    let orig = split_lines(&chars_of(text));
    let ghost ls = lines(text@);
    let mut cur = split_lines(&chars_of(text));
    let mut indent: usize = 0;
    let mut started = false;
    let mut inserted: usize = 0;
    let mut invalid = false;
    let mut i: usize = 0;
    proof {
        assert(texts(orig@).len() == orig.len());
        assert(texts(cur@).len() == cur.len());
    }
    while i < orig.len()
        invariant
            i <= orig.len(),
            texts(orig@) == ls,
            cur.len() == orig.len() + inserted,
            texts(cur@) == list_fold(ls, i as nat, numbered).lines,
            indent == list_fold(ls, i as nat, numbered).indent,
            started == list_fold(ls, i as nat, numbered).started,
            inserted == list_fold(ls, i as nat, numbered).inserted,
            invalid == list_fold(ls, i as nat, numbered).invalid,
        decreases orig.len() - i,
    {
        let ghost st = list_fold(ls, i as nat, numbered);
        proof {
            assert(ls[i as int] == orig@[i as int]@);
        }
        let line = string_of(&orig[i]);
        if is_match(LIST_ITEM, line.as_str()) {
            if !invalid {
                let ind = replace(LIST_ITEM, line.as_str(), "$indentation").as_str().len();
                let number = replace(LIST_ITEM, line.as_str(), "$number");
                let mut item = chars_of("<li>");
                push_str(&mut item, replace(LIST_ITEM, line.as_str(), "$text").as_str());
                push_str(&mut item, "</li>");
                if numbered && !started && !text_is(&chars_of(number.as_str()), "1") {
                    invalid = true;
                } else if !started || ind > indent {
                    let tag = chars_of(if numbered {
                        "<ol>"
                    } else {
                        "<ul>"
                    });
                    proof {
                        let at = i + inserted;
                        assert(texts(cur@.insert(at, tag)) == texts(cur@).insert(at, tag@));
                        assert(texts(cur@.insert(at, tag).update(at + 1, item)) == texts(
                            cur@,
                        ).insert(at, tag@).update(at + 1, item@));
                    }
                    cur.insert(i + inserted, tag);
                    inserted += 1;
                    indent = ind;
                    cur.set(i + inserted, item);
                } else if ind < indent {
                    let tag = chars_of(if numbered {
                        "</ol>"
                    } else {
                        "</ul>"
                    });
                    proof {
                        let at = i + inserted;
                        assert(texts(cur@.insert(at, tag)) == texts(cur@).insert(at, tag@));
                        assert(texts(cur@.insert(at, tag).update(at + 1, item)) == texts(
                            cur@,
                        ).insert(at, tag@).update(at + 1, item@));
                    }
                    cur.insert(i + inserted, tag);
                    inserted += 1;
                    cur.set(i + inserted, item);
                } else {
                    proof {
                        let at = i + inserted;
                        assert(texts(cur@.update(at, item)) == texts(cur@).update(at, item@));
                    }
                    cur.set(i + inserted, item);
                }
            }
            started = true;
        } else if started && !invalid {
            let tag = chars_of(if numbered {
                "</ol>"
            } else {
                "</ul>"
            });
            proof {
                let at = i + inserted;
                assert(texts(cur@.insert(at, tag)) == texts(cur@).insert(at, tag@));
            }
            cur.insert(i + inserted, tag);
            inserted += 1;
            started = false;
        } else {
            invalid = false;
        }
        proof {
            assert(list_fold(ls, (i + 1) as nat, numbered) == list_step(
                st,
                i as int,
                ls[i as int],
                numbered,
            ));
        }
        i += 1;
    }
    proof {
        assert(texts(cur@).skip(0) == texts(cur@));
    }
    string_of(&join_from(&cur, 0))
}

/// The text line by line, with one line feed between two lines.
pub fn rejoin(text: &str) -> (r: String)
    ensures
        r@ == rejoined(text@),
{
    let ls = split_lines(&chars_of(text));
    proof {
        assert(texts(ls@).skip(0) == texts(ls@));
    }
    string_of(&join_from(&ls, 0))
}

/// Sets a body into a whole page with the given settings.
pub fn assemble(body: &str, settings: &MdSettings) -> (doc: String)
    ensures
        doc@ == page(body@, settings@),
{
    let ghost links = settings@.css_styles_link;
    let ghost f = |l: Seq<char>| style_link(l);
    let mut styles: Vec<Vec<char>> = Vec::new();
    let mut i: usize = 0;
    while i < settings.css_styles_link.len()
        invariant
            i <= settings.css_styles_link.len(),
            links == string_views(settings.css_styles_link@),
            f == (|l: Seq<char>| style_link(l)),
            texts(styles@) == links.take(i as int).map_values(f),
        decreases settings.css_styles_link.len() - i,
    {
        let mut link = chars_of("<link rel=\"stylesheet\" href=\"style/");
        push_str(&mut link, settings.css_styles_link[i].as_str());
        push_str(&mut link, "\">");
        proof {
            assert(link@ == style_link(links[i as int]));
            assert(links.take(i + 1) == links.take(i as int).push(links[i as int]));
            assert(links.take(i + 1).map_values(f) == links.take(i as int).map_values(f).push(
                f(links[i as int]),
            ));
            assert(texts(styles@.push(link)) == texts(styles@).push(link@));
        }
        styles.push(link);
        i += 1;
    }
    proof {
        assert(links.take(settings.css_styles_link.len() as int) == links);
    }
    if settings.css_styles_embedded.len() > 0 {
        let ghost embedded = settings@.css_styles_embedded;
        let ghost before = texts(styles@);
        let tag = chars_of("<style>");
        proof {
            assert(texts(styles@.push(tag)) == texts(styles@).push(tag@));
        }
        styles.push(tag);
        let mut j: usize = 0;
        while j < settings.css_styles_embedded.len()
            invariant
                j <= settings.css_styles_embedded.len(),
                embedded == string_views(settings.css_styles_embedded@),
                texts(styles@) == before + seq!["<style>"@] + embedded.take(j as int),
            decreases settings.css_styles_embedded.len() - j,
        {
            let e = chars_of(settings.css_styles_embedded[j].as_str());
            proof {
                assert(embedded.take(j + 1) == embedded.take(j as int).push(embedded[j as int]));
                assert(texts(styles@.push(e)) == texts(styles@).push(e@));
            }
            styles.push(e);
            j += 1;
        }
        let end = chars_of("</style>");
        proof {
            assert(embedded.take(settings.css_styles_embedded.len() as int) == embedded);
            assert(texts(styles@.push(end)) == texts(styles@).push(end@));
        }
        styles.push(end);
    }
    proof {
        assert(texts(styles@) == style_lines(settings@));
        assert(texts(styles@).skip(0) == texts(styles@));
    }
    let joined = join_from(&styles, 0);
    let mut doc = chars_of(
        "<!-- This document was automatically generated using a custom generator.\nFor more information visit: https://github.com/EdoardoLaGreca/webserver -->\n<!DOCTYPE html>\n<html>\n<meta charset=\"utf-8\">\n<head>\n<title>",
    );
    push_str(&mut doc, settings.page_title.as_str());
    push_str(&mut doc, "</title>\n");
    push_all(&mut doc, &joined);
    push_str(&mut doc, "\n</head>\n<body>\n");
    push_str(&mut doc, body);
    push_str(&mut doc, "\n</body>\n</html>");
    string_of(&doc)
}

impl Markdown {
    /// The page that the text becomes.
    pub fn to_html(&self) -> (doc: String)
        ensures
            doc@ == page(body_text(self@.content), self@.settings),
    {
        let inline = convert_inline(self.content.as_str());
        let code = convert_code_blocks(inline.as_str());
        let numbered = convert_lists(code.as_str(), true);
        let listed = convert_lists(numbered.as_str(), false);
        let body = rejoin(listed.as_str());
        assemble(body.as_str(), &self.settings)
    }
}

} // verus!
