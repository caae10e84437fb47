//! Pages: Markdown rendered to HTML and set into a document.

use crate::config::DEFAULT_MD_STYLE;
use crate::pattern::{replace, replaced};
use crate::text::{
    after_last, after_last_in, chars_of, find_char, find_char_from, join_from, join_lines,
    push_all, push_str, slice_of, string_of, string_views, texts, utf8_text,
};
use vstd::prelude::*;
use vstd::utf8::{decode_utf8, valid_utf8};

verus! {

/// The Markdown extensions and rendering choices that can be switched on.
/// What is not listed here stays as the renderer has it by default.
#[derive(Clone, Copy, Debug, PartialEq, Eq, Structural)]
pub struct MarkdownOptions {
    pub strikethrough: bool,
    pub table: bool,
    pub autolink: bool,
    pub tasklist: bool,
    pub superscript: bool,
    pub footnotes: bool,
    /// Straight quotes, dashes and dots become typographic ones.
    pub smart: bool,
    /// A line break in the source is one in the page.
    pub hardbreaks: bool,
    /// Code blocks carry their language as GitHub writes it.
    pub github_pre_lang: bool,
    /// The column at which output is wrapped.
    pub width: usize,
}

/// The options that pages are rendered with.
pub open spec fn page_options() -> MarkdownOptions {
    MarkdownOptions {
        strikethrough: true,
        table: true,
        autolink: true,
        tasklist: true,
        superscript: true,
        footnotes: true,
        smart: true,
        hardbreaks: true,
        github_pre_lang: true,
        width: 80,
    }
}

pub fn default_markdown_options() -> (options: MarkdownOptions)
    ensures
        options == page_options(),
{
    MarkdownOptions {
        strikethrough: true,
        table: true,
        autolink: true,
        tasklist: true,
        superscript: true,
        footnotes: true,
        smart: true,
        hardbreaks: true,
        github_pre_lang: true,
        width: 80,
    }
}

/// The HTML that `comrak::markdown_to_html` gives for a Markdown text under
/// the given options.
pub uninterp spec fn markdown_html(md: Seq<char>, options: MarkdownOptions) -> Seq<char>;

/// Renders Markdown with `comrak::markdown_to_html`. The options are
/// comrak's defaults with each field of `options` set on the field of the
/// same name.
#[verifier::external_body]
pub(crate) fn render_markdown(md: &str, options: MarkdownOptions) -> (html: String)
    ensures
        html@ == markdown_html(md@, options),
{
    let mut o = comrak::ComrakOptions::default();
    o.extension.strikethrough = options.strikethrough;
    o.extension.table = options.table;
    o.extension.autolink = options.autolink;
    o.extension.tasklist = options.tasklist;
    o.extension.superscript = options.superscript;
    o.extension.footnotes = options.footnotes;
    o.parse.smart = options.smart;
    o.render.hardbreaks = options.hardbreaks;
    o.render.github_pre_lang = options.github_pre_lang;
    o.render.width = options.width;
    comrak::markdown_to_html(md, &o)
}

/// The `title` element of a page, or nothing for a page without a title.
pub open spec fn title_tag(page_title: Seq<char>) -> Seq<char> {
    if page_title.len() == 0 {
        Seq::empty()
    } else {
        "<title> "@ + page_title + " </title>"@
    }
}

/// The `link` element for a style sheet of the style directory.
pub open spec fn link_tag(stylesheet: Seq<char>) -> Seq<char> {
    "<link rel=\"stylesheet\" href=\"/style/"@ + stylesheet + "\">"@
}

/// A whole page: a head with title, character set and style sheets, one
/// line each, and a body that holds the rendered text.
pub open spec fn document_text(
    rendered: Seq<char>,
    page_title: Seq<char>,
    stylesheets: Seq<Seq<char>>,
) -> Seq<char> {
    "<!DOCTYPE html>\n<head>\n"@ + title_tag(page_title) + "\n<meta charset=\"utf-8\">\n"@
        + join_lines(stylesheets.map_values(|s: Seq<char>| link_tag(s))) + "\n</head>\n<body>\n"@
        + rendered + "\n</body>\n</html>"@
}

/// Sets rendered HTML into a whole page.
pub fn html_document(rendered: &str, page_title: &str, stylesheets: &Vec<String>) -> (doc: String)
    ensures
        doc@ == document_text(rendered@, page_title@, string_views(stylesheets@)),
{
    let ghost styles = string_views(stylesheets@);
    let ghost f = |s: Seq<char>| link_tag(s);
    let title = chars_of(page_title);
    let mut links: Vec<Vec<char>> = Vec::new();
    let mut i: usize = 0;
    while i < stylesheets.len()
        invariant
            i <= stylesheets.len(),
            styles == string_views(stylesheets@),
            f == (|s: Seq<char>| link_tag(s)),
            texts(links@) == styles.take(i as int).map_values(f),
        decreases stylesheets.len() - i,
    {
        let mut link: Vec<char> = Vec::new();
        push_str(&mut link, "<link rel=\"stylesheet\" href=\"/style/");
        push_str(&mut link, stylesheets[i].as_str());
        push_str(&mut link, "\">");
        proof {
            assert(link@ == link_tag(styles[i as int]));
            assert(styles.take(i + 1) == styles.take(i as int).push(styles[i as int]));
            assert(styles.take(i + 1).map_values(f) == styles.take(i as int).map_values(f).push(
                f(styles[i as int]),
            ));
            assert(texts(links@.push(link)) == texts(links@).push(link@));
        }
        links.push(link);
        i += 1;
    }
    proof {
        assert(styles.take(stylesheets.len() as int) == styles);
        assert(texts(links@).skip(0) == texts(links@));
    }
    let joined = join_from(&links, 0);
    let mut doc: Vec<char> = Vec::new();
    push_str(&mut doc, "<!DOCTYPE html>\n<head>\n");
    if title.len() > 0 {
        push_str(&mut doc, "<title> ");
        push_all(&mut doc, &title);
        push_str(&mut doc, " </title>");
    }
    push_str(&mut doc, "\n<meta charset=\"utf-8\">\n");
    push_all(&mut doc, &joined);
    push_str(&mut doc, "\n</head>\n<body>\n");
    push_str(&mut doc, rendered);
    push_str(&mut doc, "\n</body>\n</html>");
    proof {
        assert(doc@ == document_text(rendered@, page_title@, styles));
    }
    string_of(&doc)
}

/// Renders a Markdown text and sets it into a whole page.
pub fn build_html_document(md_fc: &str, page_title: &str, stylesheets: Vec<String>) -> (doc:
    String)
    ensures
        doc@ == document_text(
            markdown_html(md_fc@, page_options()),
            page_title@,
            string_views(stylesheets@),
        ),
{
    let rendered = render_markdown(md_fc, default_markdown_options());
    html_document(rendered.as_str(), page_title, &stylesheets)
}

/// The name of the file that a path ends in, up to its first dot.
pub open spec fn stem(path: Seq<char>) -> Seq<char> {
    let name = after_last(path, '/');
    name.take(find_char(name, '.'))
}

/// The name of the file that a path ends in, up to its first dot.
pub fn page_stem(path: &str) -> (r: String)
    ensures
        r@ == stem(path@),
{
    let p = chars_of(path);
    let name = after_last_in(&p, '/');
    let dot = find_char_from(&name, 0, '.');
    proof {
        assert(name@.skip(0) == name@);
        assert(name@.take(dot as int) == name@.subrange(0, dot as int));
    }
    let s = slice_of(&name, 0, dot);
    string_of(&s)
}

/// The title for the page at a path: its stem, with every run of characters
/// that are no word characters replaced by one space.
pub open spec fn generated_title(path: Seq<char>) -> Seq<char> {
    replaced("[^\\w]+"@, stem(path), " "@)
}

pub fn generate_title(path: &str) -> (title: String)
    ensures
        title@ == generated_title(path@),
{
    let name = page_stem(path);
    replace("[^\\w]+", name.as_str(), " ")
}

/// The title of a page as the browser shows it: the site's title, a bar, the
/// generated title. A site without a title has pages without one.
pub open spec fn page_title(site_title: Seq<char>, file_path: Seq<char>) -> Seq<char> {
    if site_title.len() == 0 {
        Seq::empty()
    } else {
        site_title + " | "@ + generated_title(file_path)
    }
}

/// The page that a Markdown file becomes, for any text that the file holds.
pub open spec fn page_text(
    file_path: Seq<char>,
    text: Seq<char>,
    site_title: Seq<char>,
) -> Seq<char> {
    document_text(
        markdown_html(text, page_options()),
        page_title(site_title, file_path),
        seq![DEFAULT_MD_STYLE@],
    )
}

/// Turns the content of a Markdown file into an HTML page. Fails exactly
/// where the content is no valid UTF-8.
pub fn md_to_html(file_path: &str, file_content: Vec<u8>, site_title: &str) -> (r: Result<
    String,
    (),
>)
    ensures
        r is Ok <==> valid_utf8(file_content@),
        r matches Ok(doc) ==> doc@ == page_text(
            file_path@,
            decode_utf8(file_content@),
            site_title@,
        ),
{
    let text = match utf8_text(file_content) {
        Some(t) => t,
        None => {
            return Err(());
        },
    };
    let mut title: Vec<char> = Vec::new();
    let site = chars_of(site_title);
    if site.len() > 0 {
        push_all(&mut title, &site);
        push_str(&mut title, " | ");
        push_str(&mut title, generate_title(file_path).as_str());
    }
    let mut styles: Vec<String> = Vec::new();
    styles.push(DEFAULT_MD_STYLE.to_owned());
    proof {
        assert(string_views(styles@) == seq![DEFAULT_MD_STYLE@]);
    }
    Ok(build_html_document(text.as_str(), string_of(&title).as_str(), styles))
}

} // verus!
