use webserver::markdown::{
    assemble, convert_code_blocks, convert_inline, convert_lists, inline_table, rejoin, Markdown,
    MdSettings,
};

const TOP: &str = "<!-- This document was automatically generated using a custom generator.\n\
For more information visit: https://github.com/EdoardoLaGreca/webserver -->\n\
<!DOCTYPE html>\n<html>\n<meta charset=\"utf-8\">\n<head>\n";

fn page_of(title: &str, styles: &str, body: &str) -> String {
    format!("{}<title>{}</title>\n{}\n</head>\n<body>\n{}\n</body>\n</html>", TOP, title, styles, body)
}

const OWN_STYLE: &str = "<link rel=\"stylesheet\" href=\"style/markdown.css\">";

#[test]
fn an_empty_text_is_an_empty_page() {
    assert_eq!(Markdown::new().to_html(), page_of("", OWN_STYLE, ""));
    assert_eq!(Markdown::new().content(), "");
}

#[test]
fn a_text_keeps_its_content() {
    let md = Markdown::from_string("# Title");
    assert_eq!(md.content(), "# Title");
    assert_eq!(md.to_html(), page_of("", OWN_STYLE, "<h1> Title </h1>"));
}

#[test]
fn the_settings_give_title_and_styles() {
    let settings = MdSettings::new(
        vec!["site.css".to_string()],
        vec!["p { margin: 0 }".to_string(), "a { color: red }".to_string()],
        "Home".to_string(),
        Some("en".to_string()),
    );
    let md = Markdown::with_settings("plain", settings);
    let styles = "<link rel=\"stylesheet\" href=\"style/site.css\">\n\
                  <link rel=\"stylesheet\" href=\"style/markdown.css\">\n\
                  <style>\np { margin: 0 }\na { color: red }\n</style>";
    assert_eq!(md.to_html(), page_of("Home", styles, "plain"));
}

#[test]
fn a_page_is_assembled_around_its_body() {
    let settings = MdSettings::new(vec![], vec![], "T".to_string(), None);
    assert_eq!(assemble("<p>b</p>", &settings), page_of("T", OWN_STYLE, "<p>b</p>"));
    assert_eq!(assemble("x", &MdSettings::default()), page_of("", OWN_STYLE, "x"));
}

#[test]
fn there_are_twelve_rules_for_what_stands_within_a_line() {
    let rules = inline_table();
    assert_eq!(rules.len(), 12);
    assert_eq!(rules[0], ("(?m)(^#{6}) (?P<text>.+)", "<h6> $text </h6>"));
    assert_eq!(rules[11], ("(?m)[`]{1}(?P<text>[^`\\n]+)[`]{1}", "<code> $text </code>"));
}

#[test]
fn headings_have_six_levels() {
    assert_eq!(convert_inline("# one"), "<h1> one </h1>");
    assert_eq!(convert_inline("## two"), "<h2> two </h2>");
    assert_eq!(convert_inline("### three"), "<h3> three </h3>");
    assert_eq!(convert_inline("#### four"), "<h4> four </h4>");
    assert_eq!(convert_inline("##### five"), "<h5> five </h5>");
    assert_eq!(convert_inline("###### six"), "<h6> six </h6>");
    assert_eq!(convert_inline("a\n## b\nc"), "a\n<h2> b </h2>\nc");
    assert_eq!(convert_inline("#nospace"), "#nospace");
}

#[test]
fn stars_make_bold_and_italic() {
    assert_eq!(convert_inline("***both***"), "<b><i> both </i></b>");
    assert_eq!(convert_inline("**bold**"), "<b> bold </b>");
    assert_eq!(convert_inline("*it*"), "<i> it </i>");
    assert_eq!(convert_inline("a **b** and *c*."), "a <b> b </b> and <i> c </i>.");
}

#[test]
fn quotes_and_code_within_a_line() {
    assert_eq!(convert_inline("> said"), "<blockquote> said </blockquote>");
    assert_eq!(convert_inline("``two``"), "<code> two </code>");
    assert_eq!(convert_inline("`one`"), "<code> one </code>");
    assert_eq!(convert_inline("no marks"), "no marks");
}

#[test]
fn a_code_block_is_opened_and_closed_at_the_old_positions() {
    assert_eq!(convert_code_blocks("text\n    code\nafter"), "text\n<code>\n</code>\n    code\nafter");
    assert_eq!(convert_code_blocks("\tcode\nafter"), "<code>\n</code>\n\tcode\nafter");
}

#[test]
fn a_code_block_at_the_end_stays_open() {
    assert_eq!(convert_code_blocks("text\n    code"), "text\n<code>\n    code");
}

#[test]
fn later_lines_of_a_code_block_take_the_place_at_their_old_position() {
    assert_eq!(
        convert_code_blocks("text\n    one\n    two\nafter"),
        "text\n<code>\n    two\n</code>\n    two\nafter"
    );
}

#[test]
fn an_indented_list_item_is_no_code() {
    assert_eq!(convert_code_blocks("    - item\nend"), "    - item\nend");
    assert_eq!(convert_code_blocks("    1. item\nend"), "    1. item\nend");
}

#[test]
fn a_text_without_indented_lines_has_no_code_blocks() {
    assert_eq!(convert_code_blocks("a\nb\n"), "a\nb");
    assert_eq!(convert_code_blocks(""), "");
}

#[test]
fn a_numbered_list_becomes_an_ordered_one() {
    assert_eq!(
        convert_lists("1. one\n2. two\nend", true),
        "<ol>\n<li>one</li>\n<li>two</li>\n</ol>\nend"
    );
}

#[test]
fn a_list_at_the_end_stays_open() {
    assert_eq!(convert_lists("1. one\n2. two", true), "<ol>\n<li>one</li>\n<li>two</li>");
}

#[test]
fn a_numbered_list_that_does_not_start_at_one_is_left() {
    assert_eq!(convert_lists("2. two\n3. three\nend", true), "2. two\n3. three\nend");
}

#[test]
fn what_the_numbered_pass_leaves_becomes_an_unordered_list() {
    assert_eq!(
        convert_lists("2. two\n3. three\nend", false),
        "<ul>\n<li>two</li>\n<li>three</li>\n</ul>\nend"
    );
}

#[test]
fn a_deeper_item_opens_a_list_within_the_list() {
    assert_eq!(
        convert_lists("1. a\n  1. b\n1. c\nend", true),
        "<ol>\n<li>a</li>\n<ol>\n<li>b</li>\n</ol>\n<li>c</li>\n</ol>\nend"
    );
}

#[test]
fn after_a_list_that_was_left_the_next_one_counts_as_going_on() {
    assert_eq!(
        convert_lists("2. x\nbreak\n1. y\nend", true),
        "2. x\nbreak\n<li>y</li>\n</ol>\nend"
    );
}

#[test]
fn a_text_without_items_has_no_lists() {
    assert_eq!(convert_lists("a\nb", true), "a\nb");
    assert_eq!(convert_lists("", false), "");
}

#[test]
fn line_endings_become_line_feeds() {
    assert_eq!(rejoin("a\r\nb\nc\n"), "a\nb\nc");
    assert_eq!(rejoin(""), "");
    assert_eq!(rejoin("\n\n"), "\n");
}

#[test]
fn a_whole_text_goes_through_all_passes() {
    let md = Markdown::from_string("# Title\n\nSome **bold** text.\n\n1. one\n2. two\n\ndone");
    assert_eq!(
        md.to_html(),
        page_of(
            "",
            OWN_STYLE,
            "<h1> Title </h1>\n\nSome <b> bold </b> text.\n\n<ol>\n<li>one</li>\n<li>two</li>\n</ol>\n\ndone"
        )
    );
}
