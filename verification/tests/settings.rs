use webserver::args::{choose_verbosity, parse_args, Verbosity};
use webserver::config::{Config, ParsedArgs, ParsedServer};
use webserver::css::{get_default_grass_options, sass_to_css, SassOptions};
use webserver::html::{
    build_html_document, default_markdown_options, generate_title, html_document, md_to_html,
    page_stem,
};
use webserver::printing::{print_markers, shows_separator, MsgType};

#[test]
fn what_the_file_leaves_out_has_its_default() {
    let unset = ParsedServer {
        address: None,
        threads: None,
        err404_path: None,
        title: None,
        www_path: None,
    };
    let config = Config::init(ParsedArgs { verbosity: 3, use_tls: false }, unset);
    assert_eq!(config.server.address, "127.0.0.1:80");
    assert_eq!(config.server.threads, 4);
    assert_eq!(config.server.err404_path, "404.md");
    assert_eq!(config.server.title, "");
    assert_eq!(config.server.www_path, "www/");
    assert!(!config.server.use_tls);
    assert_eq!(config.printing.verbosity, 3);
}

#[test]
fn what_the_file_sets_is_kept() {
    let set = ParsedServer {
        address: Some("0.0.0.0:8080".to_string()),
        threads: Some(16),
        err404_path: Some("missing.html".to_string()),
        title: Some("My site".to_string()),
        www_path: Some("content/".to_string()),
    };
    let config = Config::init(ParsedArgs { verbosity: 0, use_tls: true }, set);
    assert_eq!(config.server.address, "0.0.0.0:8080");
    assert_eq!(config.server.threads, 16);
    assert_eq!(config.server.err404_path, "missing.html");
    assert_eq!(config.server.title, "My site");
    assert_eq!(config.server.www_path, "content/");
    assert!(config.server.use_tls);
    assert_eq!(config.printing.verbosity, 0);
}

#[test]
fn the_verbosity_is_one_of_three_levels_or_the_default() {
    assert_eq!(choose_verbosity(false, Some("1")), Verbosity::Level(1));
    assert_eq!(choose_verbosity(false, Some("2")), Verbosity::Level(2));
    assert_eq!(choose_verbosity(false, Some("3")), Verbosity::Level(3));
    assert_eq!(choose_verbosity(false, Some("4")), Verbosity::Invalid);
    assert_eq!(choose_verbosity(false, Some("")), Verbosity::Invalid);
    assert_eq!(choose_verbosity(false, Some("01")), Verbosity::Invalid);
    assert_eq!(choose_verbosity(false, None), Verbosity::Unset);
    assert_eq!(choose_verbosity(true, Some("3")), Verbosity::Silent);
    assert_eq!(Verbosity::Invalid.level(), 2);
    assert_eq!(Verbosity::Unset.level(), 2);
    assert_eq!(Verbosity::Silent.level(), 0);
    assert_eq!(Verbosity::Level(3).level(), 3);
}

#[test]
fn the_command_line_gives_verbosity_and_tls() {
    let args = parse_args(false, Some("3"), false);
    assert_eq!((args.verbosity, args.use_tls), (3, true));
    let args = parse_args(true, None, true);
    assert_eq!((args.verbosity, args.use_tls), (0, false));
    let args = parse_args(false, Some("loud"), false);
    assert_eq!((args.verbosity, args.use_tls), (2, true));
}

#[test]
fn the_legend_shows_what_the_verbosity_shows() {
    assert!(print_markers(0).is_empty());
    assert_eq!(print_markers(1), vec![(MsgType::Error, "<- Error".to_string())]);
    assert_eq!(
        print_markers(2),
        vec![
            (MsgType::Error, "<- Error".to_string()),
            (MsgType::Warning, "<- Warning".to_string()),
        ]
    );
    let all = vec![
        (MsgType::Error, "<- Error".to_string()),
        (MsgType::Warning, "<- Warning".to_string()),
        (MsgType::Info, "<- Info".to_string()),
    ];
    assert_eq!(print_markers(3), all);
    assert_eq!(print_markers(255), all);
}

#[test]
fn messages_are_shown_from_their_level_on() {
    assert!(!MsgType::Error.shown(0));
    assert!(MsgType::Error.shown(1));
    assert!(!MsgType::Warning.shown(1));
    assert!(MsgType::Warning.shown(2));
    assert!(!MsgType::Info.shown(2));
    assert!(MsgType::Info.shown(3));
    assert!(!shows_separator(0));
    assert!(shows_separator(1));
    assert_eq!(MsgType::Error.marker(), "[E]");
    assert_eq!(MsgType::Warning.marker(), "[W]");
    assert_eq!(MsgType::Info.marker(), "[I]");
}

#[test]
fn the_stem_is_the_file_name_up_to_its_first_dot() {
    assert_eq!(page_stem("index.md"), "index");
    assert_eq!(page_stem("docs/guide/intro.md"), "intro");
    assert_eq!(page_stem("archive.tar.gz"), "archive");
    assert_eq!(page_stem("docs/"), "");
    assert_eq!(page_stem("noext"), "noext");
    assert_eq!(page_stem(""), "");
    assert_eq!(page_stem("a.b/c"), "c");
}

#[test]
fn the_title_has_spaces_for_what_is_no_word_character() {
    assert_eq!(generate_title("docs/my-first--page.md"), "my first page");
    assert_eq!(generate_title("snake_case.md"), "snake_case");
    assert_eq!(generate_title("index.md"), "index");
}

#[test]
fn a_document_has_head_and_body() {
    let styles = vec!["default.scss".to_string(), "extra.css".to_string()];
    assert_eq!(
        html_document("<p>x</p>\n", "Home", &styles),
        "<!DOCTYPE html>\n<head>\n<title> Home </title>\n<meta charset=\"utf-8\">\n\
         <link rel=\"stylesheet\" href=\"/style/default.scss\">\n\
         <link rel=\"stylesheet\" href=\"/style/extra.css\">\n</head>\n<body>\n<p>x</p>\n\n\
         </body>\n</html>"
    );
}

#[test]
fn a_document_without_title_or_styles_has_empty_lines_for_them() {
    assert_eq!(
        html_document("", "", &vec![]),
        "<!DOCTYPE html>\n<head>\n\n<meta charset=\"utf-8\">\n\n</head>\n<body>\n\n</body>\n</html>"
    );
}

#[test]
fn markdown_is_rendered_into_the_document() {
    let doc = build_html_document("~~old~~ new", "T", vec![]);
    assert!(doc.contains("<p><del>old</del> new</p>"));
    assert!(doc.starts_with("<!DOCTYPE html>\n<head>\n<title> T </title>\n"));
}

#[test]
fn the_page_options_switch_the_extensions_on() {
    let options = default_markdown_options();
    assert!(options.strikethrough && options.table && options.autolink && options.tasklist);
    assert!(options.superscript && options.footnotes && options.smart);
    assert!(options.hardbreaks && options.github_pre_lang);
    assert_eq!(options.width, 80);
    let doc = build_html_document("a\nb \"q\"", "", vec![]);
    assert!(doc.contains("a<br />\nb \u{201c}q\u{201d}"));
}

#[test]
fn a_markdown_file_becomes_a_page_with_the_site_in_its_title() {
    let doc = md_to_html("docs/first-steps.md", b"hello".to_vec(), "Site").unwrap();
    assert!(doc.contains("<title> Site | first steps </title>"));
    assert!(doc.contains("<link rel=\"stylesheet\" href=\"/style/default.scss\">"));
    assert!(doc.contains("<p>hello</p>"));
}

#[test]
fn a_site_without_title_has_pages_without_title() {
    let doc = md_to_html("index.md", b"hello".to_vec(), "").unwrap();
    assert!(!doc.contains("<title>"));
}

#[test]
fn a_markdown_file_that_is_no_text_fails() {
    assert_eq!(md_to_html("index.md", vec![0xff, 0xff], "Site"), Err(()));
}

#[test]
fn the_server_compiles_compressed_and_with_warnings() {
    assert_eq!(get_default_grass_options(), SassOptions { compressed: true, quiet: false });
}

#[test]
fn the_css_is_what_the_compilation_gave() {
    assert_eq!(sass_to_css(Some("a b{color:red}\n".to_string())), "a b{color:red}\n");
    assert_eq!(sass_to_css(Some(String::new())), "");
}

#[test]
fn sass_with_an_error_compiles_to_nothing() {
    assert_eq!(sass_to_css(None), "");
}
