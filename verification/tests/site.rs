use webserver::first_run::{base_entries, is_directory};
use webserver::metadata::{Config, PageMetadata, PageTranslation, ParsedMetadata};

fn page(path: &str, title: &str) -> PageMetadata {
    PageMetadata::new(
        format!("{}.md", title),
        title.to_string(),
        "en".to_string(),
        path.to_string(),
        vec![PageTranslation::new("it".to_string(), format!("/it{}", path))],
        vec!["default.scss".to_string(), "wide.scss".to_string()],
    )
}

fn parsed(pages: Option<Vec<PageMetadata>>) -> ParsedMetadata {
    ParsedMetadata { address: None, threads: None, page_404_path: None, pages: pages }
}

#[test]
fn without_a_file_nothing_is_known_of_the_site() {
    let config = Config::parse_metadata(None, true);
    assert_eq!(config.get_address(), "");
    assert_eq!(config.get_threads(), 0);
    assert_eq!(config.get_verbosity(), 0);
    assert_eq!(config.get_page_404_path(), "");
    assert!(config.get_pages().is_empty());
    assert!(config.get_by_path("/").is_none());
}

#[test]
fn the_default_metadata_is_empty() {
    let config = Config::default();
    assert_eq!(config.get_address(), "");
    assert_eq!(config.get_threads(), 0);
    assert!(config.get_pages().is_empty());
}

#[test]
fn without_a_list_of_pages_nothing_is_known_of_the_site() {
    let mut m = parsed(None);
    m.address = Some("0.0.0.0:1".to_string());
    m.threads = Some(9);
    let config = Config::parse_metadata(Some(m), true);
    assert_eq!(config.get_address(), "");
    assert_eq!(config.get_threads(), 0);
    assert_eq!(config.get_page_404_path(), "");
}

#[test]
fn what_the_metadata_leaves_out_has_its_default() {
    let config = Config::parse_metadata(Some(parsed(Some(vec![]))), true);
    assert_eq!(config.get_address(), "127.0.0.1:80");
    assert_eq!(config.get_threads(), 4);
    assert_eq!(config.get_verbosity(), 0);
    assert_eq!(config.get_page_404_path(), "404.md");
    let config = Config::parse_metadata(Some(parsed(Some(vec![]))), false);
    assert_eq!(config.get_page_404_path(), "");
}

#[test]
fn what_the_metadata_sets_is_kept() {
    let m = ParsedMetadata {
        address: Some("[::1]:8000".to_string()),
        threads: Some(2),
        page_404_path: Some("gone.md".to_string()),
        pages: Some(vec![page("/", "index"), page("/about", "about")]),
    };
    let config = Config::parse_metadata(Some(m), false);
    assert_eq!(config.get_address(), "[::1]:8000");
    assert_eq!(config.get_threads(), 2);
    assert_eq!(config.get_page_404_path(), "gone.md");
    let pages = config.get_pages();
    assert_eq!(pages.len(), 2);
    assert_eq!(pages[0].get_path(), "/");
    assert_eq!(pages[1].get_path(), "/about");
}

#[test]
fn a_page_is_found_by_its_path() {
    let pages = vec![page("/", "index"), page("/about", "about"), page("/about", "second")];
    let config = Config::parse_metadata(Some(parsed(Some(pages))), true);
    let found = config.get_by_path("/about").unwrap();
    assert_eq!(found.get_title(), "about");
    assert_eq!(found.get_filename(), "about.md");
    assert_eq!(found.get_lang(), "en");
    assert_eq!(found.get_path(), "/about");
    assert_eq!(found.get_styles(), vec!["default.scss".to_string(), "wide.scss".to_string()]);
    let translations = found.get_translations();
    assert_eq!(translations.len(), 1);
    assert_eq!(translations[0].get_lang(), "it");
    assert_eq!(translations[0].get_path(), "/it/about");
    assert!(config.get_by_path("/missing").is_none());
    assert!(config.get_by_path("/abou").is_none());
    assert!(config.get_by_path("").is_none());
}

#[test]
fn copies_hold_what_was_copied() {
    let first = page("/p", "p");
    let copy = first.copy();
    assert_eq!(copy.get_filename(), first.get_filename());
    assert_eq!(copy.get_title(), first.get_title());
    assert_eq!(copy.get_lang(), first.get_lang());
    assert_eq!(copy.get_path(), first.get_path());
    assert_eq!(copy.get_styles(), first.get_styles());
    let t = PageTranslation::new("de".to_string(), "/de".to_string()).copy();
    assert_eq!((t.get_lang().as_str(), t.get_path().as_str()), ("de", "/de"));
}

#[test]
fn what_has_to_be_there_before_the_first_run() {
    let entries = base_entries("www/", "[server]\n", "body {}\n");
    let seen: Vec<(&str, Option<&str>)> =
        entries.iter().map(|e| (e.path.as_str(), e.content.as_deref())).collect();
    assert_eq!(
        seen,
        vec![
            ("config.toml", Some("[server]\n")),
            ("www/index.md", Some("Hello World!")),
            ("www/favicon.ico", None),
            ("www/style/default.scss", Some("body {}\n")),
            ("www/style/font/", None),
        ]
    );
}

#[test]
fn a_path_that_ends_in_a_slash_is_a_directory() {
    assert!(is_directory("www/style/font/"));
    assert!(is_directory("/"));
    assert!(!is_directory("www/index.md"));
    assert!(!is_directory(""));
}
