use webserver::config::{Config, ParsedArgs, ParsedServer, Server};
use webserver::css::SassOptions;
use webserver::http::{encode_response, parse_request, Method, Response};
use webserver::requests_handler::{
    error_404, finish_style, get_checked_file_content, handle_request, response_builder, resume,
    Pending, Step,
};
use webserver::router::get_routes;

fn server() -> Server {
    let unset = ParsedServer {
        address: None,
        threads: None,
        err404_path: None,
        title: None,
        www_path: None,
    };
    Config::init(ParsedArgs { verbosity: 2, use_tls: true }, unset).server
}

fn header<'a>(response: &'a Response, key: &str) -> Option<&'a str> {
    response.headers.iter().find(|h| h.0 == key).map(|h| h.1.as_str())
}

fn done(step: Step) -> Response {
    match step {
        Step::Done(response) => response,
        other => panic!("not done: {:?}", other),
    }
}

fn read(step: Step) -> Pending {
    match step {
        Step::Read(pending) => pending,
        other => panic!("no read: {:?}", other),
    }
}

fn compile(sheet: String, options: SassOptions) -> Option<String> {
    let style = if options.compressed {
        grass::OutputStyle::Compressed
    } else {
        grass::OutputStyle::Expanded
    };
    grass::from_string(sheet, &grass::Options::default().style(style).quiet(options.quiet)).ok()
}

fn compiled(step: Step) -> Response {
    match step {
        Step::Compile { sheet, options } => finish_style(compile(sheet, options)),
        other => panic!("nothing to compile: {:?}", other),
    }
}

#[test]
fn the_index_page_is_served_for_the_root() {
    let routes = get_routes();
    let server = server();
    let first = handle_request(&routes, &server, Method::Get, "/");
    assert!(matches!(&first, Pending::Resource { route: 1, file } if file == "index.md"));
    assert_eq!(first.file(), "index.md");
    let response = done(resume(&routes, &server, "/", first, Some(b"Hello World!".to_vec())));
    assert_eq!(response.status, 200);
    assert_eq!(header(&response, "Content-Type"), Some("text/html"));
    let html = String::from_utf8(response.body.clone()).unwrap();
    assert!(html.contains("<p>Hello World!</p>"));
    let length = response.body.len().to_string();
    assert_eq!(header(&response, "Content-Length"), Some(length.as_str()));
}

#[test]
fn a_missing_page_without_a_page_for_it_gets_the_fixed_response() {
    let routes = get_routes();
    let server = server();
    let first = handle_request(&routes, &server, Method::Get, "/nope");
    assert!(matches!(&first, Pending::Resource { route: 1, file } if file == "nope.md"));
    let second = read(resume(&routes, &server, "/nope", first, None));
    assert!(matches!(&second, Pending::Fallback { file } if file == "404.md"));
    let response = done(resume(&routes, &server, "/nope", second, None));
    assert_eq!(response.status, 404);
    assert_eq!(response.body, b"ERROR 404: Not found.".to_vec());
    assert_eq!(header(&response, "Content-Type"), Some("text/plain"));
    assert_eq!(header(&response, "Content-Length"), Some("21"));
}

#[test]
fn a_request_that_no_route_matches_goes_to_the_page_for_it_at_once() {
    let routes = get_routes();
    let server = server();
    let first = handle_request(&routes, &server, Method::Post, "/nope");
    assert!(matches!(&first, Pending::Fallback { file } if file == "404.md"));
    let response = done(resume(&routes, &server, "/nope", first, None));
    assert_eq!(response.status, 404);
    assert_eq!(response.body, b"ERROR 404: Not found.".to_vec());
    assert_eq!(header(&response, "Content-Type"), Some("text/plain"));
}

#[test]
fn a_style_sheet_is_compiled_on_its_way_out() {
    let routes = get_routes();
    let server = server();
    let sheet = b"$c: blue;\nbody { p { color: $c; } }\n".to_vec();
    let first = handle_request(&routes, &server, Method::Get, "/style/site.scss");
    assert!(matches!(&first, Pending::Resource { route: 2, file } if file == "style/site.scss"));
    let step = resume(&routes, &server, "/style/site.scss", first, Some(sheet.clone()));
    assert!(matches!(
        &step,
        Step::Compile { sheet: s, options: SassOptions { compressed: true, quiet: false } }
            if s.as_bytes() == sheet.as_slice()
    ));
    let response = compiled(step);
    assert_eq!(response.status, 200);
    assert_eq!(header(&response, "Content-Type"), Some("text/css"));
    assert_ne!(response.body, sheet);
    assert_eq!(String::from_utf8(response.body).unwrap().trim_end(), "body p{color:blue}");
}

#[test]
fn a_markdown_page_for_what_was_not_found_is_rendered() {
    let server = server();
    let (body, mime, status) = error_404(&server, "404.md", Some(b"Nothing *here*.".to_vec()));
    assert_eq!(status, 404);
    assert!(String::from_utf8(body).unwrap().contains("<p>Nothing <em>here</em>.</p>"));
    assert_eq!(mime, mime_guess::from_path("404.md").first().unwrap().to_string());
}

#[test]
fn a_page_for_what_was_not_found_that_is_no_markdown_goes_out_as_it_is() {
    let server = server();
    let (body, mime, status) = error_404(&server, "missing.html", Some(b"<p>gone</p>".to_vec()));
    assert_eq!((body, mime.as_str(), status), (b"<p>gone</p>".to_vec(), "text/html", 404));
    let (body, mime, status) = error_404(&server, "missing", Some(b"gone".to_vec()));
    assert_eq!((body, mime.as_str(), status), (b"gone".to_vec(), "*/*", 404));
}

#[test]
fn a_markdown_page_for_what_was_not_found_that_is_no_text_gives_way_to_the_fixed_one() {
    let server = server();
    let (body, mime, status) = error_404(&server, "404.md", Some(vec![0xff]));
    assert_eq!((body, mime.as_str(), status), (b"ERROR 404: Not found.".to_vec(), "text/plain", 404));
}

#[test]
fn a_page_that_is_no_text_falls_back() {
    let routes = get_routes();
    let server = server();
    let first = handle_request(&routes, &server, Method::Get, "/broken");
    let second = read(resume(&routes, &server, "/broken", first, Some(vec![0x80])));
    assert!(matches!(&second, Pending::Fallback { file } if file == "404.md"));
}

#[test]
fn a_style_sheet_with_an_error_goes_out_empty() {
    let routes = get_routes();
    let server = server();
    let first = handle_request(&routes, &server, Method::Get, "/style/bad.scss");
    let response =
        compiled(resume(&routes, &server, "/style/bad.scss", first, Some(b"a { color: ".to_vec())));
    assert_eq!(response.status, 200);
    assert_eq!(header(&response, "Content-Type"), Some("text/css"));
    assert_eq!(header(&response, "Content-Length"), Some("0"));
    assert!(response.body.is_empty());
}

#[test]
fn the_expanded_style_is_compiled_on_request() {
    let css = compile("a { color: red; }".to_string(), SassOptions { compressed: false, quiet: true });
    let response = finish_style(css);
    assert_eq!(response.body, b"a {\n  color: red;\n}\n".to_vec());
    assert_eq!(header(&response, "Content-Length"), Some("20"));
}

#[test]
fn a_style_sheet_that_is_no_text_falls_back() {
    let routes = get_routes();
    let server = server();
    let first = handle_request(&routes, &server, Method::Get, "/style/site.scss");
    let second = read(resume(&routes, &server, "/style/site.scss", first, Some(vec![0xff])));
    assert!(matches!(&second, Pending::Fallback { file } if file == "404.md"));
}

#[test]
fn the_favicon_goes_out_as_it_is() {
    let routes = get_routes();
    let server = server();
    let first = handle_request(&routes, &server, Method::Get, "/favicon.ico");
    assert!(matches!(&first, Pending::Resource { route: 0, file } if file == "favicon.ico"));
    let response = done(resume(&routes, &server, "/favicon.ico", first, Some(vec![0, 0, 1, 0])));
    assert_eq!(response.status, 200);
    assert_eq!(response.body, vec![0, 0, 1, 0]);
    assert_eq!(header(&response, "Content-Length"), Some("4"));
}

#[test]
fn the_response_carries_type_and_length() {
    let response = response_builder((b"abc".to_vec(), "text/plain".to_string(), 200));
    assert_eq!(response.status, 200);
    assert_eq!(response.body, b"abc".to_vec());
    assert_eq!(
        response.headers,
        vec![
            ("Content-Type".to_string(), "text/plain".to_string()),
            ("Content-Length".to_string(), "3".to_string()),
        ]
    );
}

#[test]
fn a_read_that_failed_gave_no_content() {
    assert_eq!(get_checked_file_content(Ok(vec![1, 2])), Some(vec![1, 2]));
    assert_eq!(get_checked_file_content(Err(())), None);
}

#[test]
fn from_request_text_to_response_bytes() {
    let routes = get_routes();
    let server = server();
    let request = parse_request("GET /logo.svg HTTP/1.1\nHost: localhost\n\n").unwrap();
    let first = handle_request(&routes, &server, request.method, &request.path);
    assert_eq!(first.file(), "logo.svg");
    let response =
        done(resume(&routes, &server, &request.path, first, Some(b"<svg/>".to_vec())));
    assert_eq!(
        encode_response(&response),
        b"HTTP/1.1 200\nContent-Type: image/svg+xml\nContent-Length: 6\n\n<svg/>".to_vec()
    );
}
