//! The dispatcher: from a request to its response, by way of the files that
//! have to be read for it.
//!
//! The dispatcher reads no file and compiles no style sheet itself. It says
//! which file it needs next and takes what the read gave; for a style sheet
//! it hands the sheet out and takes what the compilation gave.

use crate::config::{Server, DEFAULT_404_PAGE_CONTENT, DEFAULT_MD_STYLE};
use crate::css::{get_default_grass_options, server_options, SassOptions};
use crate::html::{document_text, markdown_html, md_to_html, page_options, page_text, page_title};
use crate::http::{Method, Response, ResponseView};
use crate::mime::{guessed_mime, mime_for, mime_or};
use crate::pattern::full_match;
use crate::router::{
    choose_route, content_view, css_of, is_first_route, is_scss, lemma_asset_route,
    lemma_page_route, no_route,
    reference_routes, route_views, style_found, style_result, Handled, HandledView, Handler,
    Route, RouteResult, RouteResultView, RouteView, ASSETS, PAGES,
};
use crate::text::{chars_of, decimal, ends_with, push_decimal, string_of};
use vstd::prelude::*;
use vstd::string::*;
use vstd::utf8::{decode_utf8, encode_utf8, valid_utf8};

verus! {

/// The file that the dispatcher waits for.
#[derive(Debug)]
pub enum Pending {
    /// The file that route `route` of the table serves for the request.
    Resource { route: usize, file: String },
    /// The page for what was not found.
    Fallback { file: String },
}

/// What a pending read holds.
pub enum PendingView {
    Resource { route: usize, file: Seq<char> },
    Fallback { file: Seq<char> },
}

impl View for Pending {
    type V = PendingView;

    open spec fn view(&self) -> PendingView {
        match self {
            Pending::Resource { route, file } => PendingView::Resource {
                route: *route,
                file: file@,
            },
            Pending::Fallback { file } => PendingView::Fallback { file: file@ },
        }
    }
}

impl Pending {
    /// The file to read, below the content root.
    pub fn file(&self) -> (f: &String)
        ensures
            f@ == match self@ {
                PendingView::Resource { route, file } => file,
                PendingView::Fallback { file } => file,
            },
    {
        match self {
            Pending::Resource { route, file } => file,
            Pending::Fallback { file } => file,
        }
    }
}

/// What the dispatcher does next.
#[derive(Debug)]
pub enum Step {
    /// Read the file and come back with what the read gave.
    Read(Pending),
    /// Compile the style sheet with the options and come back with what the
    /// compilation gave.
    Compile { sheet: String, options: SassOptions },
    /// Send the response.
    Done(Response),
}

/// What a step holds.
pub enum StepView {
    Read(PendingView),
    Compile { sheet: Seq<char>, options: SassOptions },
    Done(ResponseView),
}

impl View for Step {
    type V = StepView;

    open spec fn view(&self) -> StepView {
        match self {
            Step::Read(p) => StepView::Read(p@),
            Step::Compile { sheet, options } => StepView::Compile {
                sheet: sheet@,
                options: *options,
            },
            Step::Done(r) => StepView::Done(r@),
        }
    }
}

/// Body, media type and status of what is served.
pub open spec fn served_view(served: (Vec<u8>, String, u16)) -> (Seq<u8>, Seq<char>, u16) {
    (served.0@, served.1@, served.2)
}

/// The fixed content for what was not found.
pub open spec fn default_404() -> (Seq<u8>, Seq<char>, u16) {
    (encode_utf8(DEFAULT_404_PAGE_CONTENT@), "text/plain"@, 404)
}

/// What is served where nothing was found, given the content of the page
/// for it, or none where that page could not be read. All of it has status
/// 404.
///
/// Without the page, the fixed content. With it, the page under the media
/// type guessed from its name, or else under any type; a Markdown page is
/// rendered first, and the fixed content stands in where it is no valid
/// UTF-8.
pub open spec fn fallback(file: Seq<char>, site_title: Seq<char>, content: Option<Seq<u8>>) -> (
    Seq<u8>,
    Seq<char>,
    u16,
) {
    match content {
        None => default_404(),
        Some(b) => if !".md"@.is_suffix_of(file) {
            (b, mime_or(guessed_mime(file), "*/*"@), 404)
        } else if valid_utf8(b) {
            (
                encode_utf8(page_text(file, decode_utf8(b), site_title)),
                mime_or(guessed_mime(file), "*/*"@),
                404,
            )
        } else {
            default_404()
        },
    }
}

/// The response for what is served: its status and body, with the media
/// type and the body's length as headers.
pub open spec fn response_for(served: (Seq<u8>, Seq<char>, u16)) -> ResponseView {
    ResponseView {
        status: served.2,
        headers: seq![
            ("Content-Type"@, served.1),
            ("Content-Length"@, decimal(served.0.len())),
        ],
        body: served.0,
    }
}

/// The response for what a handler found.
pub open spec fn found_response(result: RouteResultView) -> ResponseView {
    match result {
        RouteResultView::Found { body, mime, status } => response_for((body, mime, status)),
        RouteResultView::NotFound => response_for(default_404()),
    }
}

/// What follows a handler's outcome: the response where something was
/// found, the read of the page for what was not found where nothing was,
/// and the compilation of a style sheet where that is what was read.
pub open spec fn after_route(outcome: HandledView, err404_path: Seq<char>) -> StepView {
    match outcome {
        HandledView::Result(RouteResultView::Found { body, mime, status }) => StepView::Done(
            response_for((body, mime, status)),
        ),
        HandledView::Result(RouteResultView::NotFound) => StepView::Read(
            PendingView::Fallback { file: err404_path },
        ),
        HandledView::Style { sheet } => StepView::Compile {
            sheet: sheet,
            options: server_options(),
        },
    }
}

/// The first step for a request: the file of the first route that matches,
/// or the page for what was not found where no route matches.
pub open spec fn begins(
    routes: Seq<RouteView>,
    err404_path: Seq<char>,
    method: Method,
    uri: Seq<char>,
    first: PendingView,
) -> bool {
    match first {
        PendingView::Resource { route, file } => is_first_route(routes, method, uri, route as int)
            && file == routes[route as int].handler.resource(uri),
        PendingView::Fallback { file } => no_route(routes, method, uri) && file == err404_path,
    }
}

/// The step that follows a read: after a route's file what follows its
/// handler's outcome, after the page for what was not found the response
/// with status 404.
pub open spec fn resumed(
    routes: Seq<RouteView>,
    err404_path: Seq<char>,
    site_title: Seq<char>,
    uri: Seq<char>,
    pending: PendingView,
    content: Option<Seq<u8>>,
) -> StepView {
    match pending {
        PendingView::Resource { route, file } => after_route(
            routes[route as int].handled(uri, content, site_title),
            err404_path,
        ),
        PendingView::Fallback { file } => StepView::Done(
            response_for(fallback(file, site_title, content)),
        ),
    }
}

/// What a read gave, as content or none.
pub fn get_checked_file_content(read: Result<Vec<u8>, ()>) -> (content: Option<Vec<u8>>)
    ensures
        content == match read {
            Ok(b) => Some(b),
            Err(_) => None::<Vec<u8>>,
        },
{
    match read {
        Ok(b) => Some(b),
        Err(_) => None,
    }
}

/// The fixed content for what was not found.
fn default_page() -> (served: (Vec<u8>, String, u16))
    ensures
        served_view(served) == default_404(),
{
    (DEFAULT_404_PAGE_CONTENT.as_bytes_vec(), "text/plain".to_owned(), 404)
}

/// What is served where nothing was found, given the content of the page
/// for it, or none where that page could not be read.
pub fn error_404(server: &Server, file: &str, content: Option<Vec<u8>>) -> (served: (Vec<u8>, String, u16))
    ensures
        served_view(served) == fallback(file@, server.title@, content_view(content)),
        served.2 == 404,
{
    let bytes = match content {
        Some(b) => b,
        None => {
            return default_page();
        },
    };
    if ends_with(&chars_of(file), &chars_of(".md")) {
        match md_to_html(file, bytes, server.title.as_str()) {
            Ok(doc) => (doc.as_str().as_bytes_vec(), mime_for(file, "*/*"), 404),
            Err(_) => default_page(),
        }
    } else {
        (bytes, mime_for(file, "*/*"), 404)
    }
}

/// The first step for a request: which file to read.
pub fn handle_request(
    routes: &Vec<Route>,
    server: &Server,
    req_method: Method,
    req_uri: &str,
) -> (first: Pending)
    ensures
        begins(route_views(routes@), server.err404_path@, req_method, req_uri@, first@),
{
    match choose_route(routes, req_method, req_uri) {
        Some(i) => {
            assert(route_views(routes@)[i as int] == routes@[i as int]@);
            Pending::Resource { route: i, file: routes[i].resource(req_uri) }
        },
        None => Pending::Fallback { file: server.err404_path.clone() },
    }
}

/// The step that follows a read. `content` is what the read of the pending
/// file gave, or none where it could not be read.
pub fn resume(
    routes: &Vec<Route>,
    server: &Server,
    req_uri: &str,
    pending: Pending,
    content: Option<Vec<u8>>,
) -> (next: Step)
    requires
        pending matches Pending::Resource { route, file } ==> route < routes.len(),
    ensures
        next@ == resumed(
            route_views(routes@),
            server.err404_path@,
            server.title@,
            req_uri@,
            pending@,
            content_view(content),
        ),
        next matches Step::Done(r) ==> r@.wf(),
{
    match pending {
        Pending::Resource { route, file } => {
            assert(route_views(routes@)[route as int] == routes@[route as int]@);
            match routes[route].handle(req_uri, content, server.title.as_str()) {
                Handled::Result(RouteResult::Found { body, mime, status }) => Step::Done(
                    response_builder((body, mime, status)),
                ),
                Handled::Result(RouteResult::NotFound) => Step::Read(
                    Pending::Fallback { file: server.err404_path.clone() },
                ),
                Handled::Style { sheet } => Step::Compile {
                    sheet: sheet,
                    options: get_default_grass_options(),
                },
            }
        },
        Pending::Fallback { file } => {
            Step::Done(response_builder(error_404(server, file.as_str(), content)))
        },
    }
}

/// The response for a style sheet, from what its compilation gave: the CSS
/// as body, `text/css` as type, status 200. A style sheet that did not
/// compile goes out empty.
pub fn finish_style(compiled: Option<String>) -> (response: Response)
    ensures
        response@ == found_response(style_found(css_of(compiled))),
        response@.wf(),
{
    match style_result(compiled) {
        RouteResult::Found { body, mime, status } => response_builder((body, mime, status)),
        RouteResult::NotFound => response_builder(default_page()),
    }
}

/// The response for what is served.
pub fn response_builder(served: (Vec<u8>, String, u16)) -> (response: Response)
    requires
        100 <= served.2 <= 599,
    ensures
        response@ == response_for(served_view(served)),
        response@.wf(),
{
    let (body, content_type, status_code) = served;
    let mut length: Vec<char> = Vec::new();
    push_decimal(&mut length, body.len());
    let mut headers: Vec<(String, String)> = Vec::new();
    headers.push(("Content-Type".to_owned(), content_type));
    headers.push(("Content-Length".to_owned(), string_of(&length)));
    let response = Response { status: status_code, headers: headers, body: body };
    assert(response@.headers =~= response_for(served_view(served)).headers);
    response
}

/// The dispatcher is done after two reads at most. After the read of a
/// route's file it is done with status 200, or it asks for the compilation
/// of a style sheet, or for the page for what was not found; after the read
/// of that page it is done with status 404, whatever the read gave.
pub proof fn lemma_two_reads_at_most(
    routes: Seq<RouteView>,
    err404_path: Seq<char>,
    site_title: Seq<char>,
    uri: Seq<char>,
    pending: PendingView,
    content: Option<Seq<u8>>,
)
    ensures
        pending is Resource ==> ({
            let next = resumed(routes, err404_path, site_title, uri, pending, content);
            ||| (next matches StepView::Done(r) && r.status == 200)
            ||| next is Compile
            ||| next == StepView::Read(PendingView::Fallback { file: err404_path })
        }),
        pending is Fallback ==> (resumed(
            routes,
            err404_path,
            site_title,
            uri,
            pending,
            content,
        ) matches StepView::Done(r) && r.status == 404),
{
}

/// A request that no route matches, on a server whose page for what was not
/// found cannot be read, gets the fixed response: status 404, plain text,
/// `ERROR 404: Not found.`
pub proof fn lemma_unmatched_without_page(
    routes: Seq<RouteView>,
    err404_path: Seq<char>,
    site_title: Seq<char>,
    method: Method,
    uri: Seq<char>,
    first: PendingView,
)
    requires
        no_route(routes, method, uri),
        begins(routes, err404_path, method, uri, first),
    ensures
        first == (PendingView::Fallback { file: err404_path }),
        resumed(routes, err404_path, site_title, uri, first, None) == StepView::Done(
            ResponseView {
                status: 404,
                headers: seq![
                    ("Content-Type"@, "text/plain"@),
                    ("Content-Length"@, decimal(encode_utf8("ERROR 404: Not found."@).len())),
                ],
                body: encode_utf8("ERROR 404: Not found."@),
            },
        ),
{
    match first {
        PendingView::Resource { route, file } => {
            assert(routes[route as int].matches(method, uri));
        },
        PendingView::Fallback { file } => {},
    }
}

/// The root's page on the server's table, where the pattern for pages
/// matches the root: the file to read is the index page, and where that
/// holds the text `c` in UTF-8 the response has status 200, the type
/// `text/html`, and as body the document around `c` rendered.
pub proof fn lemma_index_page(
    err404_path: Seq<char>,
    site_title: Seq<char>,
    first: PendingView,
    content: Seq<u8>,
)
    requires
        full_match(PAGES@, "/"@),
        begins(reference_routes(), err404_path, Method::Get, "/"@, first),
        valid_utf8(content),
    ensures
        first == (PendingView::Resource { route: 1, file: "index.md"@ }),
        resumed(reference_routes(), err404_path, site_title, "/"@, first, Some(content))
            == StepView::Done(
            response_for(
                (
                    encode_utf8(
                        document_text(
                            markdown_html(decode_utf8(content), page_options()),
                            page_title(site_title, "index.md"@),
                            seq![DEFAULT_MD_STYLE@],
                        ),
                    ),
                    "text/html"@,
                    200,
                ),
            ),
        ),
{
    reveal_strlit("/");
    reveal_strlit("/favicon.ico");
    assert("/"@.len() != "/favicon.ico"@.len());
    lemma_page_route("/"@);
    match first {
        PendingView::Resource { route, file } => {
            assert(route == 1) by {
                if route > 1 {
                    assert(!reference_routes()[1].matches(Method::Get, "/"@));
                }
                if route < 1 {
                    assert(reference_routes()[0].matches(Method::Get, "/"@));
                }
            }
        },
        PendingView::Fallback { file } => {
            assert(reference_routes()[1].matches(Method::Get, "/"@));
        },
    }
}

/// A style sheet goes out compiled. Where a route for assets has read a
/// file whose name ends in `.scss` and whose content is the text `s` in
/// UTF-8, the dispatcher asks for the compilation of `s` with the server's
/// options; and the response for what the compilation gave has status 200,
/// the type `text/css`, and that CSS as body, in UTF-8.
pub proof fn lemma_style_sheet_compiled(
    routes: Seq<RouteView>,
    err404_path: Seq<char>,
    site_title: Seq<char>,
    uri: Seq<char>,
    route: usize,
    file: Seq<char>,
    content: Seq<u8>,
    compiled: Option<String>,
)
    requires
        0 <= route < routes.len(),
        routes[route as int].handler == Handler::Asset,
        is_scss(routes[route as int].handler.resource(uri)),
        valid_utf8(content),
    ensures
        resumed(
            routes,
            err404_path,
            site_title,
            uri,
            PendingView::Resource { route: route, file: file },
            Some(content),
        ) == (StepView::Compile { sheet: decode_utf8(content), options: server_options() }),
        found_response(style_found(css_of(compiled))) == (ResponseView {
            status: 200,
            headers: seq![
                ("Content-Type"@, "text/css"@),
                ("Content-Length"@, decimal(encode_utf8(css_of(compiled)).len())),
            ],
            body: encode_utf8(css_of(compiled)),
        }),
{
}

/// The style sheet `/style/site.scss` on the server's table, where the
/// pattern for pages does not match the whole of that path and the pattern
/// for assets does: the file to read is `style/site.scss`, and where that
/// holds a text in UTF-8 the dispatcher asks for the compilation of that
/// text with the server's options.
pub proof fn lemma_site_style_sheet(
    err404_path: Seq<char>,
    site_title: Seq<char>,
    first: PendingView,
    content: Seq<u8>,
)
    requires
        !full_match(PAGES@, "/style/site.scss"@),
        full_match(ASSETS@, "/style/site.scss"@),
        begins(reference_routes(), err404_path, Method::Get, "/style/site.scss"@, first),
        valid_utf8(content),
    ensures
        first == (PendingView::Resource { route: 2, file: "style/site.scss"@ }),
        resumed(
            reference_routes(),
            err404_path,
            site_title,
            "/style/site.scss"@,
            first,
            Some(content),
        ) == (StepView::Compile { sheet: decode_utf8(content), options: server_options() }),
{
    let uri = "/style/site.scss"@;
    let file = "style/site.scss"@;
    reveal_strlit("/style/site.scss");
    reveal_strlit("style/site.scss");
    reveal_strlit("/favicon.ico");
    reveal_strlit(".scss");
    assert(uri.len() != "/favicon.ico"@.len());
    lemma_asset_route(uri);
    assert(uri.drop_first() =~= file);
    assert(".scss"@ =~= file.subrange(file.len() - 5, file.len() as int));
    assert(is_scss(file));
    match first {
        PendingView::Resource { route, file } => {
            assert(route == 2) by {
                if route > 2 {
                    assert(!reference_routes()[2].matches(Method::Get, uri));
                }
                if route < 2 {
                    assert(reference_routes()[route as int].matches(Method::Get, uri));
                }
            }
        },
        PendingView::Fallback { file } => {
            assert(reference_routes()[2].matches(Method::Get, uri));
        },
    }
}

} // verus!
