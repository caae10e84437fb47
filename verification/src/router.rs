//! The route table: which route a request falls to, which file the route
//! serves for it, and what becomes of the file's content.

use crate::css::sass_to_css;
use crate::html::{md_to_html, page_text};
use crate::http::Method;
use crate::mime::{guessed_mime, mime_for, mime_or};
use crate::pattern::{full_match, is_valid, matches_fully, pattern_compiles};
use crate::text::{
    chars_of, ends_with, push_str, same_text, slice_of, string_of, text_is, utf8_text,
};
use vstd::prelude::*;
use vstd::string::*;
use vstd::utf8::{decode_utf8, encode_utf8, valid_utf8};

verus! {

/// What a route serves.
#[derive(Clone, Copy, Debug, PartialEq, Eq, Structural)]
pub enum Handler {
    /// A page: the Markdown file that the path names, rendered to HTML.
    Page,
    /// A file as it is, but for a style sheet, which is compiled to CSS.
    Asset,
}

/// How a route's text is held against a path.
#[derive(Clone, Copy, Debug, PartialEq, Eq, Structural)]
pub enum Matcher {
    /// The path is the text, character by character.
    Exact,
    /// The text is a regular expression, and the whole path is its first
    /// match.
    Pattern,
}

/// What a handler makes of a request.
#[derive(Debug)]
pub enum RouteResult {
    Found { body: Vec<u8>, mime: String, status: u16 },
    NotFound,
}

/// What a route result holds.
pub enum RouteResultView {
    Found { body: Seq<u8>, mime: Seq<char>, status: u16 },
    NotFound,
}

impl View for RouteResult {
    type V = RouteResultView;

    open spec fn view(&self) -> RouteResultView {
        match self {
            RouteResult::Found { body, mime, status } => RouteResultView::Found {
                body: body@,
                mime: mime@,
                status: *status,
            },
            RouteResult::NotFound => RouteResultView::NotFound,
        }
    }
}

/// What a handler makes of the content of its file: a result, or a style
/// sheet that has to be compiled before there is one.
#[derive(Debug)]
pub enum Handled {
    Result(RouteResult),
    Style { sheet: String },
}

/// What a handler's outcome holds.
pub enum HandledView {
    Result(RouteResultView),
    Style { sheet: Seq<char> },
}

impl View for Handled {
    type V = HandledView;

    open spec fn view(&self) -> HandledView {
        match self {
            Handled::Result(r) => HandledView::Result(r@),
            Handled::Style { sheet } => HandledView::Style { sheet: sheet@ },
        }
    }
}

/// A method, a text for the path, and what is served where both match.
#[derive(Debug)]
pub struct Route {
    pub method: Method,
    pub uri: String,
    pub matcher: Matcher,
    pub handler: Handler,
}

/// What a route holds.
pub struct RouteView {
    pub method: Method,
    pub uri: Seq<char>,
    pub matcher: Matcher,
    pub handler: Handler,
}

impl View for Route {
    type V = RouteView;

    open spec fn view(&self) -> RouteView {
        RouteView {
            method: self.method,
            uri: self.uri@,
            matcher: self.matcher,
            handler: self.handler,
        }
    }
}

/// What a route table holds: its routes in their order.
pub open spec fn route_views(routes: Seq<Route>) -> Seq<RouteView> {
    routes.map_values(|r: Route| r@)
}

/// The content of a file that was read, or none.
pub open spec fn content_view(content: Option<Vec<u8>>) -> Option<Seq<u8>> {
    match content {
        Some(b) => Some(b@),
        None => None,
    }
}

/// A path without the slash that it starts with.
pub open spec fn strip_slash(uri: Seq<char>) -> Seq<char> {
    if uri.len() > 0 && uri[0] == '/' {
        uri.drop_first()
    } else {
        uri
    }
}

/// Whether a file is a Sass style sheet, by its name.
pub open spec fn is_scss(file: Seq<char>) -> bool {
    ".scss"@.is_suffix_of(file)
}

impl Handler {
    /// The file, below the content root, that is served for a path. A page
    /// is the Markdown file of the path's name, the root's page is the
    /// index; an asset is the file that the path names.
    pub open spec fn resource(self, uri: Seq<char>) -> Seq<char> {
        match self {
            Handler::Page => if uri == "/"@ {
                "index.md"@
            } else {
                strip_slash(uri) + ".md"@
            },
            Handler::Asset => strip_slash(uri),
        }
    }
}

/// The page that a Markdown file's content becomes: found with status 200
/// where the content is valid UTF-8, not found where it is not.
pub open spec fn page_found(file: Seq<char>, content: Seq<u8>, site_title: Seq<char>) -> RouteResultView {
    if valid_utf8(content) {
        RouteResultView::Found {
            body: encode_utf8(page_text(file, decode_utf8(content), site_title)),
            mime: "text/html"@,
            status: 200,
        }
    } else {
        RouteResultView::NotFound
    }
}

/// A file served as it is, under the media type guessed from its name.
pub open spec fn asset_found(file: Seq<char>, content: Seq<u8>) -> RouteResultView {
    RouteResultView::Found {
        body: content,
        mime: mime_or(guessed_mime(file), "*/*"@),
        status: 200,
    }
}

/// A compiled style sheet, served as CSS.
pub open spec fn style_found(css: Seq<char>) -> RouteResultView {
    RouteResultView::Found { body: encode_utf8(css), mime: "text/css"@, status: 200 }
}

/// The CSS that a compilation gave, or the empty text where it failed.
pub open spec fn css_of(compiled: Option<String>) -> Seq<char> {
    match compiled {
        Some(c) => c@,
        None => Seq::empty(),
    }
}

impl RouteView {
    /// A route matches where the method is its own and the path is its
    /// text, or the whole path is the first match of its pattern.
    pub open spec fn matches(self, method: Method, path: Seq<char>) -> bool {
        self.method == method && match self.matcher {
            Matcher::Exact => path == self.uri,
            Matcher::Pattern => full_match(self.uri, path),
        }
    }

    /// What the route's handler makes of a request, given the content of
    /// the file it serves, or none where the file could not be read.
    ///
    /// No content is not found. A page is found where its content is valid
    /// UTF-8. A style sheet whose content is valid UTF-8 has to be compiled,
    /// one whose content is not is not found; any other asset is found as
    /// it is.
    pub open spec fn handled(
        self,
        uri: Seq<char>,
        content: Option<Seq<u8>>,
        site_title: Seq<char>,
    ) -> HandledView {
        let file = self.handler.resource(uri);
        match content {
            None => HandledView::Result(RouteResultView::NotFound),
            Some(b) => match self.handler {
                Handler::Page => HandledView::Result(page_found(file, b, site_title)),
                Handler::Asset => if !is_scss(file) {
                    HandledView::Result(asset_found(file, b))
                } else if valid_utf8(b) {
                    HandledView::Style { sheet: decode_utf8(b) }
                } else {
                    HandledView::Result(RouteResultView::NotFound)
                },
            },
        }
    }
}

/// Route `i` is the first of the table that matches.
pub open spec fn is_first_route(routes: Seq<RouteView>, method: Method, path: Seq<char>, i: int) -> bool {
    &&& 0 <= i < routes.len()
    &&& routes[i].matches(method, path)
    &&& forall|j: int| 0 <= j < i ==> !(#[trigger] routes[j]).matches(method, path)
}

/// No route of the table matches.
pub open spec fn no_route(routes: Seq<RouteView>, method: Method, path: Seq<char>) -> bool {
    forall|j: int| 0 <= j < routes.len() ==> !(#[trigger] routes[j]).matches(method, path)
}

/// The pattern for the paths of pages: segments of letters, digits, hyphens
/// and underscores.
pub const PAGES: &'static str = "^(/[0-9A-z-_]*)+";

/// The pattern for the paths of assets: any path with a dot in it.
pub const ASSETS: &'static str = "^(/.+\\..+)";

/// The routes of the server, in the order in which they are tried: the
/// favicon, then pages, then any file with an extension.
pub open spec fn reference_routes() -> Seq<RouteView> {
    seq![
        RouteView {
            method: Method::Get,
            uri: "/favicon.ico"@,
            matcher: Matcher::Exact,
            handler: Handler::Asset,
        },
        RouteView {
            method: Method::Get,
            uri: PAGES@,
            matcher: Matcher::Pattern,
            handler: Handler::Page,
        },
        RouteView {
            method: Method::Get,
            uri: ASSETS@,
            matcher: Matcher::Pattern,
            handler: Handler::Asset,
        },
    ]
}

pub fn get_routes() -> (routes: Vec<Route>)
    ensures
        route_views(routes@) == reference_routes(),
{
    let mut routes: Vec<Route> = Vec::new();
    routes.push(Route::exact(Method::Get, "/favicon.ico", Handler::Asset));
    routes.push(Route::new(Method::Get, PAGES, Handler::Page));
    routes.push(Route::new(Method::Get, ASSETS, Handler::Asset));
    assert(route_views(routes@) =~= reference_routes());
    routes
}

/// What becomes of a style sheet once it has been compiled: the CSS that
/// the compilation gave, served as CSS with status 200. A style sheet that
/// did not compile is served empty.
pub fn style_result(compiled: Option<String>) -> (r: RouteResult)
    ensures
        r@ == style_found(css_of(compiled)),
{
    let css = sass_to_css(compiled);
    RouteResult::Found {
        body: css.as_str().as_bytes_vec(),
        mime: "text/css".to_owned(),
        status: 200,
    }
}

impl Route {
    /// A route for a method and a pattern. A pattern that does not compile
    /// makes a route that never matches.
    pub fn new(method: Method, uri_str: &str, handler: Handler) -> (route: Route)
        ensures
            route@ == (RouteView {
                method: method,
                uri: uri_str@,
                matcher: Matcher::Pattern,
                handler: handler,
            }),
    {
        Route {
            method: method,
            uri: uri_str.to_owned(),
            matcher: Matcher::Pattern,
            handler: handler,
        }
    }

    /// A route for a method and one path.
    pub fn exact(method: Method, path: &str, handler: Handler) -> (route: Route)
        ensures
            route@ == (RouteView {
                method: method,
                uri: path@,
                matcher: Matcher::Exact,
                handler: handler,
            }),
    {
        Route { method: method, uri: path.to_owned(), matcher: Matcher::Exact, handler: handler }
    }

    /// Whether the route can match at all: one for a pattern cannot where
    /// the pattern does not compile.
    pub fn is_valid(&self) -> (r: bool)
        ensures
            r == (self.matcher == Matcher::Exact || pattern_compiles(self.uri@)),
    {
        match self.matcher {
            Matcher::Exact => true,
            Matcher::Pattern => is_valid(self.uri.as_str()),
        }
    }

    pub fn is_complete_match(&self, method: Method, path: &str) -> (r: bool)
        ensures
            r == self@.matches(method, path@),
    {
        if self.method != method {
            return false;
        }
        match self.matcher {
            Matcher::Exact => same_text(&chars_of(path), &chars_of(self.uri.as_str())),
            Matcher::Pattern => matches_fully(self.uri.as_str(), path),
        }
    }

    /// The file, below the content root, that the route serves for a path.
    pub fn resource(&self, req_uri: &str) -> (file: String)
        ensures
            file@ == self.handler.resource(req_uri@),
    {
        let uri = chars_of(req_uri);
        let name = if uri.len() > 0 && uri[0] == '/' {
            let n = slice_of(&uri, 1, uri.len());
            proof {
                assert(n@ == uri@.drop_first());
            }
            n
        } else {
            uri
        };
        match self.handler {
            Handler::Page => {
                if text_is(&chars_of(req_uri), "/") {
                    "index.md".to_owned()
                } else {
                    let mut f = name;
                    push_str(&mut f, ".md");
                    string_of(&f)
                }
            },
            Handler::Asset => string_of(&name),
        }
    }

    /// What the route makes of a request, given the content of the file it
    /// serves, or none where the file could not be read.
    pub fn handle(&self, req_uri: &str, content: Option<Vec<u8>>, site_title: &str) -> (r:
        Handled)
        ensures
            r@ == self@.handled(req_uri@, content_view(content), site_title@),
    {
        let bytes = match content {
            Some(b) => b,
            None => {
                return Handled::Result(RouteResult::NotFound);
            },
        };
        let file = self.resource(req_uri);
        match self.handler {
            Handler::Page => {
                match md_to_html(file.as_str(), bytes, site_title) {
                    Ok(doc) => Handled::Result(
                        RouteResult::Found {
                            body: doc.as_str().as_bytes_vec(),
                            mime: "text/html".to_owned(),
                            status: 200,
                        },
                    ),
                    Err(_) => Handled::Result(RouteResult::NotFound),
                }
            },
            Handler::Asset => {
                if ends_with(&chars_of(file.as_str()), &chars_of(".scss")) {
                    match utf8_text(bytes) {
                        Some(sheet) => Handled::Style { sheet: sheet },
                        None => Handled::Result(RouteResult::NotFound),
                    }
                } else {
                    let mime = mime_for(file.as_str(), "*/*");
                    Handled::Result(RouteResult::Found { body: bytes, mime: mime, status: 200 })
                }
            },
        }
    }
}

/// The first route of the table that matches the method and the whole
/// path, by its position; none where no route matches.
pub fn choose_route(routes: &Vec<Route>, req_method: Method, req_uri: &str) -> (r: Option<usize>)
    ensures
        r matches Some(i) ==> is_first_route(route_views(routes@), req_method, req_uri@, i as int),
        r is None ==> no_route(route_views(routes@), req_method, req_uri@),
{
    let mut i: usize = 0;
    while i < routes.len()
        invariant
            i <= routes.len(),
            forall|j: int|
                0 <= j < i ==> !(#[trigger] route_views(routes@)[j]).matches(req_method, req_uri@),
        decreases routes.len() - i,
    {
        if routes[i].is_complete_match(req_method, req_uri) {
            return Some(i);
        }
        i += 1;
    }
    None
}

/// The favicon falls to the first route of the server's table, whatever
/// the routes after it match.
pub proof fn lemma_favicon_route()
    ensures
        is_first_route(reference_routes(), Method::Get, "/favicon.ico"@, 0),
{
}

/// A path other than the favicon's, of which the pattern for pages does not
/// match the whole and the pattern for assets does, falls to the assets,
/// the third route of the server's table.
pub proof fn lemma_asset_route(uri: Seq<char>)
    requires
        uri != "/favicon.ico"@,
        !full_match(PAGES@, uri),
        full_match(ASSETS@, uri),
    ensures
        is_first_route(reference_routes(), Method::Get, uri, 2),
{
}

/// A path other than the favicon's, of which the pattern for pages matches
/// the whole, falls to the pages, the second route of the server's table.
pub proof fn lemma_page_route(uri: Seq<char>)
    requires
        uri != "/favicon.ico"@,
        full_match(PAGES@, uri),
    ensures
        is_first_route(reference_routes(), Method::Get, uri, 1),
{
}

} // verus!
