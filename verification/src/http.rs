//! The wire codec: a request text becomes a `Request`, a `Response` becomes
//! the bytes that go out.

use crate::text::{
    chars_of, decimal, find_char, find_char_from, find_pair, find_pair_in, join_from,
    join_lines, lemma_find_char, lemma_find_char_is, lemma_find_pair, lemma_find_pair_is, lines,
    pair_at, push_all, push_decimal, push_str, slice_of, split_lines, string_of, strip_cr, text_is,
    texts,
};
use vstd::prelude::*;
use vstd::string::*;
use vstd::utf8::encode_utf8;

verus! {

/// The request methods that the server knows.
#[derive(Clone, Copy, Debug, PartialEq, Eq, Structural)]
pub enum Method {
    Get,
    Post,
    Put,
    Delete,
    Head,
    Options,
    Connect,
    Patch,
    Trace,
}

impl Method {
    /// The method as it is written on the wire.
    pub open spec fn name(self) -> Seq<char> {
        match self {
            Method::Get => "GET"@,
            Method::Post => "POST"@,
            Method::Put => "PUT"@,
            Method::Delete => "DELETE"@,
            Method::Head => "HEAD"@,
            Method::Options => "OPTIONS"@,
            Method::Connect => "CONNECT"@,
            Method::Patch => "PATCH"@,
            Method::Trace => "TRACE"@,
        }
    }

    /// The method that a token names, if it names one. Upper case only.
    pub open spec fn named(token: Seq<char>) -> Option<Method> {
        if token == "GET"@ {
            Some(Method::Get)
        } else if token == "POST"@ {
            Some(Method::Post)
        } else if token == "PUT"@ {
            Some(Method::Put)
        } else if token == "DELETE"@ {
            Some(Method::Delete)
        } else if token == "HEAD"@ {
            Some(Method::Head)
        } else if token == "OPTIONS"@ {
            Some(Method::Options)
        } else if token == "CONNECT"@ {
            Some(Method::Connect)
        } else if token == "PATCH"@ {
            Some(Method::Patch)
        } else if token == "TRACE"@ {
            Some(Method::Trace)
        } else {
            None
        }
    }

    pub fn as_str(&self) -> (s: &'static str)
        ensures
            s@ == self.name(),
    {
        match self {
            Method::Get => "GET",
            Method::Post => "POST",
            Method::Put => "PUT",
            Method::Delete => "DELETE",
            Method::Head => "HEAD",
            Method::Options => "OPTIONS",
            Method::Connect => "CONNECT",
            Method::Patch => "PATCH",
            Method::Trace => "TRACE",
        }
    }

    pub fn from_token(token: &Vec<char>) -> (m: Option<Method>)
        ensures
            m == Method::named(token@),
    {
        if text_is(token, "GET") {
            Some(Method::Get)
        } else if text_is(token, "POST") {
            Some(Method::Post)
        } else if text_is(token, "PUT") {
            Some(Method::Put)
        } else if text_is(token, "DELETE") {
            Some(Method::Delete)
        } else if text_is(token, "HEAD") {
            Some(Method::Head)
        } else if text_is(token, "OPTIONS") {
            Some(Method::Options)
        } else if text_is(token, "CONNECT") {
            Some(Method::Connect)
        } else if text_is(token, "PATCH") {
            Some(Method::Patch)
        } else if text_is(token, "TRACE") {
            Some(Method::Trace)
        } else {
            None
        }
    }
}

/// Why a request text could not be decoded.
#[derive(Clone, Copy, Debug, PartialEq, Eq, Structural)]
pub enum DecodeError {
    /// The text holds no line.
    EmptyRequest,
    /// The first line does not name a method and a path.
    MalformedStartLine,
}

/// A decoded request.
#[derive(Debug)]
pub struct Request {
    pub method: Method,
    pub path: String,
    pub headers: Vec<(String, String)>,
    pub body: Vec<u8>,
}

/// What a request holds.
pub struct RequestView {
    pub method: Method,
    pub path: Seq<char>,
    pub headers: Seq<(Seq<char>, Seq<char>)>,
    pub body: Seq<u8>,
}

/// A response before it is encoded.
#[derive(Debug)]
pub struct Response {
    pub status: u16,
    pub headers: Vec<(String, String)>,
    pub body: Vec<u8>,
}

/// What a response holds.
pub struct ResponseView {
    pub status: u16,
    pub headers: Seq<(Seq<char>, Seq<char>)>,
    pub body: Seq<u8>,
}

/// What a list of headers holds: keys and values in their order.
pub open spec fn header_views(hs: Seq<(String, String)>) -> Seq<(Seq<char>, Seq<char>)> {
    hs.map_values(|h: (String, String)| (h.0@, h.1@))
}

impl View for Request {
    type V = RequestView;

    open spec fn view(&self) -> RequestView {
        RequestView {
            method: self.method,
            path: self.path@,
            headers: header_views(self.headers@),
            body: self.body@,
        }
    }
}

impl View for Response {
    type V = ResponseView;

    open spec fn view(&self) -> ResponseView {
        ResponseView {
            status: self.status,
            headers: header_views(self.headers@),
            body: self.body@,
        }
    }
}

impl RequestView {
    /// The path of a request starts with a slash.
    pub open spec fn wf(self) -> bool {
        self.path.len() > 0 && self.path[0] == '/'
    }
}

impl ResponseView {
    /// The status of a response lies between 100 and 599.
    pub open spec fn wf(self) -> bool {
        100 <= self.status <= 599
    }
}

/// The first token of a start line: what stands before its first space.
pub open spec fn method_token(line: Seq<char>) -> Seq<char> {
    line.take(find_char(line, ' '))
}

/// The second token of a start line: what stands between its first space and
/// its second, or its end.
pub open spec fn path_token(line: Seq<char>) -> Seq<char> {
    let rest = line.skip(find_char(line, ' ') + 1);
    rest.take(find_char(rest, ' '))
}

/// A line is a header where it holds a colon followed by a space.
pub open spec fn header_line(line: Seq<char>) -> bool {
    find_pair(line, ':', ' ') < line.len()
}

/// Key and value of a header line: what stands before the first colon and
/// space, and what stands after them.
pub open spec fn header_of(line: Seq<char>) -> (Seq<char>, Seq<char>) {
    let i = find_pair(line, ':', ' ');
    (line.take(i), line.skip(i + 2))
}

/// How many header lines stand at the start of `ls`.
pub open spec fn header_count(ls: Seq<Seq<char>>) -> nat
    decreases ls.len(),
{
    if ls.len() == 0 || !header_line(ls[0]) {
        0
    } else {
        1 + header_count(ls.drop_first())
    }
}

/// What a request text decodes to.
///
/// A text without a line is an empty request. The first line gives method
/// and path, separated by spaces; it is malformed where it holds no space,
/// where what stands before the first space names no method, and where the
/// path is empty or does not start with a slash. The lines after it are
/// headers as long as they hold a colon and a space; the first line that
/// does not, and all lines after it, are the body.
pub open spec fn decoded(raw: Seq<char>) -> Result<RequestView, DecodeError> {
    let ls = lines(raw);
    if ls.len() == 0 {
        Err(DecodeError::EmptyRequest)
    } else {
        let start = ls[0];
        let path = path_token(start);
        if find_char(start, ' ') >= start.len() || Method::named(method_token(start)) is None
            || path.len() == 0 || path[0] != '/' {
            Err(DecodeError::MalformedStartLine)
        } else {
            let rest = ls.skip(1);
            let n = header_count(rest) as int;
            Ok(
                RequestView {
                    method: Method::named(method_token(start))->0,
                    path: path,
                    headers: rest.take(n).map_values(|l: Seq<char>| header_of(l)),
                    body: encode_utf8(join_lines(rest.skip(n))),
                },
            )
        }
    }
}

/// `n` is the header count of `ls` where the first `n` lines are headers and
/// the line after them, if there is one, is none.
pub proof fn lemma_header_count_is(ls: Seq<Seq<char>>, n: int)
    requires
        0 <= n <= ls.len(),
        forall|j: int| 0 <= j < n ==> header_line(#[trigger] ls[j]),
        n < ls.len() ==> !header_line(ls[n]),
    ensures
        header_count(ls) == n,
    decreases ls.len(),
{
    if ls.len() == 0 || !header_line(ls[0]) {
        if n > 0 {
            assert(header_line(ls[0]));
        }
    } else {
        let t = ls.drop_first();
        assert forall|j: int| 0 <= j < n - 1 implies header_line(#[trigger] t[j]) by {
            assert(t[j] == ls[j + 1]);
        }
        if n < ls.len() {
            assert(t[n - 1] == ls[n]);
        }
        lemma_header_count_is(t, n - 1);
    }
}

/// Splits a header line at its first colon and space into key and value.
/// A line that holds none is no header.
pub fn split_header(line: &Vec<char>) -> (r: Option<(String, String)>)
    ensures
        r is Some <==> header_line(line@),
        r matches Some(kv) ==> (kv.0@, kv.1@) == header_of(line@),
{
    let i = find_pair_in(line, ':', ' ');
    proof {
        lemma_find_pair(line@, ':', ' ');
    }
    if i < line.len() {
        assert(pair_at(line@, i as int, ':', ' '));
        let key = slice_of(line, 0, i);
        let value = slice_of(line, i + 2, line.len());
        proof {
            assert(line@.take(i as int) == line@.subrange(0, i as int));
            assert(line@.skip(i + 2) == line@.subrange(i + 2, line.len() as int));
        }
        Some((string_of(&key), string_of(&value)))
    } else {
        None
    }
}

/// Splits a header line at its first colon and space into key and value.
pub fn split_keyval(header_line: &str) -> (r: Result<(String, String), ()>)
    ensures
        r is Ok <==> self::header_line(header_line@),
        r matches Ok(kv) ==> (kv.0@, kv.1@) == header_of(header_line@),
{
    let line = chars_of(header_line);
    match split_header(&line) {
        Some(kv) => Ok(kv),
        None => Err(()),
    }
}

/// Decodes a request text.
pub fn parse_request(request: &str) -> (r: Result<Request, DecodeError>)
    ensures
        r matches Ok(q) ==> decoded(request@) == Ok::<RequestView, DecodeError>(q@) && q@.wf(),
        r matches Err(e) ==> decoded(request@) == Err::<RequestView, DecodeError>(e),
{
    let raw = chars_of(request);
    let ls = split_lines(&raw);
    if ls.len() == 0 {
        return Err(DecodeError::EmptyRequest);
    }
    let ghost all = lines(request@);
    let ghost rest = all.skip(1);
    proof {
        assert(texts(ls@)[0] == ls@[0]@);
    }
    let start = &ls[0];
    let sp = find_char_from(start, 0, ' ');
    proof {
        assert(start@.skip(0) == start@);
    }
    if sp >= start.len() {
        return Err(DecodeError::MalformedStartLine);
    }
    let method_text = slice_of(start, 0, sp);
    let sp2 = find_char_from(start, sp + 1, ' ');
    let path_text = slice_of(start, sp + 1, sp2);
    proof {
        assert(method_text@ == method_token(start@));
        let tail = start@.skip(sp + 1);
        lemma_find_char(tail, ' ');
        assert(tail.take(sp2 - (sp + 1)) == start@.subrange(sp + 1, sp2 as int));
        assert(path_text@ == path_token(start@));
    }
    let method = match Method::from_token(&method_text) {
        Some(m) => m,
        None => {
            return Err(DecodeError::MalformedStartLine);
        },
    };
    if path_text.len() == 0 || path_text[0] != '/' {
        return Err(DecodeError::MalformedStartLine);
    }
    let mut headers: Vec<(String, String)> = Vec::new();
    let mut k: usize = 1;
    loop
        invariant_except_break
            1 <= k <= ls.len(),
            texts(ls@) == all,
            rest == all.skip(1),
            forall|j: int| 0 <= j < k - 1 ==> header_line(#[trigger] rest[j]),
            header_views(headers@) == rest.take(k - 1).map_values(|l: Seq<char>| header_of(l)),
        ensures
            1 <= k <= ls.len(),
            texts(ls@) == all,
            rest == all.skip(1),
            header_count(rest) == k - 1,
            header_views(headers@) == rest.take(k - 1).map_values(|l: Seq<char>| header_of(l)),
        decreases ls.len() - k,
    {
        if k >= ls.len() {
            proof {
                lemma_header_count_is(rest, k - 1);
            }
            break ;
        }
        proof {
            assert(rest[k - 1] == texts(ls@)[k as int]);
            assert(texts(ls@)[k as int] == ls@[k as int]@);
        }
        match split_header(&ls[k]) {
            Some(kv) => {
                proof {
                    let f = |l: Seq<char>| header_of(l);
                    assert(rest.take(k as int) == rest.take(k - 1).push(rest[k - 1]));
                    assert(rest.take(k as int).map_values(f) == rest.take(k - 1).map_values(
                        f,
                    ).push(f(rest[k - 1])));
                    assert(header_views(headers@.push(kv)) == header_views(headers@).push(
                        (kv.0@, kv.1@),
                    ));
                }
                headers.push(kv);
                k += 1;
            },
            None => {
                proof {
                    lemma_header_count_is(rest, k - 1);
                }
                break ;
            },
        }
    }
    let body_text = join_from(&ls, k);
    let body = string_of(&body_text).as_str().as_bytes_vec();
    proof {
        assert(texts(ls@).skip(k as int) == rest.skip(k - 1));
    }
    Ok(Request { method: method, path: string_of(&path_text), headers: headers, body: body })
}

/// No character of `s` is `c`.
pub open spec fn free_of(s: Seq<char>, c: char) -> bool {
    forall|j: int| 0 <= j < s.len() ==> s[j] != c
}

/// A header as one line of text: key, colon, space, value.
pub open spec fn header_text(h: (Seq<char>, Seq<char>)) -> Seq<char> {
    h.0 + ": "@ + h.1
}

/// The headers as lines of text, each with its line feed.
pub open spec fn header_lines(hs: Seq<(Seq<char>, Seq<char>)>) -> Seq<char>
    decreases hs.len(),
{
    if hs.len() == 0 {
        Seq::empty()
    } else {
        header_text(hs[0]) + seq!['\n'] + header_lines(hs.drop_first())
    }
}

/// A request as text: the start line, the header lines, and `rest`, which
/// is all that follows the last header's line feed.
pub open spec fn request_text(
    method: Method,
    path: Seq<char>,
    version: Seq<char>,
    headers: Seq<(Seq<char>, Seq<char>)>,
    rest: Seq<char>,
) -> Seq<char> {
    method.name() + seq![' '] + path + seq![' '] + version + seq!['\n'] + header_lines(headers)
        + rest
}

/// A header that its line gives back as it is: key and value hold no line
/// feed, the key holds no colon followed by a space, and the value does not
/// end in a carriage return.
pub open spec fn plain_header(h: (Seq<char>, Seq<char>)) -> bool {
    &&& free_of(h.0, '\n')
    &&& free_of(h.1, '\n')
    &&& find_pair(h.0, ':', ' ') == h.0.len()
    &&& (h.1.len() > 0 ==> h.1.last() != '\r')
}

/// A method's name is the name of that method alone, and holds neither a
/// space nor a line feed.
pub proof fn lemma_method_names(m: Method)
    ensures
        Method::named(m.name()) == Some(m),
        m.name().len() > 0,
        free_of(m.name(), ' '),
        free_of(m.name(), '\n'),
{
    reveal_strlit("GET");
    reveal_strlit("POST");
    reveal_strlit("PUT");
    reveal_strlit("DELETE");
    reveal_strlit("HEAD");
    reveal_strlit("OPTIONS");
    reveal_strlit("CONNECT");
    reveal_strlit("PATCH");
    reveal_strlit("TRACE");
    assert("GET"@[0] == 'G' && "GET"@.len() == 3);
    assert("POST"@[1] == 'O' && "POST"@.len() == 4);
    assert("PUT"@[1] == 'U' && "PUT"@.len() == 3);
    assert("DELETE"@[0] == 'D' && "DELETE"@.len() == 6);
    assert("HEAD"@[0] == 'H' && "HEAD"@.len() == 4);
    assert("OPTIONS"@[0] == 'O' && "OPTIONS"@.len() == 7);
    assert("CONNECT"@[0] == 'C' && "CONNECT"@.len() == 7);
    assert("PATCH"@[1] == 'A' && "PATCH"@.len() == 5);
    assert("TRACE"@[0] == 'T' && "TRACE"@.len() == 5);
}

/// A text decodes to an empty request exactly where it is empty.
pub proof fn lemma_empty_request(raw: Seq<char>)
    ensures
        decoded(raw) == Err::<RequestView, DecodeError>(DecodeError::EmptyRequest) <==> raw.len()
            == 0,
        lines(raw).len() == 0 <==> raw.len() == 0,
{
    if raw.len() > 0 {
        lemma_find_char(raw, '\n');
        assert(lines(raw).len() > 0);
    }
}

/// A text that starts with a line and its line feed has that line first.
pub proof fn lemma_lines_cons(a: Seq<char>, r: Seq<char>)
    requires
        free_of(a, '\n'),
    ensures
        lines(a + seq!['\n'] + r) == seq![strip_cr(a)] + lines(r),
{
    let s = a + seq!['\n'] + r;
    lemma_find_char_is(s, '\n', a.len() as int);
    assert(s.take(a.len() as int) == a);
    assert(s.skip(a.len() as int + 1) == r);
}

/// The line of a plain header is a header line, and gives the header back.
pub proof fn lemma_header_text(h: (Seq<char>, Seq<char>))
    requires
        plain_header(h),
    ensures
        free_of(header_text(h), '\n'),
        strip_cr(header_text(h)) == header_text(h),
        header_line(header_text(h)),
        header_of(header_text(h)) == h,
{
    reveal_strlit(": ");
    let l = header_text(h);
    let k = h.0.len() as int;
    assert(": "@.len() == 2 && ": "@[0] == ':' && ": "@[1] == ' ');
    assert(l.len() == k + 2 + h.1.len());
    assert(l[k] == ':' && l[k + 1] == ' ');
    lemma_find_pair(h.0, ':', ' ');
    assert forall|j: int| 0 <= j < k implies !pair_at(l, j, ':', ' ') by {
        if j + 1 < k {
            assert(!pair_at(h.0, j, ':', ' '));
            assert(l[j] == h.0[j] && l[j + 1] == h.0[j + 1]);
        }
    }
    assert(pair_at(l, k, ':', ' '));
    lemma_find_pair_is(l, ':', ' ', k);
    assert(l.take(k) == h.0);
    assert(l.skip(k + 2) == h.1);
    if h.1.len() > 0 {
        assert(l.last() == h.1.last());
    } else {
        assert(l.last() == ' ');
    }
}

/// The lines of plain headers followed by `rest` are the headers' lines,
/// then the lines of `rest`.
pub proof fn lemma_header_lines(hs: Seq<(Seq<char>, Seq<char>)>, rest: Seq<char>)
    requires
        forall|i: int| 0 <= i < hs.len() ==> plain_header(#[trigger] hs[i]),
    ensures
        lines(header_lines(hs) + rest) == hs.map_values(
            |h: (Seq<char>, Seq<char>)| header_text(h),
        ) + lines(rest),
    decreases hs.len(),
{
    let f = |h: (Seq<char>, Seq<char>)| header_text(h);
    if hs.len() == 0 {
        assert(header_lines(hs) + rest == rest);
        assert(hs.map_values(f) + lines(rest) == lines(rest));
    } else {
        let t = hs.drop_first();
        assert forall|i: int| 0 <= i < t.len() implies plain_header(#[trigger] t[i]) by {
            assert(t[i] == hs[i + 1]);
        }
        lemma_header_lines(t, rest);
        lemma_header_text(hs[0]);
        lemma_lines_cons(header_text(hs[0]), header_lines(t) + rest);
        assert(header_lines(hs) + rest == header_text(hs[0]) + seq!['\n'] + (header_lines(t)
            + rest));
        assert(hs.map_values(f) == seq![header_text(hs[0])] + t.map_values(f));
        assert(seq![header_text(hs[0])] + (t.map_values(f) + lines(rest)) == hs.map_values(f)
            + lines(rest));
    }
}

/// A well-formed request text decodes to what it was made of.
///
/// The text is a start line of method, path and protocol version, one line
/// for each header, and then `rest`. The path starts with a slash and holds
/// neither space nor line feed, the version holds no line feed, the headers
/// are plain, and `rest` does not begin with a header line. Then method,
/// path and headers come back as they are, and the body is `rest`, line by
/// line.
pub proof fn lemma_decode_well_formed(
    method: Method,
    path: Seq<char>,
    version: Seq<char>,
    headers: Seq<(Seq<char>, Seq<char>)>,
    rest: Seq<char>,
)
    requires
        path.len() > 0,
        path[0] == '/',
        free_of(path, ' '),
        free_of(path, '\n'),
        free_of(version, '\n'),
        forall|i: int| 0 <= i < headers.len() ==> plain_header(#[trigger] headers[i]),
        lines(rest).len() == 0 || !header_line(lines(rest)[0]),
    ensures
        decoded(request_text(method, path, version, headers, rest)) == Ok::<
            RequestView,
            DecodeError,
        >(
            RequestView {
                method: method,
                path: path,
                headers: headers,
                body: encode_utf8(join_lines(lines(rest))),
            },
        ),
{
    let f = |h: (Seq<char>, Seq<char>)| header_text(h);
    let g = |l: Seq<char>| header_of(l);
    let name = method.name();
    let start = name + seq![' '] + path + seq![' '] + version;
    let raw = request_text(method, path, version, headers, rest);
    lemma_method_names(method);
    assert(free_of(start, '\n'));
    assert(raw == start + seq!['\n'] + (header_lines(headers) + rest));
    lemma_lines_cons(start, header_lines(headers) + rest);
    lemma_header_lines(headers, rest);
    let ls = lines(raw);
    let tail = headers.map_values(f) + lines(rest);
    assert(ls == seq![strip_cr(start)] + tail);
    assert(ls[0] == strip_cr(start));
    assert(ls.skip(1) == tail);
    // the start line
    let s = strip_cr(start);
    let v = strip_cr(version);
    if version.len() > 0 {
        assert(start.last() == version.last());
    } else {
        assert(start.last() == ' ');
    }
    assert(s == name + seq![' '] + path + seq![' '] + v);
    lemma_find_char_is(s, ' ', name.len() as int);
    assert(s.take(name.len() as int) == name);
    let after = s.skip(name.len() as int + 1);
    assert(after == path + seq![' '] + v);
    lemma_find_char_is(after, ' ', path.len() as int);
    assert(after.take(path.len() as int) == path);
    assert(method_token(s) == name);
    assert(path_token(s) == path);
    // the headers
    let n = headers.len() as int;
    assert forall|j: int| 0 <= j < n implies header_line(#[trigger] tail[j]) by {
        lemma_header_text(headers[j]);
        assert(tail[j] == header_text(headers[j]));
    }
    if n < tail.len() {
        assert(tail[n] == lines(rest)[0]);
    }
    lemma_header_count_is(tail, n);
    assert(tail.take(n) == headers.map_values(f));
    assert(tail.skip(n) == lines(rest));
    assert(tail.take(n).map_values(g) =~= headers) by {
        assert forall|j: int| 0 <= j < n implies tail.take(n).map_values(g)[j] == headers[j] by {
            lemma_header_text(headers[j]);
        }
    }
}

/// The same for a text with an empty line between headers and body: the
/// empty line is the first line of what comes back as the body.
pub proof fn lemma_decode_with_empty_line(
    method: Method,
    path: Seq<char>,
    version: Seq<char>,
    headers: Seq<(Seq<char>, Seq<char>)>,
    body: Seq<char>,
)
    requires
        path.len() > 0,
        path[0] == '/',
        free_of(path, ' '),
        free_of(path, '\n'),
        free_of(version, '\n'),
        forall|i: int| 0 <= i < headers.len() ==> plain_header(#[trigger] headers[i]),
    ensures
        decoded(request_text(method, path, version, headers, seq!['\n'] + body)) == Ok::<
            RequestView,
            DecodeError,
        >(
            RequestView {
                method: method,
                path: path,
                headers: headers,
                body: encode_utf8(join_lines(seq![Seq::<char>::empty()] + lines(body))),
            },
        ),
{
    let empty = Seq::<char>::empty();
    lemma_lines_cons(empty, body);
    assert(empty + seq!['\n'] + body == seq!['\n'] + body);
    assert(lines(seq!['\n'] + body)[0] == empty);
    lemma_decode_well_formed(method, path, version, headers, seq!['\n'] + body);
}

/// No header that goes out beside the last gives a content length.
pub proof fn lemma_without_content_length(hs: Seq<(Seq<char>, Seq<char>)>)
    ensures
        forall|i: int|
            0 <= i < without_content_length(hs).len() ==> !is_content_length(
                (#[trigger] without_content_length(hs)[i]).0,
            ),
    decreases hs.len(),
{
    if hs.len() > 0 {
        let before = without_content_length(hs.drop_last());
        let kept = without_content_length(hs);
        lemma_without_content_length(hs.drop_last());
        assert forall|i: int| 0 <= i < kept.len() implies !is_content_length(
            (#[trigger] kept[i]).0,
        ) by {
            if i < before.len() {
                assert(kept[i] == before[i]);
            }
        }
    }
}

/// Whatever headers a response has, exactly one header that gives a content
/// length goes out: the last, and it gives the length of the body. It is
/// the last line before the empty line that ends the head.
pub proof fn lemma_content_length(r: ResponseView)
    ensures
        wire_headers(r).len() >= 1,
        wire_headers(r).last() == ("Content-Length"@, decimal(r.body.len())),
        is_content_length(wire_headers(r).last().0),
        forall|i: int|
            0 <= i < wire_headers(r).len() - 1 ==> !is_content_length(
                (#[trigger] wire_headers(r)[i]).0,
            ),
        encoded(r) == encode_utf8(
            "HTTP/1.1 "@ + decimal(r.status as nat) + seq!['\n'] + header_block(
                without_content_length(r.headers),
            ) + "Content-Length"@ + ": "@ + decimal(r.body.len()) + seq!['\n'] + seq!['\n'],
        ) + r.body,
{
    lemma_without_content_length(r.headers);
    let kept = without_content_length(r.headers);
    let all = wire_headers(r);
    assert(all.drop_last() == kept);
    assert(is_content_length("Content-Length"@)) by {
        reveal_strlit("Content-Length");
        reveal_strlit("content-length");
    }
    assert forall|i: int| 0 <= i < all.len() - 1 implies !is_content_length(
        (#[trigger] all[i]).0,
    ) by {
        assert(all[i] == kept[i]);
    }
    assert(head_text(r) == "HTTP/1.1 "@ + decimal(r.status as nat) + seq!['\n'] + header_block(
        kept,
    ) + "Content-Length"@ + ": "@ + decimal(r.body.len()) + seq!['\n'] + seq!['\n']);
}

/// Whether `a` is `b`, or the upper-case letter of the lower-case letter `b`.
pub open spec fn same_letter(a: char, b: char) -> bool {
    a == b || ('a' <= b && b <= 'z' && a as u32 + 32 == b as u32)
}

/// Whether a header key is `Content-Length`, in any mix of upper and lower
/// case.
pub open spec fn is_content_length(key: Seq<char>) -> bool {
    &&& key.len() == "content-length"@.len()
    &&& forall|i: int| 0 <= i < key.len() ==> same_letter(#[trigger] key[i], "content-length"@[i])
}

/// The headers without those that give a content length.
pub open spec fn without_content_length(hs: Seq<(Seq<char>, Seq<char>)>) -> Seq<
    (Seq<char>, Seq<char>),
>
    decreases hs.len(),
{
    if hs.len() == 0 {
        Seq::empty()
    } else if is_content_length(hs.last().0) {
        without_content_length(hs.drop_last())
    } else {
        without_content_length(hs.drop_last()).push(hs.last())
    }
}

/// The headers that go out: those of the response but for any content
/// length among them, then the content length that the body has.
pub open spec fn wire_headers(r: ResponseView) -> Seq<(Seq<char>, Seq<char>)> {
    without_content_length(r.headers).push(("Content-Length"@, decimal(r.body.len())))
}

/// One line for each header: key, colon, space, value, line feed.
pub open spec fn header_block(hs: Seq<(Seq<char>, Seq<char>)>) -> Seq<char>
    decreases hs.len(),
{
    if hs.len() == 0 {
        Seq::empty()
    } else {
        header_block(hs.drop_last()) + hs.last().0 + ": "@ + hs.last().1 + seq!['\n']
    }
}

/// What stands before the body: status line, header lines, empty line.
pub open spec fn head_text(r: ResponseView) -> Seq<char> {
    "HTTP/1.1 "@ + decimal(r.status as nat) + seq!['\n'] + header_block(wire_headers(r)) + seq![
        '\n',
    ]
}

/// The bytes of a response on the wire: the head in UTF-8, then the body as
/// it is.
pub open spec fn encoded(r: ResponseView) -> Seq<u8> {
    encode_utf8(head_text(r)) + r.body
}

/// Whether a header key is `Content-Length`, in any mix of upper and lower
/// case.
pub fn key_is_content_length(key: &Vec<char>) -> (r: bool)
    ensures
        r == is_content_length(key@),
{
    let name = chars_of("content-length");
    if key.len() != name.len() {
        return false;
    }
    let mut i: usize = 0;
    while i < key.len()
        invariant
            i <= key.len(),
            key.len() == name.len(),
            name@ == "content-length"@,
            forall|j: int| 0 <= j < i ==> same_letter(#[trigger] key@[j], name@[j]),
        decreases key.len() - i,
    {
        let a = key[i];
        let b = name[i];
        let same = a == b || ('a' <= b && b <= 'z' && a as u32 == b as u32 - 32);
        if !same {
            assert(!same_letter(key@[i as int], name@[i as int]));
            return false;
        }
        i += 1;
    }
    true
}

/// Encodes a response: status line, headers, an empty line, the body. The
/// content length that goes out is that of the body, whatever the headers
/// of the response say.
pub fn encode_response(response: &Response) -> (out: Vec<u8>)
    ensures
        out@ == encoded(response@),
{
    let mut head: Vec<char> = Vec::new();
    push_str(&mut head, "HTTP/1.1 ");
    push_decimal(&mut head, response.status as usize);
    head.push('\n');
    let ghost prefix = head@;
    let ghost hs = header_views(response.headers@);
    let mut i: usize = 0;
    while i < response.headers.len()
        invariant
            i <= response.headers.len(),
            hs == header_views(response.headers@),
            head@ == prefix + header_block(without_content_length(hs.take(i as int))),
        decreases response.headers.len() - i,
    {
        let key = chars_of(response.headers[i].0.as_str());
        proof {
            assert(hs.take(i + 1).drop_last() == hs.take(i as int));
            assert(hs.take(i + 1).last() == hs[i as int]);
            assert(hs[i as int].0 == key@);
        }
        if !key_is_content_length(&key) {
            let ghost before = without_content_length(hs.take(i as int));
            let ghost after = without_content_length(hs.take(i + 1));
            proof {
                assert(after == before.push(hs[i as int]));
                assert(after.drop_last() == before);
                assert(after.last() == hs[i as int]);
            }
            push_all(&mut head, &key);
            push_str(&mut head, ": ");
            push_str(&mut head, response.headers[i].1.as_str());
            head.push('\n');
            proof {
                assert(head@ == prefix + header_block(after));
            }
        }
        i += 1;
    }
    let ghost kept = without_content_length(hs);
    let ghost all = wire_headers(response@);
    proof {
        assert(hs.take(response.headers.len() as int) == hs);
        assert(all.drop_last() == kept);
    }
    push_str(&mut head, "Content-Length");
    push_str(&mut head, ": ");
    push_decimal(&mut head, response.body.len());
    head.push('\n');
    proof {
        assert(head@ == prefix + header_block(all));
    }
    head.push('\n');
    proof {
        assert(head@ == head_text(response@));
    }
    let mut out = string_of(&head).as_str().as_bytes_vec();
    let mut j: usize = 0;
    while j < response.body.len()
        invariant
            j <= response.body.len(),
            out@ == encode_utf8(head@) + response.body@.take(j as int),
        decreases response.body.len() - j,
    {
        out.push(response.body[j]);
        j += 1;
    }
    proof {
        assert(response.body@.take(response.body.len() as int) == response.body@);
    }
    out
}

} // verus!
