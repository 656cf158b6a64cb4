//! The values that a request is read from and a response is written to:
//! plain data, with a mathematical view of each.

use vstd::prelude::*;
use vstd::string::*;
use vstd::utf8::*;
use crate::text::{eq_ignore_case, lower, pairs_view, str_eq};

verus! {

/// A request method.
#[derive(Clone, Copy, Debug, PartialEq, Eq, Structural)]
pub enum Method {
    Get,
    Head,
    Post,
    Put,
    Delete,
    Connect,
    Options,
    Trace,
    Patch,
    /// A method outside the standard ones.
    Other,
}

/// The protocol version of a request.
#[derive(Clone, Copy, Debug, PartialEq, Eq, Structural)]
pub enum Version {
    Http09,
    Http10,
    Http11,
    Http2,
    Http3,
    Other,
}

/// Why a handler could not build a response.
#[derive(Clone, Copy, Debug, PartialEq, Eq, Structural)]
pub enum HandlerError {
    /// A path pattern was not accepted by the pattern engine.
    Pattern,
    /// The source of random bytes failed.
    Random,
    /// The query string could not be read as a list of pairs.
    Query,
    /// A compressed stream could not be written.
    Encode,
}

/// The statuses that the handlers answer with, by name.
pub const STATUS_OK: u16 = 200;

pub const STATUS_FOUND: u16 = 302;

pub const STATUS_NOT_MODIFIED: u16 = 304;

pub const STATUS_BAD_REQUEST: u16 = 400;

pub const STATUS_UNAUTHORIZED: u16 = 401;

pub const STATUS_NOT_FOUND: u16 = 404;

pub const STATUS_NOT_ACCEPTABLE: u16 = 406;

pub const STATUS_PRECONDITION_FAILED: u16 = 412;

/// The media types that responses declare.
#[derive(Clone, Copy, Debug, PartialEq, Eq, Structural)]
pub enum Mime {
    TextPlain,
    TextHtml,
    TextHtmlUtf8,
    TextCssUtf8,
    TextJavascript,
    TextXml,
    ImageJpeg,
    ImageGif,
    ImagePng,
    ImageSvg,
    ImageWebp,
    ApplicationJson,
    ApplicationXml,
    ApplicationOctetStream,
}

impl Mime {
    /// The text that stands for this media type in a `content-type` header.
    pub open spec fn text(self) -> Seq<char> {
        match self {
            Mime::TextPlain => "text/plain"@,
            Mime::TextHtml => "text/html"@,
            Mime::TextHtmlUtf8 => "text/html; charset=utf-8"@,
            Mime::TextCssUtf8 => "text/css; charset=utf-8"@,
            Mime::TextJavascript => "text/javascript"@,
            Mime::TextXml => "text/xml"@,
            Mime::ImageJpeg => "image/jpeg"@,
            Mime::ImageGif => "image/gif"@,
            Mime::ImagePng => "image/png"@,
            Mime::ImageSvg => "image/svg+xml"@,
            Mime::ImageWebp => "image/webp"@,
            Mime::ApplicationJson => "application/json"@,
            Mime::ApplicationXml => "application/xml"@,
            Mime::ApplicationOctetStream => "application/octet-stream"@,
        }
    }

    /// The text that stands for this media type in a `content-type` header.
    pub fn as_str(self) -> (r: &'static str)
        ensures
            r@ == self.text(),
    {
        match self {
            Mime::TextPlain => "text/plain",
            Mime::TextHtml => "text/html",
            Mime::TextHtmlUtf8 => "text/html; charset=utf-8",
            Mime::TextCssUtf8 => "text/css; charset=utf-8",
            Mime::TextJavascript => "text/javascript",
            Mime::TextXml => "text/xml",
            Mime::ImageJpeg => "image/jpeg",
            Mime::ImageGif => "image/gif",
            Mime::ImagePng => "image/png",
            Mime::ImageSvg => "image/svg+xml",
            Mime::ImageWebp => "image/webp",
            Mime::ApplicationJson => "application/json",
            Mime::ApplicationXml => "application/xml",
            Mime::ApplicationOctetStream => "application/octet-stream",
        }
    }

    /// The media type that `s` is the text of, if it is one of them.
    pub open spec fn from_text(s: Seq<char>) -> Option<Mime> {
        if exists|m: Mime| m.text() == s {
            Some(choose|m: Mime| m.text() == s)
        } else {
            None
        }
    }

    /// The media type that `s` is the text of, if it is one of them.
    pub fn parse(s: &str) -> (r: Option<Mime>)
        ensures
            r == Mime::from_text(s@),
    {
        let all: [Mime; 14] = [
            Mime::TextPlain,
            Mime::TextHtml,
            Mime::TextHtmlUtf8,
            Mime::TextCssUtf8,
            Mime::TextJavascript,
            Mime::TextXml,
            Mime::ImageJpeg,
            Mime::ImageGif,
            Mime::ImagePng,
            Mime::ImageSvg,
            Mime::ImageWebp,
            Mime::ApplicationJson,
            Mime::ApplicationXml,
            Mime::ApplicationOctetStream,
        ];
        let mut i: usize = 0;
        while i < 14
            invariant
                i <= 14,
                all@.len() == 14,
                all@[0] == Mime::TextPlain,
                all@[1] == Mime::TextHtml,
                all@[2] == Mime::TextHtmlUtf8,
                all@[3] == Mime::TextCssUtf8,
                all@[4] == Mime::TextJavascript,
                all@[5] == Mime::TextXml,
                all@[6] == Mime::ImageJpeg,
                all@[7] == Mime::ImageGif,
                all@[8] == Mime::ImagePng,
                all@[9] == Mime::ImageSvg,
                all@[10] == Mime::ImageWebp,
                all@[11] == Mime::ApplicationJson,
                all@[12] == Mime::ApplicationXml,
                all@[13] == Mime::ApplicationOctetStream,
                forall|k: int| 0 <= k < i ==> all@[k].text() != s@,
            decreases 14 - i,
        {
            let m = all[i];
            if str_eq(m.as_str(), s) {
                proof {
                    lemma_mime_texts_differ();
                }
                return Some(m);
            }
            i += 1;
        }
        assert forall|m: Mime| m.text() != s@ by {
            let k = mime_rank(m);
            assert(all@[k] == m);
        }
        None
    }
}

/// The place of a media type in the order of its declaration.
pub open spec fn mime_rank(m: Mime) -> int {
    match m {
        Mime::TextPlain => 0,
        Mime::TextHtml => 1,
        Mime::TextHtmlUtf8 => 2,
        Mime::TextCssUtf8 => 3,
        Mime::TextJavascript => 4,
        Mime::TextXml => 5,
        Mime::ImageJpeg => 6,
        Mime::ImageGif => 7,
        Mime::ImagePng => 8,
        Mime::ImageSvg => 9,
        Mime::ImageWebp => 10,
        Mime::ApplicationJson => 11,
        Mime::ApplicationXml => 12,
        Mime::ApplicationOctetStream => 13,
    }
}

/// No two media types share a text.
pub proof fn lemma_mime_texts_differ()
    ensures
        forall|a: Mime, b: Mime| a.text() == b.text() ==> a == b,
{
    reveal_strlit("text/plain");
    reveal_strlit("text/html");
    reveal_strlit("text/html; charset=utf-8");
    reveal_strlit("text/css; charset=utf-8");
    reveal_strlit("text/javascript");
    reveal_strlit("text/xml");
    reveal_strlit("image/jpeg");
    reveal_strlit("image/gif");
    reveal_strlit("image/png");
    reveal_strlit("image/svg+xml");
    reveal_strlit("image/webp");
    reveal_strlit("application/json");
    reveal_strlit("application/xml");
    reveal_strlit("application/octet-stream");
    assert forall|a: Mime, b: Mime| a.text() == b.text() implies a == b by {
        let s = a.text();
        let t = b.text();
        assert(s.len() == t.len());
        assert(s[0] == t[0]);
        assert(s[5] == t[5]);
        assert(s[6] == t[6]);
        assert(s[7] == t[7]);
        assert(s[12] == t[12]);
    }
}

/// Whether two header names are the same name: header names are compared
/// without regard to the case of ASCII letters.
pub open spec fn same_name(a: Seq<char>, b: Seq<char>) -> bool {
    lower(a) == lower(b)
}

/// The index of the first header named `name`, or the number of headers
/// where there is none.
pub open spec fn header_position(headers: Seq<(Seq<char>, Seq<char>)>, name: Seq<char>) -> int
    decreases headers.len(),
{
    if headers.len() == 0 {
        0
    } else if same_name(headers[0].0, name) {
        0
    } else {
        1 + header_position(headers.drop_first(), name)
    }
}

/// The value of the first header named `name`.
pub open spec fn find_header(headers: Seq<(Seq<char>, Seq<char>)>, name: Seq<char>) -> Option<
    Seq<char>,
> {
    let p = header_position(headers, name);
    if 0 <= p < headers.len() {
        Some(headers[p].1)
    } else {
        None
    }
}

/// The headers that are not named `name`, in their order.
pub open spec fn remove_header(headers: Seq<(Seq<char>, Seq<char>)>, name: Seq<char>) -> Seq<
    (Seq<char>, Seq<char>),
>
    decreases headers.len(),
{
    if headers.len() == 0 {
        headers
    } else if same_name(headers.last().0, name) {
        remove_header(headers.drop_last(), name)
    } else {
        remove_header(headers.drop_last(), name).push(headers.last())
    }
}

/// `header_position` is the least index of a header with the name, and the
/// number of headers if there is none.
pub proof fn lemma_header_position(headers: Seq<(Seq<char>, Seq<char>)>, name: Seq<char>)
    ensures
        0 <= header_position(headers, name) <= headers.len(),
        forall|i: int|
            0 <= i < header_position(headers, name) ==> !same_name(
                (#[trigger] headers[i]).0,
                name,
            ),
        header_position(headers, name) < headers.len() ==> same_name(
            headers[header_position(headers, name)].0,
            name,
        ),
    decreases headers.len(),
{
    if headers.len() > 0 && !same_name(headers[0].0, name) {
        let t = headers.drop_first();
        lemma_header_position(t, name);
        assert forall|i: int| 0 <= i < header_position(headers, name) implies !same_name(
            (#[trigger] headers[i]).0,
            name,
        ) by {
            if i > 0 {
                assert(headers[i] == t[i - 1]);
            }
        }
        assert(header_position(t, name) < t.len() ==> headers[header_position(headers, name)]
            == t[header_position(t, name)]);
    }
}

/// An index before which no header has the name, and which holds one that
/// has it or is the number of headers, is `header_position`.
pub proof fn lemma_header_position_is(
    headers: Seq<(Seq<char>, Seq<char>)>,
    name: Seq<char>,
    k: int,
)
    requires
        0 <= k <= headers.len(),
        forall|i: int| 0 <= i < k ==> !same_name((#[trigger] headers[i]).0, name),
        k < headers.len() ==> same_name(headers[k].0, name),
    ensures
        header_position(headers, name) == k,
{
    lemma_header_position(headers, name);
    let p = header_position(headers, name);
    if p < k {
        assert(same_name(headers[p].0, name));
    } else if p > k {
        assert(same_name(headers[k].0, name));
    }
}

/// After `remove_header` no header has the name, and the headers with
/// another name are found as before.
pub proof fn lemma_remove_header(
    headers: Seq<(Seq<char>, Seq<char>)>,
    name: Seq<char>,
    other: Seq<char>,
)
    ensures
        find_header(remove_header(headers, name), name) is None,
        !same_name(other, name) ==> find_header(remove_header(headers, name), other)
            == find_header(headers, other),
    decreases headers.len(),
{
    let r = remove_header(headers, name);
    if headers.len() == 0 {
    } else {
        let h = headers.drop_last();
        let last = headers.last();
        lemma_remove_header(h, name, other);
        let rh = remove_header(h, name);
        lemma_header_position(rh, name);
        lemma_header_position(rh, other);
        lemma_header_position(h, other);
        lemma_header_position(headers, other);
        lemma_header_position(r, name);
        lemma_header_position(r, other);
        if same_name(last.0, name) {
            if !same_name(other, name) {
                // `last` is not named `other`, so dropping it changes nothing.
                assert(!same_name(last.0, other));
                let p = header_position(h, other);
                assert forall|i: int| 0 <= i < p implies !same_name(
                    (#[trigger] headers[i]).0,
                    other,
                ) by {
                    assert(headers[i] == h[i]);
                }
                if p < h.len() {
                    assert(headers[p] == h[p]);
                    lemma_header_position_is(headers, other, p);
                } else {
                    lemma_header_position_is(headers, other, headers.len() as int);
                }
            }
        } else {
            assert(r == rh.push(last));
            // Nothing in r is named `name`.
            assert forall|i: int| 0 <= i < r.len() implies !same_name(
                (#[trigger] r[i]).0,
                name,
            ) by {
                if i < rh.len() {
                    assert(r[i] == rh[i]);
                }
            }
            lemma_header_position_is(r, name, r.len() as int);
            if !same_name(other, name) {
                let p = header_position(h, other);
                let q = header_position(rh, other);
                assert forall|i: int| 0 <= i < p implies !same_name(
                    (#[trigger] headers[i]).0,
                    other,
                ) by {
                    assert(headers[i] == h[i]);
                }
                assert forall|i: int| 0 <= i < q implies !same_name(
                    (#[trigger] r[i]).0,
                    other,
                ) by {
                    assert(r[i] == rh[i]);
                }
                if p < h.len() {
                    assert(headers[p] == h[p]);
                    assert(r[q] == rh[q]);
                    lemma_header_position_is(headers, other, p);
                    lemma_header_position_is(r, other, q);
                } else if same_name(last.0, other) {
                    lemma_header_position_is(headers, other, h.len() as int);
                    lemma_header_position_is(r, other, rh.len() as int);
                } else {
                    lemma_header_position_is(headers, other, headers.len() as int);
                    lemma_header_position_is(r, other, r.len() as int);
                }
            }
        }
    }
}

/// The value of the first header named `name`.
pub fn header_value(headers: &Vec<(String, String)>, name: &str) -> (r: Option<String>)
    ensures
        crate::text::option_view(r) == find_header(pairs_view(headers@), name@),
{
    let n: usize = headers.len();
    let mut i: usize = 0;
    while i < n
        invariant
            n == headers@.len(),
            i <= n,
            forall|k: int|
                0 <= k < i ==> !same_name((#[trigger] pairs_view(headers@)[k]).0, name@),
        decreases n - i,
    {
        if eq_ignore_case(headers[i].0.as_str(), name) {
            proof {
                lemma_header_position_is(pairs_view(headers@), name@, i as int);
            }
            return Some(headers[i].1.clone());
        }
        i += 1;
    }
    proof {
        lemma_header_position_is(pairs_view(headers@), name@, n as int);
    }
    None
}

/// The headers that are not named `name`, in their order.
pub fn without_header(headers: &Vec<(String, String)>, name: &str) -> (r: Vec<(String, String)>)
    ensures
        pairs_view(r@) == remove_header(pairs_view(headers@), name@),
{
    let n: usize = headers.len();
    let mut out: Vec<(String, String)> = Vec::new();
    let mut i: usize = 0;
    assert(pairs_view(headers@).take(0) =~= Seq::empty());
    assert(pairs_view(out@) =~= Seq::empty());
    while i < n
        invariant
            n == headers@.len(),
            i <= n,
            pairs_view(out@) == remove_header(pairs_view(headers@).take(i as int), name@),
        decreases n - i,
    {
        proof {
            let next = pairs_view(headers@).take(i + 1);
            assert(next.drop_last() =~= pairs_view(headers@).take(i as int));
            assert(next.last() == pairs_view(headers@)[i as int]);
        }
        if !eq_ignore_case(headers[i].0.as_str(), name) {
            let ghost before = out@;
            let k = headers[i].0.clone();
            let v = headers[i].1.clone();
            out.push((k, v));
            assert(pairs_view(out@) =~= pairs_view(before).push(pairs_view(headers@)[i as int]));
        }
        i += 1;
    }
    assert(pairs_view(headers@).take(n as int) =~= pairs_view(headers@));
    out
}

/// What a request holds, as mathematical values.
pub struct RequestView {
    pub method: Method,
    pub version: Version,
    pub scheme: Seq<char>,
    pub host: Seq<char>,
    pub path: Seq<char>,
    pub query: Option<Seq<char>>,
    pub headers: Seq<(Seq<char>, Seq<char>)>,
    pub client_ip: Option<Seq<char>>,
    pub body: Seq<u8>,
}

/// An inbound request: the values that a handler reads.
#[derive(Clone, Debug)]
pub struct Request {
    pub method: Method,
    pub version: Version,
    pub scheme: String,
    pub host: String,
    pub path: String,
    /// The query string as received, without the leading `?`.
    pub query: Option<String>,
    /// The headers in the order received; a name may occur more than once.
    pub headers: Vec<(String, String)>,
    /// The address of the client, in text.
    pub client_ip: Option<String>,
    pub body: Vec<u8>,
}

impl View for Request {
    type V = RequestView;

    open spec fn view(&self) -> RequestView {
        RequestView {
            method: self.method,
            version: self.version,
            scheme: self.scheme@,
            host: self.host@,
            path: self.path@,
            query: crate::text::option_view(self.query),
            headers: pairs_view(self.headers@),
            client_ip: crate::text::option_view(self.client_ip),
            body: self.body@,
        }
    }
}

impl RequestView {
    /// The value of the first header named `name`.
    pub open spec fn header(self, name: Seq<char>) -> Option<Seq<char>> {
        find_header(self.headers, name)
    }

    /// The value of the first header named `name`, or the empty text where
    /// the request has no such header.
    pub open spec fn header_or_empty(self, name: Seq<char>) -> Seq<char> {
        match find_header(self.headers, name) {
            Some(v) => v,
            None => Seq::empty(),
        }
    }

    /// The full address of the request: scheme, host, path and, where there
    /// is one, the query string as received.
    pub open spec fn url(self) -> Seq<char> {
        let base = self.scheme + "://"@ + self.host + self.path;
        match self.query {
            Some(q) => base + "?"@ + q,
            None => base,
        }
    }
}

impl Request {
    /// A request without query string, headers, client address or body,
    /// under HTTP/1.1.
    pub fn new(method: Method, scheme: &str, host: &str, path: &str) -> (r: Request)
        ensures
            r@ == (RequestView {
                method,
                version: Version::Http11,
                scheme: scheme@,
                host: host@,
                path: path@,
                query: None,
                headers: Seq::empty(),
                client_ip: None,
                body: Seq::empty(),
            }),
    {
        let r = Request {
            method,
            version: Version::Http11,
            scheme: String::from_str(scheme),
            host: String::from_str(host),
            path: String::from_str(path),
            query: None,
            headers: Vec::new(),
            client_ip: None,
            body: Vec::new(),
        };
        assert(r@.headers =~= Seq::empty());
        r
    }

    /// The same request with another method.
    pub fn with_method(self, method: Method) -> (r: Request)
        ensures
            r@ == (RequestView { method, ..self@ }),
    {
        let mut r = self;
        r.method = method;
        r
    }

    /// The same request under another protocol version.
    pub fn with_version(self, version: Version) -> (r: Request)
        ensures
            r@ == (RequestView { version, ..self@ }),
    {
        let mut r = self;
        r.version = version;
        r
    }

    /// The same request with another path.
    pub fn with_path(self, path: &str) -> (r: Request)
        ensures
            r@ == (RequestView { path: path@, ..self@ }),
    {
        let mut r = self;
        r.path = String::from_str(path);
        r
    }

    /// The same request with the given query string.
    pub fn with_query_str(self, query: &str) -> (r: Request)
        ensures
            r@ == (RequestView { query: Some(query@), ..self@ }),
    {
        let mut r = self;
        r.query = Some(String::from_str(query));
        r
    }

    /// The same request with one more header, after those it has.
    pub fn with_header(self, name: &str, value: &str) -> (r: Request)
        ensures
            r@ == (RequestView { headers: self@.headers.push((name@, value@)), ..self@ }),
    {
        let mut r = self;
        let ghost before = r.headers@;
        r.headers.push((String::from_str(name), String::from_str(value)));
        assert(pairs_view(r.headers@) =~= pairs_view(before).push((name@, value@)));
        r
    }

    /// The same request from the given client address.
    pub fn with_client_ip(self, address: &str) -> (r: Request)
        ensures
            r@ == (RequestView { client_ip: Some(address@), ..self@ }),
    {
        let mut r = self;
        r.client_ip = Some(String::from_str(address));
        r
    }

    /// The same request with the given body.
    pub fn with_body(self, body: Vec<u8>) -> (r: Request)
        ensures
            r@ == (RequestView { body: body@, ..self@ }),
    {
        let mut r = self;
        r.body = body;
        r
    }

    /// The value of the first header named `name`.
    pub fn get_header_str(&self, name: &str) -> (r: Option<String>)
        ensures
            crate::text::option_view(r) == self@.header(name@),
    {
        header_value(&self.headers, name)
    }

    /// The value of the first header named `name`, or the empty text where
    /// the request has no such header.
    pub fn header_or_empty(&self, name: &str) -> (r: String)
        ensures
            r@ == self@.header_or_empty(name@),
    {
        match header_value(&self.headers, name) {
            Some(v) => v,
            None => String::new(),
        }
    }

    /// The full address of the request.
    pub fn get_url_str(&self) -> (r: String)
        ensures
            r@ == self@.url(),
    {
        let base = crate::text::joined(self.scheme.as_str(), "://").concat(
            self.host.as_str(),
        ).concat(self.path.as_str());
        match &self.query {
            Some(q) => base.concat("?").concat(q.as_str()),
            None => base,
        }
    }
}

/// The query string of a request, as the bytes that are parsed: empty where
/// the request has none.
pub open spec fn query_bytes(req: RequestView) -> Seq<u8> {
    match req.query {
        Some(q) => encode_utf8(q),
        None => Seq::empty(),
    }
}

/// What a response holds, as mathematical values.
pub struct ResponseView {
    pub status: u16,
    pub headers: Seq<(Seq<char>, Seq<char>)>,
    pub body: Seq<u8>,
}

/// The response with the given status, without headers or body.
pub open spec fn respond(status: u16) -> ResponseView {
    ResponseView { status, headers: Seq::empty(), body: Seq::empty() }
}

impl ResponseView {
    /// The same response with one more header, after those it has.
    pub open spec fn header(self, name: Seq<char>, value: Seq<char>) -> ResponseView {
        ResponseView { headers: self.headers.push((name, value)), ..self }
    }

    /// The same response with `name` set to `value` alone: the headers of
    /// that name leave, and the new one stands after the others.
    pub open spec fn set_header(self, name: Seq<char>, value: Seq<char>) -> ResponseView {
        ResponseView { headers: remove_header(self.headers, name).push((name, value)), ..self }
    }

    /// The same response declaring the media type `mime`.
    pub open spec fn content_type(self, mime: Mime) -> ResponseView {
        self.set_header("content-type"@, mime.text())
    }

    /// The same response with the given body.
    pub open spec fn body(self, body: Seq<u8>) -> ResponseView {
        ResponseView { body, ..self }
    }

    /// The same response with the UTF-8 bytes of `text` as its body.
    pub open spec fn body_text(self, text: Seq<char>) -> ResponseView {
        ResponseView { body: encode_utf8(text), ..self }
    }

    /// The same response with the given body, declared as
    /// `application/octet-stream`.
    pub open spec fn body_octet_stream(self, body: Seq<u8>) -> ResponseView {
        self.body(body).content_type(Mime::ApplicationOctetStream)
    }

    /// The value of the first header named `name`.
    pub open spec fn find(self, name: Seq<char>) -> Option<Seq<char>> {
        find_header(self.headers, name)
    }
}

/// An outbound response.
#[derive(Clone, Debug)]
pub struct Response {
    pub status: u16,
    /// The headers in the order they were added.
    pub headers: Vec<(String, String)>,
    pub body: Vec<u8>,
}

impl View for Response {
    type V = ResponseView;

    open spec fn view(&self) -> ResponseView {
        ResponseView { status: self.status, headers: pairs_view(self.headers@), body: self.body@ }
    }
}

impl Response {
    /// The response with the given status, without headers or body.
    pub fn from_status(status: u16) -> (r: Response)
        ensures
            r@ == respond(status),
    {
        let r = Response { status, headers: Vec::new(), body: Vec::new() };
        assert(r@.headers =~= Seq::empty());
        r
    }

    /// The same response with one more header, after those it has.
    pub fn with_header(self, name: &str, value: &str) -> (r: Response)
        ensures
            r@ == self@.header(name@, value@),
    {
        let mut r = self;
        let ghost before = r.headers@;
        r.headers.push((String::from_str(name), String::from_str(value)));
        assert(pairs_view(r.headers@) =~= pairs_view(before).push((name@, value@)));
        r
    }

    /// The same response with `name` set to `value` alone.
    pub fn with_set_header(self, name: &str, value: &str) -> (r: Response)
        ensures
            r@ == self@.set_header(name@, value@),
    {
        let mut headers = without_header(&self.headers, name);
        let ghost before = headers@;
        headers.push((String::from_str(name), String::from_str(value)));
        assert(pairs_view(headers@) =~= pairs_view(before).push((name@, value@)));
        Response { status: self.status, headers, body: self.body }
    }

    /// The same response declaring the media type `mime`.
    pub fn with_content_type(self, mime: Mime) -> (r: Response)
        ensures
            r@ == self@.content_type(mime),
    {
        self.with_set_header("content-type", mime.as_str())
    }

    /// The same response with the given body.
    pub fn with_body(self, body: Vec<u8>) -> (r: Response)
        ensures
            r@ == self@.body(body@),
    {
        Response { status: self.status, headers: self.headers, body }
    }

    /// The same response with the UTF-8 bytes of `text` as its body.
    pub fn with_body_str(self, text: &str) -> (r: Response)
        ensures
            r@ == self@.body_text(text@),
    {
        Response { status: self.status, headers: self.headers, body: text.as_bytes_vec() }
    }

    /// The same response with the given body, declared as
    /// `application/octet-stream`.
    pub fn with_body_octet_stream(self, body: Vec<u8>) -> (r: Response)
        ensures
            r@ == self@.body_octet_stream(body@),
    {
        self.with_body(body).with_content_type(Mime::ApplicationOctetStream)
    }

    /// The status of the response.
    pub fn get_status(&self) -> (r: u16)
        ensures
            r == self@.status,
    {
        self.status
    }

    /// The value of the first header named `name`.
    pub fn get_header_str(&self, name: &str) -> (r: Option<String>)
        ensures
            crate::text::option_view(r) == self@.find(name@),
    {
        header_value(&self.headers, name)
    }

    /// The media type that the response declares, where its `content-type`
    /// header holds the text of one.
    pub fn get_content_type(&self) -> (r: Option<Mime>)
        ensures
            r == match self@.find("content-type"@) {
                Some(t) => Mime::from_text(t),
                None => None,
            },
    {
        match header_value(&self.headers, "content-type") {
            Some(t) => Mime::parse(t.as_str()),
            None => None,
        }
    }
}

/// The result of a handler, with the response taken by its view.
pub open spec fn reply_view(r: Result<Response, HandlerError>) -> Result<
    ResponseView,
    HandlerError,
> {
    match r {
        Ok(resp) => Ok(resp@),
        Err(e) => Err(e),
    }
}

/// Header names are looked up without regard to case: two names that
/// differ in the case of ASCII letters alone find the same header.
pub proof fn lemma_header_lookup_ignores_case(
    headers: Seq<(Seq<char>, Seq<char>)>,
    name: Seq<char>,
    other: Seq<char>,
)
    requires
        same_name(name, other),
    ensures
        header_position(headers, name) == header_position(headers, other),
        find_header(headers, name) == find_header(headers, other),
    decreases headers.len(),
{
    if headers.len() > 0 && !same_name(headers[0].0, name) {
        lemma_header_lookup_ignores_case(headers.drop_first(), name, other);
    }
}

/// The address of a request ends with its query string, as received, after
/// a `?`.
pub proof fn lemma_url_keeps_query(req: RequestView)
    requires
        req.query is Some,
    ensures
        req.query->0.is_suffix_of(req.url()),
        ("?"@ + req.query->0).is_suffix_of(req.url()),
{
    let q = req.query->0;
    let base = req.scheme + "://"@ + req.host + req.path;
    let url = req.url();
    assert(url == base + "?"@ + q);
    assert(url.skip(url.len() - q.len()) =~= q);
    assert(url.skip(url.len() - ("?"@ + q).len()) =~= "?"@ + q);
}

/// A response whose media type was set declares that media type, whatever
/// headers it had before.
pub proof fn lemma_content_type_is_found(r: ResponseView, mime: Mime)
    ensures
        r.content_type(mime).find("content-type"@) == Some(mime.text()),
{
    let name = "content-type"@;
    let kept = remove_header(r.headers, name);
    lemma_remove_header(r.headers, name, name);
    lemma_header_position(kept, name);
    let all = kept.push((name, mime.text()));
    assert forall|i: int| 0 <= i < kept.len() implies !same_name((#[trigger] all[i]).0, name) by {
        assert(all[i] == kept[i]);
    }
    lemma_header_position_is(all, name, kept.len() as int);
}

} // verus!
