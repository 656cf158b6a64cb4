//! An HTTP request and response inspection service: the router and the
//! handlers that map a request to its response.
//!
//! Requests and responses are plain values ([`http::Request`],
//! [`http::Response`]); every handler states its response as a function of
//! the view of the request. What outside crates compute (pattern matching,
//! JSON text, encodings, random values) enters through the trusted functions
//! of [`pattern`], [`json`], [`codec`] and [`random`].

pub mod assets;
pub mod auth;
pub mod codec;
pub mod cookies;
pub mod dynamic_data;
pub mod http;
pub mod http_methods;
pub mod images;
pub mod json;
pub mod number;
pub mod pattern;
pub mod random;
pub mod redirects;
pub mod request_inspection;
pub mod response_formats;
pub mod response_inspection;
pub mod router;
pub mod status_codes;
pub mod text;

use vstd::prelude::*;
use crate::codec::{form_decode, form_pairs};
use crate::http::{query_bytes, same_name, Method, Request, RequestView};
use crate::json::{
    json_map_insert, json_map_new, json_members, json_pretty_text, no_members, optional_text,
    optional_text_model, pairs_model, pairs_object, write_pretty, JsonModel, JsonObject,
    JsonValue,
};
use crate::text::{eq_ignore_case, pairs_view, str_eq};

verus! {

/// Whether a header of `headers` has the name `name`.
pub open spec fn name_occurs(headers: Seq<(Seq<char>, Seq<char>)>, name: Seq<char>) -> bool {
    exists|j: int| 0 <= j < headers.len() && same_name((#[trigger] headers[j]).0, name)
}

/// For each header name its first header: the headers that no earlier
/// header shares the name of, in their order.
pub open spec fn first_wins(headers: Seq<(Seq<char>, Seq<char>)>) -> Seq<(Seq<char>, Seq<char>)>
    decreases headers.len(),
{
    if headers.len() == 0 {
        headers
    } else if name_occurs(headers.drop_last(), headers.last().0) {
        first_wins(headers.drop_last())
    } else {
        first_wins(headers.drop_last()).push(headers.last())
    }
}

/// Whether no two headers share a name.
pub open spec fn names_differ(headers: Seq<(Seq<char>, Seq<char>)>) -> bool {
    forall|i: int, j: int|
        0 <= i < j < headers.len() ==> !same_name(
            (#[trigger] headers[i]).0,
            (#[trigger] headers[j]).0,
        )
}

/// Headers of which no two share a name all stand for themselves.
pub proof fn lemma_first_wins_keeps_distinct(headers: Seq<(Seq<char>, Seq<char>)>)
    requires
        names_differ(headers),
    ensures
        first_wins(headers) == headers,
    decreases headers.len(),
{
    if headers.len() > 0 {
        let head = headers.drop_last();
        assert forall|i: int, j: int| 0 <= i < j < head.len() implies !same_name(
            (#[trigger] head[i]).0,
            (#[trigger] head[j]).0,
        ) by {
            assert(head[i] == headers[i]);
            assert(head[j] == headers[j]);
        }
        lemma_first_wins_keeps_distinct(head);
        assert(!name_occurs(head, headers.last().0)) by {
            if name_occurs(head, headers.last().0) {
                let j = choose|j: int|
                    0 <= j < head.len() && same_name((#[trigger] head[j]).0, headers.last().0);
                assert(head[j] == headers[j]);
                assert(headers[headers.len() - 1] == headers.last());
                assert(!same_name(headers[j].0, headers[headers.len() - 1].0));
            }
        }
        assert(head.push(headers.last()) =~= headers);
    }
}

/// Whether one of the first `until` headers has the name `name`.
fn name_occurs_before(headers: &Vec<(String, String)>, until: usize, name: &str) -> (r: bool)
    requires
        until <= headers@.len(),
    ensures
        r == name_occurs(pairs_view(headers@).take(until as int), name@),
{
    let ghost first = pairs_view(headers@).take(until as int);
    let mut j: usize = 0;
    while j < until
        invariant
            until <= headers@.len(),
            j <= until,
            first == pairs_view(headers@).take(until as int),
            forall|k: int| 0 <= k < j ==> !same_name((#[trigger] first[k]).0, name@),
        decreases until - j,
    {
        if eq_ignore_case(headers[j].0.as_str(), name) {
            assert(same_name(first[j as int].0, name@));
            return true;
        }
        j += 1;
    }
    false
}

/// The headers of a request, one for each name: where a name occurs more
/// than once, the first header of that name stands for it.
pub fn req_headers(req: &Request) -> (r: Vec<(String, String)>)
    ensures
        pairs_view(r@) == first_wins(req@.headers),
{
    let ghost all = pairs_view(req.headers@);
    let n: usize = req.headers.len();
    let mut out: Vec<(String, String)> = Vec::new();
    let mut i: usize = 0;
    assert(all.take(0) =~= Seq::empty());
    assert(pairs_view(out@) =~= Seq::empty());
    while i < n
        invariant
            n == req.headers@.len(),
            i <= n,
            all == pairs_view(req.headers@),
            pairs_view(out@) == first_wins(all.take(i as int)),
        decreases n - i,
    {
        proof {
            let next = all.take(i + 1);
            assert(next.drop_last() =~= all.take(i as int));
            assert(next.last() == all[i as int]);
        }
        if !name_occurs_before(&req.headers, i, req.headers[i].0.as_str()) {
            let ghost before = out@;
            out.push((req.headers[i].0.clone(), req.headers[i].1.clone()));
            assert(pairs_view(out@) =~= pairs_view(before).push(all[i as int]));
        }
        i += 1;
    }
    assert(all.take(n as int) =~= all);
    out
}

/// The members that every echo document has: the query arguments, the
/// headers, the address of the client and the address of the request.
pub open spec fn echo_members(req: RequestView, args: Seq<(Seq<char>, Seq<char>)>) -> Map<
    Seq<char>,
    JsonModel,
> {
    no_members().insert("args"@, pairs_model(args)).insert(
        "headers"@,
        pairs_model(first_wins(req.headers)),
    ).insert("origin"@, optional_text_model(req.client_ip)).insert(
        "url"@,
        JsonModel::Text(req.url()),
    )
}

/// The echo document of a request: `args`, `headers`, `origin` and `url`,
/// and `form` where the request carries form fields.
pub open spec fn echo_model(
    req: RequestView,
    args: Seq<(Seq<char>, Seq<char>)>,
    form: Option<Seq<(Seq<char>, Seq<char>)>>,
) -> Map<Seq<char>, JsonModel> {
    match form {
        Some(fields) => echo_members(req, args).insert("form"@, pairs_model(fields)),
        None => echo_members(req, args),
    }
}

/// The echo document of a request, for the query arguments and form fields
/// that were read from it.
pub fn echo_document(
    req: &Request,
    args: &Vec<(String, String)>,
    form: &Option<Vec<(String, String)>>,
) -> (m: JsonObject)
    ensures
        json_members(m) == echo_model(
            req@,
            pairs_view(args@),
            match *form {
                Some(fields) => Some(pairs_view(fields@)),
                None => None,
            },
        ),
{
    let mut members = json_map_new();
    json_map_insert(&mut members, "args", pairs_object(args));
    let headers = req_headers(req);
    json_map_insert(&mut members, "headers", pairs_object(&headers));
    json_map_insert(&mut members, "origin", optional_text(&req.client_ip));
    let url = req.get_url_str();
    json_map_insert(&mut members, "url", JsonValue::Text(url));
    match form {
        Some(fields) => {
            json_map_insert(&mut members, "form", pairs_object(fields));
        },
        None => {},
    }
    members
}

/// The pairs that `bytes` hold in form encoding, and no pairs where they
/// cannot be read.
pub open spec fn pairs_or_none(bytes: Seq<u8>) -> Seq<(Seq<char>, Seq<char>)> {
    match form_pairs(bytes) {
        Some(pairs) => pairs,
        None => Seq::empty(),
    }
}

/// The pairs that `bytes` hold in form encoding, and no pairs where they
/// cannot be read.
pub fn read_pairs(bytes: &[u8]) -> (r: Vec<(String, String)>)
    ensures
        pairs_view(r@) == pairs_or_none(bytes@),
{
    match form_decode(bytes) {
        Ok(pairs) => pairs,
        Err(_) => {
            let none: Vec<(String, String)> = Vec::new();
            assert(pairs_view(none@) =~= Seq::empty());
            none
        },
    }
}

/// The query arguments of a request: the pairs of its query string, none
/// where it has no query string or the string cannot be read.
pub fn query_args(req: &Request) -> (r: Vec<(String, String)>)
    ensures
        pairs_view(r@) == pairs_or_none(query_bytes(req@)),
{
    match &req.query {
        Some(q) => read_pairs(q.as_str().as_bytes()),
        None => {
            let empty: Vec<u8> = Vec::new();
            read_pairs(empty.as_slice())
        },
    }
}

/// Whether the method is one that carries a body.
pub open spec fn carries_body(method: Method) -> bool {
    method == Method::Post || method == Method::Put || method == Method::Patch
}

/// Whether the request carries a form: its method carries a body, and its
/// content type is `application/x-www-form-urlencoded`.
pub open spec fn is_form_encoded(req: RequestView) -> bool {
    carries_body(req.method) && req.header("content-type"@) == Some(
        "application/x-www-form-urlencoded"@,
    )
}

/// Whether the request carries a form.
pub fn has_form(req: &Request) -> (r: bool)
    ensures
        r == is_form_encoded(req@),
{
    let with_body = match req.method {
        Method::Post => true,
        Method::Put => true,
        Method::Patch => true,
        _ => false,
    };
    if !with_body {
        return false;
    }
    match req.get_header_str("content-type") {
        Some(t) => str_eq(t.as_str(), "application/x-www-form-urlencoded"),
        None => false,
    }
}

/// The echo document of a request whose body is not read.
pub open spec fn req_to_json_model(req: RequestView) -> Map<Seq<char>, JsonModel> {
    echo_model(req, pairs_or_none(query_bytes(req)), None)
}

/// The echo document of a request whose body is read: with the form fields
/// of the body where the request carries a form.
pub open spec fn req_with_body_to_json_model(req: RequestView) -> Map<Seq<char>, JsonModel> {
    echo_model(
        req,
        pairs_or_none(query_bytes(req)),
        if is_form_encoded(req) {
            Some(pairs_or_none(req.body))
        } else {
            None
        },
    )
}

/// The echo document of a request, pretty-printed, without reading the
/// body.
pub fn req_to_json(req: &Request) -> (r: String)
    ensures
        r@ == json_pretty_text(req_to_json_model(req@)),
{
    let args = query_args(req);
    let doc = echo_document(req, &args, &None);
    write_pretty(&doc)
}

/// The echo document of a request, pretty-printed, with the form fields of
/// the body where the request carries a form. The body is taken out of the
/// request: a second reading finds it empty.
pub fn req_with_body_to_json(req: &mut Request) -> (r: String)
    ensures
        r@ == json_pretty_text(req_with_body_to_json_model(old(req)@)),
        final(req)@ == (RequestView {
            body: if is_form_encoded(old(req)@) {
                Seq::empty()
            } else {
                old(req)@.body
            },
            ..old(req)@
        }),
{
    let args = query_args(req);
    let form = if has_form(req) {
        let fields = read_pairs(req.body.as_slice());
        Some(fields)
    } else {
        None
    };
    let doc = echo_document(req, &args, &form);
    if form.is_some() {
        req.body = Vec::new();
    }
    write_pretty(&doc)
}

} // verus!
