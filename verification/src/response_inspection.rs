//! Handlers that shape the response from the request: cache lifetime,
//! response headers taken from the query string, and entity tags.

use vstd::prelude::*;
use vstd::string::*;
use crate::codec::{form_decode, form_pairs};
use crate::http::{
    query_bytes, reply_view, respond, HandlerError, Mime, Request, RequestView, Response,
    ResponseView, STATUS_NOT_FOUND, STATUS_NOT_MODIFIED, STATUS_OK, STATUS_PRECONDITION_FAILED,
};
use crate::pattern::{captures_lite, get_group, group, regex_lite_answer};
use crate::text::{pairs_view, split, split_spec, str_eq, strings_view};

verus! {

/// The pattern of `/cache/{n}`: one or two digits.
pub const CACHE_PATTERN: &'static str = r"/cache/(\d{1,2})$";

/// The pattern of `/etag/{value}`.
pub const ETAG_PATTERN: &'static str = r"/etag/(\w+)$";

/// The response to `/cache/{n}` for the digits `n`.
pub open spec fn cache_response(seconds: Seq<char>) -> ResponseView {
    respond(STATUS_OK).header("Cache-Control"@, "public, max-age="@ + seconds).content_type(
        Mime::ApplicationJson,
    )
}

/// The response of `cache_value` for what the pattern found in the path.
pub open spec fn cache_value_found(found: Option<Seq<Option<Seq<char>>>>) -> ResponseView {
    match found {
        Some(groups) => match group(groups, 1) {
            Some(seconds) => cache_response(seconds),
            None => respond(STATUS_NOT_FOUND).content_type(Mime::ApplicationJson),
        },
        None => respond(STATUS_NOT_FOUND).content_type(Mime::ApplicationJson),
    }
}

/// What `cache_value` returns.
pub open spec fn cache_value_spec(req: RequestView) -> Result<ResponseView, HandlerError> {
    match regex_lite_answer(CACHE_PATTERN@, req.path) {
        Ok(found) => Ok(cache_value_found(found)),
        Err(e) => Err(e),
    }
}

/// The response to `/cache/{n}`: 200 with `Cache-Control: public, max-age=n`.
pub fn cache_max_age(seconds: &str) -> (r: Response)
    ensures
        r@ == cache_response(seconds@),
{
    let value = crate::text::joined("public, max-age=", seconds);
    Response::from_status(STATUS_OK).with_header("Cache-Control", value.as_str()).with_content_type(
        Mime::ApplicationJson,
    )
}

/// Sets a `Cache-Control` header for the number of seconds in the path;
/// 404 where the path does not end in `/cache/` and one or two digits.
pub fn cache_value(req: &Request) -> (r: Result<Response, HandlerError>)
    ensures
        reply_view(r) == cache_value_spec(req@),
{
    let found = captures_lite(CACHE_PATTERN, req.path.as_str())?;
    if let Some(groups) = found {
        if let Some(seconds) = get_group(&groups, 1) {
            return Ok(cache_max_age(seconds.as_str()));
        }
    }
    Ok(Response::from_status(STATUS_NOT_FOUND).with_content_type(Mime::ApplicationJson))
}

/// Whether a later pair of `pairs` has the key `key`.
pub open spec fn key_occurs(pairs: Seq<(Seq<char>, Seq<char>)>, key: Seq<char>) -> bool {
    exists|j: int| 0 <= j < pairs.len() && (#[trigger] pairs[j]).0 == key
}

/// For each key, its last pair: the pairs of `pairs` that no later pair
/// shares the key of, in their order.
pub open spec fn last_wins(pairs: Seq<(Seq<char>, Seq<char>)>) -> Seq<(Seq<char>, Seq<char>)>
    decreases pairs.len(),
{
    if pairs.len() == 0 {
        pairs
    } else if key_occurs(pairs.drop_first(), pairs[0].0) {
        last_wins(pairs.drop_first())
    } else {
        seq![pairs[0]] + last_wins(pairs.drop_first())
    }
}

/// The response that returns `pairs` as headers: 200, declared as JSON, then
/// one header for each key, with the value of its last pair.
pub open spec fn response_headers_response(pairs: Seq<(Seq<char>, Seq<char>)>) -> ResponseView {
    let base = respond(STATUS_OK).content_type(Mime::ApplicationJson);
    ResponseView { headers: base.headers + last_wins(pairs), ..base }
}

/// What `response_headers_get` returns.
pub open spec fn response_headers_spec(req: RequestView) -> Result<ResponseView, HandlerError> {
    match form_pairs(query_bytes(req)) {
        Some(pairs) => Ok(response_headers_response(pairs)),
        None => Err(HandlerError::Query),
    }
}

/// Whether a pair of `pairs` from index `from` on has the key `key`.
fn key_occurs_from(pairs: &Vec<(String, String)>, from: usize, key: &str) -> (r: bool)
    requires
        from <= pairs@.len(),
    ensures
        r == key_occurs(pairs_view(pairs@).skip(from as int), key@),
{
    let n: usize = pairs.len();
    let mut j: usize = from;
    let ghost rest = pairs_view(pairs@).skip(from as int);
    while j < n
        invariant
            n == pairs@.len(),
            from <= j <= n,
            rest == pairs_view(pairs@).skip(from as int),
            forall|k: int| 0 <= k < j - from ==> (#[trigger] rest[k]).0 != key@,
        decreases n - j,
    {
        if str_eq(pairs[j].0.as_str(), key) {
            assert(rest[j - from].0 == key@);
            return true;
        }
        j += 1;
    }
    false
}

/// The response that returns `pairs` as headers.
pub fn response_headers(pairs: &Vec<(String, String)>) -> (r: Response)
    ensures
        r@ == response_headers_response(pairs_view(pairs@)),
{
    let mut resp = Response::from_status(STATUS_OK).with_content_type(Mime::ApplicationJson);
    let ghost base = resp@;
    let ghost all = pairs_view(pairs@);
    let n: usize = pairs.len();
    let mut i: usize = 0;
    assert(all.skip(0) =~= all);
    assert(base.headers + Seq::empty() =~= base.headers);
    let ghost mut kept: Seq<(Seq<char>, Seq<char>)> = Seq::empty();
    while i < n
        invariant
            n == pairs@.len(),
            i <= n,
            all == pairs_view(pairs@),
            resp@ == (ResponseView { headers: base.headers + kept, ..base }),
            last_wins(all) == kept + last_wins(all.skip(i as int)),
        decreases n - i,
    {
        let ghost rest = all.skip(i as int);
        assert(rest.drop_first() =~= all.skip(i + 1));
        assert(rest[0] == all[i as int]);
        if !key_occurs_from(pairs, i + 1, pairs[i].0.as_str()) {
            resp = resp.with_header(pairs[i].0.as_str(), pairs[i].1.as_str());
            proof {
                assert(kept + (seq![all[i as int]] + last_wins(all.skip(i + 1))) =~= kept.push(
                    all[i as int],
                ) + last_wins(all.skip(i + 1)));
                assert((base.headers + kept).push(all[i as int]) =~= base.headers + kept.push(
                    all[i as int],
                ));
                kept = kept.push(all[i as int]);
            }
        }
        i += 1;
    }
    assert(kept + last_wins(all.skip(n as int)) =~= kept);
    resp
}

/// Returns the pairs of the query string as response headers.
pub fn response_headers_get(req: &Request) -> (r: Result<Response, HandlerError>)
    ensures
        reply_view(r) == response_headers_spec(req@),
{
    let parsed = match &req.query {
        Some(q) => form_decode(q.as_str().as_bytes()),
        None => {
            let empty: Vec<u8> = Vec::new();
            form_decode(empty.as_slice())
        },
    };
    match parsed {
        Ok(pairs) => Ok(response_headers(&pairs)),
        Err(_) => Err(HandlerError::Query),
    }
}

/// Returns the pairs of the query string as response headers.
pub fn response_headers_post(req: &Request) -> (r: Result<Response, HandlerError>)
    ensures
        reply_view(r) == response_headers_spec(req@),
{
    response_headers_get(req)
}

/// Whether the comma-separated list `header` names the tag `tag` or `*`.
pub open spec fn lists_tag(header: Seq<char>, tag: Seq<char>) -> bool {
    let listed = split_spec(header, ',');
    listed.contains(tag) || listed.contains("*"@)
}

/// The response for the entity tag `tag` and the value of `If-None-Match`
/// (empty where the request has no such header): 304 where the header lists
/// the tag or `*`, and 412 where it does not. The second test of the
/// handler reads `If-None-Match` once more, where `If-Match` would be
/// expected, so no request is answered 200.
pub open spec fn etag_response(tag: Seq<char>, if_none_match: Seq<char>) -> ResponseView {
    if lists_tag(if_none_match, tag) {
        respond(STATUS_NOT_MODIFIED).content_type(Mime::ApplicationJson)
    } else {
        respond(STATUS_PRECONDITION_FAILED).content_type(Mime::ApplicationJson)
    }
}

/// The tag that a match of the pattern gives: its first group, and `404`
/// where that group took no part.
pub open spec fn etag_of(groups: Seq<Option<Seq<char>>>) -> Seq<char> {
    match group(groups, 1) {
        Some(tag) => tag,
        None => "404"@,
    }
}

/// What `etag` returns.
pub open spec fn etag_spec(req: RequestView) -> Result<ResponseView, HandlerError> {
    match regex_lite_answer(ETAG_PATTERN@, req.path) {
        Ok(Some(groups)) => Ok(etag_response(etag_of(groups), req.header_or_empty("if-none-match"@))),
        Ok(None) => Ok(respond(STATUS_NOT_FOUND).content_type(Mime::ApplicationJson)),
        Err(e) => Err(e),
    }
}

/// Whether one of `items` is `wanted`.
fn contains_text(items: &Vec<String>, wanted: &str) -> (r: bool)
    ensures
        r == strings_view(items@).contains(wanted@),
{
    let n: usize = items.len();
    let mut i: usize = 0;
    while i < n
        invariant
            n == items@.len(),
            i <= n,
            forall|k: int| 0 <= k < i ==> strings_view(items@)[k] != wanted@,
        decreases n - i,
    {
        if str_eq(items[i].as_str(), wanted) {
            assert(strings_view(items@)[i as int] == wanted@);
            return true;
        }
        i += 1;
    }
    false
}

/// Whether the comma-separated list `header` names the tag `tag` or `*`.
pub fn header_lists_tag(header: &str, tag: &str) -> (r: bool)
    ensures
        r == lists_tag(header@, tag@),
{
    let listed = split(header, ',');
    contains_text(&listed, tag) || contains_text(&listed, "*")
}

/// The response for the entity tag `tag` and the value of `If-None-Match`.
pub fn etag_for(tag: &str, if_none_match: &str) -> (r: Response)
    ensures
        r@ == etag_response(tag@, if_none_match@),
{
    if header_lists_tag(if_none_match, tag) {
        return Response::from_status(STATUS_NOT_MODIFIED).with_content_type(Mime::ApplicationJson);
    }
    // The same header is asked once more, so what stands after this test is
    // never reached.
    if !header_lists_tag(if_none_match, tag) {
        return Response::from_status(STATUS_PRECONDITION_FAILED).with_content_type(
            Mime::ApplicationJson,
        );
    }
    Response::from_status(STATUS_OK).with_header("ETag", tag).with_content_type(
        Mime::ApplicationJson,
    )
}

/// Takes the resource to have the entity tag in the path and answers the
/// conditional headers of the request; 404 where the path holds no tag.
pub fn etag(req: &Request) -> (r: Result<Response, HandlerError>)
    ensures
        reply_view(r) == etag_spec(req@),
{
    let found = captures_lite(ETAG_PATTERN, req.path.as_str())?;
    match found {
        Some(groups) => {
            let tag = match get_group(&groups, 1) {
                Some(tag) => tag,
                None => String::from_str("404"),
            };
            let if_none_match = req.header_or_empty("if-none-match");
            Ok(etag_for(tag.as_str(), if_none_match.as_str()))
        },
        None => Ok(Response::from_status(STATUS_NOT_FOUND).with_content_type(Mime::ApplicationJson)),
    }
}

/// A request whose path the engine reads as the tag `tag` is answered 304
/// where its `If-None-Match` lists the tag or `*`, and 412 where it does
/// not, which is so for every request without that header.
pub proof fn lemma_etag(req: RequestView, tag: Seq<char>)
    requires
        regex_lite_answer(ETAG_PATTERN@, req.path) matches Ok(Some(groups)) && group(groups, 1)
            == Some(tag),
    ensures
        etag_spec(req) matches Ok(resp) && resp.status == if lists_tag(
            req.header_or_empty("if-none-match"@),
            tag,
        ) {
            STATUS_NOT_MODIFIED
        } else {
            STATUS_PRECONDITION_FAILED
        },
        req.header("if-none-match"@) is None && tag.len() > 0 && tag != "*"@ ==> !lists_tag(
            req.header_or_empty("if-none-match"@),
            tag,
        ),
{
    if req.header("if-none-match"@) is None && tag.len() > 0 && tag != "*"@ {
        reveal_strlit("*");
        let empty = Seq::<char>::empty();
        assert(req.header_or_empty("if-none-match"@) == empty);
        assert(split_spec(empty, ',') =~= seq![empty]);
        let listed = split_spec(empty, ',');
        assert(!listed.contains(tag)) by {
            if listed.contains(tag) {
                let i = choose|i: int| 0 <= i < listed.len() && listed[i] == tag;
                assert(listed[i] == empty);
            }
        }
        assert(!listed.contains("*"@)) by {
            if listed.contains("*"@) {
                let i = choose|i: int| 0 <= i < listed.len() && listed[i] == "*"@;
                assert(listed[i] == empty);
                assert("*"@.len() == 1);
            }
        }
    }
}

} // verus!
