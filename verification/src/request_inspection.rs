//! Handlers that report one thing about the request: its user agent, the
//! address of the client, its headers, its protocol version.

use vstd::prelude::*;
use vstd::string::*;
use crate::http::{
    reply_view, respond, HandlerError, Mime, Request, RequestView, Response,
    ResponseView, Version, STATUS_OK,
};
use crate::json::{
    json_members, json_pretty_text, no_members, optional_text, optional_text_model, pairs_model,
    pairs_object, single_member, write_pretty, JsonModel, JsonObject, JsonValue,
};
use crate::http::same_name;
use crate::{first_wins, lemma_first_wins_keeps_distinct, names_differ, req_headers};

verus! {

/// The response that carries the text of a document: 200, declared as
/// JSON.
pub open spec fn document_response(text: Seq<char>) -> ResponseView {
    respond(STATUS_OK).content_type(Mime::ApplicationJson).body_text(text)
}

/// What a handler that answers with a document returns: the response that
/// carries the pretty-printed text of the document.
pub open spec fn document_reply(doc: Map<Seq<char>, JsonModel>) -> Result<
    ResponseView,
    HandlerError,
> {
    Ok(document_response(json_pretty_text(doc)))
}

/// The response that carries a document.
pub fn document(doc: &JsonObject) -> (r: Result<Response, HandlerError>)
    ensures
        reply_view(r) == document_reply(json_members(*doc)),
{
    let text = write_pretty(doc);
    Ok(
        Response::from_status(STATUS_OK).with_content_type(Mime::ApplicationJson).with_body_str(
            text.as_str(),
        ),
    )
}

/// The document with the one member `key`.
pub open spec fn single_model(key: Seq<char>, value: JsonModel) -> Map<Seq<char>, JsonModel> {
    no_members().insert(key, value)
}

/// The document that reports the user agent: the value of `User-Agent`, and
/// the empty text where the request has no such header.
pub open spec fn user_agent_model(req: RequestView) -> Map<Seq<char>, JsonModel> {
    single_model("user-agent"@, JsonModel::Text(req.header_or_empty("user-agent"@)))
}

/// Reports the `User-Agent` header of the request.
pub fn user_agent(req: &Request) -> (r: Result<Response, HandlerError>)
    ensures
        reply_view(r) == document_reply(user_agent_model(req@)),
{
    let ua = req.header_or_empty("user-agent");
    document(&single_member("user-agent", JsonValue::Text(ua)))
}

/// The document that reports the address of the client, `null` where it is
/// not known.
pub open spec fn ip_model(req: RequestView) -> Map<Seq<char>, JsonModel> {
    single_model("ip"@, optional_text_model(req.client_ip))
}

/// Reports the address of the client.
pub fn ip(req: &Request) -> (r: Result<Response, HandlerError>)
    ensures
        reply_view(r) == document_reply(ip_model(req@)),
{
    document(&single_member("ip", optional_text(&req.client_ip)))
}

/// The document that reports the headers of the request, one member for
/// each header name.
pub open spec fn headers_model(req: RequestView) -> Map<Seq<char>, JsonModel> {
    single_model("headers"@, pairs_model(first_wins(req.headers)))
}

/// Reports the headers of the request.
pub fn headers(req: &Request) -> (r: Result<Response, HandlerError>)
    ensures
        reply_view(r) == document_reply(headers_model(req@)),
{
    let all = req_headers(req);
    document(&single_member("headers", pairs_object(&all)))
}

/// The text that names a protocol version.
pub open spec fn version_text(version: Version) -> Seq<char> {
    match version {
        Version::Http09 => "0.9"@,
        Version::Http10 => "1.0"@,
        Version::Http11 => "1.1"@,
        Version::Http2 => "2"@,
        Version::Http3 => "3"@,
        Version::Other => "unknown"@,
    }
}

/// The text that names a protocol version.
pub fn version_name(version: Version) -> (r: &'static str)
    ensures
        r@ == version_text(version),
{
    match version {
        Version::Http09 => "0.9",
        Version::Http10 => "1.0",
        Version::Http11 => "1.1",
        Version::Http2 => "2",
        Version::Http3 => "3",
        Version::Other => "unknown",
    }
}

/// The document that reports the protocol version.
pub open spec fn http_version_model(req: RequestView) -> Map<Seq<char>, JsonModel> {
    single_model("http_version"@, JsonModel::Text(version_text(req.version)))
}

/// Reports the protocol version of the request.
pub fn http_version(req: &Request) -> (r: Result<Response, HandlerError>)
    ensures
        reply_view(r) == document_reply(http_version_model(req@)),
{
    document(
        &single_member("http_version", JsonValue::Text(String::from_str(version_name(req.version)))),
    )
}

/// The report of the headers depends on the headers alone: two requests
/// with the same headers get the same response, whatever else differs, and
/// so does one request asked twice; the response is 200.
pub proof fn lemma_headers_report_is_stable(a: RequestView, b: RequestView)
    requires
        a.headers == b.headers,
    ensures
        document_reply(headers_model(a)) == document_reply(headers_model(b)),
        document_reply(headers_model(a)) matches Ok(resp) && resp.status == STATUS_OK,
{
}

/// The report of the headers does not depend on their order: two requests
/// that carry the same headers, no name twice, get the same response, and
/// it is 200.
pub proof fn lemma_headers_report_ignores_order(a: RequestView, b: RequestView)
    requires
        names_differ(a.headers),
        names_differ(b.headers),
        forall|p: (Seq<char>, Seq<char>)| a.headers.contains(p) <==> b.headers.contains(p),
    ensures
        document_reply(headers_model(a)) == document_reply(headers_model(b)),
        document_reply(headers_model(a)) matches Ok(resp) && resp.status == STATUS_OK,
{
    lemma_first_wins_keeps_distinct(a.headers);
    lemma_first_wins_keeps_distinct(b.headers);
    assert(crate::json::keys_differ(a.headers)) by {
        assert forall|i: int, j: int| 0 <= i < j < a.headers.len() implies (
        #[trigger] a.headers[i]).0 != (#[trigger] a.headers[j]).0 by {
            assert(!same_name(a.headers[i].0, a.headers[j].0));
        }
    }
    assert(crate::json::keys_differ(b.headers)) by {
        assert forall|i: int, j: int| 0 <= i < j < b.headers.len() implies (
        #[trigger] b.headers[i]).0 != (#[trigger] b.headers[j]).0 by {
            assert(!same_name(b.headers[i].0, b.headers[j].0));
        }
    }
    crate::json::lemma_pairs_members_ignore_order(a.headers, b.headers);
}

} // verus!
