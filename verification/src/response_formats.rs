//! Handlers that answer in a given format: the fixed documents, and the
//! echo document under each of three compressions.

use vstd::prelude::*;
use vstd::utf8::*;
use crate::assets::{serve, serve_spec, Asset};
use crate::codec::{
    brotli_encode, brotli_stream, deflate_encode, deflate_stream, gzip_encode, is_gzip_of,
};
use crate::http::{
    reply_view, respond, HandlerError, Mime, Request, RequestView, Response,
    ResponseView, STATUS_OK,
};
use crate::json::json_pretty_text;
use crate::{req_to_json, req_to_json_model};

verus! {

/// The bytes that are compressed: the UTF-8 text of the echo document.
pub open spec fn echo_bytes(req: RequestView) -> Seq<u8> {
    encode_utf8(json_pretty_text(req_to_json_model(req)))
}

/// What `brotli` returns: the echo document as a Brotli stream.
pub open spec fn brotli_spec(req: RequestView) -> Result<ResponseView, HandlerError> {
    match brotli_stream(echo_bytes(req)) {
        Some(stream) => Ok(encoded_response("br"@, stream)),
        None => Err(HandlerError::Encode),
    }
}

/// What `deflate` returns: the echo document as a raw DEFLATE stream.
pub open spec fn deflate_spec(req: RequestView) -> Result<ResponseView, HandlerError> {
    Ok(encoded_response("deflate"@, deflate_stream(echo_bytes(req))))
}

/// Whether `r` is what `gzip` may return: the echo document as a gzip
/// member. The header of a member is not fixed by the request, so the
/// response is stated up to a body that frames the DEFLATE stream of the
/// document.
pub open spec fn gzip_spec(req: RequestView, r: Result<ResponseView, HandlerError>) -> bool {
    r matches Ok(resp) && resp == encoded_response("gzip"@, resp.body) && is_gzip_of(
        resp.body,
        deflate_stream(echo_bytes(req)),
    )
}

/// The response that carries `body` under the content encoding `encoding`:
/// 200, still declared as JSON.
pub open spec fn encoded_response(encoding: Seq<char>, body: Seq<u8>) -> ResponseView {
    respond(STATUS_OK).content_type(Mime::ApplicationJson).header(
        "content-encoding"@,
        encoding,
    ).body(body)
}

/// The response that carries `body` under the content encoding `encoding`.
pub fn encoded(encoding: &str, body: Vec<u8>) -> (r: Response)
    ensures
        r@ == encoded_response(encoding@, body@),
{
    Response::from_status(STATUS_OK).with_content_type(Mime::ApplicationJson).with_header(
        "content-encoding",
        encoding,
    ).with_body(body)
}

/// Returns the echo document as a Brotli stream.
pub fn brotli(req: &Request) -> (r: Result<Response, HandlerError>)
    ensures
        reply_view(r) == brotli_spec(req@),
{
    let text = req_to_json(req);
    match brotli_encode(text.as_str().as_bytes()) {
        Ok(stream) => Ok(encoded("br", stream)),
        Err(_) => Err(HandlerError::Encode),
    }
}

/// Returns the echo document as a raw DEFLATE stream.
pub fn deflate(req: &Request) -> (r: Result<Response, HandlerError>)
    ensures
        reply_view(r) == deflate_spec(req@),
{
    let text = req_to_json(req);
    Ok(encoded("deflate", deflate_encode(text.as_str().as_bytes())))
}

/// Returns the echo document as a gzip member.
pub fn gzip(req: &Request) -> (r: Result<Response, HandlerError>)
    ensures
        gzip_spec(req@, reply_view(r)),
{
    let text = req_to_json(req);
    Ok(encoded("gzip", gzip_encode(text.as_str().as_bytes())))
}

/// Serves the HTML fixture.
pub fn html(assets: &Asset, _req: &Request) -> (r: Result<Response, HandlerError>)
    ensures
        r matches Ok(resp) && resp@ == serve_spec(assets@, "html.html"@, Mime::TextHtml),
{
    serve(assets, "html.html", Mime::TextHtml)
}

/// Serves the JSON fixture.
pub fn json(assets: &Asset, _req: &Request) -> (r: Result<Response, HandlerError>)
    ensures
        r matches Ok(resp) && resp@ == serve_spec(assets@, "json.json"@, Mime::ApplicationJson),
{
    serve(assets, "json.json", Mime::ApplicationJson)
}

/// Serves the robots rules.
pub fn robots_txt(assets: &Asset, _req: &Request) -> (r: Result<Response, HandlerError>)
    ensures
        r matches Ok(resp) && resp@ == serve_spec(assets@, "robots.txt"@, Mime::TextPlain),
{
    serve(assets, "robots.txt", Mime::TextPlain)
}

/// Serves the XML fixture.
pub fn xml(assets: &Asset, _req: &Request) -> (r: Result<Response, HandlerError>)
    ensures
        r matches Ok(resp) && resp@ == serve_spec(assets@, "xml.xml"@, Mime::ApplicationXml),
{
    serve(assets, "xml.xml", Mime::ApplicationXml)
}

/// Serves the page that the robots rules deny.
pub fn deny(assets: &Asset, _req: &Request) -> (r: Result<Response, HandlerError>)
    ensures
        r matches Ok(resp) && resp@ == serve_spec(assets@, "deny.txt"@, Mime::TextPlain),
{
    serve(assets, "deny.txt", Mime::TextPlain)
}

/// Serves the UTF-8 sample.
pub fn encoding_utf8(assets: &Asset, _req: &Request) -> (r: Result<Response, HandlerError>)
    ensures
        r matches Ok(resp) && resp@ == serve_spec(assets@, "utf8.txt"@, Mime::TextPlain),
{
    serve(assets, "utf8.txt", Mime::TextPlain)
}

} // verus!
