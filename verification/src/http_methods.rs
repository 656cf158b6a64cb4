//! Handlers that echo the request, one for each method.

use vstd::prelude::*;
use crate::http::{reply_view, HandlerError, Mime, Request, RequestView, Response, STATUS_OK};
use crate::request_inspection::document_reply;
use crate::{
    is_form_encoded, req_to_json, req_to_json_model, req_with_body_to_json,
    req_with_body_to_json_model,
};

verus! {

/// The echo of a request whose body is not read.
fn http_methods(req: &Request) -> (r: Result<Response, HandlerError>)
    ensures
        reply_view(r) == document_reply(req_to_json_model(req@)),
{
    let text = req_to_json(req);
    Ok(
        Response::from_status(STATUS_OK).with_content_type(Mime::ApplicationJson).with_body_str(
            text.as_str(),
        ),
    )
}

/// The echo of a request whose body is read.
fn http_methods_mut(req: &mut Request) -> (r: Result<Response, HandlerError>)
    ensures
        reply_view(r) == document_reply(req_with_body_to_json_model(old(req)@)),
        final(req)@ == (RequestView {
            body: if is_form_encoded(old(req)@) {
                Seq::empty()
            } else {
                old(req)@.body
            },
            ..old(req)@
        }),
{
    let text = req_with_body_to_json(req);
    Ok(
        Response::from_status(STATUS_OK).with_content_type(Mime::ApplicationJson).with_body_str(
            text.as_str(),
        ),
    )
}

/// Echoes a GET request.
pub fn get(req: &Request) -> (r: Result<Response, HandlerError>)
    ensures
        reply_view(r) == document_reply(req_to_json_model(req@)),
{
    http_methods(req)
}

/// Echoes a POST request, with the fields of its form.
pub fn post(req: &mut Request) -> (r: Result<Response, HandlerError>)
    ensures
        reply_view(r) == document_reply(req_with_body_to_json_model(old(req)@)),
        final(req)@ == (RequestView {
            body: if is_form_encoded(old(req)@) {
                Seq::empty()
            } else {
                old(req)@.body
            },
            ..old(req)@
        }),
{
    http_methods_mut(req)
}

/// Echoes a PUT request, with the fields of its form.
pub fn put(req: &mut Request) -> (r: Result<Response, HandlerError>)
    ensures
        reply_view(r) == document_reply(req_with_body_to_json_model(old(req)@)),
        final(req)@ == (RequestView {
            body: if is_form_encoded(old(req)@) {
                Seq::empty()
            } else {
                old(req)@.body
            },
            ..old(req)@
        }),
{
    http_methods_mut(req)
}

/// Echoes a PATCH request, with the fields of its form.
pub fn patch(req: &mut Request) -> (r: Result<Response, HandlerError>)
    ensures
        reply_view(r) == document_reply(req_with_body_to_json_model(old(req)@)),
        final(req)@ == (RequestView {
            body: if is_form_encoded(old(req)@) {
                Seq::empty()
            } else {
                old(req)@.body
            },
            ..old(req)@
        }),
{
    http_methods_mut(req)
}

/// Echoes a request without reading a body, as DELETE asks.
pub fn delete(req: &Request) -> (r: Result<Response, HandlerError>)
    ensures
        reply_view(r) == document_reply(req_to_json_model(req@)),
{
    http_methods(req)
}

} // verus!
