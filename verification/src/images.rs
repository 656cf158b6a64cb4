//! Handlers that serve an image: one for each format, and one that picks
//! the format from the `Accept` header.

use vstd::prelude::*;
use vstd::string::*;
use crate::assets::{serve, serve_spec, Asset};
use crate::http::{
    respond, HandlerError, Mime, Request, RequestView, Response, ResponseView,
    STATUS_NOT_ACCEPTABLE,
};
use crate::text::{contains, has_substring};

verus! {

/// Serves the JPEG fixture.
pub fn jpeg(assets: &Asset, _req: &Request) -> (r: Result<Response, HandlerError>)
    ensures
        r matches Ok(resp) && resp@ == serve_spec(assets@, "jpeg.jpeg"@, Mime::ImageJpeg),
{
    serve(assets, "jpeg.jpeg", Mime::ImageJpeg)
}

/// Serves the PNG fixture.
pub fn png(assets: &Asset, _req: &Request) -> (r: Result<Response, HandlerError>)
    ensures
        r matches Ok(resp) && resp@ == serve_spec(assets@, "png.png"@, Mime::ImagePng),
{
    serve(assets, "png.png", Mime::ImagePng)
}

/// Serves the SVG fixture.
pub fn svg(assets: &Asset, _req: &Request) -> (r: Result<Response, HandlerError>)
    ensures
        r matches Ok(resp) && resp@ == serve_spec(assets@, "svg.svg"@, Mime::ImageSvg),
{
    serve(assets, "svg.svg", Mime::ImageSvg)
}

/// Serves the WebP fixture.
pub fn webp(assets: &Asset, _req: &Request) -> (r: Result<Response, HandlerError>)
    ensures
        r matches Ok(resp) && resp@ == serve_spec(assets@, "webp.webp"@, Mime::ImageWebp),
{
    serve(assets, "webp.webp", Mime::ImageWebp)
}

/// The value of `Accept` that the choice goes by: `image/png` where the
/// request has no such header.
pub open spec fn accepted(req: RequestView) -> Seq<char> {
    match req.header("accept"@) {
        Some(value) => value,
        None => "image/png"@,
    }
}

/// The image that an `Accept` value calls for: WebP before SVG before JPEG
/// before PNG, which `image/*` also calls for; 406 where it names none.
pub open spec fn image_choice(assets: Map<Seq<char>, Seq<u8>>, accept: Seq<char>) -> ResponseView {
    if has_substring(accept, "image/webp"@) {
        serve_spec(assets, "webp.webp"@, Mime::ImageWebp)
    } else if has_substring(accept, "image/svg+xml"@) {
        serve_spec(assets, "svg.svg"@, Mime::ImageSvg)
    } else if has_substring(accept, "image/jpeg"@) {
        serve_spec(assets, "jpeg.jpeg"@, Mime::ImageJpeg)
    } else if has_substring(accept, "image/png"@) || has_substring(accept, "image/*"@) {
        serve_spec(assets, "png.png"@, Mime::ImagePng)
    } else {
        respond(STATUS_NOT_ACCEPTABLE).content_type(Mime::ApplicationJson)
    }
}

/// Serves the image of the format that the `Accept` header calls for.
pub fn image(assets: &Asset, req: &Request) -> (r: Result<Response, HandlerError>)
    ensures
        r matches Ok(resp) && resp@ == image_choice(assets@, accepted(req@)),
{
    let accept = match req.get_header_str("accept") {
        Some(value) => value,
        None => String::from_str("image/png"),
    };
    if contains(accept.as_str(), "image/webp") {
        return webp(assets, req);
    }
    if contains(accept.as_str(), "image/svg+xml") {
        return svg(assets, req);
    }
    if contains(accept.as_str(), "image/jpeg") {
        return jpeg(assets, req);
    }
    if contains(accept.as_str(), "image/png") || contains(accept.as_str(), "image/*") {
        return png(assets, req);
    }
    Ok(Response::from_status(STATUS_NOT_ACCEPTABLE).with_content_type(Mime::ApplicationJson))
}

} // verus!
