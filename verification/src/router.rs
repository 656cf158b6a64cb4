//! The router: an ordered table of rules, the dispatch of the first rule
//! that matches, and the entry point that wraps it.

use vstd::prelude::*;
use vstd::string::*;
use crate::assets::{file_mimetype, file_mimetype_spec, not_found_fixture, serve_spec, Asset};
use crate::dynamic_data::{
    base64_spec, bytes_spec, delayed_echo, delayed_view, uuid_spec, Delayed, DelayedView,
};
use crate::http::{
    reply_view, respond, HandlerError, Method, Mime, Request, RequestView, Response,
    ResponseView, STATUS_NOT_FOUND, STATUS_OK,
};
use crate::images::{accepted, image_choice};
use crate::pattern::{captures, regex_compiles, regex_groups};
use crate::request_inspection::{document_reply, headers_model, ip_model, user_agent_model};
use crate::response_formats::{brotli_spec, deflate_spec, gzip_spec};
use crate::response_inspection::{cache_value_spec, etag_spec, response_headers_spec};
use crate::status_codes::{in_status_range, status_spec};
use crate::text::{joined, str_eq};
use crate::{is_form_encoded, req_to_json_model, req_with_body_to_json_model};

verus! {

/// The handlers that a rule can name.
#[derive(Clone, Copy, Debug, PartialEq, Eq, Structural)]
pub enum Endpoint {
    Index,
    Swagger,
    Status,
    Patch,
    Post,
    Put,
    Delete,
    Get,
    Image,
    ImageJpeg,
    ImagePng,
    ImageSvg,
    ImageWebp,
    Deflate,
    Brotli,
    Gzip,
    Html,
    Json,
    RobotsTxt,
    Xml,
    Deny,
    Utf8,
    UserAgent,
    Ip,
    BasicAuth,
    Bearer,
    Base64,
    Bytes,
    Uuid,
    DelayGet,
    DelayPost,
    Headers,
    Etag,
    Cache,
    ResponseHeaders,
    RelativeRedirect,
    Redirect,
    AbsoluteRedirect,
}

/// One rule of the router: a method, a pattern for the path, and the
/// handler for a request that matches both.
#[derive(Clone, Debug)]
pub struct RouteRule {
    pub method: Method,
    pub pattern: String,
    pub endpoint: Endpoint,
}

/// A rule, as mathematical values.
pub struct RuleView {
    pub method: Method,
    pub pattern: Seq<char>,
    pub endpoint: Endpoint,
}

impl View for RouteRule {
    type V = RuleView;

    open spec fn view(&self) -> RuleView {
        RuleView { method: self.method, pattern: self.pattern@, endpoint: self.endpoint }
    }
}

/// The views of a list of rules.
pub open spec fn rules_view(rules: Seq<RouteRule>) -> Seq<RuleView> {
    Seq::new(rules.len(), |i: int| rules[i]@)
}

/// The response of a result that waits, and the wait set aside.
pub open spec fn undelayed(r: Result<DelayedView, HandlerError>) -> Result<
    ResponseView,
    HandlerError,
> {
    match r {
        Ok(d) => Ok(d.response),
        Err(e) => Err(e),
    }
}

/// Whether `r` is a response that is sent at once.
pub open spec fn at_once(r: Result<DelayedView, HandlerError>) -> bool {
    r matches Ok(d) ==> d.seconds == 0
}

/// The response that serves the index document.
pub open spec fn index_response(assets: Map<Seq<char>, Seq<u8>>) -> ResponseView {
    if assets.contains_key("index.html"@) {
        respond(STATUS_OK).body_octet_stream(assets["index.html"@]).content_type(
            Mime::TextHtmlUtf8,
        )
    } else {
        not_found_fixture()
    }
}

/// The response that serves the description of the interface.
pub open spec fn swagger_response(api_doc: Seq<char>) -> ResponseView {
    respond(STATUS_OK).content_type(Mime::ApplicationJson).body_text(api_doc)
}

/// Whether `r` is what the handler of `endpoint` may return for `req`:
/// the contract of that handler.
pub open spec fn endpoint_outcome(
    endpoint: Endpoint,
    assets: Map<Seq<char>, Seq<u8>>,
    api_doc: Seq<char>,
    req: RequestView,
    r: Result<DelayedView, HandlerError>,
) -> bool {
    let now = undelayed(r);
    match endpoint {
        Endpoint::Index => at_once(r) && now == Ok::<ResponseView, HandlerError>(
            index_response(assets),
        ),
        Endpoint::Swagger => at_once(r) && now == Ok::<ResponseView, HandlerError>(
            swagger_response(api_doc),
        ),
        Endpoint::Status => at_once(r) && status_spec(req, now),
        Endpoint::Patch | Endpoint::Post | Endpoint::Put => at_once(r) && now == document_reply(
            req_with_body_to_json_model(req),
        ),
        Endpoint::Delete | Endpoint::Get => at_once(r) && now == document_reply(
            req_to_json_model(req),
        ),
        Endpoint::Image => at_once(r) && now == Ok::<ResponseView, HandlerError>(
            image_choice(assets, accepted(req)),
        ),
        Endpoint::ImageJpeg => at_once(r) && now == Ok::<ResponseView, HandlerError>(
            serve_spec(assets, "jpeg.jpeg"@, Mime::ImageJpeg),
        ),
        Endpoint::ImagePng => at_once(r) && now == Ok::<ResponseView, HandlerError>(
            serve_spec(assets, "png.png"@, Mime::ImagePng),
        ),
        Endpoint::ImageSvg => at_once(r) && now == Ok::<ResponseView, HandlerError>(
            serve_spec(assets, "svg.svg"@, Mime::ImageSvg),
        ),
        Endpoint::ImageWebp => at_once(r) && now == Ok::<ResponseView, HandlerError>(
            serve_spec(assets, "webp.webp"@, Mime::ImageWebp),
        ),
        Endpoint::Deflate => at_once(r) && now == deflate_spec(req),
        Endpoint::Brotli => at_once(r) && now == brotli_spec(req),
        Endpoint::Gzip => at_once(r) && gzip_spec(req, now),
        Endpoint::Html => at_once(r) && now == Ok::<ResponseView, HandlerError>(
            serve_spec(assets, "html.html"@, Mime::TextHtml),
        ),
        Endpoint::Json => at_once(r) && now == Ok::<ResponseView, HandlerError>(
            serve_spec(assets, "json.json"@, Mime::ApplicationJson),
        ),
        Endpoint::RobotsTxt => at_once(r) && now == Ok::<ResponseView, HandlerError>(
            serve_spec(assets, "robots.txt"@, Mime::TextPlain),
        ),
        Endpoint::Xml => at_once(r) && now == Ok::<ResponseView, HandlerError>(
            serve_spec(assets, "xml.xml"@, Mime::ApplicationXml),
        ),
        Endpoint::Deny => at_once(r) && now == Ok::<ResponseView, HandlerError>(
            serve_spec(assets, "deny.txt"@, Mime::TextPlain),
        ),
        Endpoint::Utf8 => at_once(r) && now == Ok::<ResponseView, HandlerError>(
            serve_spec(assets, "utf8.txt"@, Mime::TextPlain),
        ),
        Endpoint::UserAgent => at_once(r) && now == document_reply(user_agent_model(req)),
        Endpoint::Ip => at_once(r) && now == document_reply(ip_model(req)),
        Endpoint::BasicAuth => at_once(r) && now == crate::auth::basic_auth_spec(req),
        Endpoint::Bearer => at_once(r) && now == crate::auth::bearer_spec(req),
        Endpoint::Base64 => at_once(r) && now == base64_spec(req),
        Endpoint::Bytes => at_once(r) && bytes_spec(req, now),
        Endpoint::Uuid => at_once(r) && uuid_spec(now),
        Endpoint::DelayGet => r == delayed_echo(req, req_to_json_model(req)),
        Endpoint::DelayPost => r == delayed_echo(req, req_with_body_to_json_model(req)),
        Endpoint::Headers => at_once(r) && now == document_reply(headers_model(req)),
        Endpoint::Etag => at_once(r) && now == etag_spec(req),
        Endpoint::Cache => at_once(r) && now == cache_value_spec(req),
        Endpoint::ResponseHeaders => at_once(r) && now == response_headers_spec(req),
        Endpoint::RelativeRedirect | Endpoint::Redirect => at_once(r) && now
            == crate::redirects::relative_redirect_spec(req),
        Endpoint::AbsoluteRedirect => at_once(r) && now
            == crate::redirects::absolute_redirect_spec(req),
    }
}

/// Whether the handler of `endpoint` takes the body out of `req`: the
/// handlers that read a form do, where the request carries one.
pub open spec fn takes_body(endpoint: Endpoint, req: RequestView) -> bool {
    (endpoint == Endpoint::Post || endpoint == Endpoint::Put || endpoint == Endpoint::Patch
        || endpoint == Endpoint::DelayPost) && is_form_encoded(req)
}

/// The request after the handler of `endpoint` has run.
pub open spec fn request_after(endpoint: Endpoint, req: RequestView) -> RequestView {
    if takes_body(endpoint, req) {
        RequestView { body: Seq::empty(), ..req }
    } else {
        req
    }
}

/// Whatever a handler answers, its status is one that a response can have.
pub proof fn lemma_outcome_has_status(
    endpoint: Endpoint,
    assets: Map<Seq<char>, Seq<u8>>,
    api_doc: Seq<char>,
    req: RequestView,
    r: Result<DelayedView, HandlerError>,
)
    requires
        endpoint_outcome(endpoint, assets, api_doc, req, r),
    ensures
        r matches Ok(d) ==> in_status_range(d.response.status as int),
{
    if r is Ok {
        let resp = r->Ok_0.response;
        match endpoint {
            Endpoint::Status => {
                let groups = crate::pattern::regex_answer(
                    crate::status_codes::STATUS_PATTERN@,
                    req.path,
                );
                match groups {
                    Ok(Some(g)) => {
                        let codes = crate::status_codes::listed_codes(g);
                        let i = choose|i: int|
                            0 <= i < codes.len() && resp == crate::status_codes::status_response(
                                #[trigger] codes[i],
                            );
                        assert(resp.status == crate::status_codes::status_of(codes[i]));
                    },
                    _ => {},
                }
            },
            Endpoint::Uuid => {
                let id = choose|id: Seq<char>|
                    crate::random::is_uuid_v4_text(id) && undelayed(r) == document_reply(
                        #[trigger] crate::dynamic_data::uuid_model(id),
                    );
                assert(resp.status == STATUS_OK);
            },
            _ => {},
        }
    }
}

/// Serves the index document.
pub fn rr_index(assets: &Asset) -> (r: Result<Response, HandlerError>)
    ensures
        r matches Ok(resp) && resp@ == index_response(assets@),
{
    match assets.get("index.html") {
        Some(data) => Ok(
            Response::from_status(STATUS_OK).with_body_octet_stream(data.clone()).with_content_type(
                Mime::TextHtmlUtf8,
            ),
        ),
        None => Ok(
            Response::from_status(STATUS_NOT_FOUND).with_content_type(
                Mime::TextHtmlUtf8,
            ).with_body_str("E_NOTFOUND"),
        ),
    }
}

/// Serves the description of the interface, which the caller supplies.
pub fn rr_swagger(api_doc: &str) -> (r: Result<Response, HandlerError>)
    ensures
        r matches Ok(resp) && resp@ == swagger_response(api_doc@),
{
    Ok(
        Response::from_status(STATUS_OK).with_content_type(Mime::ApplicationJson).with_body_str(
            api_doc,
        ),
    )
}

/// A result that is sent at once.
fn immediately(r: Result<Response, HandlerError>) -> (d: Result<Delayed, HandlerError>)
    ensures
        at_once(delayed_view(d)),
        undelayed(delayed_view(d)) == reply_view(r),
{
    match r {
        Ok(response) => Ok(Delayed { seconds: 0, response }),
        Err(e) => Err(e),
    }
}

/// Runs the handler of `endpoint` on the request.
pub fn dispatch(endpoint: Endpoint, assets: &Asset, api_doc: &str, req: &mut Request) -> (r: Result<
    Delayed,
    HandlerError,
>)
    ensures
        endpoint_outcome(endpoint, assets@, api_doc@, old(req)@, delayed_view(r)),
        final(req)@ == request_after(endpoint, old(req)@),
        r matches Ok(d) ==> in_status_range(d.response.status as int),
{
    let ghost before = req@;
    let r = match endpoint {
        Endpoint::Index => immediately(rr_index(assets)),
        Endpoint::Swagger => immediately(rr_swagger(api_doc)),
        Endpoint::Status => immediately(crate::status_codes::get(req)),
        Endpoint::Patch => immediately(crate::http_methods::patch(req)),
        Endpoint::Post => immediately(crate::http_methods::post(req)),
        Endpoint::Put => immediately(crate::http_methods::put(req)),
        Endpoint::Delete => immediately(crate::http_methods::delete(req)),
        Endpoint::Get => immediately(crate::http_methods::get(req)),
        Endpoint::Image => immediately(crate::images::image(assets, req)),
        Endpoint::ImageJpeg => immediately(crate::images::jpeg(assets, req)),
        Endpoint::ImagePng => immediately(crate::images::png(assets, req)),
        Endpoint::ImageSvg => immediately(crate::images::svg(assets, req)),
        Endpoint::ImageWebp => immediately(crate::images::webp(assets, req)),
        Endpoint::Deflate => immediately(crate::response_formats::deflate(req)),
        Endpoint::Brotli => immediately(crate::response_formats::brotli(req)),
        Endpoint::Gzip => immediately(crate::response_formats::gzip(req)),
        Endpoint::Html => immediately(crate::response_formats::html(assets, req)),
        Endpoint::Json => immediately(crate::response_formats::json(assets, req)),
        Endpoint::RobotsTxt => immediately(crate::response_formats::robots_txt(assets, req)),
        Endpoint::Xml => immediately(crate::response_formats::xml(assets, req)),
        Endpoint::Deny => immediately(crate::response_formats::deny(assets, req)),
        Endpoint::Utf8 => immediately(crate::response_formats::encoding_utf8(assets, req)),
        Endpoint::UserAgent => immediately(crate::request_inspection::user_agent(req)),
        Endpoint::Ip => immediately(crate::request_inspection::ip(req)),
        Endpoint::BasicAuth => immediately(crate::auth::basic_auth(req)),
        Endpoint::Bearer => immediately(crate::auth::bearer(req)),
        Endpoint::Base64 => immediately(crate::dynamic_data::base64(req)),
        Endpoint::Bytes => immediately(crate::dynamic_data::bytes(req)),
        Endpoint::Uuid => immediately(crate::dynamic_data::uuid(req)),
        Endpoint::DelayGet => crate::dynamic_data::delay_get(req),
        Endpoint::DelayPost => crate::dynamic_data::delay_post(req),
        Endpoint::Headers => immediately(crate::request_inspection::headers(req)),
        Endpoint::Etag => immediately(crate::response_inspection::etag(req)),
        Endpoint::Cache => immediately(crate::response_inspection::cache_value(req)),
        Endpoint::ResponseHeaders => immediately(
            crate::response_inspection::response_headers_get(req),
        ),
        Endpoint::RelativeRedirect => immediately(crate::redirects::relative_redirect(req)),
        Endpoint::Redirect => immediately(crate::redirects::redirect(req)),
        Endpoint::AbsoluteRedirect => immediately(crate::redirects::absolute_redirect(req)),
    };
    proof {
        lemma_outcome_has_status(endpoint, assets@, api_doc@, before, delayed_view(r));
    }
    r
}

/// The rules of the service, in the order in which they are tried.
pub open spec fn route_table() -> Seq<RuleView> {
    seq![
        (RuleView { method: Method::Get, pattern: r"^/(index(\.html)?)?$"@, endpoint: Endpoint::Index }),
        (RuleView { method: Method::Get, pattern: r"/swagger\.json$"@, endpoint: Endpoint::Swagger }),
        (RuleView { method: Method::Get, pattern: r"^/status/((\d{3},?)+)$"@, endpoint: Endpoint::Status }),
        (RuleView { method: Method::Post, pattern: r"^/status/((\d{3},?)+)$"@, endpoint: Endpoint::Status }),
        (RuleView { method: Method::Put, pattern: r"^/status/((\d{3},?)+)$"@, endpoint: Endpoint::Status }),
        (RuleView { method: Method::Patch, pattern: r"^/status/((\d{3},?)+)$"@, endpoint: Endpoint::Status }),
        (RuleView { method: Method::Delete, pattern: r"^/status/((\d{3},?)+)$"@, endpoint: Endpoint::Status }),
        (RuleView { method: Method::Patch, pattern: r"^/patch$"@, endpoint: Endpoint::Patch }),
        (RuleView { method: Method::Post, pattern: r"^/post$"@, endpoint: Endpoint::Post }),
        (RuleView { method: Method::Put, pattern: r"^/put$"@, endpoint: Endpoint::Put }),
        (RuleView { method: Method::Get, pattern: r"^/delete$"@, endpoint: Endpoint::Delete }),
        (RuleView { method: Method::Get, pattern: r"^/get$"@, endpoint: Endpoint::Get }),
        (RuleView { method: Method::Get, pattern: r"^/image$"@, endpoint: Endpoint::Image }),
        (RuleView { method: Method::Get, pattern: r"^/image/jpeg$"@, endpoint: Endpoint::ImageJpeg }),
        (RuleView { method: Method::Get, pattern: r"^/image/png$"@, endpoint: Endpoint::ImagePng }),
        (RuleView { method: Method::Get, pattern: r"^/image/svg$"@, endpoint: Endpoint::ImageSvg }),
        (RuleView { method: Method::Get, pattern: r"^/image/webp$"@, endpoint: Endpoint::ImageWebp }),
        (RuleView { method: Method::Get, pattern: r"^/deflate$"@, endpoint: Endpoint::Deflate }),
        (RuleView { method: Method::Get, pattern: r"^/brotli$"@, endpoint: Endpoint::Brotli }),
        (RuleView { method: Method::Get, pattern: r"^/gzip$"@, endpoint: Endpoint::Gzip }),
        (RuleView { method: Method::Get, pattern: r"^/html$"@, endpoint: Endpoint::Html }),
        (RuleView { method: Method::Get, pattern: r"^/json$"@, endpoint: Endpoint::Json }),
        (RuleView { method: Method::Get, pattern: r"^/robots\.txt$"@, endpoint: Endpoint::RobotsTxt }),
        (RuleView { method: Method::Get, pattern: r"^/xml$"@, endpoint: Endpoint::Xml }),
        (RuleView { method: Method::Get, pattern: r"^/deny$"@, endpoint: Endpoint::Deny }),
        (RuleView { method: Method::Get, pattern: r"^/utf8$"@, endpoint: Endpoint::Utf8 }),
        (RuleView { method: Method::Get, pattern: r"^/user-agent$"@, endpoint: Endpoint::UserAgent }),
        (RuleView { method: Method::Get, pattern: r"^/ip$"@, endpoint: Endpoint::Ip }),
        (RuleView { method: Method::Get, pattern: r"^/basic-auth/(\w+)/(\w+)$"@, endpoint: Endpoint::BasicAuth }),
        (RuleView { method: Method::Get, pattern: r"^/bearer$"@, endpoint: Endpoint::Bearer }),
        (RuleView { method: Method::Get, pattern: r"^/base64/([A-Za-z0-9+/=]{1,4096})$"@, endpoint: Endpoint::Base64 }),
        (RuleView { method: Method::Get, pattern: r"^/bytes/(\d{1,5})$"@, endpoint: Endpoint::Bytes }),
        (RuleView { method: Method::Get, pattern: r"^/uuid$"@, endpoint: Endpoint::Uuid }),
        (RuleView { method: Method::Get, pattern: r"^/delay/(\d{1,2})$"@, endpoint: Endpoint::DelayGet }),
        (RuleView { method: Method::Post, pattern: r"^/delay/(\d{1,2})$"@, endpoint: Endpoint::DelayPost }),
        (RuleView { method: Method::Get, pattern: r"^/headers$"@, endpoint: Endpoint::Headers }),
        (RuleView { method: Method::Get, pattern: r"^/etag/(\w+)$"@, endpoint: Endpoint::Etag }),
        (RuleView { method: Method::Get, pattern: r"^/cache/(\d{1,2})$"@, endpoint: Endpoint::Cache }),
        (RuleView { method: Method::Get, pattern: r"^/response-headers$"@, endpoint: Endpoint::ResponseHeaders }),
        (RuleView { method: Method::Post, pattern: r"^/response-headers$"@, endpoint: Endpoint::ResponseHeaders }),
        (RuleView { method: Method::Get, pattern: r"^/relative-redirect/(\d{1})$"@, endpoint: Endpoint::RelativeRedirect }),
        (RuleView { method: Method::Get, pattern: r"^/redirect/(\d{1})$"@, endpoint: Endpoint::Redirect }),
        (RuleView { method: Method::Get, pattern: r"^/absolute-redirect/(\d{1})$"@, endpoint: Endpoint::AbsoluteRedirect }),
    ]
}

/// A rule.
pub fn rule(method: Method, pattern: &str, endpoint: Endpoint) -> (r: RouteRule)
    ensures
        r@ == (RuleView { method, pattern: pattern@, endpoint }),
{
    RouteRule { method, pattern: String::from_str(pattern), endpoint }
}

/// The rules of the service, in the order in which they are tried.
pub fn routes() -> (r: Vec<RouteRule>)
    ensures
        rules_view(r@) == route_table(),
{
    let mut rules: Vec<RouteRule> = Vec::new();
    rules.push(rule(Method::Get, r"^/(index(\.html)?)?$", Endpoint::Index));
    rules.push(rule(Method::Get, r"/swagger\.json$", Endpoint::Swagger));
    rules.push(rule(Method::Get, r"^/status/((\d{3},?)+)$", Endpoint::Status));
    rules.push(rule(Method::Post, r"^/status/((\d{3},?)+)$", Endpoint::Status));
    rules.push(rule(Method::Put, r"^/status/((\d{3},?)+)$", Endpoint::Status));
    rules.push(rule(Method::Patch, r"^/status/((\d{3},?)+)$", Endpoint::Status));
    rules.push(rule(Method::Delete, r"^/status/((\d{3},?)+)$", Endpoint::Status));
    rules.push(rule(Method::Patch, r"^/patch$", Endpoint::Patch));
    rules.push(rule(Method::Post, r"^/post$", Endpoint::Post));
    rules.push(rule(Method::Put, r"^/put$", Endpoint::Put));
    rules.push(rule(Method::Get, r"^/delete$", Endpoint::Delete));
    rules.push(rule(Method::Get, r"^/get$", Endpoint::Get));
    rules.push(rule(Method::Get, r"^/image$", Endpoint::Image));
    rules.push(rule(Method::Get, r"^/image/jpeg$", Endpoint::ImageJpeg));
    rules.push(rule(Method::Get, r"^/image/png$", Endpoint::ImagePng));
    rules.push(rule(Method::Get, r"^/image/svg$", Endpoint::ImageSvg));
    rules.push(rule(Method::Get, r"^/image/webp$", Endpoint::ImageWebp));
    rules.push(rule(Method::Get, r"^/deflate$", Endpoint::Deflate));
    rules.push(rule(Method::Get, r"^/brotli$", Endpoint::Brotli));
    rules.push(rule(Method::Get, r"^/gzip$", Endpoint::Gzip));
    rules.push(rule(Method::Get, r"^/html$", Endpoint::Html));
    rules.push(rule(Method::Get, r"^/json$", Endpoint::Json));
    rules.push(rule(Method::Get, r"^/robots\.txt$", Endpoint::RobotsTxt));
    rules.push(rule(Method::Get, r"^/xml$", Endpoint::Xml));
    rules.push(rule(Method::Get, r"^/deny$", Endpoint::Deny));
    rules.push(rule(Method::Get, r"^/utf8$", Endpoint::Utf8));
    rules.push(rule(Method::Get, r"^/user-agent$", Endpoint::UserAgent));
    rules.push(rule(Method::Get, r"^/ip$", Endpoint::Ip));
    rules.push(rule(Method::Get, r"^/basic-auth/(\w+)/(\w+)$", Endpoint::BasicAuth));
    rules.push(rule(Method::Get, r"^/bearer$", Endpoint::Bearer));
    rules.push(rule(Method::Get, r"^/base64/([A-Za-z0-9+/=]{1,4096})$", Endpoint::Base64));
    rules.push(rule(Method::Get, r"^/bytes/(\d{1,5})$", Endpoint::Bytes));
    rules.push(rule(Method::Get, r"^/uuid$", Endpoint::Uuid));
    rules.push(rule(Method::Get, r"^/delay/(\d{1,2})$", Endpoint::DelayGet));
    rules.push(rule(Method::Post, r"^/delay/(\d{1,2})$", Endpoint::DelayPost));
    rules.push(rule(Method::Get, r"^/headers$", Endpoint::Headers));
    rules.push(rule(Method::Get, r"^/etag/(\w+)$", Endpoint::Etag));
    rules.push(rule(Method::Get, r"^/cache/(\d{1,2})$", Endpoint::Cache));
    rules.push(rule(Method::Get, r"^/response-headers$", Endpoint::ResponseHeaders));
    rules.push(rule(Method::Post, r"^/response-headers$", Endpoint::ResponseHeaders));
    rules.push(rule(Method::Get, r"^/relative-redirect/(\d{1})$", Endpoint::RelativeRedirect));
    rules.push(rule(Method::Get, r"^/redirect/(\d{1})$", Endpoint::Redirect));
    rules.push(rule(Method::Get, r"^/absolute-redirect/(\d{1})$", Endpoint::AbsoluteRedirect));
    assert(rules_view(rules@) =~= route_table());
    rules
}

/// Whether the rule is for the method of the request and its pattern
/// matches the path of the request.
pub open spec fn rule_matches(rule: RuleView, req: RequestView) -> bool {
    rule.method == req.method && regex_groups(rule.pattern, req.path) is Some
}

/// The index of the first rule that matches the request, or the number of
/// rules where none does.
pub open spec fn first_match(rules: Seq<RuleView>, req: RequestView) -> int
    decreases rules.len(),
{
    if rules.len() == 0 {
        0
    } else if rule_matches(rules[0], req) {
        0
    } else {
        1 + first_match(rules.drop_first(), req)
    }
}

/// Whether the pattern engine accepts the pattern of every rule.
pub open spec fn all_compile(rules: Seq<RuleView>) -> bool {
    forall|i: int| 0 <= i < rules.len() ==> regex_compiles((#[trigger] rules[i]).pattern)
}

/// The response to a request that no rule matches: 404, declared as HTML.
pub open spec fn no_route() -> DelayedView {
    DelayedView { seconds: 0, response: respond(STATUS_NOT_FOUND).content_type(Mime::TextHtmlUtf8) }
}

/// `first_match` is the least index of a rule that matches, and the number
/// of rules if none does.
pub proof fn lemma_first_match_is(rules: Seq<RuleView>, req: RequestView, k: int)
    requires
        0 <= k <= rules.len(),
        forall|i: int| 0 <= i < k ==> !rule_matches(#[trigger] rules[i], req),
        k < rules.len() ==> rule_matches(rules[k], req),
    ensures
        first_match(rules, req) == k,
    decreases rules.len(),
{
    if k > 0 {
        let t = rules.drop_first();
        assert(!rule_matches(rules[0], req));
        assert forall|i: int| 0 <= i < k - 1 implies !rule_matches(#[trigger] t[i], req) by {
            assert(t[i] == rules[i + 1]);
        }
        if k < rules.len() {
            assert(t[k - 1] == rules[k]);
        }
        lemma_first_match_is(t, req, k - 1);
    }
}

/// Whether `r` is what routing `req` over `rules` may return: a failure
/// where a pattern is not accepted; else the outcome of the handler of the
/// first rule that matches, and 404 where no rule matches.
pub open spec fn route_outcome(
    rules: Seq<RuleView>,
    assets: Map<Seq<char>, Seq<u8>>,
    api_doc: Seq<char>,
    req: RequestView,
    r: Result<DelayedView, HandlerError>,
) -> bool {
    if !all_compile(rules) {
        r == Err::<DelayedView, HandlerError>(HandlerError::Pattern)
    } else if first_match(rules, req) < rules.len() {
        endpoint_outcome(rules[first_match(rules, req)].endpoint, assets, api_doc, req, r)
    } else {
        r == Ok::<DelayedView, HandlerError>(no_route())
    }
}

/// The request after it was routed over `rules`.
pub open spec fn request_routed(rules: Seq<RuleView>, req: RequestView) -> RequestView {
    if all_compile(rules) && first_match(rules, req) < rules.len() {
        request_after(rules[first_match(rules, req)].endpoint, req)
    } else {
        req
    }
}

/// Routes the request: the rules are tried in order, and the handler of the
/// first rule whose method and pattern match answers, alone. Every pattern
/// is held to the engine before any handler runs, so that a pattern that is
/// not accepted fails the routing whatever the request.
pub fn route(rules: &Vec<RouteRule>, assets: &Asset, api_doc: &str, req: &mut Request) -> (r: Result<
    Delayed,
    HandlerError,
>)
    ensures
        route_outcome(rules_view(rules@), assets@, api_doc@, old(req)@, delayed_view(r)),
        final(req)@ == request_routed(rules_view(rules@), old(req)@),
        r matches Ok(d) ==> in_status_range(d.response.status as int),
{
    let ghost all = rules_view(rules@);
    let n: usize = rules.len();
    let mut chosen: Option<usize> = None;
    let mut i: usize = 0;
    while i < n
        invariant
            n == rules@.len(),
            i <= n,
            all == rules_view(rules@),
            *req == *old(req),
            forall|k: int| 0 <= k < i ==> regex_compiles((#[trigger] all[k]).pattern),
            match chosen {
                Some(c) => c < i && rule_matches(all[c as int], req@) && forall|k: int|
                    0 <= k < c ==> !rule_matches(#[trigger] all[k], req@),
                None => forall|k: int| 0 <= k < i ==> !rule_matches(#[trigger] all[k], req@),
            },
        decreases n - i,
    {
        let found = match captures(rules[i].pattern.as_str(), req.path.as_str()) {
            Ok(found) => found,
            Err(e) => {
                assert(!regex_compiles(all[i as int].pattern));
                return Err(e);
            },
        };
        if chosen.is_none() && found.is_some() && rules[i].method == req.method {
            chosen = Some(i);
        }
        i += 1;
    }
    match chosen {
        Some(c) => {
            proof {
                lemma_first_match_is(all, req@, c as int);
            }
            dispatch(rules[c].endpoint, assets, api_doc, req)
        },
        None => {
            proof {
                lemma_first_match_is(all, req@, n as int);
            }
            Ok(
                Delayed {
                    seconds: 0,
                    response: Response::from_status(STATUS_NOT_FOUND).with_content_type(
                        Mime::TextHtmlUtf8,
                    ),
                },
            )
        },
    }
}

/// The path under which the pages of the documentation are looked up: the
/// three names of the index stand for `/index.html`.
pub open spec fn docs_path(path: Seq<char>) -> Seq<char> {
    if path == "/"@ || path == "/index"@ || path == "/index.html"@ {
        "/index.html"@
    } else {
        path
    }
}

/// The name of the page of the documentation for a path.
pub open spec fn docs_name(path: Seq<char>) -> Seq<char> {
    "swagger-ui"@ + docs_path(path)
}

/// The response with the two headers that open it to every origin.
pub open spec fn with_cors(resp: ResponseView) -> ResponseView {
    resp.header("access-control-allow-origin"@, "*"@).header(
        "access-control-allow-credentials"@,
        "true"@,
    )
}

/// A response that was opened to every origin carries the two headers,
/// and keeps its status, its body and the headers it had.
pub proof fn lemma_cors_is_carried(resp: ResponseView)
    ensures
        with_cors(resp).headers.contains(("access-control-allow-origin"@, "*"@)),
        with_cors(resp).headers.contains(("access-control-allow-credentials"@, "true"@)),
        with_cors(resp).status == resp.status,
        with_cors(resp).body == resp.body,
        resp.headers.is_prefix_of(with_cors(resp).headers),
{
    let all = with_cors(resp).headers;
    let n = resp.headers.len() as int;
    assert(all[n] == ("access-control-allow-origin"@, "*"@));
    assert(all[n + 1] == ("access-control-allow-credentials"@, "true"@));
    assert(all.subrange(0, n) =~= resp.headers);
}

/// A result with its response opened to every origin.
pub open spec fn open_to_all(r: Result<DelayedView, HandlerError>) -> Result<
    DelayedView,
    HandlerError,
> {
    match r {
        Ok(d) => Ok(DelayedView { seconds: d.seconds, response: with_cors(d.response) }),
        Err(e) => Err(e),
    }
}

/// Whether `r` is what the service may answer to `req`: the page of the
/// documentation where the table of fixtures holds one for the path, before
/// any rule is tried; else what the rules of the service answer, opened to
/// every origin.
pub open spec fn handle_outcome(
    assets: Map<Seq<char>, Seq<u8>>,
    api_doc: Seq<char>,
    req: RequestView,
    r: Result<DelayedView, HandlerError>,
) -> bool {
    if assets.contains_key(docs_name(req.path)) {
        r == Ok::<DelayedView, HandlerError>(
            DelayedView {
                seconds: 0,
                response: respond(STATUS_OK).body_octet_stream(
                    assets[docs_name(req.path)],
                ).content_type(
                    file_mimetype_spec(docs_path(req.path), Mime::ApplicationOctetStream),
                ),
            },
        )
    } else {
        exists|routed: Result<DelayedView, HandlerError>|
            route_outcome(route_table(), assets, api_doc, req, routed) && r == #[trigger] open_to_all(
                routed,
            )
    }
}

/// The request after the service has answered it.
pub open spec fn request_handled(assets: Map<Seq<char>, Seq<u8>>, req: RequestView) -> RequestView {
    if assets.contains_key(docs_name(req.path)) {
        req
    } else {
        request_routed(route_table(), req)
    }
}

/// Answers a request: the entry point of the service.
pub fn handle(assets: &Asset, api_doc: &str, req: &mut Request) -> (r: Result<Delayed, HandlerError>)
    ensures
        handle_outcome(assets@, api_doc@, old(req)@, delayed_view(r)),
        final(req)@ == request_handled(assets@, old(req)@),
        r matches Ok(d) ==> in_status_range(d.response.status as int),
{
    let path = req.path.as_str();
    let page = if str_eq(path, "/") || str_eq(path, "/index") || str_eq(path, "/index.html") {
        String::from_str("/index.html")
    } else {
        req.path.clone()
    };
    let name = joined("swagger-ui", page.as_str());
    if let Some(data) = assets.get(name.as_str()) {
        return Ok(
            Delayed {
                seconds: 0,
                response: Response::from_status(STATUS_OK).with_body_octet_stream(
                    data.clone(),
                ).with_content_type(file_mimetype(page.as_str(), Mime::ApplicationOctetStream)),
            },
        );
    }
    let rules = routes();
    let routed = route(&rules, assets, api_doc, req);
    let ghost before = delayed_view(routed);
    let r = match routed {
        Ok(d) => Ok(
            Delayed {
                seconds: d.seconds,
                response: d.response.with_header("access-control-allow-origin", "*").with_header(
                    "access-control-allow-credentials",
                    "true",
                ),
            },
        ),
        Err(e) => Err(e),
    };
    assert(delayed_view(r) == open_to_all(before));
    r
}

} // verus!
