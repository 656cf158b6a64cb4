//! Handlers that answer with the status code that the path asks for.

use vstd::prelude::*;
use crate::http::{
    reply_view, respond, HandlerError, Mime, Request, RequestView, Response, ResponseView,
    STATUS_NOT_FOUND,
};
use crate::number::{all_digits, digits_value, parse_u16, parse_unsigned};
use crate::pattern::{captures, get_group, group, groups_of, regex_answer, Groups};
use crate::random::pick_one;
use crate::text::{lemma_position_is, split, split_spec, strings_view};

verus! {

/// The pattern of `/status/{codes}`: codes of three digits, with commas
/// between them.
pub const STATUS_PATTERN: &'static str = r"/status/((\d{3},?)+)$";

/// Whether `n` has the form of a status: a number of three digits from 100
/// on.
pub open spec fn in_status_range(n: int) -> bool {
    100 <= n <= 999
}

/// Whether `n` is a registered status code.
pub open spec fn is_registered(n: int) -> bool {
    ||| 100 <= n <= 103
    ||| 200 <= n <= 208
    ||| n == 226
    ||| 300 <= n <= 305
    ||| n == 307
    ||| n == 308
    ||| 400 <= n <= 418
    ||| 421 <= n <= 426
    ||| n == 428
    ||| n == 429
    ||| n == 431
    ||| n == 451
    ||| 500 <= n <= 508
    ||| n == 510
    ||| n == 511
}

/// Whether `n` is a registered status code.
pub fn is_registered_status(n: u16) -> (r: bool)
    ensures
        r == is_registered(n as int),
{
    (100 <= n && n <= 103) || (200 <= n && n <= 208) || n == 226 || (300 <= n && n <= 305) || n
        == 307 || n == 308 || (400 <= n && n <= 418) || (421 <= n && n <= 426) || n == 428 || n
        == 429 || n == 431 || n == 451 || (500 <= n && n <= 508) || n == 510 || n == 511
}

/// The status that the text of a code asks for: its number where that is a
/// registered status, else 404.
pub open spec fn status_of(code: Seq<char>) -> u16 {
    match parse_unsigned(code, u16::MAX as int) {
        Some(n) => if is_registered(n) {
            n as u16
        } else {
            STATUS_NOT_FOUND
        },
        None => STATUS_NOT_FOUND,
    }
}

/// The response with the status that a code asks for, and no body.
pub open spec fn status_response(code: Seq<char>) -> ResponseView {
    respond(status_of(code)).content_type(Mime::TextHtmlUtf8)
}

/// The codes that a match lists: its first group cut at each comma, and the
/// one code `404` where that group took no part.
pub open spec fn listed_codes(groups: Seq<Option<Seq<char>>>) -> Seq<Seq<char>> {
    match group(groups, 1) {
        Some(codes) => split_spec(codes, ','),
        None => split_spec("404"@, ','),
    }
}

/// Whether `resp` is the response of one of the codes.
pub open spec fn answers_one_of(codes: Seq<Seq<char>>, resp: ResponseView) -> bool {
    exists|i: int| 0 <= i < codes.len() && resp == status_response(#[trigger] codes[i])
}

/// Whether `r` is what the status handlers may return: for a path that
/// lists codes, the response of one of them; 404 for any other path.
pub open spec fn status_spec(req: RequestView, r: Result<ResponseView, HandlerError>) -> bool {
    match regex_answer(STATUS_PATTERN@, req.path) {
        Ok(Some(groups)) => r matches Ok(resp) && answers_one_of(listed_codes(groups), resp),
        Ok(None) => r == Ok::<ResponseView, HandlerError>(
            respond(STATUS_NOT_FOUND).content_type(Mime::TextHtmlUtf8),
        ),
        Err(e) => r == Err::<ResponseView, HandlerError>(e),
    }
}

/// The response with the status that a code asks for.
pub fn respond_with(code: &str) -> (r: Response)
    ensures
        r@ == status_response(code@),
{
    let status: u16 = match parse_u16(code) {
        Some(n) => if is_registered_status(n) {
            n
        } else {
            STATUS_NOT_FOUND
        },
        None => STATUS_NOT_FOUND,
    };
    Response::from_status(status).with_content_type(Mime::TextHtmlUtf8)
}

/// The response of one of the listed codes, picked at random; 404 where
/// nothing is listed.
pub fn respond_with_one_of(codes: &Vec<String>) -> (r: Response)
    ensures
        codes@.len() > 0 ==> answers_one_of(strings_view(codes@), r@),
        codes@.len() == 0 ==> r@ == respond(STATUS_NOT_FOUND).content_type(Mime::TextHtmlUtf8),
{
    match pick_one(codes) {
        Some(code) => {
            let r = respond_with(code.as_str());
            proof {
                let i = choose|i: int| 0 <= i < codes@.len() && codes@[i] == *code;
                assert(strings_view(codes@)[i] == code@);
            }
            r
        },
        None => Response::from_status(STATUS_NOT_FOUND).with_content_type(Mime::TextHtmlUtf8),
    }
}

/// The response of one of the codes that a match lists.
fn respond_with_listed(groups: &Groups) -> (r: Response)
    ensures
        answers_one_of(listed_codes(groups_of(groups@)), r@),
{
    let codes = match get_group(groups, 1) {
        Some(text) => split(text.as_str(), ','),
        None => split("404", ','),
    };
    respond_with_one_of(&codes)
}

/// The status handler that the five methods share.
fn rr_http_statuses(req: &Request) -> (r: Result<Response, HandlerError>)
    ensures
        status_spec(req@, reply_view(r)),
{
    match captures(STATUS_PATTERN, req.path.as_str()) {
        Ok(Some(groups)) => Ok(respond_with_listed(&groups)),
        Ok(None) => Ok(
            Response::from_status(STATUS_NOT_FOUND).with_content_type(Mime::TextHtmlUtf8),
        ),
        Err(e) => Err(e),
    }
}

/// Answers a GET with one of the status codes in the path.
pub fn get(req: &Request) -> (r: Result<Response, HandlerError>)
    ensures
        status_spec(req@, reply_view(r)),
{
    rr_http_statuses(req)
}

/// Answers a POST with one of the status codes in the path.
pub fn post(req: &mut Request) -> (r: Result<Response, HandlerError>)
    ensures
        status_spec(old(req)@, reply_view(r)),
        *final(req) == *old(req),
{
    rr_http_statuses(req)
}

/// Answers a PUT with one of the status codes in the path.
pub fn put(req: &mut Request) -> (r: Result<Response, HandlerError>)
    ensures
        status_spec(old(req)@, reply_view(r)),
        *final(req) == *old(req),
{
    rr_http_statuses(req)
}

/// Answers a PATCH with one of the status codes in the path.
pub fn patch(req: &mut Request) -> (r: Result<Response, HandlerError>)
    ensures
        status_spec(old(req)@, reply_view(r)),
        *final(req) == *old(req),
{
    rr_http_statuses(req)
}

/// Answers a DELETE with one of the status codes in the path.
pub fn delete(req: &Request) -> (r: Result<Response, HandlerError>)
    ensures
        status_spec(req@, reply_view(r)),
{
    rr_http_statuses(req)
}

/// Whether `code` writes a registered status in three digits.
pub open spec fn is_registered_code(code: Seq<char>) -> bool {
    code.len() == 3 && all_digits(code) && is_registered(digits_value(code))
}

/// A code that writes a registered status in three digits asks for that
/// status.
pub proof fn lemma_registered_code(code: Seq<char>)
    requires
        is_registered_code(code),
    ensures
        status_of(code) == digits_value(code),
{
    assert(crate::number::is_digit(code[0]));
    crate::number::lemma_digits_value_nonnegative(code);
}

/// A list that is one code of three digits is cut into that code alone.
pub proof fn lemma_single_code_is_listed(code: Seq<char>)
    requires
        code.len() == 3,
        all_digits(code),
    ensures
        split_spec(code, ',') == seq![code],
{
    assert forall|i: int| 0 <= i < code.len() implies code[i] != ',' by {
        assert(crate::number::is_digit(code[i]));
    }
    lemma_position_is(code, ',', code.len() as int);
    assert(split_spec(code, ',') =~= seq![code]);
}

/// A request whose path the engine reads as the one code `c`, a registered
/// status written in three digits, is answered with the status `c`, declared
/// as HTML, and no body, whatever the method and whatever is picked.
pub proof fn lemma_single_code(
    req: RequestView,
    code: Seq<char>,
    r: Result<ResponseView, HandlerError>,
)
    requires
        regex_answer(STATUS_PATTERN@, req.path) matches Ok(Some(groups)) && group(groups, 1)
            == Some(code),
        is_registered_code(code),
        status_spec(req, r),
    ensures
        r matches Ok(resp) && resp == respond(digits_value(code) as u16).content_type(
            Mime::TextHtmlUtf8,
        ),
        r matches Ok(resp) && resp.status == digits_value(code) && resp.body.len() == 0,
{
    lemma_single_code_is_listed(code);
    lemma_registered_code(code);
}

/// A request whose path the engine reads as a list of codes, each a
/// registered status written in three digits, is answered with the status
/// of one of the listed codes, never another and never 404 unless listed,
/// and no body.
pub proof fn lemma_status_is_listed(
    req: RequestView,
    codes: Seq<char>,
    r: Result<ResponseView, HandlerError>,
)
    requires
        regex_answer(STATUS_PATTERN@, req.path) matches Ok(Some(groups)) && group(groups, 1)
            == Some(codes),
        forall|i: int|
            0 <= i < split_spec(codes, ',').len() ==> is_registered_code(
                #[trigger] split_spec(codes, ',')[i],
            ),
        status_spec(req, r),
    ensures
        r matches Ok(resp) && resp.body.len() == 0 && exists|i: int|
            0 <= i < split_spec(codes, ',').len() && resp.status == digits_value(
                #[trigger] split_spec(codes, ',')[i],
            ),
{
    let listed = split_spec(codes, ',');
    let resp = r->Ok_0;
    let i = choose|i: int| 0 <= i < listed.len() && resp == status_response(#[trigger] listed[i]);
    lemma_registered_code(listed[i]);
    assert(resp.status == digits_value(listed[i]));
}

/// The response for the code that was drawn from a list is that of the
/// code: with the status of the code where it is registered.
pub proof fn lemma_drawn_code(codes: Seq<Seq<char>>, i: int)
    requires
        0 <= i < codes.len(),
        is_registered_code(codes[i]),
    ensures
        status_response(codes[i]).status == digits_value(codes[i]),
        status_response(codes[i]).body.len() == 0,
        answers_one_of(codes, status_response(codes[i])),
{
    lemma_registered_code(codes[i]);
}

} // verus!
