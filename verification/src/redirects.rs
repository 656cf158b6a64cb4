//! Handlers that redirect a counted number of times.

use vstd::prelude::*;
use vstd::string::*;
use crate::http::{
    reply_view, respond, HandlerError, Mime, Request, RequestView, Response, ResponseView,
    STATUS_FOUND, STATUS_NOT_FOUND,
};
use crate::number::{
    decimal, decimal_text, digit_char, digits_value, is_digit, number_or, parse_u16,
    parse_unsigned,
};
use crate::pattern::{captures, get_group, group, regex_answer};
use crate::text::{joined, option_view};

verus! {

/// The pattern of `/absolute-redirect/{n}`: one digit.
pub const ABSOLUTE_PATTERN: &'static str = r"/absolute-redirect/(\d{1})$";

/// The pattern of `/relative-redirect/{n}` and `/redirect/{n}`: one digit.
pub const RELATIVE_PATTERN: &'static str = r"/(?:relative-)?redirect/(\d{1})$";

/// The count that the digit of a path writes, and 404 where it writes none.
pub open spec fn redirect_count(digits: Option<Seq<char>>) -> int {
    number_or(digits, u16::MAX as int, 404)
}

/// The count that the digit of a path writes.
pub fn count_of(digits: &Option<String>) -> (r: u16)
    ensures
        r == redirect_count(option_view(*digits)),
{
    match digits {
        Some(d) => match parse_u16(d.as_str()) {
            Some(n) => n,
            None => 404,
        },
        None => 404,
    }
}

/// Where the count `n` leads, within the family under `prefix`: to the
/// count below it, and to `/get` from the count 1.
pub open spec fn next_path(prefix: Seq<char>, n: int) -> Seq<char> {
    if n > 1 {
        prefix + decimal((n - 1) as nat)
    } else {
        "/get"@
    }
}

/// Where the count `n` leads, within the family under `prefix`.
pub fn next_step(prefix: &str, n: u16) -> (r: String)
    ensures
        r@ == next_path(prefix@, n as int),
{
    if n > 1 {
        let below = decimal_text((n - 1) as u64);
        joined(prefix, below.as_str())
    } else {
        String::from_str("/get")
    }
}

/// The response that redirects to `location`: 302.
pub open spec fn redirect_to(location: Seq<char>) -> ResponseView {
    respond(STATUS_FOUND).header("location"@, location).content_type(Mime::TextHtmlUtf8)
}

/// The response where the path holds no count: 404.
pub open spec fn no_redirect() -> ResponseView {
    respond(STATUS_NOT_FOUND).content_type(Mime::TextHtmlUtf8)
}

/// The response that redirects to `location`.
pub fn found(location: &str) -> (r: Response)
    ensures
        r@ == redirect_to(location@),
{
    Response::from_status(STATUS_FOUND).with_header("location", location).with_content_type(
        Mime::TextHtmlUtf8,
    )
}

/// The address that an absolute redirect starts from: the scheme and host
/// of the request.
pub open spec fn origin_of(req: RequestView) -> Seq<char> {
    req.scheme + "://"@ + req.host
}

/// What `absolute_redirect` returns: 302 to the next step, as an absolute
/// address on the scheme and host of the request.
pub open spec fn absolute_redirect_spec(req: RequestView) -> Result<ResponseView, HandlerError> {
    match regex_answer(ABSOLUTE_PATTERN@, req.path) {
        Ok(Some(groups)) => Ok(
            redirect_to(
                origin_of(req) + next_path(
                    "/absolute-redirect/"@,
                    redirect_count(group(groups, 1)),
                ),
            ),
        ),
        Ok(None) => Ok(no_redirect()),
        Err(e) => Err(e),
    }
}

/// Redirects to the next lower count by an absolute address.
pub fn absolute_redirect(req: &Request) -> (r: Result<Response, HandlerError>)
    ensures
        reply_view(r) == absolute_redirect_spec(req@),
{
    let found_groups = captures(ABSOLUTE_PATTERN, req.path.as_str())?;
    match found_groups {
        Some(groups) => {
            let n = count_of(&get_group(&groups, 1));
            let origin = joined(req.scheme.as_str(), "://").concat(req.host.as_str());
            let step = next_step("/absolute-redirect/", n);
            let location = origin.concat(step.as_str());
            Ok(found(location.as_str()))
        },
        None => Ok(Response::from_status(STATUS_NOT_FOUND).with_content_type(Mime::TextHtmlUtf8)),
    }
}

/// What `relative_redirect` returns: 302 to the next step, as a path.
pub open spec fn relative_redirect_spec(req: RequestView) -> Result<ResponseView, HandlerError> {
    match regex_answer(RELATIVE_PATTERN@, req.path) {
        Ok(Some(groups)) => Ok(
            redirect_to(next_path("/relative-redirect/"@, redirect_count(group(groups, 1)))),
        ),
        Ok(None) => Ok(no_redirect()),
        Err(e) => Err(e),
    }
}

/// Redirects to the next lower count by a path.
pub fn relative_redirect(req: &Request) -> (r: Result<Response, HandlerError>)
    ensures
        reply_view(r) == relative_redirect_spec(req@),
{
    let found_groups = captures(RELATIVE_PATTERN, req.path.as_str())?;
    match found_groups {
        Some(groups) => {
            let n = count_of(&get_group(&groups, 1));
            let location = next_step("/relative-redirect/", n);
            Ok(found(location.as_str()))
        },
        None => Ok(Response::from_status(STATUS_NOT_FOUND).with_content_type(Mime::TextHtmlUtf8)),
    }
}

/// Redirects as `relative_redirect` does.
pub fn redirect(req: &Request) -> (r: Result<Response, HandlerError>)
    ensures
        reply_view(r) == relative_redirect_spec(req@),
{
    relative_redirect(req)
}

/// The digit of a count `n` from 0 to 9 writes `n`, and from there the next
/// step leads, for `n` above 1, to the same family at `n - 1`, and else to
/// `/get`.
pub proof fn lemma_redirect_steps_down(prefix: Seq<char>, n: int)
    requires
        0 <= n <= 9,
    ensures
        redirect_count(Some(seq![digit_char(n)])) == n,
        next_path(prefix, redirect_count(Some(seq![digit_char(n)]))) == if n > 1 {
            prefix + seq![digit_char(n - 1)]
        } else {
            "/get"@
        },
{
    let d = seq![digit_char(n)];
    assert(d.drop_last() =~= Seq::<char>::empty());
    assert(digits_value(d.drop_last()) == 0);
    assert(digits_value(d) == n);
    assert(is_digit(d[0]));
    assert(parse_unsigned(d, u16::MAX as int) == Some(n));
}

/// A request whose path the engine reads as the single digit of `n` is
/// answered 302 by `relative_redirect` and `redirect`: for `n` of 2 or more
/// with `Location: /relative-redirect/{n-1}`, a count strictly below the
/// one asked, and else with `Location: /get`.
pub proof fn lemma_relative_redirect(req: RequestView, n: int)
    requires
        0 <= n <= 9,
        regex_answer(RELATIVE_PATTERN@, req.path) matches Ok(Some(groups)) && group(groups, 1)
            == Some(seq![digit_char(n)]),
    ensures
        relative_redirect_spec(req) matches Ok(resp) && resp.status == STATUS_FOUND && resp
            == redirect_to(
            if n >= 2 {
                "/relative-redirect/"@ + seq![digit_char(n - 1)]
            } else {
                "/get"@
            },
        ),
{
    lemma_redirect_steps_down("/relative-redirect/"@, n);
}

/// A request whose path the engine reads as the single digit of `n` is
/// answered 302 by `absolute_redirect`: with the same step as the relative
/// redirect, as an absolute address on the scheme and host of the request.
pub proof fn lemma_absolute_redirect(req: RequestView, n: int)
    requires
        0 <= n <= 9,
        regex_answer(ABSOLUTE_PATTERN@, req.path) matches Ok(Some(groups)) && group(groups, 1)
            == Some(seq![digit_char(n)]),
    ensures
        absolute_redirect_spec(req) matches Ok(resp) && resp.status == STATUS_FOUND && resp
            == redirect_to(
            req.scheme + "://"@ + req.host + if n >= 2 {
                "/absolute-redirect/"@ + seq![digit_char(n - 1)]
            } else {
                "/get"@
            },
        ),
{
    lemma_redirect_steps_down("/absolute-redirect/"@, n);
}

/// A request whose path the engine finds no count in is answered 404 by the
/// redirect handlers, without a `Location`.
pub proof fn lemma_no_redirect(req: RequestView)
    ensures
        regex_answer(RELATIVE_PATTERN@, req.path) == Ok::<
            Option<Seq<Option<Seq<char>>>>,
            HandlerError,
        >(None) ==> relative_redirect_spec(req) == Ok::<ResponseView, HandlerError>(no_redirect()),
        regex_answer(ABSOLUTE_PATTERN@, req.path) == Ok::<
            Option<Seq<Option<Seq<char>>>>,
            HandlerError,
        >(None) ==> absolute_redirect_spec(req) == Ok::<ResponseView, HandlerError>(no_redirect()),
        no_redirect().status == STATUS_NOT_FOUND,
        no_redirect().find("location"@) is None,
{
    reveal_strlit("location");
    reveal_strlit("content-type");
    let headers = no_redirect().headers;
    assert(headers.len() == 1);
    assert(headers[0].0 == "content-type"@);
    assert(crate::text::lower("content-type"@)[0] != crate::text::lower("location"@)[0]);
    crate::http::lemma_header_position_is(headers, "location"@, 1);
}

} // verus!
