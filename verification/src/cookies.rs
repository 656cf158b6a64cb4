//! Handlers for cookies: reporting those of the request, and redirects that
//! set or delete one.

use vstd::prelude::*;
use vstd::string::*;
use crate::http::{
    reply_view, respond, HandlerError, Mime, Request, RequestView, Response,
    ResponseView, STATUS_BAD_REQUEST, STATUS_FOUND,
};
use crate::json::{pairs_model, pairs_object, single_member, JsonModel};
use crate::pattern::{captures_lite, get_group, group, groups_of, regex_lite_answer, Groups};
use crate::request_inspection::{document, document_reply, single_model};
use crate::text::{
    option_view, pairs_view, split, split_once, split_once_spec, split_spec, strings_view,
    trim, trim_spec,
};

verus! {

/// The pattern of `/cookies/set/{name}/{value}`.
pub const SET_COOKIE_PATTERN: &'static str = r"/cookies/set/([^/]+)/([^/]+)$";

/// The pattern of `/cookies/delete/{name}`.
pub const DELETE_COOKIE_PATTERN: &'static str = r"/cookies/delete/([^/]+)$";

/// The cookie that one piece of a `Cookie` header holds: the piece is cut
/// at its first `=`, and white space around the piece, the name and the
/// value does not count. A piece without `=` holds none.
pub open spec fn cookie_of(piece: Seq<char>) -> Option<(Seq<char>, Seq<char>)> {
    match split_once_spec(trim_spec(piece), '=') {
        Some(cut) => Some((trim_spec(cut.0), trim_spec(cut.1))),
        None => None,
    }
}

/// The cookies that the pieces of a header hold, in their order.
pub open spec fn cookies_of(pieces: Seq<Seq<char>>) -> Seq<(Seq<char>, Seq<char>)>
    decreases pieces.len(),
{
    if pieces.len() == 0 {
        Seq::empty()
    } else {
        match cookie_of(pieces.last()) {
            Some(cookie) => cookies_of(pieces.drop_last()).push(cookie),
            None => cookies_of(pieces.drop_last()),
        }
    }
}

/// The cookies of a `Cookie` header: those of its pieces between `;`.
pub open spec fn header_cookies(header: Option<Seq<char>>) -> Seq<(Seq<char>, Seq<char>)> {
    match header {
        Some(value) => cookies_of(split_spec(value, ';')),
        None => Seq::empty(),
    }
}

/// The cookie that one piece of a `Cookie` header holds.
pub fn read_cookie(piece: &str) -> (r: Option<(String, String)>)
    ensures
        match r {
            Some(c) => cookie_of(piece@) == Some((c.0@, c.1@)),
            None => cookie_of(piece@) is None,
        },
{
    let trimmed = trim(piece);
    match split_once(trimmed.as_str(), '=') {
        Some(cut) => Some((trim(cut.0.as_str()), trim(cut.1.as_str()))),
        None => None,
    }
}

/// The cookies of a `Cookie` header.
pub fn read_cookies(header: &Option<String>) -> (r: Vec<(String, String)>)
    ensures
        pairs_view(r@) == header_cookies(option_view(*header)),
{
    let mut out: Vec<(String, String)> = Vec::new();
    assert(pairs_view(out@) =~= Seq::empty());
    match header {
        Some(value) => {
            let pieces = split(value.as_str(), ';');
            let ghost all = strings_view(pieces@);
            let n: usize = pieces.len();
            let mut i: usize = 0;
            assert(all.take(0) =~= Seq::empty());
            while i < n
                invariant
                    n == pieces@.len(),
                    i <= n,
                    all == strings_view(pieces@),
                    pairs_view(out@) == cookies_of(all.take(i as int)),
                decreases n - i,
            {
                proof {
                    let next = all.take(i + 1);
                    assert(next.drop_last() =~= all.take(i as int));
                    assert(next.last() == all[i as int]);
                }
                match read_cookie(pieces[i].as_str()) {
                    Some(cookie) => {
                        let ghost before = out@;
                        let ghost c = (cookie.0@, cookie.1@);
                        out.push(cookie);
                        assert(pairs_view(out@) =~= pairs_view(before).push(c));
                    },
                    None => {},
                }
                i += 1;
            }
            assert(all.take(n as int) =~= all);
        },
        None => {},
    }
    out
}

/// The document that reports cookies: one member for each name, with the
/// value of its last cookie.
pub open spec fn cookies_model(req: RequestView) -> Map<Seq<char>, JsonModel> {
    single_model("cookies"@, pairs_model(header_cookies(req.header("cookie"@))))
}

/// Reports the cookies of the request.
pub fn get_cookies(req: &Request) -> (r: Result<Response, HandlerError>)
    ensures
        reply_view(r) == document_reply(cookies_model(req@)),
{
    let cookies = read_cookies(&req.get_header_str("cookie"));
    document(&single_member("cookies", pairs_object(&cookies)))
}

/// The text of a group, and the empty text where it took no part.
pub open spec fn group_or_empty(groups: Seq<Option<Seq<char>>>, i: int) -> Seq<char> {
    match group(groups, i) {
        Some(t) => t,
        None => Seq::empty(),
    }
}

/// The response that sets a cookie and redirects to `/cookies`.
pub open spec fn cookie_redirect(cookie: Seq<char>) -> ResponseView {
    respond(STATUS_FOUND).header("Location"@, "/cookies"@).header("Set-Cookie"@, cookie)
}

/// The `Set-Cookie` value that sets `name` to `value` for every path.
pub open spec fn set_cookie_text(name: Seq<char>, value: Seq<char>) -> Seq<char> {
    name + "="@ + value + "; Path=/"@
}

/// The `Set-Cookie` value that deletes `name`: an empty value that expired
/// long ago.
pub open spec fn delete_cookie_text(name: Seq<char>) -> Seq<char> {
    name + "=; Path=/; Expires=Thu, 01 Jan 1970 00:00:00 GMT"@
}

/// The response to a path that a cookie handler cannot read: 400 with the
/// reason in plain text.
pub open spec fn bad_cookie(reason: Seq<char>) -> ResponseView {
    respond(STATUS_BAD_REQUEST).content_type(Mime::TextPlain).body_text(reason)
}

/// What `set_cookie` returns.
pub open spec fn set_cookie_spec(req: RequestView) -> Result<ResponseView, HandlerError> {
    match regex_lite_answer(SET_COOKIE_PATTERN@, req.path) {
        Ok(Some(groups)) => Ok(
            cookie_redirect(set_cookie_text(group_or_empty(groups, 1), group_or_empty(groups, 2))),
        ),
        Ok(None) => Ok(bad_cookie("Invalid cookie parameters"@)),
        Err(e) => Err(e),
    }
}

/// What `delete_cookie` returns.
pub open spec fn delete_cookie_spec(req: RequestView) -> Result<ResponseView, HandlerError> {
    match regex_lite_answer(DELETE_COOKIE_PATTERN@, req.path) {
        Ok(Some(groups)) => Ok(cookie_redirect(delete_cookie_text(group_or_empty(groups, 1)))),
        Ok(None) => Ok(bad_cookie("Invalid cookie name"@)),
        Err(e) => Err(e),
    }
}

/// The text of a group, and the empty text where it took no part.
fn text_of_group(groups: &Groups, i: usize) -> (r: String)
    ensures
        r@ == group_or_empty(groups_of(groups@), i as int),
{
    match get_group(groups, i) {
        Some(t) => t,
        None => String::new(),
    }
}

/// The response that sets a cookie and redirects to `/cookies`.
pub fn redirect_with_cookie(cookie: &str) -> (r: Response)
    ensures
        r@ == cookie_redirect(cookie@),
{
    Response::from_status(STATUS_FOUND).with_header("Location", "/cookies").with_header(
        "Set-Cookie",
        cookie,
    )
}

/// Sets the cookie named in the path and redirects to `/cookies`.
pub fn set_cookie(req: &Request) -> (r: Result<Response, HandlerError>)
    ensures
        reply_view(r) == set_cookie_spec(req@),
{
    let found = captures_lite(SET_COOKIE_PATTERN, req.path.as_str())?;
    match found {
        Some(groups) => {
            let name = text_of_group(&groups, 1);
            let value = text_of_group(&groups, 2);
            let cookie = name.concat("=").concat(value.as_str()).concat("; Path=/");
            Ok(redirect_with_cookie(cookie.as_str()))
        },
        None => Ok(
            Response::from_status(STATUS_BAD_REQUEST).with_content_type(
                Mime::TextPlain,
            ).with_body_str("Invalid cookie parameters"),
        ),
    }
}

/// Deletes the cookie named in the path and redirects to `/cookies`.
pub fn delete_cookie(req: &Request) -> (r: Result<Response, HandlerError>)
    ensures
        reply_view(r) == delete_cookie_spec(req@),
{
    let found = captures_lite(DELETE_COOKIE_PATTERN, req.path.as_str())?;
    match found {
        Some(groups) => {
            let name = text_of_group(&groups, 1);
            let cookie = name.concat("=; Path=/; Expires=Thu, 01 Jan 1970 00:00:00 GMT");
            Ok(redirect_with_cookie(cookie.as_str()))
        },
        None => Ok(
            Response::from_status(STATUS_BAD_REQUEST).with_content_type(
                Mime::TextPlain,
            ).with_body_str("Invalid cookie name"),
        ),
    }
}

} // verus!
