//! Handlers that answer an `Authorization` header: basic credentials held
//! against those in the path, and a bearer token that is echoed.

use vstd::prelude::*;
use vstd::utf8::*;
use crate::codec::{base64_decode, base64_decoded, utf8_decode};
use crate::http::{
    reply_view, respond, HandlerError, Mime, Request, RequestView, Response, ResponseView,
    STATUS_OK, STATUS_UNAUTHORIZED,
};
use crate::json::{
    json_map_insert, json_map_new, json_members, no_members, JsonModel, JsonObject, JsonValue,
};
use crate::pattern::{captures, get_group, group, regex_answer};
use crate::text::{option_view, split, split_spec, str_eq, strings_view, strip_prefix};

verus! {

/// The pattern of `/basic-auth/{user}/{passwd}`.
pub const BASIC_AUTH_PATTERN: &'static str = r"/basic-auth/(\w+)/(\w+)$";

/// The response that refuses: 401, declared as JSON.
pub open spec fn unauthorized() -> ResponseView {
    respond(STATUS_UNAUTHORIZED).content_type(Mime::ApplicationJson)
}

/// The response that asks for basic credentials: 401 with a challenge.
pub open spec fn challenge() -> ResponseView {
    respond(STATUS_UNAUTHORIZED).content_type(Mime::ApplicationJson).header(
        "www-authenticate"@,
        "Basic Realm=\"Fake Realm\""@,
    )
}

/// The response that accepts: 200, declared as JSON.
pub open spec fn authorized() -> ResponseView {
    respond(STATUS_OK).content_type(Mime::ApplicationJson)
}

/// What follows `Basic ` in the header, and nothing where the header does
/// not start with it.
pub open spec fn basic_payload(authorization: Seq<char>) -> Seq<char> {
    if "Basic "@.is_prefix_of(authorization) {
        authorization.skip("Basic "@.len() as int)
    } else {
        Seq::empty()
    }
}

/// The text that the payload encodes: its base64 decoding read as UTF-8,
/// and the empty text where either step fails.
pub open spec fn decoded_payload(payload: Seq<char>) -> Seq<char> {
    match base64_decoded(payload) {
        Some(bytes) => if valid_utf8(bytes) {
            decode_utf8(bytes)
        } else {
            Seq::empty()
        },
        None => Seq::empty(),
    }
}

/// The fields of the credentials that an `Authorization` header gives: the
/// decoded payload, cut at each colon.
pub open spec fn given_credentials(authorization: Seq<char>) -> Seq<Seq<char>> {
    split_spec(decoded_payload(basic_payload(authorization)), ':')
}

/// The verdict on credentials: 200 where the given user and password are
/// exactly those of the path, else 401.
pub open spec fn credentials_verdict(
    given_user: Seq<char>,
    given_password: Seq<char>,
    user: Option<Seq<char>>,
    password: Option<Seq<char>>,
) -> ResponseView {
    if user == Some(given_user) && password == Some(given_password) {
        authorized()
    } else {
        unauthorized()
    }
}

/// What `basic_auth` returns: the challenge where the header is missing;
/// 401 where it does not give exactly two fields or the path holds no user
/// and password; else the verdict on the credentials.
pub open spec fn basic_auth_spec(req: RequestView) -> Result<ResponseView, HandlerError> {
    match req.header("authorization"@) {
        None => Ok(challenge()),
        Some(value) => {
            let fields = given_credentials(value);
            if fields.len() != 2 {
                Ok(unauthorized())
            } else {
                match regex_answer(BASIC_AUTH_PATTERN@, req.path) {
                    Err(e) => Err(e),
                    Ok(None) => Ok(unauthorized()),
                    Ok(Some(groups)) => Ok(
                        credentials_verdict(fields[0], fields[1], group(groups, 1), group(groups, 2)),
                    ),
                }
            }
        },
    }
}

/// The fields of the credentials that an `Authorization` header gives.
pub fn read_credentials(authorization: &str) -> (r: Vec<String>)
    ensures
        strings_view(r@) == given_credentials(authorization@),
{
    let payload = match strip_prefix(authorization, "Basic ") {
        Some(rest) => rest,
        None => String::new(),
    };
    let text = match base64_decode(payload.as_str()) {
        Ok(bytes) => match utf8_decode(bytes) {
            Ok(text) => text,
            Err(_) => String::new(),
        },
        Err(_) => String::new(),
    };
    split(text.as_str(), ':')
}

/// Whether an optional text is exactly `wanted`.
fn is_text(found: &Option<String>, wanted: &str) -> (r: bool)
    ensures
        r == (option_view(*found) == Some(wanted@)),
{
    match found {
        Some(t) => str_eq(t.as_str(), wanted),
        None => false,
    }
}

/// The verdict on credentials: 200 where the given user and password are
/// exactly those of the path, else 401.
pub fn check_credentials(
    given_user: &str,
    given_password: &str,
    user: &Option<String>,
    password: &Option<String>,
) -> (r: Response)
    ensures
        r@ == credentials_verdict(
            given_user@,
            given_password@,
            option_view(*user),
            option_view(*password),
        ),
{
    if is_text(user, given_user) && is_text(password, given_password) {
        Response::from_status(STATUS_OK).with_content_type(Mime::ApplicationJson)
    } else {
        Response::from_status(STATUS_UNAUTHORIZED).with_content_type(Mime::ApplicationJson)
    }
}

/// Asks for HTTP basic credentials and holds them against the user and
/// password in the path.
pub fn basic_auth(req: &Request) -> (r: Result<Response, HandlerError>)
    ensures
        reply_view(r) == basic_auth_spec(req@),
{
    let authorization = match req.get_header_str("authorization") {
        Some(value) => value,
        None => {
            return Ok(
                Response::from_status(STATUS_UNAUTHORIZED).with_content_type(
                    Mime::ApplicationJson,
                ).with_header("www-authenticate", "Basic Realm=\"Fake Realm\""),
            );
        },
    };
    let fields = read_credentials(authorization.as_str());
    if fields.len() != 2 {
        return Ok(
            Response::from_status(STATUS_UNAUTHORIZED).with_content_type(Mime::ApplicationJson),
        );
    }
    assert(strings_view(fields@)[0] == fields@[0]@);
    assert(strings_view(fields@)[1] == fields@[1]@);
    let found = captures(BASIC_AUTH_PATTERN, req.path.as_str())?;
    match found {
        Some(groups) => {
            let user = get_group(&groups, 1);
            let password = get_group(&groups, 2);
            Ok(check_credentials(fields[0].as_str(), fields[1].as_str(), &user, &password))
        },
        None => Ok(
            Response::from_status(STATUS_UNAUTHORIZED).with_content_type(Mime::ApplicationJson),
        ),
    }
}

/// The document that echoes a bearer token.
pub open spec fn bearer_model(token: Seq<char>) -> Map<Seq<char>, JsonModel> {
    no_members().insert("authenticated"@, JsonModel::Bool(true)).insert(
        "token"@,
        JsonModel::Text(token),
    )
}


/// The token of an `Authorization` header: what follows `Bearer `.
pub open spec fn bearer_token(authorization: Option<Seq<char>>) -> Option<Seq<char>> {
    match authorization {
        Some(value) => if "Bearer "@.is_prefix_of(value) {
            Some(value.skip("Bearer "@.len() as int))
        } else {
            None
        },
        None => None,
    }
}

/// What `bearer` returns: 401 where the header is missing or does not start
/// with `Bearer `, else 200 with the token echoed in a document.
pub open spec fn bearer_spec(req: RequestView) -> Result<ResponseView, HandlerError> {
    match bearer_token(req.header("authorization"@)) {
        Some(token) => crate::request_inspection::document_reply(bearer_model(token)),
        None => Ok(unauthorized()),
    }
}

/// The document that echoes a bearer token.
pub fn bearer_document(token: String) -> (m: JsonObject)
    ensures
        json_members(m) == bearer_model(token@),
{
    let mut members = json_map_new();
    json_map_insert(&mut members, "authenticated", JsonValue::Bool(true));
    json_map_insert(&mut members, "token", JsonValue::Text(token));
    members
}

/// Asks for a bearer token and echoes it.
pub fn bearer(req: &Request) -> (r: Result<Response, HandlerError>)
    ensures
        reply_view(r) == bearer_spec(req@),
{
    let refused = Response::from_status(STATUS_UNAUTHORIZED).with_content_type(
        Mime::ApplicationJson,
    );
    match req.get_header_str("authorization") {
        Some(value) => match strip_prefix(value.as_str(), "Bearer ") {
            Some(token) => crate::request_inspection::document(
                &bearer_document(token),
            ),
            None => Ok(refused),
        },
        None => Ok(refused),
    }
}

} // verus!
