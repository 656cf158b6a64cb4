//! Handlers whose response is made on the spot: a fresh identifier, decoded
//! base64, a delayed echo and random bytes.

use vstd::prelude::*;
use crate::codec::{base64_decode, base64_decoded};
use crate::http::{
    reply_view, respond, HandlerError, Mime, Request, RequestView, Response,
    ResponseView, STATUS_BAD_REQUEST, STATUS_NOT_FOUND, STATUS_OK,
};
use crate::json::{single_member, JsonModel, JsonValue};
use crate::number::{number_or, parse_u64, parse_usize};
use crate::pattern::{captures, get_group, group, regex_answer};
use crate::random::{fill_random, is_uuid_v4_text, uuid_v4_text};
use crate::request_inspection::{document, document_reply, single_model};
use crate::text::option_view;
use crate::{
    is_form_encoded, req_to_json, req_to_json_model, req_with_body_to_json,
    req_with_body_to_json_model,
};

verus! {

/// The pattern of `/base64/{value}`.
pub const BASE64_PATTERN: &'static str = r"/base64/([A-Za-z0-9+/=]{1,4096})$";

/// The pattern of `/delay/{n}`: one or two digits.
pub const DELAY_PATTERN: &'static str = r"/delay/(\d{1,2})$";

/// The pattern of `/bytes/{n}`: one to five digits.
pub const BYTES_PATTERN: &'static str = r"/bytes/(\d{1,5})$";

/// The longest wait that `/delay/{n}` asks for, in seconds.
pub const MAX_DELAY: u64 = 10;

/// The document that carries an identifier.
pub open spec fn uuid_model(id: Seq<char>) -> Map<Seq<char>, JsonModel> {
    single_model("uuid"@, JsonModel::Text(id))
}

/// The response that carries the identifier `id`.
pub fn uuid_response(id: String) -> (r: Result<Response, HandlerError>)
    ensures
        reply_view(r) == document_reply(uuid_model(id@)),
{
    document(&single_member("uuid", JsonValue::Text(id)))
}

/// Whether `r` is what `uuid` may return: the document that carries some
/// version 4 identifier.
pub open spec fn uuid_spec(r: Result<ResponseView, HandlerError>) -> bool {
    exists|id: Seq<char>| is_uuid_v4_text(id) && r == document_reply(#[trigger] uuid_model(id))
}

/// Returns a fresh version 4 identifier.
pub fn uuid(_req: &Request) -> (r: Result<Response, HandlerError>)
    ensures
        uuid_spec(reply_view(r)),
{
    let id = uuid_v4_text();
    let ghost text = id@;
    let r = uuid_response(id);
    assert(reply_view(r) == document_reply(uuid_model(text)));
    r
}

/// The response to base64 text: 200 with the decoded bytes, declared as
/// JSON; 400 with a hint where the text is not base64.
pub open spec fn base64_response(value: Seq<char>) -> ResponseView {
    match base64_decoded(value) {
        Some(bytes) => respond(STATUS_OK).content_type(Mime::ApplicationJson).body(bytes),
        None => respond(STATUS_BAD_REQUEST).content_type(Mime::TextPlain).body_text(
            "Provided data not in base64 format. Try SFRUUEJJTiBpcyBhd2Vzb21l"@,
        ),
    }
}

/// The response where the path holds no base64 text.
pub open spec fn base64_missing() -> ResponseView {
    respond(STATUS_BAD_REQUEST).content_type(Mime::TextHtml).body_text(
        "Could not extract base64 data"@,
    )
}

/// What `base64` returns.
pub open spec fn base64_spec(req: RequestView) -> Result<ResponseView, HandlerError> {
    match regex_answer(BASE64_PATTERN@, req.path) {
        Ok(Some(groups)) => match group(groups, 1) {
            Some(value) => Ok(base64_response(value)),
            None => Ok(base64_missing()),
        },
        Ok(None) => Ok(base64_missing()),
        Err(e) => Err(e),
    }
}

/// The response to base64 text.
pub fn decode_base64(value: &str) -> (r: Response)
    ensures
        r@ == base64_response(value@),
{
    match base64_decode(value) {
        Ok(bytes) => Response::from_status(STATUS_OK).with_content_type(
            Mime::ApplicationJson,
        ).with_body(bytes),
        Err(_) => Response::from_status(STATUS_BAD_REQUEST).with_content_type(
            Mime::TextPlain,
        ).with_body_str("Provided data not in base64 format. Try SFRUUEJJTiBpcyBhd2Vzb21l"),
    }
}

/// Decodes the base64 text at the end of the path.
pub fn base64(req: &Request) -> (r: Result<Response, HandlerError>)
    ensures
        reply_view(r) == base64_spec(req@),
{
    let found = captures(BASE64_PATTERN, req.path.as_str())?;
    if let Some(groups) = found {
        if let Some(value) = get_group(&groups, 1) {
            return Ok(decode_base64(value.as_str()));
        }
    }
    Ok(
        Response::from_status(STATUS_BAD_REQUEST).with_content_type(Mime::TextHtml).with_body_str(
            "Could not extract base64 data",
        ),
    )
}

/// A response and the time to wait before it is sent.
#[derive(Clone, Debug)]
pub struct Delayed {
    /// The seconds to wait before the response is sent.
    pub seconds: u64,
    pub response: Response,
}

/// A response and the time to wait before it is sent, as mathematical
/// values.
pub struct DelayedView {
    pub seconds: u64,
    pub response: ResponseView,
}

impl View for Delayed {
    type V = DelayedView;

    open spec fn view(&self) -> DelayedView {
        DelayedView { seconds: self.seconds, response: self.response@ }
    }
}

/// The view of a delayed result.
pub open spec fn delayed_view(r: Result<Delayed, HandlerError>) -> Result<
    DelayedView,
    HandlerError,
> {
    match r {
        Ok(d) => Ok(d@),
        Err(e) => Err(e),
    }
}

/// The seconds that `/delay/{n}` waits: `n`, and at most ten.
pub open spec fn delay_seconds(digits: Option<Seq<char>>) -> int {
    let n = number_or(digits, u64::MAX as int, 404);
    if n > MAX_DELAY {
        MAX_DELAY as int
    } else {
        n
    }
}

/// The seconds that `/delay/{n}` waits.
pub fn seconds_to_wait(digits: &Option<String>) -> (r: u64)
    ensures
        r == delay_seconds(option_view(*digits)),
        r <= MAX_DELAY,
{
    let n: u64 = match digits {
        Some(d) => match parse_u64(d.as_str()) {
            Some(n) => n,
            None => 404,
        },
        None => 404,
    };
    if n > MAX_DELAY {
        MAX_DELAY
    } else {
        n
    }
}

/// What `delay` returns for a body: after the wait, 200 with the body
/// declared as JSON; at once, 404 where the path holds no delay.
pub open spec fn delay_spec(req: RequestView, body: Seq<char>) -> Result<
    DelayedView,
    HandlerError,
> {
    match regex_answer(DELAY_PATTERN@, req.path) {
        Ok(Some(groups)) => Ok(
            DelayedView {
                seconds: delay_seconds(group(groups, 1)) as u64,
                response: respond(STATUS_OK).content_type(Mime::ApplicationJson).body_text(body),
            },
        ),
        Ok(None) => Ok(
            DelayedView {
                seconds: 0,
                response: respond(STATUS_NOT_FOUND).content_type(Mime::TextHtml),
            },
        ),
        Err(e) => Err(e),
    }
}

/// The delayed response that carries `body`: the wait is the number at the
/// end of the path, and never more than ten seconds. The wait itself is
/// left to the caller.
pub fn delay(req: &Request, body: String) -> (r: Result<Delayed, HandlerError>)
    ensures
        delayed_view(r) == delay_spec(req@, body@),
        r matches Ok(d) ==> d.seconds <= MAX_DELAY,
{
    let found = captures(DELAY_PATTERN, req.path.as_str())?;
    match found {
        Some(groups) => {
            let seconds = seconds_to_wait(&get_group(&groups, 1));
            Ok(
                Delayed {
                    seconds,
                    response: Response::from_status(STATUS_OK).with_content_type(
                        Mime::ApplicationJson,
                    ).with_body_str(body.as_str()),
                },
            )
        },
        None => Ok(
            Delayed {
                seconds: 0,
                response: Response::from_status(STATUS_NOT_FOUND).with_content_type(Mime::TextHtml),
            },
        ),
    }
}

/// A request whose path the engine reads as one or two digits that write
/// `n` is answered by `delay` after `min(n, 10)` seconds, never more than
/// ten, with 200 and the body as it was given, declared as JSON.
pub proof fn lemma_delay(req: RequestView, body: Seq<char>, digits: Seq<char>)
    requires
        regex_answer(DELAY_PATTERN@, req.path) matches Ok(Some(groups)) && group(groups, 1)
            == Some(digits),
        1 <= digits.len() <= 2,
        crate::number::all_digits(digits),
    ensures
        delay_spec(req, body) matches Ok(d) && d.seconds <= MAX_DELAY && d.seconds == if
            crate::number::digits_value(digits) > 10 {
            10
        } else {
            crate::number::digits_value(digits)
        } && d.response == respond(STATUS_OK).content_type(Mime::ApplicationJson).body_text(body),
{
    assert(crate::number::is_digit(digits[0]));
    assert(crate::number::is_digit(digits.last()));
    let head = digits.drop_last();
    if digits.len() == 2 {
        assert(head.len() == 1);
        assert(head.last() == digits[0]);
        assert(head.drop_last().len() == 0);
        assert(crate::number::digits_value(head.drop_last()) == 0);
        assert(crate::number::digits_value(head) == crate::number::digits_value(
            head.drop_last(),
        ) * 10 + (head.last() as int - '0' as int));
        assert(0 <= crate::number::digits_value(head) <= 9);
    } else {
        assert(head.len() == 0);
        assert(crate::number::digits_value(head) == 0);
    }
    assert(crate::number::digits_value(digits) == crate::number::digits_value(head) * 10 + (
    digits.last() as int - '0' as int));
    assert(0 <= crate::number::digits_value(digits) <= 99);
}

/// What the delay handlers return for the echo document `doc`: the delayed
/// response that carries its text.
pub open spec fn delayed_echo(req: RequestView, doc: Map<Seq<char>, JsonModel>) -> Result<
    DelayedView,
    HandlerError,
> {
    delay_spec(req, crate::json::json_pretty_text(doc))
}

/// Returns the echo of a GET request after a delay.
pub fn delay_get(req: &Request) -> (r: Result<Delayed, HandlerError>)
    ensures
        delayed_view(r) == delayed_echo(req@, req_to_json_model(req@)),
        r matches Ok(d) ==> d.seconds <= MAX_DELAY,
{
    let body = req_to_json(req);
    delay(req, body)
}

/// Returns the echo of a POST request, with the fields of its form, after
/// a delay.
pub fn delay_post(req: &mut Request) -> (r: Result<Delayed, HandlerError>)
    ensures
        delayed_view(r) == delayed_echo(old(req)@, req_with_body_to_json_model(old(req)@)),
        r matches Ok(d) ==> d.seconds <= MAX_DELAY,
        final(req)@ == (RequestView {
            body: if is_form_encoded(old(req)@) {
                Seq::empty()
            } else {
                old(req)@.body
            },
            ..old(req)@
        }),
{
    let body = req_with_body_to_json(req);
    delay(req, body)
}

/// The number of bytes that `/bytes/{n}` returns: `n`, and 100 where the
/// digits write no number.
pub open spec fn bytes_wanted(digits: Option<Seq<char>>) -> int {
    number_or(digits, usize::MAX as int, 100)
}

/// The number of bytes that `/bytes/{n}` returns.
pub fn count_wanted(digits: &Option<String>) -> (r: usize)
    ensures
        r == bytes_wanted(option_view(*digits)),
{
    match digits {
        Some(d) => match parse_usize(d.as_str()) {
            Some(n) => n,
            None => 100,
        },
        None => 100,
    }
}

/// The response that carries random bytes: 200, declared as a stream of
/// octets.
pub open spec fn bytes_response(body: Seq<u8>) -> ResponseView {
    respond(STATUS_OK).content_type(Mime::ApplicationOctetStream).body_octet_stream(body)
}

/// Whether `r` is what `bytes` may return: where the pattern is accepted
/// and finds a number, the response to a draw of that many bytes; 404 where
/// the path holds no number.
pub open spec fn bytes_spec(req: RequestView, r: Result<ResponseView, HandlerError>) -> bool {
    match regex_answer(BYTES_PATTERN@, req.path) {
        Ok(Some(groups)) => answers_a_draw(bytes_wanted(group(groups, 1)), r),
        Ok(None) => r == Ok::<ResponseView, HandlerError>(
            respond(STATUS_NOT_FOUND).content_type(Mime::ApplicationOctetStream),
        ),
        Err(e) => r == Err::<ResponseView, HandlerError>(e),
    }
}

/// What the outcome of a draw gives: 200 with the bytes that were drawn,
/// and the failure of the source where it failed.
pub open spec fn bytes_outcome_spec(drawn: Result<Seq<u8>, ()>) -> Result<
    ResponseView,
    HandlerError,
> {
    match drawn {
        Ok(bytes) => Ok(bytes_response(bytes)),
        Err(_) => Err(HandlerError::Random),
    }
}

/// The view of the outcome of a draw.
pub open spec fn drawn_view(drawn: Result<Vec<u8>, ()>) -> Result<Seq<u8>, ()> {
    match drawn {
        Ok(bytes) => Ok(bytes@),
        Err(e) => Err(e),
    }
}

/// The response to the outcome of a draw: the bytes that were drawn, as
/// they are, or the failure of the source.
pub fn bytes_outcome(drawn: Result<Vec<u8>, ()>) -> (r: Result<Response, HandlerError>)
    ensures
        reply_view(r) == bytes_outcome_spec(drawn_view(drawn)),
{
    match drawn {
        Ok(bytes) => Ok(
            Response::from_status(STATUS_OK).with_content_type(
                Mime::ApplicationOctetStream,
            ).with_body_octet_stream(bytes),
        ),
        Err(_) => Err(HandlerError::Random),
    }
}

/// Draws `n` bytes from the source of random bytes.
pub fn draw_bytes(n: usize) -> (drawn: Result<Vec<u8>, ()>)
    ensures
        drawn matches Ok(bytes) ==> bytes@.len() == n,
{
    let mut buffer: Vec<u8> = vec![0u8; n];
    match fill_random(&mut buffer) {
        Ok(_) => Ok(buffer),
        Err(_) => Err(()),
    }
}

/// Whether `r` is the response to some draw of `n` bytes.
pub open spec fn answers_a_draw(n: int, r: Result<ResponseView, HandlerError>) -> bool {
    exists|drawn: Result<Seq<u8>, ()>|
        (drawn matches Ok(bytes) ==> bytes.len() == n) && r == #[trigger] bytes_outcome_spec(drawn)
}

/// A response with `n` random bytes, or the failure of their source.
pub fn random_bytes(n: usize) -> (r: Result<Response, HandlerError>)
    ensures
        answers_a_draw(n as int, reply_view(r)),
{
    let drawn = draw_bytes(n);
    let ghost outcome = drawn_view(drawn);
    let r = bytes_outcome(drawn);
    assert(reply_view(r) == bytes_outcome_spec(outcome));
    r
}

/// A request whose path the engine reads as one to five digits that write
/// `n` is answered by `bytes` with the response to a draw of `n` bytes:
/// 200 with exactly `n` bytes, those that were drawn, or the failure of the
/// source.
pub proof fn lemma_bytes(req: RequestView, digits: Seq<char>, r: Result<ResponseView, HandlerError>)
    requires
        regex_answer(BYTES_PATTERN@, req.path) matches Ok(Some(groups)) && group(groups, 1)
            == Some(digits),
        1 <= digits.len() <= 5,
        crate::number::all_digits(digits),
        bytes_spec(req, r),
    ensures
        answers_a_draw(crate::number::digits_value(digits), r),
        r matches Ok(resp) ==> resp.status == STATUS_OK && resp.body.len()
            == crate::number::digits_value(digits),
        r matches Err(e) ==> e == HandlerError::Random,
{
    crate::number::lemma_digits_value_bound(digits);
    reveal_with_fuel(crate::number::pow10, 6);
    assert(crate::number::pow10(digits.len()) <= 100000);
    assert(crate::number::is_digit(digits[0]));
    assert(bytes_wanted(Some(digits)) == crate::number::digits_value(digits));
    let drawn = choose|drawn: Result<Seq<u8>, ()>|
        (drawn matches Ok(bytes) ==> bytes.len() == crate::number::digits_value(digits)) && r
            == #[trigger] bytes_outcome_spec(drawn);
    assert(r == bytes_outcome_spec(drawn));
}

/// Returns as many random bytes as the number at the end of the path says.
pub fn bytes(req: &Request) -> (r: Result<Response, HandlerError>)
    ensures
        bytes_spec(req@, reply_view(r)),
{
    let found = captures(BYTES_PATTERN, req.path.as_str())?;
    match found {
        Some(groups) => random_bytes(count_wanted(&get_group(&groups, 1))),
        None => Ok(
            Response::from_status(STATUS_NOT_FOUND).with_content_type(Mime::ApplicationOctetStream),
        ),
    }
}

} // verus!
