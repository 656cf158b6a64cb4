use httpbin::dynamic_data::{
    base64, bytes, bytes_outcome, count_wanted, delay, delay_get, delay_post, draw_bytes,
    random_bytes, seconds_to_wait, uuid, MAX_DELAY,
};
use httpbin::http::{
    HandlerError, Method, Mime, Request, STATUS_BAD_REQUEST, STATUS_NOT_FOUND, STATUS_OK,
};
use serde_json::Value;
use uuid::Uuid;

fn client(path: &str) -> Request {
    Request::new(Method::Get, "http", "example.com", path).with_client_ip("127.0.0.1")
}

#[test]
fn test_uuid() {
    let req = &client("/uuid");
    let resp = uuid(req);
    assert!(resp.is_ok());
    let resp = resp.unwrap();
    assert_eq!(resp.get_status(), STATUS_OK);
    assert_eq!(resp.get_content_type(), Some(Mime::ApplicationJson));
    let m: Value = serde_json::from_str(String::from_utf8(resp.body).unwrap().as_str()).unwrap();
    let my_uuid = Uuid::parse_str(m["uuid"].as_str().unwrap());
    assert!(my_uuid.is_ok())
}

#[test]
fn test_base64() {
    let req = &client("/base64/Zm9vYmFy");
    let resp = base64(req);
    assert!(resp.is_ok());
    let resp = resp.unwrap();
    assert_eq!(resp.get_status(), STATUS_OK);
    assert_eq!(resp.get_content_type(), Some(Mime::ApplicationJson));
    assert_eq!(String::from_utf8(resp.body).unwrap().as_str(), "foobar");
}

#[test]
fn uuid_has_version_four_shape() {
    let resp = uuid(&client("/uuid")).unwrap();
    let m: Value = serde_json::from_slice(&resp.body).unwrap();
    let id: Vec<char> = m["uuid"].as_str().unwrap().chars().collect();
    assert_eq!(id.len(), 36);
    for i in [8usize, 13, 18, 23] {
        assert_eq!(id[i], '-');
    }
    assert_eq!(id[14], '4');
    assert!(matches!(id[19], '8' | '9' | 'a' | 'b'));
    for (i, c) in id.iter().enumerate() {
        if ![8usize, 13, 18, 23].contains(&i) {
            assert!(matches!(c, '0'..='9' | 'a'..='f'));
        }
    }
}

#[test]
fn uuids_differ() {
    let a = uuid(&client("/uuid")).unwrap().body;
    let b = uuid(&client("/uuid")).unwrap().body;
    assert_ne!(a, b);
}

#[test]
fn base64_rejects_text_outside_the_alphabet() {
    let resp = base64(&client("/base64/not-valid-b64!!")).unwrap();
    assert_eq!(resp.get_status(), STATUS_BAD_REQUEST);
}

#[test]
fn base64_that_does_not_decode_gets_a_hint() {
    // In the alphabet, but not a whole encoding.
    let resp = base64(&client("/base64/Zm9vYmF")).unwrap();
    assert_eq!(resp.get_status(), STATUS_BAD_REQUEST);
    assert_eq!(resp.get_content_type(), Some(Mime::TextPlain));
    assert_eq!(
        String::from_utf8(resp.body).unwrap(),
        "Provided data not in base64 format. Try SFRUUEJJTiBpcyBhd2Vzb21l"
    );
}

#[test]
fn base64_missing_value() {
    let resp = base64(&client("/base64/")).unwrap();
    assert_eq!(resp.get_status(), STATUS_BAD_REQUEST);
    assert_eq!(resp.get_content_type(), Some(Mime::TextHtml));
    assert_eq!(String::from_utf8(resp.body).unwrap(), "Could not extract base64 data");
}

#[test]
fn delay_of_zero_does_not_wait() {
    let d = delay(&client("/delay/0"), "body".to_string()).unwrap();
    assert_eq!(d.seconds, 0);
    assert_eq!(d.response.get_status(), STATUS_OK);
    assert_eq!(d.response.get_content_type(), Some(Mime::ApplicationJson));
    assert_eq!(d.response.body, b"body".to_vec());
}

#[test]
fn delay_is_the_number_up_to_ten() {
    assert_eq!(delay(&client("/delay/7"), String::new()).unwrap().seconds, 7);
    assert_eq!(delay(&client("/delay/10"), String::new()).unwrap().seconds, 10);
    assert_eq!(delay(&client("/delay/15"), String::new()).unwrap().seconds, 10);
    assert_eq!(delay(&client("/delay/20"), String::new()).unwrap().seconds, 10);
    assert_eq!(delay(&client("/delay/99"), String::new()).unwrap().seconds, 10);
}

#[test]
fn delay_never_exceeds_the_limit() {
    for n in 0..100u32 {
        let d = delay(&client(&format!("/delay/{}", n)), String::new()).unwrap();
        assert!(d.seconds <= MAX_DELAY);
        assert_eq!(d.seconds, u64::from(n).min(10));
    }
}

#[test]
fn delay_with_three_digits_is_not_found() {
    let d = delay(&client("/delay/150"), "x".to_string()).unwrap();
    assert_eq!(d.seconds, 0);
    assert_eq!(d.response.get_status(), STATUS_NOT_FOUND);
    assert_eq!(d.response.get_content_type(), Some(Mime::TextHtml));
    assert!(d.response.body.is_empty());
}

#[test]
fn seconds_to_wait_falls_back_and_clamps() {
    assert_eq!(seconds_to_wait(&Some("3".to_string())), 3);
    assert_eq!(seconds_to_wait(&Some("x".to_string())), 10);
    assert_eq!(seconds_to_wait(&None), 10);
}

#[test]
fn delay_get_carries_the_echo() {
    let req = client("/delay/2").with_query_str("a=b");
    let d = delay_get(&req).unwrap();
    assert_eq!(d.seconds, 2);
    let v: Value = serde_json::from_slice(&d.response.body).unwrap();
    assert_eq!(v["args"]["a"], "b");
    assert!(v.get("form").is_none());
}

#[test]
fn delay_post_carries_the_form() {
    let mut req = client("/delay/1")
        .with_method(Method::Post)
        .with_header("content-type", "application/x-www-form-urlencoded")
        .with_body(b"k=v".to_vec());
    let d = delay_post(&mut req).unwrap();
    assert_eq!(d.seconds, 1);
    let v: Value = serde_json::from_slice(&d.response.body).unwrap();
    assert_eq!(v["form"]["k"], "v");
    assert!(req.body.is_empty());
}

#[test]
fn bytes_returns_exactly_five() {
    let resp = bytes(&client("/bytes/5")).unwrap();
    assert_eq!(resp.get_status(), STATUS_OK);
    assert_eq!(resp.get_content_type(), Some(Mime::ApplicationOctetStream));
    assert_eq!(resp.body.len(), 5);
}

#[test]
fn bytes_returns_exactly_the_most() {
    let resp = bytes(&client("/bytes/99999")).unwrap();
    assert_eq!(resp.body.len(), 99999);
}

#[test]
fn bytes_with_six_digits_is_not_found() {
    let resp = bytes(&client("/bytes/100000")).unwrap();
    assert_eq!(resp.get_status(), STATUS_NOT_FOUND);
    assert_eq!(resp.get_content_type(), Some(Mime::ApplicationOctetStream));
    assert!(resp.body.is_empty());
}

#[test]
fn bytes_of_zero_is_empty() {
    assert_eq!(bytes(&client("/bytes/0")).unwrap().body.len(), 0);
}

#[test]
fn bytes_are_not_constant() {
    let a = random_bytes(64).unwrap().body;
    let b = random_bytes(64).unwrap().body;
    assert_ne!(a, b);
    assert!(a.iter().any(|x| *x != a[0]));
    assert!(a.windows(2).any(|w| w[1] != w[0].wrapping_add(1)));
}

#[test]
fn count_wanted_falls_back_to_a_hundred() {
    assert_eq!(count_wanted(&Some("42".to_string())), 42);
    assert_eq!(count_wanted(&Some("\u{0663}".to_string())), 100);
    assert_eq!(count_wanted(&None), 100);
}

#[test]
fn the_body_is_what_was_drawn() {
    let resp = bytes_outcome(Ok(vec![7, 0, 255, 7])).unwrap();
    assert_eq!(resp.get_status(), STATUS_OK);
    assert_eq!(resp.get_content_type(), Some(Mime::ApplicationOctetStream));
    assert_eq!(resp.body, vec![7, 0, 255, 7]);
    assert_eq!(resp.headers.len(), 1);
    assert!(bytes_outcome(Ok(Vec::new())).unwrap().body.is_empty());
}

#[test]
fn a_failed_draw_is_an_error() {
    assert_eq!(bytes_outcome(Err(())).err(), Some(HandlerError::Random));
}

#[test]
fn a_draw_has_the_length_asked() {
    assert_eq!(draw_bytes(0).unwrap().len(), 0);
    assert_eq!(draw_bytes(33).unwrap().len(), 33);
    assert_ne!(draw_bytes(32).unwrap(), vec![0u8; 32]);
}
