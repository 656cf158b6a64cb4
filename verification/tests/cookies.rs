use httpbin::cookies::{delete_cookie, get_cookies, read_cookie, read_cookies, set_cookie};
use httpbin::http::{Method, Mime, Request, STATUS_BAD_REQUEST, STATUS_FOUND, STATUS_OK};

fn client(path: &str) -> Request {
    Request::new(Method::Get, "http", "example.com", path).with_client_ip("127.0.0.1")
}

#[test]
fn test_cookies() {
    let req = &client("/").with_header("cookie", "foo=bar; baz=qux");
    let resp = get_cookies(req);
    assert!(resp.is_ok());
    let resp = resp.unwrap();
    assert_eq!(resp.get_status(), STATUS_OK);
    assert_eq!(resp.get_content_type(), Some(Mime::ApplicationJson));
    let json_str = String::from_utf8(resp.body).unwrap();
    let json: serde_json::Value = serde_json::from_str(&json_str).unwrap();
    assert_eq!(json["cookies"]["foo"], "bar");
    assert_eq!(json["cookies"]["baz"], "qux");
}

#[test]
fn test_set_cookie() {
    let req = &client("/cookies/set/foo/bar");
    let resp = set_cookie(req);
    assert!(resp.is_ok());
    let resp = resp.unwrap();
    assert_eq!(resp.get_status(), STATUS_FOUND);
    assert_eq!(resp.get_header_str("Location").as_deref(), Some("/cookies"));
    assert_eq!(resp.get_header_str("Set-Cookie").as_deref(), Some("foo=bar; Path=/"));
}

#[test]
fn test_delete_cookie() {
    let req = &client("/cookies/delete/foo");
    let resp = delete_cookie(req);
    assert!(resp.is_ok());
    let resp = resp.unwrap();
    assert_eq!(resp.get_status(), STATUS_FOUND);
    assert_eq!(resp.get_header_str("Location").as_deref(), Some("/cookies"));
    assert!(resp.get_header_str("Set-Cookie").unwrap().contains("foo="));
    assert!(resp.get_header_str("Set-Cookie").unwrap().contains("Expires="));
}

#[test]
fn delete_cookie_exact_header() {
    let resp = delete_cookie(&client("/cookies/delete/foo")).unwrap();
    assert_eq!(
        resp.get_header_str("set-cookie").as_deref(),
        Some("foo=; Path=/; Expires=Thu, 01 Jan 1970 00:00:00 GMT")
    );
}

#[test]
fn set_cookie_without_value_is_bad_request() {
    let resp = set_cookie(&client("/cookies/set/foo")).unwrap();
    assert_eq!(resp.get_status(), STATUS_BAD_REQUEST);
    assert_eq!(resp.get_content_type(), Some(Mime::TextPlain));
    assert_eq!(resp.body, b"Invalid cookie parameters".to_vec());
}

#[test]
fn delete_cookie_without_name_is_bad_request() {
    let resp = delete_cookie(&client("/cookies/delete/")).unwrap();
    assert_eq!(resp.get_status(), STATUS_BAD_REQUEST);
    assert_eq!(resp.body, b"Invalid cookie name".to_vec());
}

#[test]
fn cookie_pieces_are_trimmed_and_cut_once() {
    assert_eq!(read_cookie("  a = b=c  "), Some(("a".to_string(), "b=c".to_string())));
    assert_eq!(read_cookie("flag"), None);
    assert_eq!(read_cookie("\u{3000}k=v\t"), Some(("k".to_string(), "v".to_string())));
}

#[test]
fn cookies_without_header_are_none() {
    assert!(read_cookies(&None).is_empty());
    let req = client("/cookies");
    let resp = get_cookies(&req).unwrap();
    let json: serde_json::Value = serde_json::from_slice(&resp.body).unwrap();
    assert_eq!(json["cookies"].as_object().unwrap().len(), 0);
}

#[test]
fn later_cookie_of_a_name_wins() {
    let req = client("/cookies").with_header("Cookie", "a=1; skipped; a=2");
    let resp = get_cookies(&req).unwrap();
    let json: serde_json::Value = serde_json::from_slice(&resp.body).unwrap();
    assert_eq!(json["cookies"]["a"], "2");
    assert_eq!(json["cookies"].as_object().unwrap().len(), 1);
}
