use httpbin::auth::{basic_auth, bearer, read_credentials};
use httpbin::http::{Method, Mime, Request, STATUS_OK, STATUS_UNAUTHORIZED};
use serde_json::Value;

fn client(path: &str) -> Request {
    Request::new(Method::Get, "http", "example.com", path).with_client_ip("127.0.0.1")
}

#[test]
fn test_basic_auth_success() {
    let req = &client("/basic-auth/foo/bar").with_header("authorization", "Basic Zm9vOmJhcg==");
    let resp = basic_auth(req);
    assert!(resp.is_ok());
    let resp = resp.unwrap();
    assert_eq!(resp.get_status(), STATUS_OK);
    assert_eq!(resp.get_content_type(), Some(Mime::ApplicationJson));
}

#[test]
fn test_basic_auth_incorrect_format() {
    let req = &client("/basic-auth/foo/bar").with_header("authorization", "Basic foo");
    let resp = basic_auth(req);
    assert!(resp.is_ok());
    let resp = resp.unwrap();
    assert_eq!(resp.get_status(), STATUS_UNAUTHORIZED);
    assert_eq!(resp.get_content_type(), Some(Mime::ApplicationJson));
}

#[test]
fn test_basic_auth_no_authorization() {
    let req = &client("/basic-auth/foo/bar");
    let resp = basic_auth(req);
    assert!(resp.is_ok());
    let resp = resp.unwrap();
    assert_eq!(resp.get_status(), STATUS_UNAUTHORIZED);
    assert_eq!(resp.get_content_type(), Some(Mime::ApplicationJson));
    assert_eq!(
        resp.get_header_str("www-authenticate").as_deref(),
        Some("Basic Realm=\"Fake Realm\"")
    );
}

#[test]
fn test_basic_auth_wrong_password() {
    let req = &client("/basic-auth/foo/bar").with_header("authorization", "Bearer Zm9vOmZvbwo=");
    let resp = basic_auth(req);
    assert!(resp.is_ok());
    let resp = resp.unwrap();
    assert_eq!(resp.get_status(), STATUS_UNAUTHORIZED);
    assert_eq!(resp.get_content_type(), Some(Mime::ApplicationJson));
}

#[test]
fn test_bearer_success() {
    let req = &client("/bearer").with_header("authorization", "Bearer foo");
    let resp = bearer(req);
    assert!(resp.is_ok());
    let resp = resp.unwrap();
    assert_eq!(resp.get_status(), STATUS_OK);
    assert_eq!(resp.get_content_type(), Some(Mime::ApplicationJson));

    let body = String::from_utf8(resp.body).unwrap();
    let v: Value = serde_json::from_str(body.as_str()).unwrap();
    assert_eq!(v["authenticated"], true);
    assert_eq!(v["token"], "foo");
}

#[test]
fn test_bearer_failure() {
    let req = &client("/bearer");
    let resp = bearer(req);
    assert!(resp.is_ok());
    let resp = resp.unwrap();
    assert_eq!(resp.get_status(), STATUS_UNAUTHORIZED);
    assert_eq!(resp.get_content_type(), Some(Mime::ApplicationJson));
}

#[test]
fn basic_auth_alice_with_secret() {
    // base64("alice:secret")
    let req = client("/basic-auth/alice/secret")
        .with_header("Authorization", "Basic YWxpY2U6c2VjcmV0");
    assert_eq!(basic_auth(&req).unwrap().get_status(), 200);
}

#[test]
fn basic_auth_alice_with_wrong_password() {
    // base64("alice:wrong")
    let req = client("/basic-auth/alice/secret")
        .with_header("authorization", "Basic YWxpY2U6d3Jvbmc=");
    let resp = basic_auth(&req).unwrap();
    assert_eq!(resp.get_status(), 401);
    assert_eq!(resp.get_header_str("www-authenticate"), None);
}

#[test]
fn basic_auth_needs_exactly_two_fields() {
    // base64("a:b:c")
    let req = client("/basic-auth/a/b").with_header("authorization", "Basic YTpiOmM=");
    assert_eq!(basic_auth(&req).unwrap().get_status(), 401);
}

#[test]
fn basic_auth_without_user_in_path() {
    let req = client("/basic-auth/").with_header("authorization", "Basic Zm9vOmJhcg==");
    assert_eq!(basic_auth(&req).unwrap().get_status(), 401);
}

#[test]
fn credentials_are_decoded_and_cut_at_colons() {
    assert_eq!(read_credentials("Basic Zm9vOmJhcg=="), vec!["foo".to_string(), "bar".to_string()]);
    // Not base64, and no prefix: the empty text, which is one empty field.
    assert_eq!(read_credentials("Basic !!!"), vec![String::new()]);
    assert_eq!(read_credentials("Zm9vOmJhcg=="), vec![String::new()]);
}

#[test]
fn bearer_with_other_scheme_is_refused() {
    let req = client("/bearer").with_header("authorization", "Basic foo");
    let resp = bearer(&req).unwrap();
    assert_eq!(resp.get_status(), 401);
    assert!(resp.body.is_empty());
}

#[test]
fn bearer_token_is_escaped_in_json() {
    let req = client("/bearer").with_header("authorization", "Bearer a\"b");
    let resp = bearer(&req).unwrap();
    let v: Value = serde_json::from_slice(&resp.body).unwrap();
    assert_eq!(v["token"], "a\"b");
}
