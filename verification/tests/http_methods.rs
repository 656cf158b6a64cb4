use httpbin::http::{Method, Mime, Request, STATUS_OK};
use httpbin::http_methods::{delete, get, patch, post, put};
use httpbin::{req_headers, req_to_json, req_with_body_to_json};
use serde_json::Value;

fn client(path: &str) -> Request {
    Request::new(Method::Get, "http", "example.com", path).with_client_ip("127.0.0.1")
}

fn form_request(method: Method, path: &str, body: &str) -> Request {
    client(path)
        .with_method(method)
        .with_header("Content-Type", "application/x-www-form-urlencoded")
        .with_body(body.as_bytes().to_vec())
}

#[test]
fn test_get() {
    let req = &client("/get");
    let resp = get(req);
    assert!(resp.is_ok());
    let resp = resp.unwrap();
    assert_eq!(resp.get_status(), STATUS_OK);
    assert_eq!(resp.get_content_type(), Some(Mime::ApplicationJson));
}

#[test]
fn test_get_with_parameters() {
    let req = &client("/get").with_query_str("foo=bar&fud=baz");
    let resp = get(req);
    assert!(resp.is_ok());
    let resp = resp.unwrap();
    assert_eq!(resp.get_status(), STATUS_OK);
    assert_eq!(resp.get_content_type(), Some(Mime::ApplicationJson));

    let body = String::from_utf8(resp.body).unwrap();
    let v: Value = serde_json::from_str(body.as_str()).unwrap();
    assert_eq!(v["args"]["foo"], "bar");
    assert_eq!(v["args"]["fud"], "baz");
    assert_eq!(v["url"], "http://example.com/get?foo=bar&fud=baz");
}

#[test]
fn get_round_trip_keeps_the_query_verbatim() {
    let req = client("/get").with_query_str("foo=bar");
    let v: Value = serde_json::from_slice(&get(&req).unwrap().body).unwrap();
    assert_eq!(v["args"]["foo"], "bar");
    assert!(v["url"].as_str().unwrap().contains("foo=bar"));
    assert!(v["url"].as_str().unwrap().ends_with("?foo=bar"));
}

#[test]
fn echo_has_the_four_members() {
    let req = client("/get").with_header("X-One", "1");
    let v: Value = serde_json::from_slice(&get(&req).unwrap().body).unwrap();
    let doc = v.as_object().unwrap();
    assert_eq!(doc.len(), 4);
    assert_eq!(v["args"].as_object().unwrap().len(), 0);
    assert_eq!(v["headers"]["X-One"], "1");
    assert_eq!(v["origin"], "127.0.0.1");
    assert_eq!(v["url"], "http://example.com/get");
}

#[test]
fn echo_is_pretty_printed() {
    let text = req_to_json(&client("/get"));
    assert!(text.starts_with("{\n  \"args\": {},\n  \"headers\": {},\n"));
}

#[test]
fn origin_is_null_without_client_address() {
    let req = Request::new(Method::Get, "https", "h", "/get");
    let v: Value = serde_json::from_str(&req_to_json(&req)).unwrap();
    assert!(v["origin"].is_null());
    assert_eq!(v["url"], "https://h/get");
}

#[test]
fn last_query_argument_of_a_key_wins() {
    let req = client("/get").with_query_str("a=1&b=x&a=2");
    let v: Value = serde_json::from_slice(&get(&req).unwrap().body).unwrap();
    assert_eq!(v["args"]["a"], "2");
    assert_eq!(v["args"]["b"], "x");
    assert_eq!(v["args"].as_object().unwrap().len(), 2);
}

#[test]
fn query_arguments_are_percent_decoded() {
    let req = client("/get").with_query_str("q=a%20b+c&e=%F0%9F%8C%90");
    let v: Value = serde_json::from_slice(&get(&req).unwrap().body).unwrap();
    assert_eq!(v["args"]["q"], "a b c");
    assert_eq!(v["args"]["e"], "\u{1F310}");
    assert_eq!(v["url"], "http://example.com/get?q=a%20b+c&e=%F0%9F%8C%90");
}

#[test]
fn first_header_of_a_name_stands_for_it() {
    let req = client("/get").with_header("X-A", "first").with_header("x-a", "second");
    assert_eq!(req_headers(&req), vec![("X-A".to_string(), "first".to_string())]);
    let v: Value = serde_json::from_slice(&get(&req).unwrap().body).unwrap();
    assert_eq!(v["headers"].as_object().unwrap().len(), 1);
    assert_eq!(v["headers"]["X-A"], "first");
}

#[test]
fn post_includes_the_form() {
    let mut req = form_request(Method::Post, "/post", "name=Computers&count=1024");
    let resp = post(&mut req).unwrap();
    assert_eq!(resp.get_status(), STATUS_OK);
    assert_eq!(resp.get_content_type(), Some(Mime::ApplicationJson));
    let v: Value = serde_json::from_slice(&resp.body).unwrap();
    assert_eq!(v["form"]["name"], "Computers");
    assert_eq!(v["form"]["count"], "1024");
    assert_eq!(v.as_object().unwrap().len(), 5);
}

#[test]
fn the_body_is_read_once() {
    let mut req = form_request(Method::Post, "/post", "a=b");
    let first: Value = serde_json::from_str(&req_with_body_to_json(&mut req)).unwrap();
    assert_eq!(first["form"]["a"], "b");
    assert!(req.body.is_empty());
    let second: Value = serde_json::from_str(&req_with_body_to_json(&mut req)).unwrap();
    assert_eq!(second["form"].as_object().unwrap().len(), 0);
}

#[test]
fn put_and_patch_include_the_form() {
    let mut req = form_request(Method::Put, "/put", "a=1");
    let v: Value = serde_json::from_slice(&put(&mut req).unwrap().body).unwrap();
    assert_eq!(v["form"]["a"], "1");
    let mut req = form_request(Method::Patch, "/patch", "b=2");
    let v: Value = serde_json::from_slice(&patch(&mut req).unwrap().body).unwrap();
    assert_eq!(v["form"]["b"], "2");
}

#[test]
fn no_form_without_the_form_content_type() {
    let mut req = client("/post")
        .with_method(Method::Post)
        .with_header("content-type", "text/plain")
        .with_body(b"a=b".to_vec());
    let v: Value = serde_json::from_slice(&post(&mut req).unwrap().body).unwrap();
    assert!(v.get("form").is_none());
    assert_eq!(req.body, b"a=b".to_vec());
}

#[test]
fn no_form_without_content_type() {
    let mut req = client("/post").with_method(Method::Post).with_body(b"a=b".to_vec());
    let v: Value = serde_json::from_slice(&post(&mut req).unwrap().body).unwrap();
    assert!(v.get("form").is_none());
}

#[test]
fn no_form_for_a_method_without_body() {
    let mut req = form_request(Method::Get, "/get", "a=b");
    let v: Value = serde_json::from_str(&req_with_body_to_json(&mut req)).unwrap();
    assert!(v.get("form").is_none());
}

#[test]
fn delete_echoes_without_form() {
    let req = form_request(Method::Delete, "/delete", "a=b").with_query_str("x=y");
    let v: Value = serde_json::from_slice(&delete(&req).unwrap().body).unwrap();
    assert_eq!(v["args"]["x"], "y");
    assert!(v.get("form").is_none());
}
