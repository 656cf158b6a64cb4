use httpbin::http::{
    Method, Mime, Request, STATUS_NOT_FOUND, STATUS_NOT_MODIFIED, STATUS_OK,
    STATUS_PRECONDITION_FAILED,
};
use httpbin::response_inspection::{
    cache_value, etag, etag_for, header_lists_tag, response_headers, response_headers_get,
    response_headers_post,
};

fn client(path: &str) -> Request {
    Request::new(Method::Get, "http", "example.com", path).with_client_ip("127.0.0.1")
}

#[test]
fn test_cache_value() {
    let req = &client("/cache/23");
    let resp = cache_value(req);
    assert!(resp.is_ok());
    let resp = resp.unwrap();
    assert_eq!(resp.get_status(), STATUS_OK);
    assert_eq!(resp.get_content_type(), Some(Mime::ApplicationJson));
    assert_eq!(resp.get_header_str("cache-control").as_deref(), Some("public, max-age=23"));
}

#[test]
fn test_response_headers_get() {
    let req = &client("/response-headers").with_query_str("foo=bar&fud=baz");
    let resp = response_headers_get(req);
    assert!(resp.is_ok());
    let resp = resp.unwrap();
    assert_eq!(resp.get_status(), STATUS_OK);
    assert_eq!(resp.get_content_type(), Some(Mime::ApplicationJson));
    assert_eq!(resp.get_header_str("foo").as_deref(), Some("bar"));
    assert_eq!(resp.get_header_str("fud").as_deref(), Some("baz"));
}

#[test]
fn test_response_headers_post() {
    let req = &client("/response-headers")
        .with_method(Method::Post)
        .with_query_str("foo=bar&fud=baz");
    let resp = response_headers_post(req);
    assert!(resp.is_ok());
    let resp = resp.unwrap();
    assert_eq!(resp.get_status(), STATUS_OK);
    assert_eq!(resp.get_content_type(), Some(Mime::ApplicationJson));
    assert_eq!(resp.get_header_str("foo").as_deref(), Some("bar"));
    assert_eq!(resp.get_header_str("fud").as_deref(), Some("baz"));
}

#[test]
fn cache_with_three_digits_is_not_found() {
    let resp = cache_value(&client("/cache/123")).unwrap();
    assert_eq!(resp.get_status(), STATUS_NOT_FOUND);
    assert_eq!(resp.get_content_type(), Some(Mime::ApplicationJson));
    assert_eq!(resp.get_header_str("cache-control"), None);
}

#[test]
fn cache_keeps_the_digits_as_written() {
    let resp = cache_value(&client("/cache/07")).unwrap();
    assert_eq!(resp.get_header_str("Cache-Control").as_deref(), Some("public, max-age=07"));
}

#[test]
fn response_headers_keep_the_last_value_of_a_key() {
    let pairs = vec![
        ("a".to_string(), "1".to_string()),
        ("b".to_string(), "2".to_string()),
        ("a".to_string(), "3".to_string()),
    ];
    let resp = response_headers(&pairs);
    assert_eq!(
        resp.headers,
        vec![
            ("content-type".to_string(), "application/json".to_string()),
            ("b".to_string(), "2".to_string()),
            ("a".to_string(), "3".to_string()),
        ]
    );
}

#[test]
fn response_headers_without_query() {
    let resp = response_headers_get(&client("/response-headers")).unwrap();
    assert_eq!(resp.headers.len(), 1);
    assert!(resp.body.is_empty());
}

#[test]
fn etag_listed_in_if_none_match_is_not_modified() {
    let req = client("/etag/abc").with_header("If-None-Match", "abc");
    let resp = etag(&req).unwrap();
    assert_eq!(resp.get_status(), STATUS_NOT_MODIFIED);
    assert_eq!(resp.get_content_type(), Some(Mime::ApplicationJson));
}

#[test]
fn etag_star_is_not_modified() {
    let req = client("/etag/abc").with_header("if-none-match", "xyz,*");
    assert_eq!(etag(&req).unwrap().get_status(), STATUS_NOT_MODIFIED);
}

#[test]
fn etag_second_test_reads_if_none_match_again() {
    // Once `If-None-Match` has been found not to list the tag, the same
    // header is asked again where `If-Match` would be expected: the answer
    // is 412, whatever `If-Match` holds, and also without any condition.
    let resp = etag(&client("/etag/abc")).unwrap();
    assert_eq!(resp.get_status(), STATUS_PRECONDITION_FAILED);
    assert_eq!(resp.get_header_str("etag"), None);
    let req = client("/etag/abc").with_header("if-match", "abc");
    assert_eq!(etag(&req).unwrap().get_status(), STATUS_PRECONDITION_FAILED);
    let req = client("/etag/abc").with_header("if-none-match", "other");
    assert_eq!(etag(&req).unwrap().get_status(), STATUS_PRECONDITION_FAILED);
}

#[test]
fn etag_list_is_cut_at_commas_without_trimming() {
    assert!(header_lists_tag("a,abc,b", "abc"));
    assert!(!header_lists_tag("a, abc", "abc"));
    assert!(header_lists_tag("*", "abc"));
    assert!(!header_lists_tag("", "abc"));
    assert_eq!(etag_for("abc", "a,abc").get_status(), STATUS_NOT_MODIFIED);
    assert_eq!(etag_for("abc", "a").get_status(), STATUS_PRECONDITION_FAILED);
}

#[test]
fn etag_without_tag_is_not_found() {
    let resp = etag(&client("/etag/")).unwrap();
    assert_eq!(resp.get_status(), STATUS_NOT_FOUND);
    assert_eq!(resp.get_content_type(), Some(Mime::ApplicationJson));
}
