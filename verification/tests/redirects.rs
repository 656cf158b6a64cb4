use httpbin::http::{Method, Mime, Request, STATUS_FOUND, STATUS_NOT_FOUND};
use httpbin::redirects::{absolute_redirect, count_of, next_step, redirect, relative_redirect};

fn client(path: &str) -> Request {
    Request::new(Method::Get, "http", "example.com", path).with_client_ip("127.0.0.1")
}

#[test]
fn test_absolute_redirect_success() {
    let req = &client("/absolute-redirect/4");
    let resp = absolute_redirect(req);
    assert!(resp.is_ok());
    let resp = resp.unwrap();
    assert_eq!(resp.get_status(), STATUS_FOUND);
    assert_eq!(resp.get_content_type(), Some(Mime::TextHtmlUtf8));
    assert_eq!(
        resp.get_header_str("location").as_deref(),
        Some("http://example.com/absolute-redirect/3")
    );
}

#[test]
fn test_absolute_redirect_too_many_redirects() {
    let req = &client("/absolute-redirect/41");
    let resp = absolute_redirect(req);
    assert!(resp.is_ok());
    let resp = resp.unwrap();
    assert_eq!(resp.get_status(), STATUS_NOT_FOUND);
    assert_eq!(resp.get_content_type(), Some(Mime::TextHtmlUtf8));
}

#[test]
fn test_relative_redirect_success() {
    let req = &client("/relative-redirect/3");
    let resp = relative_redirect(req);
    assert!(resp.is_ok());
    let resp = resp.unwrap();
    assert_eq!(resp.get_status(), STATUS_FOUND);
    assert_eq!(resp.get_content_type(), Some(Mime::TextHtmlUtf8));
    assert_eq!(resp.get_header_str("location").as_deref(), Some("/relative-redirect/2"));
}

#[test]
fn test_relative_redirect_too_many_redirects() {
    let req = &client("/relative-redirect/15");
    let resp = relative_redirect(req);
    assert!(resp.is_ok());
    let resp = resp.unwrap();
    assert_eq!(resp.get_status(), STATUS_NOT_FOUND);
    assert_eq!(resp.get_content_type(), Some(Mime::TextHtmlUtf8));
}

#[test]
fn test_redirect() {
    let req = &client("/redirect/5");
    let resp = redirect(req);
    assert!(resp.is_ok());
    let resp = resp.unwrap();
    assert_eq!(resp.get_status(), STATUS_FOUND);
    assert_eq!(resp.get_content_type(), Some(Mime::TextHtmlUtf8));
    assert_eq!(resp.get_header_str("location").as_deref(), Some("/relative-redirect/4"));
}

#[test]
fn every_count_steps_down_to_get() {
    for n in 2..=9u32 {
        let resp = relative_redirect(&client(&format!("/relative-redirect/{}", n))).unwrap();
        assert_eq!(
            resp.get_header_str("location"),
            Some(format!("/relative-redirect/{}", n - 1))
        );
        let resp = absolute_redirect(&client(&format!("/absolute-redirect/{}", n))).unwrap();
        assert_eq!(
            resp.get_header_str("location"),
            Some(format!("http://example.com/absolute-redirect/{}", n - 1))
        );
    }
    let resp = relative_redirect(&client("/relative-redirect/1")).unwrap();
    assert_eq!(resp.get_header_str("location").as_deref(), Some("/get"));
    let resp = redirect(&client("/redirect/1")).unwrap();
    assert_eq!(resp.get_header_str("location").as_deref(), Some("/get"));
    let resp = absolute_redirect(&client("/absolute-redirect/1")).unwrap();
    assert_eq!(resp.get_header_str("location").as_deref(), Some("http://example.com/get"));
}

#[test]
fn count_of_zero_leads_to_get() {
    let resp = relative_redirect(&client("/relative-redirect/0")).unwrap();
    assert_eq!(resp.get_status(), STATUS_FOUND);
    assert_eq!(resp.get_header_str("location").as_deref(), Some("/get"));
}

#[test]
fn absolute_redirect_uses_scheme_and_host() {
    let req = Request::new(Method::Get, "https", "httpbin.test:8443", "/absolute-redirect/2");
    let resp = absolute_redirect(&req).unwrap();
    assert_eq!(
        resp.get_header_str("location").as_deref(),
        Some("https://httpbin.test:8443/absolute-redirect/1")
    );
}

#[test]
fn a_path_without_digit_is_not_found() {
    assert_eq!(relative_redirect(&client("/relative-redirect/x")).unwrap().get_status(), 404);
    assert_eq!(absolute_redirect(&client("/absolute-redirect/")).unwrap().get_status(), 404);
}

#[test]
fn count_and_step() {
    assert_eq!(count_of(&Some("7".to_string())), 7);
    assert_eq!(count_of(&Some("x".to_string())), 404);
    assert_eq!(count_of(&None), 404);
    assert_eq!(next_step("/p/", 404), "/p/403");
    assert_eq!(next_step("/p/", 2), "/p/1");
    assert_eq!(next_step("/p/", 1), "/get");
    assert_eq!(next_step("/p/", 0), "/get");
}
