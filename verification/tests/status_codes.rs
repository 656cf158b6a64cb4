use httpbin::http::{Method, Mime, Request, STATUS_FOUND, STATUS_NOT_FOUND, STATUS_OK};
use httpbin::status_codes::{
    delete, get, is_registered_status, patch, post, put, respond_with, respond_with_one_of,
};

fn client(path: &str) -> Request {
    Request::new(Method::Get, "http", "example.com", path).with_client_ip("127.0.0.1")
}

#[test]
fn test_get_200() {
    let req = &client("/status/200");
    let resp = get(req);
    assert!(resp.is_ok());
    let resp = resp.unwrap();
    assert_eq!(resp.get_status(), STATUS_OK);
    assert_eq!(resp.get_content_type(), Some(Mime::TextHtmlUtf8));
}

#[test]
fn test_get_500() {
    let req = &client("/status/500");
    let resp = get(req);
    assert!(resp.is_ok());
    let resp = resp.unwrap();
    assert_eq!(resp.get_status(), 500);
    assert_eq!(resp.get_content_type(), Some(Mime::TextHtmlUtf8));
}

#[test]
fn test_post_302() {
    let mut req = client("/status/302");
    let resp = post(&mut req);
    assert!(resp.is_ok());
    let resp = resp.unwrap();
    assert_eq!(resp.get_status(), STATUS_FOUND);
    assert_eq!(resp.get_content_type(), Some(Mime::TextHtmlUtf8));
}

#[test]
fn test_post_non_existing() {
    let mut req = client("/status/9999");
    let resp = post(&mut req);
    assert!(resp.is_ok());
    let resp = resp.unwrap();
    assert_eq!(resp.get_status(), STATUS_NOT_FOUND);
    assert_eq!(resp.get_content_type(), Some(Mime::TextHtmlUtf8));
}

const REGISTERED: [u16; 62] = [
    100, 101, 102, 103, 200, 201, 202, 203, 204, 205, 206, 207, 208, 226, 300, 301, 302, 303, 304,
    305, 307, 308, 400, 401, 402, 403, 404, 405, 406, 407, 408, 409, 410, 411, 412, 413, 414, 415,
    416, 417, 418, 421, 422, 423, 424, 425, 426, 428, 429, 431, 451, 500, 501, 502, 503, 504, 505,
    506, 507, 508, 510, 511,
];

#[test]
fn every_registered_status_is_returned() {
    for c in REGISTERED {
        let resp = get(&client(&format!("/status/{}", c))).unwrap();
        assert_eq!(resp.get_status(), c);
        assert_eq!(resp.get_content_type(), Some(Mime::TextHtmlUtf8));
        assert!(resp.body.is_empty());
    }
}

#[test]
fn a_status_that_is_not_registered_is_not_found() {
    for c in 100..=999u16 {
        let resp = get(&client(&format!("/status/{}", c))).unwrap();
        if REGISTERED.contains(&c) {
            assert_eq!(resp.get_status(), c);
        } else {
            assert_eq!(resp.get_status(), STATUS_NOT_FOUND);
        }
        assert_eq!(is_registered_status(c), REGISTERED.contains(&c));
    }
    let resp = get(&client("/status/999")).unwrap();
    assert_eq!(resp.get_status(), STATUS_NOT_FOUND);
    assert_eq!(resp.get_content_type(), Some(Mime::TextHtmlUtf8));
    assert_eq!(respond_with("999").get_status(), STATUS_NOT_FOUND);
    assert_eq!(respond_with("306").get_status(), STATUS_NOT_FOUND);
    assert_eq!(respond_with("419").get_status(), STATUS_NOT_FOUND);
    assert!(!is_registered_status(0));
    assert!(!is_registered_status(99));
    assert!(!is_registered_status(1000));
}

#[test]
fn a_code_below_a_hundred_is_not_found() {
    assert_eq!(get(&client("/status/099")).unwrap().get_status(), STATUS_NOT_FOUND);
    assert_eq!(get(&client("/status/000")).unwrap().get_status(), STATUS_NOT_FOUND);
    assert_eq!(respond_with("99").get_status(), STATUS_NOT_FOUND);
    assert_eq!(respond_with("1000").get_status(), STATUS_NOT_FOUND);
    assert_eq!(respond_with("").get_status(), STATUS_NOT_FOUND);
    assert_eq!(respond_with("2x0").get_status(), STATUS_NOT_FOUND);
    assert_eq!(respond_with("418").get_status(), 418);
}

#[test]
fn a_list_answers_with_one_of_its_codes() {
    let mut seen = std::collections::BTreeSet::new();
    for _ in 0..200 {
        let status = get(&client("/status/200,404,503")).unwrap().get_status();
        assert!(status == 200 || status == 404 || status == 503);
        seen.insert(status);
    }
    assert!(seen.len() > 1);
}

#[test]
fn a_trailing_comma_lists_an_empty_code() {
    for _ in 0..50 {
        let status = get(&client("/status/201,")).unwrap().get_status();
        assert!(status == 201 || status == STATUS_NOT_FOUND);
    }
}

#[test]
fn one_of_picks_from_the_list() {
    let codes = vec!["201".to_string(), "202".to_string()];
    let mut seen = std::collections::BTreeSet::new();
    for _ in 0..200 {
        seen.insert(respond_with_one_of(&codes).get_status());
    }
    assert_eq!(seen.into_iter().collect::<Vec<u16>>(), vec![201, 202]);
}

#[test]
fn the_other_methods_answer_alike() {
    let mut req = client("/status/204");
    assert_eq!(put(&mut req).unwrap().get_status(), 204);
    assert_eq!(patch(&mut req).unwrap().get_status(), 204);
    assert_eq!(delete(&req).unwrap().get_status(), 204);
    assert_eq!(req.path, "/status/204");
}

#[test]
fn a_path_without_codes_is_not_found() {
    let resp = get(&client("/status/")).unwrap();
    assert_eq!(resp.get_status(), STATUS_NOT_FOUND);
    assert_eq!(resp.get_content_type(), Some(Mime::TextHtmlUtf8));
    assert_eq!(get(&client("/status/20")).unwrap().get_status(), STATUS_NOT_FOUND);
}
