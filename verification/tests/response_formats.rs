use httpbin::assets::Asset;
use httpbin::http::{Method, Mime, Request, STATUS_NOT_FOUND, STATUS_OK};
use httpbin::req_to_json;
use httpbin::response_formats::{
    brotli, deflate, deny, encoding_utf8, gzip, html, json, robots_txt, xml,
};

const JSON_FIXTURE: &str = "{\n  \"slideshow\": {\n    \"author\": \"Yours Truly\", \n    \"date\": \"date of publication\", \n    \"slides\": [\n      {\n        \"title\": \"Wake up to WonderWidgets!\", \n        \"type\": \"all\"\n      }, \n      {\n        \"items\": [\n          \"Why <em>WonderWidgets</em> are great\", \n          \"Who <em>buys</em> WonderWidgets\"\n        ], \n        \"title\": \"Overview\", \n        \"type\": \"all\"\n      }\n    ], \n    \"title\": \"Sample Slide Show\"\n  }\n}\n";

const XML_FIXTURE: &str = "<?xml version='1.0' encoding='us-ascii'?>\n\n<!--  A SAMPLE set of slides  -->\n\n<slideshow \n    title=\"Sample Slide Show\"\n    date=\"Date of publication\"\n    author=\"Yours Truly\"\n    >\n\n    <!-- TITLE SLIDE -->\n    <slide type=\"all\">\n      <title>Wake up to WonderWidgets!</title>\n    </slide>\n\n    <!-- OVERVIEW -->\n    <slide type=\"all\">\n        <title>Overview</title>\n        <item>Why <em>WonderWidgets</em> are great</item>\n        <item/>\n        <item>Who <em>buys</em> WonderWidgets</item>\n    </slide>\n\n</slideshow>";

const ROBOTS_FIXTURE: &str = "User-agent: *\nDisallow: /deny\n";

const DENY_FIXTURE: &str = "\n          .-''''''-.\n        .' _      _ '.\n       /   O      O   \\\n      :                :\n      |                |\n      :       __       :\n       \\  .-\"`  `\"-.  /\n        '.          .'\n          '-......-'\n     YOU SHOULDN'T BE HERE\n";

fn client(path: &str) -> Request {
    Request::new(Method::Get, "http", "example.com", path).with_client_ip("127.0.0.1")
}

fn fixtures() -> Asset {
    Asset::new()
        .with_file("json.json", JSON_FIXTURE.as_bytes().to_vec())
        .with_file("xml.xml", XML_FIXTURE.as_bytes().to_vec())
        .with_file("robots.txt", ROBOTS_FIXTURE.as_bytes().to_vec())
        .with_file("deny.txt", DENY_FIXTURE.as_bytes().to_vec())
        .with_file("html.html", b"<html></html>".to_vec())
        .with_file("utf8.txt", "\u{2200}x".as_bytes().to_vec())
}

#[test]
fn test_deflate_with_valid_request() {
    let req = &client("/deflate?foo=bar");

    let resp = deflate(req);
    assert!(resp.is_ok());
    let resp = resp.unwrap();

    assert_eq!(resp.get_status(), STATUS_OK);
    assert_eq!(resp.get_header_str("content-type").unwrap(), "application/json");
    assert_eq!(resp.get_header_str("content-encoding").unwrap(), "deflate");
}

#[test]
fn test_json() {
    let req = &client("/json");

    let resp = json(&fixtures(), req);
    assert!(resp.is_ok());
    let resp = resp.unwrap();

    assert_eq!(resp.get_status(), STATUS_OK);
    assert_eq!(resp.get_header_str("content-type").unwrap(), "application/json");
    assert_eq!(String::from_utf8(resp.body).unwrap(), JSON_FIXTURE);
}

#[test]
fn test_xml() {
    let req = &client("/xml").with_header("accept", "*/*");

    let resp = xml(&fixtures(), req);
    assert!(resp.is_ok());
    let resp = resp.unwrap();

    assert_eq!(resp.get_status(), STATUS_OK);
    assert_eq!(resp.get_header_str("content-type").unwrap(), "application/xml");
    assert_eq!(String::from_utf8(resp.body).unwrap(), XML_FIXTURE);
}

#[test]
fn test_robots_txt() {
    let req = &client("/robots").with_header("accept", "*/*");

    let resp = robots_txt(&fixtures(), req);
    assert!(resp.is_ok());
    let resp = resp.unwrap();

    assert_eq!(resp.get_status(), STATUS_OK);
    assert_eq!(resp.get_header_str("content-type").unwrap(), "text/plain");
    assert_eq!(String::from_utf8(resp.body).unwrap(), "User-agent: *\nDisallow: /deny\n");
}

#[test]
fn test_deny() {
    let req = &client("/deny").with_header("accept", "text/plain");

    let resp = deny(&fixtures(), req);
    assert!(resp.is_ok());
    let resp = resp.unwrap();

    assert_eq!(resp.get_status(), STATUS_OK);
    assert_eq!(resp.get_header_str("content-type").unwrap(), "text/plain");
    assert_eq!(String::from_utf8(resp.body).unwrap(), DENY_FIXTURE);
}

#[test]
fn html_is_served_as_html_in_utf8() {
    let resp = html(&fixtures(), &client("/html")).unwrap();
    assert_eq!(resp.get_content_type(), Some(Mime::TextHtmlUtf8));
    assert_eq!(resp.body, b"<html></html>".to_vec());
}

#[test]
fn utf8_sample_is_plain_text() {
    let resp = encoding_utf8(&fixtures(), &client("/utf8")).unwrap();
    assert_eq!(resp.get_content_type(), Some(Mime::TextPlain));
    assert_eq!(resp.body, "\u{2200}x".as_bytes().to_vec());
}

#[test]
fn a_missing_fixture_is_not_found() {
    let resp = json(&Asset::new(), &client("/json")).unwrap();
    assert_eq!(resp.get_status(), STATUS_NOT_FOUND);
    assert_eq!(resp.get_content_type(), Some(Mime::TextHtmlUtf8));
    assert_eq!(resp.body, b"E_NOTFOUND".to_vec());
}

#[test]
fn deflate_compresses_the_echo() {
    let req = client("/deflate").with_query_str("foo=bar");
    let plain = req_to_json(&req);
    let resp = deflate(&req).unwrap();
    assert!(!resp.body.is_empty());
    assert_ne!(resp.body, plain.as_bytes().to_vec());
    // The stream depends on the request alone.
    assert_eq!(resp.body, deflate(&req).unwrap().body);
}

#[test]
fn gzip_is_framed() {
    let req = client("/gzip");
    let plain = req_to_json(&req);
    let resp = gzip(&req).unwrap();
    assert_eq!(resp.get_status(), STATUS_OK);
    assert_eq!(resp.get_header_str("content-type").unwrap(), "application/json");
    assert_eq!(resp.get_header_str("content-encoding").unwrap(), "gzip");
    assert!(resp.body.len() >= 18);
    assert_eq!(&resp.body[0..3], &[0x1f, 0x8b, 8]);
    // The trailer ends with the length of the plain text.
    let n = resp.body.len();
    let size = u32::from_le_bytes([resp.body[n - 4], resp.body[n - 3], resp.body[n - 2], resp.body[n - 1]]);
    assert_eq!(size as usize, plain.len());
    // Between header and trailer stands the DEFLATE stream of the echo.
    assert_eq!(resp.body[10..n - 8].to_vec(), deflate(&req).unwrap().body);
}

#[test]
fn brotli_compresses_the_echo() {
    let req = client("/brotli").with_header("x-long", &"a".repeat(300));
    let plain = req_to_json(&req);
    let resp = brotli(&req).unwrap();
    assert_eq!(resp.get_status(), STATUS_OK);
    assert_eq!(resp.get_header_str("content-type").unwrap(), "application/json");
    assert_eq!(resp.get_header_str("content-encoding").unwrap(), "br");
    assert!(!resp.body.is_empty());
    assert!(resp.body.len() < plain.len());
    assert_eq!(resp.body, brotli(&req).unwrap().body);
}
