use httpbin::assets::{
    extension_of_name, file_mimetype, file_name_of, mime_of_extension, serve, Asset,
};
use httpbin::http::{Mime, STATUS_NOT_FOUND, STATUS_OK};

#[test]
fn the_table_of_extensions() {
    let d = Mime::ApplicationOctetStream;
    assert_eq!(file_mimetype("a.css", d), Mime::TextCssUtf8);
    assert_eq!(file_mimetype("a.gif", d), Mime::ImageGif);
    assert_eq!(file_mimetype("a.html", d), Mime::TextHtmlUtf8);
    assert_eq!(file_mimetype("a.htm", d), Mime::TextHtmlUtf8);
    assert_eq!(file_mimetype("a.jpeg", d), Mime::ImageJpeg);
    assert_eq!(file_mimetype("a.jpg", d), Mime::ImageJpeg);
    assert_eq!(file_mimetype("a.png", d), Mime::ImagePng);
    assert_eq!(file_mimetype("a.js", d), Mime::TextJavascript);
    assert_eq!(file_mimetype("a.json", d), Mime::ApplicationJson);
    assert_eq!(file_mimetype("a.svg", d), Mime::ImageSvg);
    assert_eq!(file_mimetype("a.txt", d), Mime::TextPlain);
    assert_eq!(file_mimetype("a.webp", d), Mime::ImageWebp);
    assert_eq!(file_mimetype("a.xml", d), Mime::ApplicationXml);
}

#[test]
fn extensions_in_any_case() {
    let d = Mime::ApplicationOctetStream;
    assert_eq!(file_mimetype("A.PNG", d), Mime::ImagePng);
    assert_eq!(file_mimetype("a.WebP", d), Mime::ImageWebp);
    assert_eq!(mime_of_extension("JSON", d), Mime::ApplicationJson);
}

#[test]
fn the_default_decides_the_rest() {
    assert_eq!(file_mimetype("a.bin", Mime::TextPlain), Mime::TextPlain);
    assert_eq!(file_mimetype("noextension", Mime::ImageGif), Mime::ImageGif);
    assert_eq!(file_mimetype("", Mime::ImageGif), Mime::ImageGif);
    assert_eq!(file_mimetype(".png", Mime::ImageGif), Mime::ImageGif);
    assert_eq!(file_mimetype("a.png/", Mime::ImageGif), Mime::ImagePng);
    assert_eq!(file_mimetype("a.png/b", Mime::ImageGif), Mime::ImageGif);
    assert_eq!(file_mimetype("dir/b.txt", Mime::ImageGif), Mime::TextPlain);
    assert_eq!(file_mimetype("a.tar.js", Mime::ImageGif), Mime::TextJavascript);
    assert_eq!(file_mimetype("a.png/..", Mime::ImageGif), Mime::ImageGif);
    assert_eq!(file_mimetype("a.png.", Mime::ImageGif), Mime::ImageGif);
}

#[test]
fn file_names_and_extensions() {
    assert_eq!(file_name_of("/a/b.txt"), Some("b.txt".to_string()));
    assert_eq!(file_name_of("a/b/"), Some("b".to_string()));
    assert_eq!(file_name_of("a/b/."), Some("b".to_string()));
    assert_eq!(file_name_of("a/.."), None);
    assert_eq!(file_name_of("/"), None);
    assert_eq!(file_name_of("."), None);
    assert_eq!(file_name_of(""), None);
    assert_eq!(extension_of_name("a.b.c"), Some("c".to_string()));
    assert_eq!(extension_of_name("a."), Some(String::new()));
    assert_eq!(extension_of_name(".hidden"), None);
    assert_eq!(extension_of_name("..x"), Some("x".to_string()));
    assert_eq!(extension_of_name("plain"), None);
}

#[test]
fn these_agree_with_the_paths_of_the_standard_library() {
    for name in [
        "a.png", "a", ".a", "..a", "a.", "a/b.c", "a.b/", "a.b/.", "a.b/..", "/", "", ".", "..",
        "a.b/c", "x/.y", "x/y.z.w", "a//b.c//", "./a.b",
    ] {
        let expected = std::path::Path::new(name)
            .extension()
            .and_then(|e| e.to_str())
            .map(|e| e.to_string());
        let found = file_name_of(name).and_then(|n| extension_of_name(&n));
        assert_eq!(found, expected);
    }
}

#[test]
fn the_table_of_fixtures() {
    let assets = Asset::new()
        .with_file("a.txt", b"one".to_vec())
        .with_file("b.bin", b"two".to_vec())
        .with_file("a.txt", b"three".to_vec());
    assert_eq!(assets.get("a.txt"), Some(&b"three".to_vec()));
    assert_eq!(assets.get("b.bin"), Some(&b"two".to_vec()));
    assert_eq!(assets.get("A.txt"), None);
    assert_eq!(Asset::new().get("a.txt"), None);
}

#[test]
fn serving_a_fixture() {
    let assets = Asset::new().with_file("b.bin", b"two".to_vec()).with_file("c.SVG", b"s".to_vec());
    let resp = serve(&assets, "b.bin", Mime::TextPlain).unwrap();
    assert_eq!(resp.get_status(), STATUS_OK);
    assert_eq!(resp.get_content_type(), Some(Mime::TextPlain));
    assert_eq!(resp.body, b"two".to_vec());
    assert_eq!(resp.headers.len(), 1);
    let resp = serve(&assets, "c.SVG", Mime::TextPlain).unwrap();
    assert_eq!(resp.get_content_type(), Some(Mime::ImageSvg));
    let resp = serve(&assets, "missing", Mime::TextPlain).unwrap();
    assert_eq!(resp.get_status(), STATUS_NOT_FOUND);
    assert_eq!(resp.get_content_type(), Some(Mime::TextHtmlUtf8));
    assert_eq!(resp.body, b"E_NOTFOUND".to_vec());
}
