use fastly_inspect::pages::{
    allowed_methods, file_mimetype, method_not_allowed_body, not_found_body, path_extension,
    route, speed_test_payload, type_of_extension, ContentType, PageRoute,
    SPEED_TEST_PAYLOAD_LEN,
};

const OCTET: ContentType = ContentType::ApplicationOctetStream;

#[test]
fn known_extensions() {
    assert_eq!(file_mimetype("style.css", OCTET), ContentType::TextCssUtf8);
    assert_eq!(file_mimetype("a.gif", OCTET), ContentType::ImageGif);
    assert_eq!(file_mimetype("index.html", OCTET), ContentType::TextHtmlUtf8);
    assert_eq!(file_mimetype("old.htm", OCTET), ContentType::TextHtmlUtf8);
    assert_eq!(file_mimetype("p.jpeg", OCTET), ContentType::ImageJpeg);
    assert_eq!(file_mimetype("p.jpg", OCTET), ContentType::ImageJpeg);
    assert_eq!(file_mimetype("js/app.js", OCTET), ContentType::TextJavascript);
    assert_eq!(file_mimetype("data.json", OCTET), ContentType::ApplicationJson);
    assert_eq!(file_mimetype("img/logo.png", OCTET), ContentType::ImagePng);
    assert_eq!(file_mimetype("icon.svg", OCTET), ContentType::ImageSvg);
    assert_eq!(file_mimetype("pkg/inspect_bg.wasm", OCTET), ContentType::ApplicationWasm);
}

#[test]
fn extensions_ignore_case() {
    assert_eq!(file_mimetype("STYLE.CSS", OCTET), ContentType::TextCssUtf8);
    assert_eq!(file_mimetype("Photo.JpG", OCTET), ContentType::ImageJpeg);
    assert_eq!(file_mimetype("x.Wasm", OCTET), ContentType::ApplicationWasm);
}

#[test]
fn unknown_or_missing_extensions_take_the_default() {
    assert_eq!(file_mimetype("api/req_infos", ContentType::ApplicationJson), ContentType::ApplicationJson);
    assert_eq!(file_mimetype("archive.tar.gz", OCTET), OCTET);
    assert_eq!(file_mimetype(".css", OCTET), OCTET);
    assert_eq!(file_mimetype("file.", OCTET), OCTET);
    assert_eq!(file_mimetype("", OCTET), OCTET);
    assert_eq!(file_mimetype("dir.css/..", OCTET), OCTET);
    assert_eq!(file_mimetype("css", OCTET), OCTET);
}

#[test]
fn extension_follows_path_rules() {
    assert_eq!(path_extension("foo.txt/."), Some("txt".to_string()));
    assert_eq!(path_extension("foo.txt//"), Some("txt".to_string()));
    assert_eq!(path_extension("a/b.c.d"), Some("d".to_string()));
    assert_eq!(path_extension("foo."), Some("".to_string()));
    assert_eq!(path_extension("a/.hidden"), None);
    assert_eq!(path_extension("a/..hidden"), Some("hidden".to_string()));
    assert_eq!(path_extension("/"), None);
    assert_eq!(path_extension("."), None);
    assert_eq!(path_extension("x.js/.."), None);
    assert_eq!(path_extension("a.b/c"), None);
    assert_eq!(path_extension("./a.svg/./"), Some("svg".to_string()));
}

#[test]
fn extension_matching_is_exact() {
    assert_eq!(type_of_extension("css", OCTET), ContentType::TextCssUtf8);
    assert_eq!(type_of_extension("CSS", OCTET), OCTET);
    assert_eq!(type_of_extension("csss", OCTET), OCTET);
}

#[test]
fn content_type_texts() {
    assert_eq!(ContentType::TextCssUtf8.text(), "text/css; charset=utf-8");
    assert_eq!(ContentType::TextHtmlUtf8.text(), "text/html; charset=utf-8");
    assert_eq!(ContentType::ImageSvg.text(), "image/svg+xml");
    assert_eq!(ContentType::ApplicationWasm.text(), "application/wasm");
    assert_eq!(ContentType::ApplicationOctetStream.text(), "application/octet-stream");
    assert_eq!(ContentType::TextJavascript.text(), "text/javascript");
}

#[test]
fn only_get_and_head_are_served() {
    assert!(matches!(route("POST", "/"), PageRoute::MethodNotAllowed));
    assert!(matches!(route("get", "/"), PageRoute::MethodNotAllowed));
    assert!(matches!(route("HEAD", "/index.html"), PageRoute::Asset(_)));
}

#[test]
fn api_routes() {
    assert!(matches!(route("GET", "/api/req_infos"), PageRoute::ReqInfos));
    assert!(matches!(route("GET", "//api/req_infos"), PageRoute::ReqInfos));
    assert!(matches!(route("GET", "/api/speedtest"), PageRoute::SpeedTest));
    match route("GET", "/api/speed_test") {
        PageRoute::Asset(name) => assert_eq!(name, "api/speed_test"),
        _ => panic!("expected an asset"),
    }
}

#[test]
fn root_serves_the_index() {
    match route("GET", "/") {
        PageRoute::Asset(name) => assert_eq!(name, "index.html"),
        _ => panic!("expected an asset"),
    }
    match route("GET", "") {
        PageRoute::Asset(name) => assert_eq!(name, "index.html"),
        _ => panic!("expected an asset"),
    }
    match route("GET", "/css/app.css") {
        PageRoute::Asset(name) => assert_eq!(name, "css/app.css"),
        _ => panic!("expected an asset"),
    }
}

#[test]
fn fixed_answers() {
    assert_eq!(method_not_allowed_body(), "This method is not allowed\n");
    assert_eq!(allowed_methods(), "GET, HEAD");
    assert_eq!(not_found_body("/missing.png"), "404 error, /missing.png not found!");
    let p = speed_test_payload();
    assert_eq!(p.len(), SPEED_TEST_PAYLOAD_LEN);
    assert_eq!(p, "b".repeat(500 * 1024));
}
