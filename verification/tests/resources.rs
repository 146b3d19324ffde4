use samp_cef::assets::resolve_asset_request_path;
use samp_cef::paths::{render, split_path};
use samp_cef::resource::{AssetResourceHandler, FileRead};

const DIR: &str = "C:\\game\\cef\\assets";

#[test]
fn reset_forgets_response() {
    let mut h = AssetResourceHandler::new();
    h.set_response(200, "OK", "image/png", vec![1, 2, 3]);
    h.offset = 2;
    h.reset();
    assert_eq!(h.status_code, 0);
    assert_eq!(h.status_text, "");
    assert_eq!(h.mime_type, "");
    assert!(h.body.is_empty());
    assert_eq!(h.offset, 0);
}

#[test]
fn set_response_holds_it_unread() {
    let mut h = AssetResourceHandler::new();
    h.offset = 7;
    h.set_response(404, "Not Found", "text/plain; charset=utf-8", vec![9]);
    assert_eq!(h.status_code, 404);
    assert_eq!(h.status_text, "Not Found");
    assert_eq!(h.mime_type, "text/plain; charset=utf-8");
    assert_eq!(h.body, vec![9]);
    assert_eq!(h.offset, 0);
}

#[test]
fn methods_other_than_get_and_head_are_refused() {
    let mut h = AssetResourceHandler::new();
    let r = h.prepare_response("POST", "sampcef://assets/index.html", DIR);
    assert!(r.is_none());
    assert_eq!(h.status_code, 405);
    assert_eq!(h.status_text, "Method Not Allowed");
    assert_eq!(h.body, b"Method Not Allowed".to_vec());
}

#[test]
fn unparsable_urls_are_bad_requests() {
    let mut h = AssetResourceHandler::new();
    assert!(h.prepare_response("get", "::nonsense", DIR).is_none());
    assert_eq!(h.status_code, 400);
    assert_eq!(h.status_text, "Bad Request");
}

#[test]
fn other_hosts_and_undecodable_paths_are_forbidden() {
    let mut h = AssetResourceHandler::new();
    assert!(h.prepare_response("GET", "sampcef://other/index.html", DIR).is_none());
    assert_eq!(h.status_code, 403);
    let mut h = AssetResourceHandler::new();
    assert!(h.prepare_response("GET", "sampcef://assets/%FF/secret.txt", DIR).is_none());
    assert_eq!(h.status_code, 403);
    assert_eq!(h.status_text, "Forbidden");
}

#[test]
fn requests_name_files_under_the_assets_directory() {
    let mut h = AssetResourceHandler::new();
    let p = h.prepare_response("HEAD", "sampcef://assets/ui/my%20app.js?x=1", DIR).unwrap();
    assert_eq!(render(&p), "C:\\game\\cef\\assets\\ui\\my app.js");
    assert_eq!(h.status_code, 0);

    let p = h.prepare_response("GET", "sampcef://assets/", DIR).unwrap();
    assert_eq!(render(&p), "C:\\game\\cef\\assets\\index.html");

    let p = h.prepare_response("GET", "sampcef://assets/menu/", DIR).unwrap();
    assert_eq!(render(&p), "C:\\game\\cef\\assets\\menu\\index.html");

    let p = h.prepare_response("GET", "sampcef://assets/./a/./b.css", DIR).unwrap();
    assert_eq!(render(&p), "C:\\game\\cef\\assets\\a\\b.css");
}

#[test]
fn resolve_asset_request_path_decodes_segments() {
    let dir = split_path(DIR);
    let url = samp_cef::assets::UrlParts {
        scheme: "sampcef".to_string(),
        host: Some("assets".to_string()),
        path: "/img/a%2Bb.png".to_string(),
        query: None,
        fragment: None,
    };
    let p = resolve_asset_request_path(&url, &dir).unwrap();
    assert_eq!(render(&p), "C:\\game\\cef\\assets\\img\\a+b.png");

    let bad = samp_cef::assets::UrlParts {
        scheme: "sampcef".to_string(),
        host: Some("assets".to_string()),
        path: "/%FF.png".to_string(),
        query: None,
        fragment: None,
    };
    assert!(resolve_asset_request_path(&bad, &dir).is_none());
}

#[test]
fn admit_asset_checks_the_root() {
    let mut h = AssetResourceHandler::new();
    assert!(h.admit_asset(Some("C:\\g\\assets"), Some("C:\\g\\assets\\a.png")));
    assert_eq!(h.status_code, 0);
    assert!(!h.admit_asset(Some("C:\\g\\assets"), Some("C:\\g\\a.png")));
    assert_eq!(h.status_code, 403);
    assert!(!h.admit_asset(None, None));
}

#[test]
fn deliver_asset_answers() {
    let mut h = AssetResourceHandler::new();
    h.deliver_asset("GET", "C:\\a\\page.html", FileRead::Contents(vec![60, 104]));
    assert_eq!(h.status_code, 200);
    assert_eq!(h.status_text, "OK");
    assert_eq!(h.mime_type, "text/html; charset=utf-8");
    assert_eq!(h.body, vec![60, 104]);

    h.deliver_asset("head", "C:\\a\\pic.PNG", FileRead::Contents(vec![1, 2]));
    assert_eq!(h.mime_type, "image/png");
    assert!(h.body.is_empty());

    h.deliver_asset("GET", "C:\\a\\x", FileRead::NotFound);
    assert_eq!(h.status_code, 404);
    assert_eq!(h.status_text, "Not Found");

    h.deliver_asset("GET", "C:\\a\\x", FileRead::Failed);
    assert_eq!(h.status_code, 500);
    assert_eq!(h.status_text, "Internal Server Error");
}

#[test]
fn body_is_read_in_chunks() {
    let mut h = AssetResourceHandler::new();
    h.set_response(200, "OK", "text/plain", vec![1, 2, 3, 4, 5]);
    assert_eq!(h.read_body_chunk(2), (vec![1, 2], true));
    assert_eq!(h.read_body_chunk(-4), (vec![], false));
    assert_eq!(h.read_body_chunk(10), (vec![3, 4, 5], true));
    assert_eq!(h.read_body_chunk(10), (vec![], false));
    assert_eq!(h.offset, 5);
}

#[test]
fn skip_moves_within_the_body() {
    let mut h = AssetResourceHandler::new();
    h.set_response(200, "OK", "text/plain", vec![1, 2, 3, 4, 5]);
    assert_eq!(h.skip(-1), 0);
    assert_eq!(h.skip(3), 3);
    assert_eq!(h.skip(100), 2);
    assert_eq!(h.skip(1), 0);
    assert_eq!(h.read_body_chunk(1), (vec![], false));
}
