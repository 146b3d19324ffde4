use samp_cef::assets::{
    finish_browser_url, has_url_scheme, is_valid_asset_url, mime_type_for_path, parse_file_url,
    parse_local_path_input, resolve_browser_url, resolve_relative_local_path, secure_asset_path,
    split_local_suffix, BrowserTarget,
};
use samp_cef::paths::{join, normalize_path, render, split_path, strip_prefix, PathPart};

fn rendered(p: &Vec<PathPart>) -> String {
    render(p)
}

#[test]
fn split_and_render_windows_paths() {
    assert_eq!(rendered(&split_path("C:\\games\\gta\\cef")), "C:\\games\\gta\\cef");
    assert_eq!(rendered(&split_path("C:/games//gta/")), "C:\\games\\gta");
    assert_eq!(rendered(&split_path("./ui/index.html")), ".\\ui\\index.html");
    assert_eq!(rendered(&split_path("a/./b")), "a\\b");
    assert_eq!(rendered(&split_path("\\root\\x")), "\\root\\x");
    assert_eq!(split_path("").len(), 0);
}

#[test]
fn normalize_path_resolves_dots() {
    let p = split_path("C:\\a\\b\\..\\c\\.\\d");
    let n = normalize_path(&p).unwrap();
    assert_eq!(rendered(&n), "C:\\a\\c\\d");
}

#[test]
fn normalize_path_refuses_climbing_out() {
    assert!(normalize_path(&split_path("..\\x")).is_none());
    assert!(normalize_path(&split_path("C:\\..")).is_none());
    assert!(normalize_path(&split_path("a\\..\\..")).is_none());
}

#[test]
fn join_replaces_or_appends() {
    let base = split_path("C:\\game");
    assert_eq!(rendered(&join(&base, &split_path("cef\\assets"))), "C:\\game\\cef\\assets");
    assert_eq!(rendered(&join(&base, &split_path("D:\\other"))), "D:\\other");
    assert_eq!(rendered(&join(&base, &split_path("\\top"))), "C:\\top");
}

#[test]
fn strip_prefix_ignores_drive_case() {
    let p = split_path("c:\\game\\cef\\assets\\ui\\a.js");
    let root = split_path("C:\\game\\cef\\assets");
    let rel = strip_prefix(&p, &root).unwrap();
    assert_eq!(rendered(&rel), "ui\\a.js");
    assert!(strip_prefix(&split_path("C:\\other\\a.js"), &root).is_none());
}

#[test]
fn has_url_scheme_cases() {
    assert!(has_url_scheme("https://example.com"));
    assert!(has_url_scheme("about:blank"));
    assert!(has_url_scheme("sampcef://assets/index.html"));
    assert!(has_url_scheme("a+b.c-d:rest"));
    assert!(!has_url_scheme("C:\\games\\index.html"));
    assert!(!has_url_scheme("C:/games/index.html"));
    assert!(!has_url_scheme("ui/index.html"));
    assert!(!has_url_scheme("1abc:x"));
    assert!(!has_url_scheme(":x"));
    assert!(has_url_scheme("c:x"));
}

#[test]
fn split_local_suffix_cases() {
    let (p, q, f) = split_local_suffix("ui/index.html?a=1#top");
    assert_eq!(p, "ui/index.html");
    assert_eq!(q.as_deref(), Some("a=1"));
    assert_eq!(f.as_deref(), Some("top"));

    let (p, q, f) = split_local_suffix("index.html#x?y");
    assert_eq!(p, "index.html");
    assert_eq!(q, None);
    assert_eq!(f.as_deref(), Some("x?y"));

    let (p, q, f) = split_local_suffix("plain");
    assert_eq!(p, "plain");
    assert_eq!(q, None);
    assert_eq!(f, None);
}

#[test]
fn relative_paths_go_under_the_assets_directory() {
    let dir = split_path("C:\\game\\cef\\assets");
    let r = resolve_relative_local_path(&split_path("ui/index.html"), &dir).unwrap();
    assert_eq!(rendered(&r), "C:\\game\\cef\\assets\\ui\\index.html");

    let r = resolve_relative_local_path(&split_path("CEF/Assets/ui/x.html"), &dir).unwrap();
    assert_eq!(rendered(&r), "C:\\game\\cef\\assets\\ui\\x.html");

    assert!(resolve_relative_local_path(&split_path("cef/other/x.html"), &dir).is_none());
    assert!(resolve_relative_local_path(&split_path("cef"), &dir).is_none());
}

#[test]
fn local_path_input_cases() {
    let dir = split_path("C:\\game\\cef\\assets");
    let (q, f, p) = parse_local_path_input("ui/index.html?x=2#a", &dir).unwrap();
    assert_eq!(q.as_deref(), Some("x=2"));
    assert_eq!(f.as_deref(), Some("a"));
    assert_eq!(rendered(&p), "C:\\game\\cef\\assets\\ui\\index.html");

    let (_, _, p) = parse_local_path_input("D:\\web\\page.html", &dir).unwrap();
    assert_eq!(rendered(&p), "D:\\web\\page.html");

    assert!(parse_local_path_input("https://example.com", &dir).is_none());
    assert!(parse_local_path_input("cef/plugins/x.dll", &dir).is_none());
}

#[test]
fn asset_urls_are_recognised() {
    assert!(is_valid_asset_url("sampcef://assets/index.html"));
    assert!(is_valid_asset_url("SAMPCEF://assets/ui/a.js"));
    assert!(!is_valid_asset_url("sampcef://ASSETS/ui/a.js"));
    assert!(!is_valid_asset_url("sampcef://other/index.html"));
    assert!(!is_valid_asset_url("https://assets/index.html"));
    assert!(!is_valid_asset_url("not a url"));
}

#[test]
fn parse_file_url_reads_query_and_fragment() {
    assert!(parse_file_url("https://example.com/").is_none());
    assert!(parse_file_url("nonsense").is_none());
    if let Some((_, q, f)) = parse_file_url("file:///C:/game/cef/assets/index.html?a=1#b") {
        assert_eq!(q.as_deref(), Some("a=1"));
        assert_eq!(f.as_deref(), Some("b"));
    }
}

#[test]
fn resolve_browser_url_cases() {
    let dir = "C:\\game\\cef\\assets";
    match resolve_browser_url("   ", dir) {
        BrowserTarget::Url(u) => assert_eq!(u, "about:blank"),
        _ => panic!("an empty input leads to the blank page"),
    }
    match resolve_browser_url(" https://example.com/page ", dir) {
        BrowserTarget::Url(u) => assert_eq!(u, "https://example.com/page"),
        _ => panic!("a URL is kept"),
    }
    match resolve_browser_url("sampcef://assets/ui/index.html", dir) {
        BrowserTarget::Url(u) => assert_eq!(u, "sampcef://assets/ui/index.html"),
        _ => panic!("an asset URL is kept"),
    }
    match resolve_browser_url("ui/../menu/index.html?x=1", dir) {
        BrowserTarget::LocalFile { path, query, fragment } => {
            assert_eq!(rendered(&path), "C:\\game\\cef\\assets\\menu\\index.html");
            assert_eq!(query.as_deref(), Some("x=1"));
            assert_eq!(fragment, None);
        }
        _ => panic!("a relative path is a local file"),
    }
    match resolve_browser_url("cef/plugins/evil.dll", dir) {
        BrowserTarget::Url(u) => assert_eq!(u, "about:blank"),
        _ => panic!("a path in cef outside assets is refused"),
    }
}

#[test]
fn finish_browser_url_builds_asset_urls() {
    let target = BrowserTarget::LocalFile {
        path: split_path("C:\\g\\cef\\assets\\ui\\index.html"),
        query: Some("a=1".to_string()),
        fragment: Some("top".to_string()),
    };
    let url = finish_browser_url(
        &target,
        Some("C:\\g\\cef\\assets"),
        Some("C:\\g\\cef\\assets\\ui\\index.html"),
    );
    assert_eq!(url, "sampcef://assets/ui/index.html?a=1#top");

    let spaced = BrowserTarget::LocalFile {
        path: split_path("C:\\g\\cef\\assets\\my page.html"),
        query: None,
        fragment: None,
    };
    let url = finish_browser_url(&spaced, Some("C:\\g\\cef\\assets"), Some("C:\\g\\cef\\assets\\my page.html"));
    assert_eq!(url, "sampcef://assets/my%20page.html");
}

#[test]
fn finish_browser_url_blocks_outside_root() {
    let target = BrowserTarget::LocalFile { path: split_path("C:\\g\\x.html"), query: None, fragment: None };
    assert_eq!(finish_browser_url(&target, Some("C:\\g\\cef\\assets"), Some("C:\\g\\x.html")), "about:blank");
    assert_eq!(finish_browser_url(&target, None, Some("C:\\g\\x.html")), "about:blank");
    assert_eq!(finish_browser_url(&target, Some("C:\\g\\cef\\assets"), None), "about:blank");
    let url = BrowserTarget::Url("https://a.b/".to_string());
    assert_eq!(finish_browser_url(&url, None, None), "https://a.b/");
}

#[test]
fn secure_asset_path_cases() {
    assert!(secure_asset_path(Some("C:\\g\\assets"), Some("C:\\g\\assets\\a\\b.png")));
    assert!(secure_asset_path(Some("C:\\g\\assets"), Some("C:\\g\\assets")));
    assert!(!secure_asset_path(Some("C:\\g\\assets"), Some("C:\\g\\assets2\\b.png")));
    assert!(!secure_asset_path(None, Some("C:\\g\\assets\\a")));
}

#[test]
fn mime_types_by_extension() {
    assert_eq!(mime_type_for_path("C:\\a\\index.HTML"), "text/html; charset=utf-8");
    assert_eq!(mime_type_for_path("x.htm"), "text/html; charset=utf-8");
    assert_eq!(mime_type_for_path("app.mjs"), "text/javascript; charset=utf-8");
    assert_eq!(mime_type_for_path("a.css"), "text/css; charset=utf-8");
    assert_eq!(mime_type_for_path("a.csv"), "text/csv; charset=utf-8");
    assert_eq!(mime_type_for_path("a.gif"), "image/gif");
    assert_eq!(mime_type_for_path("a.jpg"), "image/jpeg");
    assert_eq!(mime_type_for_path("a.jpeg"), "image/jpeg");
    assert_eq!(mime_type_for_path("a.json"), "application/json; charset=utf-8");
    assert_eq!(mime_type_for_path("a.mp3"), "audio/mpeg");
    assert_eq!(mime_type_for_path("a.ogg"), "audio/ogg");
    assert_eq!(mime_type_for_path("a.png"), "image/png");
    assert_eq!(mime_type_for_path("a.svg"), "image/svg+xml");
    assert_eq!(mime_type_for_path("a.txt"), "text/plain; charset=utf-8");
    assert_eq!(mime_type_for_path("a.wasm"), "application/wasm");
    assert_eq!(mime_type_for_path("a.webm"), "video/webm");
    assert_eq!(mime_type_for_path("a.webp"), "image/webp");
    assert_eq!(mime_type_for_path("a.woff"), "font/woff");
    assert_eq!(mime_type_for_path("a.woff2"), "font/woff2");
    assert_eq!(mime_type_for_path("a.xml"), "application/xml; charset=utf-8");
    assert_eq!(mime_type_for_path("a.bin"), "application/octet-stream");
    assert_eq!(mime_type_for_path("noext"), "application/octet-stream");
    assert_eq!(mime_type_for_path(".hidden"), "application/octet-stream");
}

#[test]
fn normalizing_twice_is_normalizing_once() {
    let once = normalize_path(&split_path("C:\\a\\.\\b\\..\\..\\c\\d\\..")).unwrap();
    assert_eq!(rendered(&once), "C:\\c");
    let twice = normalize_path(&once).unwrap();
    assert_eq!(rendered(&twice), rendered(&once));
}

#[test]
fn normalizing_keeps_the_root() {
    let n = normalize_path(&split_path("C:\\a\\..\\b")).unwrap();
    assert_eq!(rendered(&n), "C:\\b");
    let n = normalize_path(&split_path("\\a\\..")).unwrap();
    assert_eq!(rendered(&n), "\\");
    assert!(normalize_path(&split_path("C:\\..\\x")).is_none());
}

#[test]
fn share_paths_are_absolute_with_their_prefix() {
    let p = split_path("\\\\server\\share\\x");
    assert_eq!(p.len(), 3);
    assert!(matches!(&p[0], PathPart::Prefix(raw) if raw == "\\\\server\\share"));
    assert!(matches!(p[1], PathPart::RootDir));
    assert!(matches!(&p[2], PathPart::Normal(n) if n == "x"));
    assert_eq!(rendered(&split_path("//server/share/a/./b")), "//server/share\\a\\b");
    let lone = split_path("\\\\server\\share");
    assert_eq!(lone.len(), 2);
    assert!(matches!(lone[1], PathPart::RootDir));
    let no_share = split_path("\\\\server");
    assert!(matches!(no_share[0], PathPart::RootDir));
    assert!(matches!(&no_share[1], PathPart::Normal(n) if n == "server"));
}

#[test]
fn verbatim_paths_split_on_backslashes_only() {
    let p = split_path("\\\\?\\C:\\a\\.\\b/c");
    assert_eq!(p.len(), 5);
    assert!(matches!(&p[0], PathPart::Prefix(raw) if raw == "\\\\?\\C:"));
    assert!(matches!(p[1], PathPart::RootDir));
    assert!(matches!(p[3], PathPart::CurDir));
    assert!(matches!(&p[4], PathPart::Normal(n) if n == "b/c"));
    let n = normalize_path(&split_path("\\\\?\\C:\\a\\.\\b\\..\\d")).unwrap();
    assert_eq!(rendered(&n), "\\\\?\\C:\\a\\d");
    let unc = split_path("\\\\?\\UNC\\srv\\share\\f");
    assert!(matches!(&unc[0], PathPart::Prefix(raw) if raw == "\\\\?\\UNC\\srv\\share"));
    assert_eq!(unc.len(), 3);
    let plain = split_path("\\\\?\\pipe\\x");
    assert!(matches!(&plain[0], PathPart::Prefix(raw) if raw == "\\\\?\\pipe"));
    assert_eq!(split_path("\\\\?\\pipe").len(), 1);
    let device = split_path("\\\\.\\COM1");
    assert!(matches!(&device[0], PathPart::Prefix(raw) if raw == "\\\\.\\COM1"));
    assert!(matches!(device[1], PathPart::RootDir));
}

#[test]
fn prefixes_compare_by_what_they_name() {
    let root = split_path("\\\\?\\c:\\game");
    let rel = strip_prefix(&split_path("\\\\?\\C:\\game\\ui\\a.js"), &root).unwrap();
    assert_eq!(rendered(&rel), "ui\\a.js");
    let share = split_path("//server/share/game");
    assert!(strip_prefix(&split_path("\\\\server\\share\\game\\x"), &share).is_some());
    assert!(strip_prefix(&split_path("\\\\Server\\share\\game\\x"), &share).is_none());
    assert!(strip_prefix(&split_path("C:\\game\\x"), &root).is_none());
}

#[test]
fn join_onto_verbatim_and_relative_bases() {
    let base = split_path("\\\\?\\C:\\game");
    assert_eq!(rendered(&join(&base, &split_path("..\\x"))), "\\\\?\\C:\\x");
    assert_eq!(rendered(&join(&base, &split_path(".\\ui"))), "\\\\?\\C:\\game\\ui");
    assert_eq!(rendered(&join(&base, &split_path("\\top"))), "\\\\?\\C:\\top");
    let pipe = split_path("\\\\?\\pipe");
    assert_eq!(rendered(&join(&pipe, &split_path("x"))), "\\\\?\\pipe\\x");
    assert!(matches!(join(&pipe, &split_path("x"))[1], PathPart::RootDir));
    let plain = split_path("C:\\game");
    assert_eq!(rendered(&join(&plain, &split_path(".\\ui"))), "C:\\game\\ui");
    assert_eq!(rendered(&join(&split_path("C:"), &split_path("x"))), "C:x");
}

#[test]
fn normalize_pushes_names_that_read_as_paths() {
    let verbatim = normalize_path(&split_path("\\\\?\\C:\\a\\b/c")).unwrap();
    assert_eq!(rendered(&verbatim), "\\\\?\\C:\\a\\b\\c");
    assert_eq!(verbatim.len(), 5);
    let drive = normalize_path(&split_path("C:\\game\\c:x")).unwrap();
    assert_eq!(rendered(&drive), "c:x");
    let back = normalize_path(&split_path("C:\\x\\c:..\\..")).unwrap();
    assert_eq!(rendered(&back), "c:");
}
