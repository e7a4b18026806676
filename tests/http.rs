use railway_exporter::config::GzipConfig;
use railway_exporter::http::{
    falls_back_to_index, finalize, finish_body, get_mime_type, header_mentions, mime_for_extension, route,
    static_target, Route, StaticTarget,
};

#[test]
fn test_mime_type_html() {
    assert_eq!(get_mime_type("index.html"), "text/html; charset=utf-8");
    assert_eq!(get_mime_type("page.htm"), "text/html; charset=utf-8");
}

#[test]
fn test_mime_type_css() {
    assert_eq!(get_mime_type("styles.css"), "text/css; charset=utf-8");
}

#[test]
fn test_mime_type_javascript() {
    assert_eq!(get_mime_type("app.js"), "application/javascript; charset=utf-8");
    assert_eq!(get_mime_type("module.mjs"), "application/javascript; charset=utf-8");
}

#[test]
fn test_mime_type_json() {
    assert_eq!(get_mime_type("data.json"), "application/json; charset=utf-8");
    assert_eq!(get_mime_type("app.js.map"), "application/json");
}

#[test]
fn test_mime_type_images() {
    assert_eq!(get_mime_type("logo.png"), "image/png");
    assert_eq!(get_mime_type("photo.jpg"), "image/jpeg");
    assert_eq!(get_mime_type("photo.jpeg"), "image/jpeg");
    assert_eq!(get_mime_type("anim.gif"), "image/gif");
    assert_eq!(get_mime_type("icon.svg"), "image/svg+xml");
    assert_eq!(get_mime_type("favicon.ico"), "image/x-icon");
    assert_eq!(get_mime_type("image.webp"), "image/webp");
}

#[test]
fn test_mime_type_fonts() {
    assert_eq!(get_mime_type("font.woff"), "font/woff");
    assert_eq!(get_mime_type("font.woff2"), "font/woff2");
    assert_eq!(get_mime_type("font.ttf"), "font/ttf");
}

#[test]
fn test_mime_type_text() {
    assert_eq!(get_mime_type("readme.txt"), "text/plain; charset=utf-8");
    assert_eq!(get_mime_type("config.xml"), "application/xml; charset=utf-8");
}

#[test]
fn test_mime_type_unknown() {
    assert_eq!(get_mime_type("file.unknown"), "application/octet-stream");
    assert_eq!(get_mime_type("noext"), "application/octet-stream");
    assert_eq!(mime_for_extension(None), "application/octet-stream");
}

#[test]
fn test_handle_blocks_directory_traversal() {
    assert_eq!(static_target("../../../etc/passwd"), StaticTarget::Forbidden);
}

#[test]
fn test_handle_blocks_traversal_in_middle() {
    assert_eq!(static_target("/some/../path"), StaticTarget::Forbidden);
}

#[test]
fn test_handle_blocks_double_dot_anywhere() {
    let paths = ["../secret", "foo/../bar", "..%2f..%2fetc/passwd", "/path/to/../../../etc"];
    for path in &paths {
        assert_eq!(static_target(path), StaticTarget::Forbidden, "Path '{}' should be forbidden", path);
    }
}

#[test]
fn test_handle_strips_leading_slashes() {
    assert_eq!(static_target("///index.html"), StaticTarget::File("index.html".to_string()));
}

#[test]
fn test_handle_empty_path_serves_index() {
    assert_eq!(static_target(""), StaticTarget::File("index.html".to_string()));
}

#[test]
fn test_handle_root_path_serves_index() {
    assert_eq!(static_target("/"), StaticTarget::File("index.html".to_string()));
    assert!(falls_back_to_index("dashboard/settings"));
    assert!(!falls_back_to_index("app.js"));
}

#[test]
fn routes() {
    assert_eq!(route("/metrics", true), Route::MetricsJson);
    assert_eq!(route("/metrics", false), Route::MetricsPrometheus);
    assert_eq!(route("/status", false), Route::Status);
    assert_eq!(route("/health", false), Route::Health);
    assert_eq!(route("/icons/services/", false), Route::NotFound);
    assert_eq!(route("/icons/services/my%20api", false), Route::Icon("my api".to_string()));
    assert_eq!(route("/icons/services/%FF", false), Route::Icon("%FF".to_string()));
    assert_eq!(route("/app.js", false), Route::Static("/app.js".to_string()));
    assert!(header_mentions(Some("text/html, application/json"), "application/json"));
    assert!(!header_mentions(None, "gzip"));
}

#[test]
fn test_finalize_without_cors() {
    let r = finalize(b"test".to_vec(), false, false, &GzipConfig::default());
    assert!(!r.cors);
}

#[test]
fn test_finalize_with_cors() {
    let r = finalize(b"test".to_vec(), true, false, &GzipConfig::default());
    assert!(r.cors);
}

#[test]
fn test_finalize_gzip_disabled() {
    let gzip = GzipConfig { enabled: false, min_size: 256, level: 1 };
    let r = finalize("x".repeat(1000).into_bytes(), false, true, &gzip);
    assert!(!r.gzipped);
}

#[test]
fn test_finalize_gzip_not_requested() {
    let r = finalize("x".repeat(1000).into_bytes(), false, false, &GzipConfig::default());
    assert!(!r.gzipped);
}

#[test]
fn test_finalize_gzip_body_too_small() {
    let r = finalize("x".repeat(100).into_bytes(), false, true, &GzipConfig::default());
    assert!(!r.gzipped);
    assert_eq!(r.body.len(), 100);
}

#[test]
fn test_finalize_gzip_compresses_large_body() {
    let r = finalize("x".repeat(1000).into_bytes(), false, true, &GzipConfig::default());
    assert!(r.gzipped);
    assert!(r.body.len() < 1000);
    assert_eq!(&r.body[..2], &[0x1f, 0x8b]);
}

#[test]
fn test_finalize_gzip_custom_level() {
    let gzip = GzipConfig { enabled: true, min_size: 256, level: 9 };
    let r = finalize("x".repeat(1000).into_bytes(), false, true, &gzip);
    assert!(r.gzipped);
}

#[test]
fn finish_body_uses_smaller_compressed_body_when_due() {
    let cfg = GzipConfig::default();
    let body = vec![7u8; 300];
    let r = finish_body(body.clone(), true, true, &cfg, Some(vec![1, 2, 3]));
    assert!(r.gzipped && r.cors);
    assert_eq!(r.body, vec![1, 2, 3]);
    let r = finish_body(body.clone(), false, true, &cfg, Some(vec![0u8; 400]));
    assert!(!r.gzipped);
    assert_eq!(r.body, body);
    let r = finish_body(body.clone(), false, true, &cfg, None);
    assert!(!r.gzipped);
    let r = finish_body(vec![7u8; 100], false, true, &cfg, Some(vec![1]));
    assert!(!r.gzipped);
    assert_eq!(r.body.len(), 100);
}
