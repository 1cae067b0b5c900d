use gqy_web::embedded::{
    embedded_paths, import_specifiers, resolve, same_origin_refs, versioned_index,
    versioned_index_for_test, web_concat_css, web_concat_settings_schema, web_content_type,
    web_skip_dir,
};

/// A page shaped like the shipped `index.html`: scripts, style sheets, the
/// vendored libraries, the theme override and an image.
const INDEX: &str = "<!doctype html>\n<html>\n<head>\n\
<link rel=\"stylesheet\" href=\"/styles.css\">\n\
<link rel=\"stylesheet\" href=\"/vendor/katex/katex.min.css\">\n\
<link rel=\"stylesheet\" href=\"/theme.css\">\n\
<link rel=\"icon\" href=\"/assets/gqy-logo.png\">\n\
</head>\n<body>\n\
<script src=\"/vendor/katex/katex.min.js\"></script>\n\
<script src=\"/vendor/prism/prism.min.js\"></script>\n\
<script type=\"module\" src=\"/app.js\"></script>\n\
<script type=\"module\" src=\"/dashboards.js\"></script>\n\
<a href=\"//example.com/x.js\">x</a>\n\
</body>\n</html>\n";

fn assets() -> Vec<String> {
    ["/app.js", "/dashboards.js", "/styles.css", "/assets/gqy-logo.png", "/core/api.js"]
        .iter()
        .map(|s| s.to_string())
        .collect()
}

#[test]
fn index_scripts_and_styles_carry_the_build_id() {
    let html = versioned_index_for_test(INDEX, &assets(), "B1");
    let unversioned = same_origin_refs(&html)
        .into_iter()
        .filter(|path| path.ends_with(".js") || path.ends_with(".css"))
        .filter(|path| *path != "/theme.css")
        .filter(|path| !html.contains(&format!("{path}?v=B1\"")))
        .collect::<Vec<_>>();
    assert!(
        unversioned.is_empty(),
        "scripts or styles without ?v=: {unversioned:?}"
    );
}

#[test]
fn import_resolution_follows_browser_rules() {
    assert_eq!(
        resolve("/features/chat/view.js", "../../core/api.js").as_deref(),
        Some("/core/api.js")
    );
    assert_eq!(
        resolve("/app.js", "./core/icons.js").as_deref(),
        Some("/core/icons.js")
    );
    assert_eq!(resolve("/app.js", "lit").as_deref(), None);
    assert_eq!(
        import_specifiers("import { a } from \"./a.js\";\nconst b = await import('./b.js');"),
        vec!["./a.js".to_string(), "./b.js".to_string()]
    );
}

#[test]
fn absolute_and_cross_origin_specifiers() {
    assert_eq!(resolve("/a/b.js", "/c.js").as_deref(), Some("/c.js"));
    assert_eq!(resolve("/a/b.js", "//cdn.example/c.js").as_deref(), None);
    assert_eq!(resolve("/a.js", "../../x.js").as_deref(), Some("x.js"));
}

#[test]
fn references_drop_query_strings_and_other_origins() {
    let refs = same_origin_refs("<img src=\"/a.png?x=1\"><a href=\"//h/x\"><a href=\"/b\">");
    assert_eq!(refs, vec!["/a.png".to_string(), "/b".to_string()]);
}

#[test]
fn versioning_touches_only_scripts_and_styles() {
    let html = versioned_index(INDEX, "B7", &assets());
    assert!(html.contains("src=\"/app.js?v=B7\""));
    assert!(html.contains("href=\"/styles.css?v=B7\""));
    assert!(html.contains("src=\"/vendor/prism/prism.min.js?v=B7\""));
    assert!(html.contains("href=\"/assets/gqy-logo.png\""));
    assert!(html.contains("href=\"/theme.css\""));
}

#[test]
fn route_table_lists_assets_then_vendor() {
    let paths = embedded_paths(&assets());
    assert_eq!(paths.len(), 8);
    assert_eq!(paths[0], "/app.js");
    assert_eq!(paths[7], "/vendor/prism/prism.min.js");
}

#[test]
fn content_types_follow_the_extension() {
    assert_eq!(web_content_type("/a/app.js"), Some("application/javascript; charset=utf-8"));
    assert_eq!(web_content_type("x.woff2"), Some("font/woff2"));
    assert_eq!(web_content_type("notes.md"), None);
    assert_eq!(web_content_type("Makefile"), None);
    assert!(web_skip_dir("vendor"));
    assert!(web_skip_dir("settings-schema"));
    assert!(!web_skip_dir("core"));
}

#[test]
fn concatenation_keeps_bytes_in_order() {
    let parts = vec![b"a {}\n".to_vec(), b"b {}\n".to_vec()];
    assert_eq!(web_concat_css(&parts), b"a {}\nb {}\n".to_vec());
    let bundle = String::from_utf8(web_concat_settings_schema(&parts)).unwrap();
    assert!(bundle.starts_with("// Generated from web/settings-schema/*.js"));
    assert!(bundle.ends_with("a {}\nb {}\n})();\n"));
}

#[test]
fn versioning_a_versioned_page_again_changes_nothing() {
    let once = versioned_index(INDEX, "B7", &assets());
    let twice = versioned_index(&once, "B7", &assets());
    assert_eq!(twice, once);
}

#[test]
fn a_page_without_script_or_style_references_is_served_as_is() {
    let page = "<link rel=\"icon\" href=\"/assets/gqy-logo.png\">\n<img src=\"/assets/wall.webp\">\n";
    assert_eq!(versioned_index(page, "B7", &assets()), page);
}
