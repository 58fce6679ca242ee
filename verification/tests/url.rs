use hostinfo::url::{resolve_reference, split_segments};

fn resolve(base: &str, reference: &str) -> Option<String> {
    resolve_reference(base, reference)
}

#[test]
fn segments_are_the_texts_between_slashes() {
    assert_eq!(split_segments(""), vec![""]);
    assert_eq!(split_segments("/"), vec!["", ""]);
    assert_eq!(split_segments("a"), vec!["a"]);
    assert_eq!(split_segments("/swagger_ui/"), vec!["", "swagger_ui", ""]);
    assert_eq!(split_segments("../openapi.json"), vec!["..", "openapi.json"]);
    assert_eq!(split_segments("a//b"), vec!["a", "", "b"]);
    assert_eq!(split_segments("/\u{fc}ber/\u{1f600}"), vec!["", "\u{fc}ber", "\u{1f600}"]);
}

#[test]
fn the_ui_url_leads_to_the_document() {
    assert_eq!(resolve("/swagger_ui/", "../openapi.json"), Some("/openapi.json".to_string()));
    assert_eq!(resolve("/swagger_ui/index.html", "../openapi.json"), Some("/openapi.json".to_string()));
    assert_eq!(resolve("/docs/ui/", "../openapi.json"), Some("/docs/openapi.json".to_string()));
}

#[test]
fn references_resolve_as_links_do() {
    let base = "/b/c/d;p";
    let cases = [
        ("g", "/b/c/g"),
        ("./g", "/b/c/g"),
        ("g/", "/b/c/g/"),
        ("/g", "/g"),
        ("", "/b/c/d;p"),
        (".", "/b/c/"),
        ("./", "/b/c/"),
        ("..", "/b/"),
        ("../", "/b/"),
        ("../g", "/b/g"),
        ("../..", "/"),
        ("../../", "/"),
        ("../../g", "/g"),
        ("../../../g", "/g"),
        ("../../../../g", "/g"),
        ("/./g", "/g"),
        ("/../g", "/g"),
        ("g.", "/b/c/g."),
        (".g", "/b/c/.g"),
        ("g..", "/b/c/g.."),
        ("..g", "/b/c/..g"),
        ("./../g", "/b/g"),
        ("./g/.", "/b/c/g/"),
        ("g/./h", "/b/c/g/h"),
        ("g/../h", "/b/c/h"),
    ];
    for (reference, expected) in cases {
        assert_eq!(resolve(base, reference), Some(expected.to_string()), "{}", reference);
    }
}

#[test]
fn the_root_and_empty_segments() {
    assert_eq!(resolve("/", ""), Some("/".to_string()));
    assert_eq!(resolve("/", ".."), Some("/".to_string()));
    assert_eq!(resolve("/", "a"), Some("/a".to_string()));
    assert_eq!(resolve("/a//b", "c"), Some("/a//c".to_string()));
    assert_eq!(resolve("/a/b", "/"), Some("/".to_string()));
}

#[test]
fn a_base_that_is_not_absolute_gives_nothing() {
    assert_eq!(resolve("", "a"), None);
    assert_eq!(resolve("swagger_ui/", "../openapi.json"), None);
    assert_eq!(resolve("a/b", "/c"), None);
}
