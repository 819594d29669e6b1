use onepanel_ci::compose::patch_compose;

#[test]
fn rewrites_a_single_reference() {
    let doc = "services:\n  web:\n    image: app:v1.0.0\n    ports:\n      - 80:80\n";
    let out = patch_compose(doc, "app", "v1.0.1");
    assert_eq!(out, "services:\n  web:\n    image: app:v1.0.1\n    ports:\n      - 80:80\n");
}

#[test]
fn rewrites_both_occurrences_and_nothing_else() {
    let doc = "services:\n  web:\n    image: base:old\n  worker:\n    image: base:old\n    env: X\n";
    let out = patch_compose(doc, "base", "v2");
    assert_eq!(out, "services:\n  web:\n    image: base:v2\n  worker:\n    image: base:v2\n    env: X\n");
}

#[test]
fn patching_twice_changes_nothing_more() {
    let doc = "a:\n image: app:v1.0.0\nb:\n image: app:3\n";
    let once = patch_compose(doc, "app", "v9.9.9");
    let twice = patch_compose(&once, "app", "v9.9.9");
    assert_eq!(once, twice);
}

#[test]
fn absent_base_leaves_the_document_unchanged() {
    let doc = "services:\n  web:\n    image: other:v1\n";
    assert_eq!(patch_compose(doc, "app", "v2"), doc);
}

#[test]
fn a_quote_between_key_and_name_prevents_the_match() {
    let doc = "image: \"app:v1\"\n";
    assert_eq!(patch_compose(doc, "app", "v2"), doc);
}

#[test]
fn longer_names_sharing_the_prefix_are_untouched() {
    let doc = "image: app-worker:v1\nimage: app:v1\n";
    assert_eq!(patch_compose(doc, "app", "v2"), "image: app-worker:v1\nimage: app:v2\n");
}

#[test]
fn whitespace_after_the_key_is_preserved() {
    let doc = "image:\t  app:1\n";
    assert_eq!(patch_compose(doc, "app", "2"), "image:\t  app:2\n");
}

#[test]
fn version_token_stops_at_invalid_characters() {
    let doc = "image: app:v1.0.0\"suffix\n";
    assert_eq!(patch_compose(doc, "app", "v2"), "image: app:v2\"suffix\n");
}

#[test]
fn empty_document_stays_empty() {
    assert_eq!(patch_compose("", "app", "v2"), "");
}

#[test]
fn missing_version_token_prevents_the_match() {
    let doc = "image: app:\n";
    assert_eq!(patch_compose(doc, "app", "v2"), doc);
}
