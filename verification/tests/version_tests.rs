use onepanel_ci::version::resolve_next_version;

fn resolve(tags: &[&str]) -> String {
    let owned: Vec<String> = tags.iter().map(|t| t.to_string()).collect();
    resolve_next_version(&owned)
}

#[test]
fn max_triple_patch_bumped() {
    assert_eq!(resolve(&["app:v1.2.3", "app:v1.9.0", "app:v2.0.0"]), "v2.0.1");
}

#[test]
fn bare_integers_increment() {
    assert_eq!(resolve(&["app:3", "app:7"]), "8");
}

#[test]
fn empty_set_starts_at_one() {
    assert_eq!(resolve(&[]), "v1.0.0");
}

#[test]
fn triple_outranks_larger_integer() {
    assert_eq!(resolve(&["app:v1.0.0", "app:99"]), "v1.0.1");
}

#[test]
fn short_triples_default_missing_parts() {
    assert_eq!(resolve(&["app:v2"]), "v2.0.1");
    assert_eq!(resolve(&["app:v1.5"]), "v1.5.1");
}

#[test]
fn dotted_without_v_is_a_triple() {
    assert_eq!(resolve(&["app:1.5"]), "v1.5.1");
}

#[test]
fn zero_versions_still_count() {
    assert_eq!(resolve(&["app:v0.0.0"]), "v0.0.1");
    assert_eq!(resolve(&["app:0"]), "1");
}

#[test]
fn tags_without_colon_are_ignored() {
    assert_eq!(resolve(&["latest", "weird"]), "v1.0.0");
}

#[test]
fn unparseable_remainders_are_ignored() {
    assert_eq!(resolve(&["app:banana", "app:2.3", "app:1.2.3.4"]), "v2.3.1");
}

#[test]
fn latest_tag_does_not_disturb_the_maximum() {
    assert_eq!(resolve(&["app:latest", "app:v0.3.11", "app:v0.3.9"]), "v0.3.12");
}

#[test]
fn only_the_text_after_the_last_colon_counts() {
    assert_eq!(resolve(&["registry:5000/app:v1.2.0"]), "v1.2.1");
}

#[test]
fn oversized_numbers_are_ignored() {
    assert_eq!(resolve(&["app:9999999999999999999"]), "v1.0.0");
    assert_eq!(resolve(&["app:123456789012345678"]), "123456789012345679");
}
