use onepanel_ci::deployments::{deployments_in, find_image_references};

#[test]
fn finds_every_reference_in_order() {
    let doc = "services:\n  web:\n    image: my-app:1.0.0\n  worker:\n    image: my-app:latest\n";
    assert_eq!(
        find_image_references(doc, "my-app"),
        vec!["my-app:1.0.0".to_string(), "my-app:latest".to_string()]
    );
}

#[test]
fn quoted_references_lose_their_quotes() {
    let doc = "image: \"my-app:2.1\"\nimage: 'my-app:3'\n";
    assert_eq!(
        find_image_references(doc, "my-app"),
        vec!["my-app:2.1".to_string(), "my-app:3".to_string()]
    );
}

#[test]
fn a_reference_without_a_tag_is_just_the_base() {
    assert_eq!(
        find_image_references("image: my-app\n", "my-app"),
        vec!["my-app".to_string()]
    );
}

#[test]
fn a_base_that_prefixes_a_longer_name_still_hits() {
    // the matching is textual: the shorter base matches inside the longer
    // reference and reports only itself
    assert_eq!(
        find_image_references("image: app-worker:1\n", "app"),
        vec!["app".to_string()]
    );
}

#[test]
fn other_images_are_ignored() {
    assert_eq!(
        find_image_references("image: redis:7\nimage: postgres:16\n", "my-app"),
        Vec::<String>::new()
    );
}

#[test]
fn records_carry_the_server_and_stack() {
    let doc = "image: svc:v1\nimage: svc:v2\n";
    let out = deployments_in(3, "prod", "svcstack", doc, "svc");
    assert_eq!(out.len(), 2);
    assert_eq!(out[0].server_id, 3);
    assert_eq!(out[0].server_name, "prod");
    assert_eq!(out[0].compose_name, "svcstack");
    assert_eq!(out[0].image_tag, "svc:v1");
    assert_eq!(out[1].image_tag, "svc:v2");
}
