use onepanel_ci::models::Repository;
use onepanel_ci::search::find_repository;

fn repo(id: i64, path: &str, name: Option<&str>) -> Repository {
    Repository {
        id,
        path: path.to_string(),
        name: name.map(|n| n.to_string()),
        docker_image_name: None,
    }
}

#[test]
fn exact_raw_path_wins_first() {
    let repos = vec![
        repo(1, "/srv/App", None),
        repo(2, "/srv/app", None),
    ];
    // the second record matches the query letter for letter
    assert_eq!(find_repository(&repos, "/srv/app"), Some(1));
}

#[test]
fn case_and_separators_are_forgiven() {
    let repos = vec![repo(1, "C:\\Work\\Shop", None)];
    assert_eq!(find_repository(&repos, "c:/work/shop/"), Some(0));
}

#[test]
fn names_match_too() {
    let repos = vec![
        repo(1, "/srv/alpha", Some("Alpha")),
        repo(2, "/srv/beta", Some("Beta")),
    ];
    assert_eq!(find_repository(&repos, "beta"), Some(1));
}

#[test]
fn a_bare_folder_name_finds_its_project() {
    let repos = vec![
        repo(1, "/srv/projects/shop", None),
        repo(2, "/srv/projects/blog", None),
    ];
    assert_eq!(find_repository(&repos, "blog"), Some(1));
}

#[test]
fn the_first_match_in_order_wins() {
    let repos = vec![
        repo(1, "/a/svc", None),
        repo(2, "/b/svc", None),
    ];
    assert_eq!(find_repository(&repos, "svc"), Some(0));
}

#[test]
fn unknown_queries_find_nothing() {
    let repos = vec![repo(1, "/srv/app", Some("app"))];
    assert_eq!(find_repository(&repos, "missing"), None);
}
