use git_manager::inventory::{
    extract_repo_name, find_file_in_path, find_git_repos, get_all_repositories, join_path, Dir,
    SearchError,
};
use git_manager::state::Settings;

fn dir(segs: &[&str], has_marker: bool) -> Dir {
    Dir { path: segs.iter().map(|s| s.to_string()).collect(), has_marker }
}

fn settings(user: &str, root: &str) -> Settings {
    Settings {
        api_key: "k".to_string(),
        username: user.to_string(),
        project_path: root.to_string(),
    }
}

#[test]
fn scanner_finds_marked_directories() {
    let dirs = vec![
        dir(&["home", "alpha"], true),
        dir(&["home", "notes"], false),
        dir(&["home", "beta"], true),
    ];
    let roots = find_git_repos(&dirs);
    assert_eq!(roots.len(), 2);
    assert_eq!(roots[0], vec!["home".to_string(), "alpha".to_string()]);
    assert_eq!(roots[1], vec!["home".to_string(), "beta".to_string()]);
}

#[test]
fn scanner_never_returns_nested_repositories() {
    let dirs = vec![
        dir(&["home", "alpha"], true),
        dir(&["home", "alpha", "vendor"], false),
        dir(&["home", "alpha", "vendor", "lib"], true),
        dir(&["home", "beta", "deep"], true),
        dir(&["home", "beta"], true),
    ];
    let roots = find_git_repos(&dirs);
    // alpha/vendor/lib lies below alpha; beta/deep lies below beta.
    assert_eq!(roots.len(), 2);
    assert_eq!(roots[0], vec!["home".to_string(), "alpha".to_string()]);
    assert_eq!(roots[1], vec!["home".to_string(), "beta".to_string()]);
    for a in &roots {
        for b in &roots {
            if a != b {
                let nested = a.len() < b.len() && b[..a.len()] == a[..];
                assert!(!nested);
            }
        }
    }
}

#[test]
fn sibling_with_prefix_name_is_not_nested() {
    let dirs = vec![dir(&["home", "app"], true), dir(&["home", "app2"], true)];
    let roots = find_git_repos(&dirs);
    assert_eq!(roots.len(), 2);
}

#[test]
fn inventory_records_are_synthesized_from_the_scan() {
    let dirs = vec![
        dir(&["home", "alpha"], true),
        dir(&["home", "sub", "beta"], true),
    ];
    let repos = get_all_repositories(&dirs, &settings("alice", "home"));
    assert_eq!(repos.len(), 2);
    assert_eq!(repos[0].name, "alpha");
    assert_eq!(repos[0].path, "home/alpha");
    assert_eq!(repos[0].clone_url, "https://github.com/alice/alpha.git");
    assert_eq!(repos[1].name, "beta");
    assert_eq!(repos[1].path, "home/sub/beta");
    assert_eq!(repos[1].clone_url, "https://github.com/alice/beta.git");
}

#[test]
fn join_path_inserts_separators() {
    let p = vec!["a".to_string(), "b".to_string(), "c".to_string()];
    assert_eq!(join_path(&p), "a/b/c");
    let single = vec!["a".to_string()];
    assert_eq!(join_path(&single), "a");
    let empty: Vec<String> = vec![];
    assert_eq!(join_path(&empty), "");
}

#[test]
fn extract_repo_name_takes_the_stem_of_the_last_segment() {
    assert_eq!(extract_repo_name("https://github.com/alice/repo.git"), "repo");
    assert_eq!(extract_repo_name("repo.git"), "repo");
    assert_eq!(extract_repo_name("repo"), "repo");
    assert_eq!(extract_repo_name("a/b/x.tar.gz"), "x.tar");
    assert_eq!(extract_repo_name(".git"), ".git");
}

#[test]
fn extract_repo_name_falls_back_when_the_segment_is_empty() {
    assert_eq!(extract_repo_name(""), "unknown-repo");
    assert_eq!(extract_repo_name("some/dir/"), "unknown-repo");
}

#[test]
fn name_search_distinguishes_the_three_outcomes() {
    let dirs = vec![
        dir(&["home", "proj"], false),
        dir(&["home", "other"], false),
        dir(&["home", "deep", "proj"], false),
    ];
    match find_file_in_path(&dirs, "other") {
        Ok(p) => assert_eq!(p, "home/other"),
        Err(_) => panic!("expected a single match"),
    }
    assert!(matches!(find_file_in_path(&dirs, "absent"), Err(SearchError::NotFound)));
    assert!(matches!(find_file_in_path(&dirs, "proj"), Err(SearchError::MultipleFound)));
}

#[test]
fn name_search_is_case_sensitive() {
    let dirs = vec![dir(&["home", "Proj"], false)];
    assert!(matches!(find_file_in_path(&dirs, "proj"), Err(SearchError::NotFound)));
    assert!(find_file_in_path(&dirs, "Proj").is_ok());
}
