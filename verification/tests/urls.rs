use git_project::err::ScanError;
use git_project::util::{
    build_clone_dir, choose_remote_url, find_dir, find_dir_ssh, find_dir_url, remove_dotgit,
    ParsedUrl, UrlHost,
};

fn parsed(host: UrlHost, segments: &[&str]) -> ParsedUrl {
    ParsedUrl {
        host,
        segments: Some(segments.iter().map(|s| s.to_string()).collect()),
    }
}

#[test]
fn test_find_dir_github_ssh() {
    for clone_url in [
        "git@github.com:/Kroger-Technology/git-project.git",
        "git@github.com:/Kroger-Technology/git-project",
        "foo@github.com:/Kroger-Technology/git-project.git",
        "bar@github.com:/Kroger-Technology/git-project",
    ] {
        let dir = find_dir_ssh("/users/foo/base", clone_url).unwrap();
        assert_eq!(dir, "/users/foo/base/github.com/Kroger-Technology/git-project");
    }
}

#[test]
fn test_find_dir_gitlab_ssh() {
    for clone_url in [
        "git@gitlab.com:/Kroger-Technology/git-project.git",
        "git@gitlab.com:/Kroger-Technology/git-project",
        "foo@gitlab.com:/Kroger-Technology/git-project.git",
        "bar@gitlab.com:/Kroger-Technology/git-project",
    ] {
        let dir = find_dir_ssh("/users/foo/base", clone_url).unwrap();
        assert_eq!(dir, "/users/foo/base/gitlab.com/Kroger-Technology/git-project");
    }
}

#[test]
fn test_find_dir_gitlab_internal_ssh() {
    for clone_url in [
        "git@gitlab.kroger.com:/Kroger-Technology/git-project.git",
        "git@gitlab.kroger.com:/Kroger-Technology/git-project",
        "foo@gitlab.kroger.com:/Kroger-Technology/git-project.git",
        "bar@gitlab.kroger.com:/Kroger-Technology/git-project",
    ] {
        let dir = find_dir_ssh("/users/foo/base", clone_url).unwrap();
        assert_eq!(dir, "/users/foo/base/gitlab.kroger.com/Kroger-Technology/git-project");
    }
}

#[test]
fn test_find_dir_github_url() {
    for clone_url in [
        "https://github.com/Kroger-Technology/git-project.git",
        "https://github.com/Kroger-Technology/git-project",
        "http://github.com/Kroger-Technology/git-project.git",
        "http://github.com/Kroger-Technology/git-project",
    ] {
        let dir = find_dir("/users/foo/base", clone_url).unwrap();
        assert_eq!(dir, "/users/foo/base/github.com/Kroger-Technology/git-project");
    }
}

#[test]
fn test_find_dir_gitlab_url() {
    for clone_url in [
        "https://gitlab.com/Kroger-Technology/git-project.git",
        "https://gitlab.com/Kroger-Technology/git-project",
        "http://gitlab.com/Kroger-Technology/git-project.git",
        "http://gitlab.com/Kroger-Technology/git-project",
    ] {
        let dir = find_dir("/users/foo/base", clone_url).unwrap();
        assert_eq!(dir, "/users/foo/base/gitlab.com/Kroger-Technology/git-project");
    }
}

#[test]
fn test_find_dir_gitlab_internal_url() {
    for clone_url in [
        "https://gitlab.kroger.com/Kroger-Technology/git-project.git",
        "https://gitlab.kroger.com/Kroger-Technology/git-project",
        "http://gitlab.kroger.com/Kroger-Technology/git-project.git",
        "http://gitlab.kroger.com/Kroger-Technology/git-project",
    ] {
        let dir = find_dir("/users/foo/base", clone_url).unwrap();
        assert_eq!(dir, "/users/foo/base/gitlab.kroger.com/Kroger-Technology/git-project");
    }
}

#[test]
fn ssh_addresses_fall_through_the_url_parser() {
    // An ssh-style address is no web URL: find_dir hands it to the
    // ssh rules and reaches the same location.
    let dir = find_dir("/base", "git@github.com:/Org/proj.git").unwrap();
    assert_eq!(dir, "/base/github.com/Org/proj");
}

#[test]
fn unmatched_addresses_are_invalid() {
    assert!(matches!(find_dir_ssh("/base", "no-separators-here"), Err(ScanError::InvalidUrl)));
    assert!(matches!(find_dir("/base", "no-separators-here"), Err(ScanError::InvalidUrl)));
}

#[test]
fn address_hosts_are_refused() {
    assert!(matches!(
        find_dir("/base", "https://127.0.0.1/Org/proj.git"),
        Err(ScanError::NonDomainHost),
    ));
}

#[test]
fn hostless_urls_are_refused() {
    assert!(matches!(find_dir("/base", "file:///Org/proj"), Err(ScanError::NoHost)));
}

#[test]
fn parsed_urls_build_their_clone_location_directly() {
    let url = parsed(UrlHost::Domain("github.com".to_string()), &["Org", "proj.git"]);
    assert_eq!(find_dir_url("/base", &url).unwrap(), "/base/github.com/Org/proj");

    let no_host = ParsedUrl { host: UrlHost::Missing, segments: None };
    assert!(matches!(find_dir_url("/base", &no_host), Err(ScanError::NoHost)));

    let other_host = ParsedUrl { host: UrlHost::Other, segments: None };
    assert!(matches!(find_dir_url("/base", &other_host), Err(ScanError::NonDomainHost)));
}

#[test]
fn dotgit_is_dropped_only_at_the_end() {
    assert_eq!(remove_dotgit("project.git"), "project");
    assert_eq!(remove_dotgit("project"), "project");
    assert_eq!(remove_dotgit(".git"), "");
    assert_eq!(remove_dotgit("pro.github"), "pro.github");
    assert_eq!(remove_dotgit("git"), "git");
}

#[test]
fn clone_locations_collapse_empty_segments() {
    assert_eq!(build_clone_dir("/base", "host", "/a//b/"), "/base/host/a/b");
    assert_eq!(build_clone_dir("/base", "host", ""), "/base/host");
}

#[test]
fn origin_url_is_preferred() {
    let remotes = vec![
        ("mirror".to_string(), Some("https://m/x".to_string())),
        ("origin".to_string(), Some("https://o/x".to_string())),
    ];
    assert_eq!(choose_remote_url(&remotes), Some("https://o/x".to_string()));

    let no_origin_url = vec![
        ("origin".to_string(), None),
        ("mirror".to_string(), Some("https://m/x".to_string())),
    ];
    assert_eq!(choose_remote_url(&no_origin_url), Some("https://m/x".to_string()));

    let none: Vec<(String, Option<String>)> = vec![("origin".to_string(), None)];
    assert_eq!(choose_remote_url(&none), None);
}
