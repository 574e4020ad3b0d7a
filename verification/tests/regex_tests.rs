use ogito::regex::github;
use ogito::regex::{extract_host, extract_path, is_valid_url};

#[test]
fn test_is_github_url() {
    assert!(is_valid_url("https://github.com/owner/repo").unwrap());
    assert!(is_valid_url("github.com/owner/repo").unwrap());
    assert!(is_valid_url("https://github.com/owner/repo.git").unwrap());
    assert!(is_valid_url("https://gitlab.com/owner/repo").unwrap());
    assert!(!is_valid_url("random string").unwrap());
    assert!(!is_valid_url("https://example.com/owner/repo").unwrap());
}

#[test]
fn regex_test_is_github_url() {
    assert!(is_valid_url("https://github.com/owner/repo").unwrap());
    assert!(is_valid_url("github.com/owner/repo").unwrap());
    assert!(is_valid_url("https://github.com/owner/repo.git").unwrap());
    assert!(is_valid_url("https://gitlab.com/owner/repo").unwrap());
    assert!(!is_valid_url("random string").unwrap());
    assert!(!is_valid_url("https://example.com/owner/repo").unwrap());
}

#[test]
fn mod_test_is_github_url() {
    assert!(github::is_github_url("https://github.com/owner/repo"));
    assert!(github::is_github_url("github.com/owner/repo"));
    assert!(github::is_github_url("https://github.com/owner/repo.git"));
    assert!(!github::is_github_url("https://gitlab.com/owner/repo"));
    assert!(!github::is_github_url("random string"));
}

#[test]
fn test_extract_path() {
    let url = "https://github.com/owner/repo";
    let result = extract_path(url);
    assert_eq!(result, Some(("owner", "repo")));

    let url_git = "https://github.com/owner/repo.git";
    let result = extract_path(url_git);
    assert_eq!(result, Some(("owner", "repo")));

    let invalid = "https://gitlab.com/owner/repo";
    assert!(extract_path(invalid).is_some());
}

#[test]
fn regex_test_extract_path() {
    let url = "https://github.com/owner/repo";
    let result = extract_path(url);
    assert_eq!(result, Some(("owner", "repo")));

    let url_git = "https://github.com/owner/repo.git";
    let result = extract_path(url_git);
    assert_eq!(result, Some(("owner", "repo")));

    let invalid = "https://gitlab.com/owner/repo";
    assert!(extract_path(invalid).is_some());
}

#[test]
fn mod_test_extract_path() {
    let url = "https://github.com/owner/repo";
    let result = github::extract_path(url);
    assert_eq!(result, Some(("owner", "repo")));

    let url_git = "https://github.com/owner/repo.git";
    let result = github::extract_path(url_git);
    assert_eq!(result, Some(("owner", "repo.git")));

    let invalid = "https://gitlab.com/owner/repo";
    assert!(github::extract_path(invalid).is_some());
}

#[test]
fn test_extract_host() {
    let github_url = "https://github.com/owner/repo";
    let www_url = "https://www.example.com/path";
    let http_url = "http://gitlab.com/user/project";
    let non_com_url = "https://example.org";
    let invalid_url = "invalid-url";
    assert_eq!(extract_host(github_url), Some("github".to_string()));
    assert_eq!(extract_host(www_url), Some("example".to_string()));
    assert_eq!(extract_host(http_url), Some("gitlab".to_string()));
    assert_eq!(extract_host(invalid_url), None);
    assert_eq!(extract_host(non_com_url), None);
}

#[test]
fn regex_tests_test_extract_host() {
    let github_url = "https://github.com/owner/repo";
    let www_url = "https://www.example.com/path";
    let http_url = "http://gitlab.com/user/project";
    let non_com_url = "https://example.org";
    let invalid_url = "invalid-url";
    assert_eq!(extract_host(github_url), Some("github".to_string()));
    assert_eq!(extract_host(www_url), Some("example".to_string()));
    assert_eq!(extract_host(http_url), Some("gitlab".to_string()));
    assert_eq!(extract_host(invalid_url), None);
    assert_eq!(extract_host(non_com_url), None);
}

#[test]
fn dotted_repository_names_are_kept() {
    let url = "https://github.com/vercel/next.js";
    assert_eq!(extract_path(url), Some(("vercel", "next.js")));

    let url_git = "https://github.com/vercel/next.js.git";
    assert_eq!(extract_path(url_git), Some(("vercel", "next.js")));

    let not_a_suffix = "https://github.com/owner/repo.gitx";
    assert_eq!(extract_path(not_a_suffix), Some(("owner", "repo.gitx")));
}

#[test]
fn host_labels_come_back_lower_cased() {
    assert_eq!(
        extract_host("https://GitHub.com/owner/repo"),
        Some("github".to_string())
    );
}
