use ogito::clone::{
    build_archive_url, filter_branch_and_tag_names, filter_branch_names, plan_git_clone,
    resolve_ref_hash, select_transport, validate_tar_request, TransportKind,
};
use ogito::fetch::config::Config;
use ogito::git::{parse_remote_refs, RemoteRef};
use ogito::models::{Mode, Site};
use ogito::ErrorKind;

fn refs() -> Vec<RemoteRef> {
    vec![
        RemoteRef {
            hash: "1111111111111111111111111111111111111111".to_string(),
            name: "HEAD".to_string(),
        },
        RemoteRef {
            hash: "2222222222222222222222222222222222222222".to_string(),
            name: "refs/heads/main".to_string(),
        },
        RemoteRef {
            hash: "3333333333333333333333333333333333333333".to_string(),
            name: "refs/tags/v1".to_string(),
        },
    ]
}

#[test]
fn ls_remote_output_parses_in_order() {
    let out = "1111\tHEAD\n2222\trefs/heads/main\n3333\trefs/tags/v1\n";
    let parsed = parse_remote_refs(out).unwrap();
    assert_eq!(parsed.len(), 3);
    assert_eq!(parsed[0].hash, "1111");
    assert_eq!(parsed[0].name, "HEAD");
    assert_eq!(parsed[2].name, "refs/tags/v1");
}

#[test]
fn empty_ls_remote_output_is_an_error() {
    let err = parse_remote_refs("").unwrap_err();
    assert_eq!(err.kind, ErrorKind::Transport);
    let err = parse_remote_refs("no tabs here\n").unwrap_err();
    assert_eq!(err.kind, ErrorKind::Transport);
}

#[test]
fn explicit_branch_and_tag_names_resolve() {
    let rs = refs();
    let main = "main".to_string();
    let tag = "v1".to_string();
    let missing = "nope".to_string();
    assert_eq!(
        resolve_ref_hash(&rs, Some(&main)).unwrap(),
        "2222222222222222222222222222222222222222"
    );
    assert_eq!(
        resolve_ref_hash(&rs, Some(&tag)).unwrap(),
        "3333333333333333333333333333333333333333"
    );
    let err = resolve_ref_hash(&rs, Some(&missing)).unwrap_err();
    assert_eq!(err.kind, ErrorKind::StateConflict);
}

#[test]
fn the_default_branch_follows_head() {
    let rs = refs();
    assert_eq!(
        resolve_ref_hash(&rs, None).unwrap(),
        "1111111111111111111111111111111111111111"
    );
    let headless = vec![RemoteRef {
        hash: "2222222222222222222222222222222222222222".to_string(),
        name: "refs/heads/main".to_string(),
    }];
    let err = resolve_ref_hash(&headless, None).unwrap_err();
    assert_eq!(err.kind, ErrorKind::StateConflict);
}

#[test]
fn interactive_candidates_are_filtered_and_stripped() {
    let rs = refs();
    assert_eq!(filter_branch_names(&rs), vec!["main".to_string()]);
    assert_eq!(
        filter_branch_and_tag_names(&rs),
        vec!["main".to_string(), "v1".to_string()]
    );
}

#[test]
fn archive_urls_follow_the_provider() {
    assert_eq!(
        build_archive_url(&Site::Github, "owner", "repo", "abc").unwrap(),
        "https://github.com/owner/repo/archive/abc.tar.gz"
    );
    assert_eq!(
        build_archive_url(&Site::Gitlab, "owner", "repo", "abc").unwrap(),
        "https://gitlab.com/owner/repo/repository/archive.tar.gz?ref=abc"
    );
    let err = build_archive_url(&Site::Unknown, "owner", "repo", "abc").unwrap_err();
    assert_eq!(err.kind, ErrorKind::Input);
}

#[test]
fn the_transport_follows_the_mode() {
    assert_eq!(select_transport(&Mode::Git).unwrap(), TransportKind::Git);
    assert_eq!(select_transport(&Mode::Tar).unwrap(), TransportKind::Tar);
    let err = select_transport(&Mode::Unknown).unwrap_err();
    assert_eq!(err.kind, ErrorKind::Input);
}

#[test]
fn tar_mode_refuses_to_keep_history() {
    assert!(validate_tar_request(false).is_ok());
    let err = validate_tar_request(true).unwrap_err();
    assert_eq!(err.kind, ErrorKind::StateConflict);
}

#[test]
fn a_git_clone_without_history_removes_the_metadata_directory() {
    let dir = "proj".to_string();
    let config = Config::from(&dir, Mode::Git, false, false, None);
    let plan = plan_git_clone("https://github.com/owner/repo.git", &config).unwrap();
    assert!(plan.remove_vcs_dir);
    assert!(!plan.interactive);
    assert!(plan.branch.is_none());

    let keeping = Config::from(&dir, Mode::Git, false, true, None);
    let plan = plan_git_clone("https://github.com/owner/repo.git", &keeping).unwrap();
    assert!(!plan.remove_vcs_dir);
}

#[test]
fn a_git_clone_needs_a_valid_url() {
    let dir = "proj".to_string();
    let config = Config::from(&dir, Mode::Git, false, false, None);
    let err = plan_git_clone("not a url", &config).unwrap_err();
    assert_eq!(err.kind, ErrorKind::Input);
}

#[test]
fn a_named_branch_restricts_the_clone() {
    let dir = "proj".to_string();
    let branch = "develop".to_string();
    let config = Config::from(&dir, Mode::Git, false, false, Some(&branch));
    let plan = plan_git_clone("https://github.com/owner/repo", &config).unwrap();
    assert_eq!(plan.branch, Some("develop".to_string()));
    assert!(!plan.interactive);

    let interactive = "INTERACTIVE".to_string();
    let config = Config::from(&dir, Mode::Git, false, false, Some(&interactive));
    let plan = plan_git_clone("https://github.com/owner/repo", &config).unwrap();
    assert!(plan.branch.is_none());
    assert!(plan.interactive);
}

#[test]
fn error_kinds_name_their_class() {
    let err = ogito::Error::new(ogito::ErrorKind::Io, "disk full".to_string());
    assert_eq!(err.kind(), ogito::ErrorKind::Io);
    assert_eq!(err.message, "disk full");
}
