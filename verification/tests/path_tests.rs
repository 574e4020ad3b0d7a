use ogito::file::path::sanitize_dir;
use ogito::ErrorKind;

#[test]
fn sanitize_accepts_plain_relative_paths() {
    assert_eq!(sanitize_dir("x", "/work").unwrap(), "/work/x");
    assert_eq!(sanitize_dir("a/b/c", "/work").unwrap(), "/work/a/b/c");
    assert_eq!(sanitize_dir("./a/b", "/work").unwrap(), "/work/./a/b");
}

#[test]
fn sanitize_rejects_traversal() {
    assert!(sanitize_dir("../x", "/work").is_err());
    assert!(sanitize_dir("../../test", "/work").is_err());
    assert!(sanitize_dir("a/../../b", "/work").is_err());
    let err = sanitize_dir("../x", "/work").unwrap_err();
    assert_eq!(err.kind, ErrorKind::Input);
}

#[test]
fn sanitize_confines_absolute_paths() {
    assert_eq!(sanitize_dir("/work/sub", "/work").unwrap(), "/work/sub");
    assert_eq!(sanitize_dir("/work", "/work").unwrap(), "/work");
    assert!(sanitize_dir("/elsewhere/sub", "/work").is_err());
    assert!(sanitize_dir("/workshop", "/work").is_err());
}
