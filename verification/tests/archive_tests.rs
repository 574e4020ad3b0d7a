use ogito::file::{extract_archive, sanitize_entry_path};
use ogito::ErrorKind;

fn gzip(bytes: &[u8]) -> Vec<u8> {
    let mut encoder =
        flate2::write::GzEncoder::new(Vec::new(), flate2::Compression::default());
    std::io::Write::write_all(&mut encoder, bytes).unwrap();
    encoder.finish().unwrap()
}

fn plain_entry(builder: &mut tar::Builder<Vec<u8>>, path: &str, data: &[u8]) {
    let mut header = tar::Header::new_gnu();
    header.set_size(data.len() as u64);
    header.set_mode(0o644);
    header.set_cksum();
    builder.append_data(&mut header, path, data).unwrap();
}

fn raw_entry(builder: &mut tar::Builder<Vec<u8>>, path: &[u8], data: &[u8]) {
    // writes the name bytes directly, since the builder itself refuses
    // traversal segments
    let mut header = tar::Header::new_gnu();
    {
        let gnu = header.as_gnu_mut().unwrap();
        let mut i = 0;
        while i < path.len() {
            gnu.name[i] = path[i];
            i += 1;
        }
    }
    header.set_size(data.len() as u64);
    header.set_mode(0o644);
    header.set_cksum();
    builder.append(&header, data).unwrap();
}

#[test]
fn extraction_strips_the_top_level_directory() {
    let mut builder = tar::Builder::new(Vec::new());
    plain_entry(&mut builder, "top/a.txt", b"hello");
    plain_entry(&mut builder, "top/sub/b.txt", b"world");
    let archive = gzip(&builder.into_inner().unwrap());

    let entries = extract_archive(&archive).unwrap();
    assert_eq!(entries.len(), 2);
    assert_eq!(entries[0].path, "a.txt");
    assert_eq!(entries[0].data, b"hello");
    assert_eq!(entries[1].path, "sub/b.txt");
    assert_eq!(entries[1].data, b"world");
}

#[test]
fn extraction_drops_traversal_entries() {
    let mut builder = tar::Builder::new(Vec::new());
    plain_entry(&mut builder, "top/a.txt", b"hello");
    raw_entry(&mut builder, b"top/../../evil", b"boom");
    let archive = gzip(&builder.into_inner().unwrap());

    let entries = extract_archive(&archive).unwrap();
    assert_eq!(entries.len(), 1);
    assert_eq!(entries[0].path, "a.txt");
}

#[test]
fn malformed_bytes_are_a_transport_error() {
    let garbage: Vec<u8> = vec![1, 2, 3, 4, 5];
    let err = extract_archive(&garbage).unwrap_err();
    assert_eq!(err.kind, ErrorKind::Transport);
}

#[test]
fn entry_paths_are_confined() {
    assert_eq!(sanitize_entry_path("top/a/b"), Some("a/b".to_string()));
    assert_eq!(sanitize_entry_path("top//a"), Some("a".to_string()));
    assert_eq!(sanitize_entry_path("./top/x"), Some("x".to_string()));
    assert_eq!(sanitize_entry_path("top/../../evil"), None);
    assert_eq!(sanitize_entry_path("top"), None);
    assert_eq!(sanitize_entry_path(""), None);
}

#[test]
fn planning_is_independent_of_decoding() {
    let raw: Vec<(String, Vec<u8>, bool)> = vec![
        ("top/".to_string(), vec![], true),
        ("top/a.txt".to_string(), b"hello".to_vec(), false),
        ("top/../../evil".to_string(), b"boom".to_vec(), false),
    ];
    let plan = ogito::file::plan_extraction(&raw);
    assert_eq!(plan.len(), 1);
    assert_eq!(plan[0].path, "a.txt");
    assert_eq!(plan[0].data, b"hello");
    assert!(!plan[0].is_dir);
}
