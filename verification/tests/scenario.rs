use memfs::{FileSystem, FsError};

#[test]
fn documents_scenario() {
    let mut fs = FileSystem::new();
    assert_eq!(fs.create("/docs", None, true), Ok(()));
    assert_eq!(fs.create("/docs/readme.txt", Some(b"hello".to_vec()), false), Ok(()));
    assert_eq!(fs.add_tag("/docs/readme.txt", "important"), Ok(()));
    assert_eq!(fs.search_by_tag("important"), Ok(vec!["docs/readme.txt".to_string()]));
    assert_eq!(fs.read_file("/docs/readme.txt"), Ok(b"hello".to_vec()));
    assert_eq!(fs.delete("/docs"), Err(FsError::DirectoryNotEmpty));
    assert_eq!(fs.delete("/docs/readme.txt"), Ok(()));
    assert_eq!(fs.delete("/docs"), Ok(()));
}

#[test]
fn search_walks_depth_first_in_the_order_of_the_entries() {
    let mut fs = FileSystem::new();
    assert_eq!(fs.create("/top.txt", None, false), Ok(()));
    assert_eq!(fs.create("/a", None, true), Ok(()));
    assert_eq!(fs.create("/a/one.txt", None, false), Ok(()));
    assert_eq!(fs.create("/a/b", None, true), Ok(()));
    assert_eq!(fs.create("/a/b/two.txt", None, false), Ok(()));
    assert_eq!(fs.create("/a/three.txt", None, false), Ok(()));
    assert_eq!(fs.create("/last.txt", None, false), Ok(()));
    for path in ["/top.txt", "/a/one.txt", "/a/b/two.txt", "/a/three.txt", "/last.txt", "/a/b"] {
        assert_eq!(fs.add_tag(path, "x"), Ok(()));
    }
    assert_eq!(fs.add_tag("/a/one.txt", "only"), Ok(()));
    let expected: Vec<String> = ["//top.txt", "a/one.txt", "b/two.txt", "a/three.txt", "//last.txt"]
        .iter()
        .map(|s| s.to_string())
        .collect();
    assert_eq!(fs.search_by_tag("x"), Ok(expected.clone()));
    assert_eq!(fs.search_by_mime_type("text/plain"), Ok(expected));
    assert_eq!(fs.search_by_tag("only"), Ok(vec!["a/one.txt".to_string()]));
    assert_eq!(fs.search_by_tag("none"), Ok(vec![]));
    assert_eq!(fs.search_by_tag(""), Ok(vec![]));
}

#[test]
fn search_by_mime_type_wants_the_exact_type_and_only_files() {
    let mut fs = FileSystem::new();
    assert_eq!(fs.create("/d", None, true), Ok(()));
    assert_eq!(fs.create("/d/f", None, false), Ok(()));
    assert_eq!(fs.search_by_mime_type("text/plain"), Ok(vec!["d/f".to_string()]));
    assert_eq!(fs.search_by_mime_type("text"), Ok(vec![]));
    assert_eq!(fs.search_by_mime_type("directory"), Ok(vec![]));
    assert_eq!(fs.search_by_mime_type("TEXT/PLAIN"), Ok(vec![]));
}

#[test]
fn get_info_describes_a_file() {
    let mut fs = FileSystem::new();
    assert_eq!(fs.create("/docs", None, true), Ok(()));
    assert_eq!(fs.create("/docs/readme.txt", Some(b"hello".to_vec()), false), Ok(()));
    assert_eq!(
        fs.get_info("/docs/readme.txt").unwrap(),
        "File Name: readme.txt\nSize: 0\nPermissions: Permissions { read: true, write: true, execute: false }\nOwner: root\nMIME Type: text/plain\nTags: []"
    );
    assert_eq!(fs.add_tag("/docs/readme.txt", "important"), Ok(()));
    assert_eq!(fs.add_tag("/docs/readme.txt", "a \"quoted\" tag"), Ok(()));
    assert_eq!(
        fs.get_info("/docs/readme.txt").unwrap(),
        "File Name: readme.txt\nSize: 0\nPermissions: Permissions { read: true, write: true, execute: false }\nOwner: root\nMIME Type: text/plain\nTags: [\"important\", \"a \\\"quoted\\\" tag\"]"
    );
}

#[test]
fn get_info_describes_a_directory_without_type_and_tags() {
    let mut fs = FileSystem::new();
    assert_eq!(fs.create("/docs", None, true), Ok(()));
    assert_eq!(fs.add_tag("/docs", "shown-nowhere"), Ok(()));
    assert_eq!(
        fs.get_info("/docs").unwrap(),
        "Directory Name: docs\nSize: 0\nPermissions: Permissions { read: true, write: true, execute: false }\nOwner: root"
    );
}

#[test]
fn get_info_reports_each_failure() {
    let mut fs = FileSystem::new();
    assert_eq!(fs.create("/f", None, false), Ok(()));
    assert_eq!(fs.get_info("/"), Err(FsError::InvalidPath));
    assert_eq!(fs.get_info("/none"), Err(FsError::NotFound));
    assert_eq!(fs.get_info("/f/x"), Err(FsError::NotADirectory));
}
