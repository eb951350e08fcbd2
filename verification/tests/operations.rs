use memfs::{FileSystem, FsError, Permissions};
use std::time::{Duration, SystemTime};

fn names(list: &[&str]) -> Vec<String> {
    list.iter().map(|s| s.to_string()).collect()
}

fn sample() -> FileSystem {
    let mut fs = FileSystem::new();
    assert_eq!(fs.create("/docs", None, true), Ok(()));
    assert_eq!(fs.create("/docs/readme.txt", Some(b"hello".to_vec()), false), Ok(()));
    fs
}

#[test]
fn new_store_has_an_empty_root() {
    let fs = FileSystem::new();
    assert_eq!(fs.list_directory("/"), Ok(vec![]));
    assert_eq!(fs.list_directory(""), Ok(vec![]));
    assert_eq!(fs.search_by_mime_type("text/plain"), Ok(vec![]));
}

#[test]
fn create_then_list_shows_the_name_exactly_once() {
    let mut fs = sample();
    assert_eq!(fs.create("/docs/notes.txt", None, false), Ok(()));
    let listing = fs.list_directory("/docs").unwrap();
    assert_eq!(listing.iter().filter(|n| n.as_str() == "notes.txt").count(), 1);
    assert_eq!(listing, names(&["readme.txt", "notes.txt"]));
    assert_eq!(fs.list_directory("/"), Ok(names(&["docs"])));
}

#[test]
fn create_without_content_gives_an_empty_file() {
    let mut fs = FileSystem::new();
    assert_eq!(fs.create("empty", None, false), Ok(()));
    assert_eq!(fs.read_file("/empty"), Ok(vec![]));
}

#[test]
fn create_tolerates_leading_trailing_and_repeated_separators() {
    let mut fs = FileSystem::new();
    assert_eq!(fs.create("//a//", None, true), Ok(()));
    assert_eq!(fs.create("a///b/", Some(vec![1, 2, 3]), false), Ok(()));
    assert_eq!(fs.read_file("/a/b"), Ok(vec![1, 2, 3]));
}

#[test]
fn create_twice_fails_and_changes_nothing() {
    let mut fs = sample();
    assert_eq!(
        fs.create("/docs/readme.txt", Some(b"other".to_vec()), false),
        Err(FsError::AlreadyExists)
    );
    assert_eq!(fs.create("/docs", None, true), Err(FsError::AlreadyExists));
    assert_eq!(fs.create("/docs", None, false), Err(FsError::AlreadyExists));
    assert_eq!(fs.read_file("/docs/readme.txt"), Ok(b"hello".to_vec()));
    assert_eq!(fs.list_directory("/docs"), Ok(names(&["readme.txt"])));
    assert_eq!(fs.list_directory("/"), Ok(names(&["docs"])));
}

#[test]
fn create_rejects_a_path_without_components() {
    let mut fs = FileSystem::new();
    assert_eq!(fs.create("", None, false), Err(FsError::InvalidPath));
    assert_eq!(fs.create("/", None, true), Err(FsError::InvalidPath));
    assert_eq!(fs.create("///", None, true), Err(FsError::InvalidPath));
    assert_eq!(fs.list_directory("/"), Ok(vec![]));
}

#[test]
fn create_needs_an_existing_parent_directory() {
    let mut fs = sample();
    assert_eq!(fs.create("/missing/file", None, false), Err(FsError::NotFound));
    assert_eq!(
        fs.create("/docs/readme.txt/inner", None, false),
        Err(FsError::NotADirectory)
    );
    assert_eq!(
        fs.create("/docs/readme.txt/inner/deeper", None, false),
        Err(FsError::NotADirectory)
    );
}

#[test]
fn read_reports_each_failure() {
    let fs = sample();
    assert_eq!(fs.read_file("/"), Err(FsError::InvalidPath));
    assert_eq!(fs.read_file("/docs"), Err(FsError::IsADirectory));
    assert_eq!(fs.read_file("/docs/missing"), Err(FsError::NotFound));
    assert_eq!(fs.read_file("/nowhere/file"), Err(FsError::NotFound));
    assert_eq!(fs.read_file("/docs/readme.txt/x"), Err(FsError::NotADirectory));
}

#[test]
fn write_then_read_returns_the_bytes_written() {
    let mut fs = sample();
    assert_eq!(fs.write_file("/docs/readme.txt", b"new text".to_vec(), false), Ok(()));
    assert_eq!(fs.read_file("/docs/readme.txt"), Ok(b"new text".to_vec()));
    assert_eq!(fs.write_file("/docs/readme.txt", vec![], false), Ok(()));
    assert_eq!(fs.read_file("/docs/readme.txt"), Ok(vec![]));
}

#[test]
fn appending_write_keeps_what_was_there_in_front() {
    let mut fs = sample();
    assert_eq!(fs.write_file("/docs/readme.txt", b"abc".to_vec(), false), Ok(()));
    assert_eq!(fs.write_file("/docs/readme.txt", b"def".to_vec(), true), Ok(()));
    assert_eq!(fs.read_file("/docs/readme.txt"), Ok(b"abcdef".to_vec()));
    assert_eq!(fs.write_file("/docs/readme.txt", b"!".to_vec(), true), Ok(()));
    assert_eq!(fs.read_file("/docs/readme.txt"), Ok(b"abcdef!".to_vec()));
}

#[test]
fn write_reports_each_failure_and_changes_nothing() {
    let mut fs = sample();
    assert_eq!(fs.write_file("/docs", b"x".to_vec(), false), Err(FsError::IsADirectory));
    assert_eq!(fs.write_file("/docs/none", b"x".to_vec(), false), Err(FsError::NotFound));
    assert_eq!(fs.write_file("", b"x".to_vec(), false), Err(FsError::InvalidPath));
    assert_eq!(
        fs.write_file("/docs/readme.txt/x", b"x".to_vec(), true),
        Err(FsError::NotADirectory)
    );
    assert_eq!(fs.read_file("/docs/readme.txt"), Ok(b"hello".to_vec()));
}

#[test]
fn write_leaves_the_recorded_size_alone() {
    let mut fs = sample();
    assert_eq!(fs.write_file("/docs/readme.txt", b"0123456789".to_vec(), false), Ok(()));
    assert_eq!(fs.metadata("/docs/readme.txt").unwrap().size, 0);
}

#[test]
fn write_sets_the_instant_of_modification_only() {
    let t0 = SystemTime::UNIX_EPOCH + Duration::from_secs(1_000);
    let t1 = SystemTime::UNIX_EPOCH + Duration::from_secs(2_000);
    let mut fs = FileSystem::new_at(t0);
    assert_eq!(fs.create_at("/f", Some(b"a".to_vec()), false, t0), Ok(()));
    assert_eq!(fs.write_file_at("/f", b"b".to_vec(), true, t1), Ok(()));
    let m = fs.metadata("/f").unwrap();
    assert_eq!(m.created_at, t0);
    assert_eq!(m.accessed_at, t0);
    assert_eq!(m.modified_at, t1);
    assert_eq!(fs.read_file("/f"), Ok(b"ab".to_vec()));
    assert_eq!(fs.metadata("/f").unwrap().accessed_at, t0);
}

#[test]
fn fresh_entries_carry_the_default_record() {
    let t0 = SystemTime::UNIX_EPOCH + Duration::from_secs(5);
    let mut fs = FileSystem::new_at(t0);
    assert_eq!(fs.create_at("/d", None, true, t0), Ok(()));
    let m = fs.metadata("/d").unwrap();
    assert_eq!(m.owner, "root");
    assert_eq!(m.group, "root");
    assert_eq!(m.mime_type, "text/plain");
    assert_eq!(m.size, 0);
    assert_eq!(m.permissions, Permissions { read: true, write: true, execute: false });
    assert!(!m.is_read_only);
    assert!(!m.is_hidden);
    assert!(m.tags.is_empty());
    assert_eq!(m.created_at, t0);
    assert_eq!(m.modified_at, t0);
    assert_eq!(m.accessed_at, t0);
}

#[test]
fn list_reports_each_failure() {
    let fs = sample();
    assert_eq!(fs.list_directory("/docs/readme.txt"), Err(FsError::IsADirectory));
    assert_eq!(fs.list_directory("/missing"), Err(FsError::NotFound));
    assert_eq!(fs.list_directory("/missing/deeper"), Err(FsError::NotFound));
    assert_eq!(fs.list_directory("/docs/readme.txt/x"), Err(FsError::NotADirectory));
}

#[test]
fn delete_refuses_a_directory_with_entries() {
    let mut fs = sample();
    assert_eq!(fs.delete("/docs"), Err(FsError::DirectoryNotEmpty));
    assert_eq!(fs.list_directory("/"), Ok(names(&["docs"])));
    assert_eq!(fs.list_directory("/docs"), Ok(names(&["readme.txt"])));
    assert_eq!(fs.read_file("/docs/readme.txt"), Ok(b"hello".to_vec()));
}

#[test]
fn delete_succeeds_once_the_entries_are_gone() {
    let mut fs = sample();
    assert_eq!(fs.create("/docs/sub", None, true), Ok(()));
    assert_eq!(fs.create("/docs/b.txt", None, false), Ok(()));
    assert_eq!(fs.delete("/docs/readme.txt"), Ok(()));
    assert_eq!(fs.list_directory("/docs"), Ok(names(&["sub", "b.txt"])));
    assert_eq!(fs.delete("/docs"), Err(FsError::DirectoryNotEmpty));
    assert_eq!(fs.delete("/docs/sub"), Ok(()));
    assert_eq!(fs.delete("/docs/b.txt"), Ok(()));
    assert_eq!(fs.list_directory("/docs"), Ok(vec![]));
    assert_eq!(fs.delete("/docs"), Ok(()));
    assert_eq!(fs.list_directory("/"), Ok(vec![]));
    assert_eq!(fs.list_directory("/docs"), Err(FsError::NotFound));
}

#[test]
fn delete_reports_each_failure() {
    let mut fs = sample();
    assert_eq!(fs.delete("/"), Err(FsError::InvalidPath));
    assert_eq!(fs.delete("/missing"), Err(FsError::NotFound));
    assert_eq!(fs.delete("/missing/x"), Err(FsError::NotFound));
    assert_eq!(fs.delete("/docs/readme.txt/x"), Err(FsError::NotADirectory));
    assert_eq!(fs.list_directory("/docs"), Ok(names(&["readme.txt"])));
}

#[test]
fn update_needs_write_permission_and_write_does_not() {
    let mut fs = sample();
    assert_eq!(fs.update_file("/docs/readme.txt", b" world".to_vec(), true), Ok(()));
    assert_eq!(fs.read_file("/docs/readme.txt"), Ok(b"hello world".to_vec()));
    let read_only = Permissions { read: true, write: false, execute: false };
    assert_eq!(fs.change_permissions("/docs/readme.txt", read_only), Ok(()));
    assert_eq!(fs.metadata("/docs/readme.txt").unwrap().permissions, read_only);
    assert_eq!(
        fs.update_file("/docs/readme.txt", b"x".to_vec(), false),
        Err(FsError::PermissionDenied)
    );
    assert_eq!(fs.read_file("/docs/readme.txt"), Ok(b"hello world".to_vec()));
    assert_eq!(fs.write_file("/docs/readme.txt", b"forced".to_vec(), false), Ok(()));
    assert_eq!(fs.read_file("/docs/readme.txt"), Ok(b"forced".to_vec()));
}

#[test]
fn update_treats_a_directory_as_no_file() {
    let mut fs = sample();
    assert_eq!(fs.update_file("/docs", b"x".to_vec(), false), Err(FsError::NotFound));
    assert_eq!(fs.update_file("/docs/none", b"x".to_vec(), false), Err(FsError::NotFound));
    assert_eq!(fs.update_file("/", b"x".to_vec(), false), Err(FsError::InvalidPath));
}

#[test]
fn change_permissions_reaches_directories_and_reports_missing_entries() {
    let mut fs = sample();
    let all = Permissions { read: true, write: true, execute: true };
    assert_eq!(fs.change_permissions("/docs", all), Ok(()));
    assert_eq!(fs.metadata("/docs").unwrap().permissions, all);
    assert_eq!(fs.change_permissions("/none", all), Err(FsError::NotFound));
    assert_eq!(fs.change_permissions("", all), Err(FsError::InvalidPath));
}

#[test]
fn change_permissions_sets_the_instant_of_modification() {
    let t0 = SystemTime::UNIX_EPOCH + Duration::from_secs(10);
    let t1 = SystemTime::UNIX_EPOCH + Duration::from_secs(20);
    let mut fs = FileSystem::new_at(t0);
    assert_eq!(fs.create_at("/f", None, false, t0), Ok(()));
    let none = Permissions { read: false, write: false, execute: false };
    assert_eq!(fs.change_permissions_at("/f", none, t1), Ok(()));
    let m = fs.metadata("/f").unwrap();
    assert_eq!(m.permissions, none);
    assert_eq!(m.modified_at, t1);
    assert_eq!(m.created_at, t0);
    assert_eq!(fs.update_file_at("/f", vec![1], false, t1), Err(FsError::PermissionDenied));
}

#[test]
fn rename_moves_the_entry_to_its_new_name() {
    let mut fs = sample();
    assert_eq!(fs.rename("/docs/readme.txt", "manual.txt"), Ok(()));
    assert_eq!(fs.read_file("/docs/manual.txt"), Ok(b"hello".to_vec()));
    assert_eq!(fs.read_file("/docs/readme.txt"), Err(FsError::NotFound));
    assert_eq!(fs.list_directory("/docs"), Ok(names(&["manual.txt"])));
    assert_eq!(fs.rename("/docs", "papers"), Ok(()));
    assert_eq!(fs.list_directory("/papers"), Ok(names(&["manual.txt"])));
    assert_eq!(fs.list_directory("/docs"), Err(FsError::NotFound));
    assert_eq!(fs.read_file("/papers/manual.txt"), Ok(b"hello".to_vec()));
    assert_eq!(
        fs.get_info("/papers").unwrap(),
        "Directory Name: papers\nSize: 0\nPermissions: Permissions { read: true, write: true, execute: false }\nOwner: root"
    );
}

#[test]
fn rename_reports_each_failure_and_changes_nothing() {
    let mut fs = sample();
    assert_eq!(fs.create("/docs/other.txt", None, false), Ok(()));
    assert_eq!(fs.rename("/docs/readme.txt", "other.txt"), Err(FsError::AlreadyExists));
    assert_eq!(fs.rename("/docs/readme.txt", "readme.txt"), Err(FsError::AlreadyExists));
    assert_eq!(fs.rename("/docs/none", "x"), Err(FsError::NotFound));
    assert_eq!(fs.rename("/none/x", "y"), Err(FsError::NotFound));
    assert_eq!(fs.rename("/", "x"), Err(FsError::InvalidPath));
    assert_eq!(fs.list_directory("/docs"), Ok(names(&["readme.txt", "other.txt"])));
}

#[test]
fn rename_keeps_the_place_and_the_record() {
    let t0 = SystemTime::UNIX_EPOCH + Duration::from_secs(7);
    let mut fs = FileSystem::new_at(t0);
    assert_eq!(fs.create_at("/a", None, false, t0), Ok(()));
    assert_eq!(fs.create_at("/b", None, false, t0), Ok(()));
    assert_eq!(fs.add_tag("/a", "keep"), Ok(()));
    assert_eq!(fs.rename("/a", "c"), Ok(()));
    assert_eq!(fs.list_directory("/"), Ok(names(&["c", "b"])));
    let m = fs.metadata("/c").unwrap();
    assert_eq!(m.tags, names(&["keep"]));
    assert_eq!(m.modified_at, t0);
}

#[test]
fn rename_takes_the_new_name_as_it_is() {
    let mut fs = sample();
    assert_eq!(fs.rename("/docs", "a/b"), Ok(()));
    assert_eq!(fs.list_directory("/"), Ok(names(&["a/b"])));
    assert_eq!(fs.list_directory("/a/b"), Err(FsError::NotFound));
}

#[test]
fn copy_puts_the_source_under_its_own_name_beside_the_target() {
    let mut fs = sample();
    assert_eq!(fs.create("/backup", None, true), Ok(()));
    assert_eq!(fs.copy("/docs/readme.txt", "/backup/ignored-name"), Ok(()));
    assert_eq!(fs.list_directory("/backup"), Ok(names(&["readme.txt"])));
    assert_eq!(fs.read_file("/backup/readme.txt"), Ok(b"hello".to_vec()));
    assert_eq!(fs.read_file("/backup/ignored-name"), Err(FsError::NotFound));
    assert_eq!(fs.read_file("/docs/readme.txt"), Ok(b"hello".to_vec()));
}

#[test]
fn copy_is_deep_and_independent() {
    let mut fs = sample();
    assert_eq!(fs.create("/docs/sub", None, true), Ok(()));
    assert_eq!(fs.create("/docs/sub/deep.txt", Some(b"deep".to_vec()), false), Ok(()));
    assert_eq!(fs.create("/backup", None, true), Ok(()));
    assert_eq!(fs.copy("/docs", "/backup/x"), Ok(()));
    assert_eq!(fs.list_directory("/backup/docs"), Ok(names(&["readme.txt", "sub"])));
    assert_eq!(fs.read_file("/backup/docs/sub/deep.txt"), Ok(b"deep".to_vec()));
    assert_eq!(fs.write_file("/backup/docs/sub/deep.txt", b"changed".to_vec(), false), Ok(()));
    assert_eq!(fs.read_file("/docs/sub/deep.txt"), Ok(b"deep".to_vec()));
    assert_eq!(fs.delete("/docs/sub/deep.txt"), Ok(()));
    assert_eq!(fs.read_file("/backup/docs/sub/deep.txt"), Ok(b"changed".to_vec()));
}

#[test]
fn copy_into_a_directory_below_the_source() {
    let mut fs = sample();
    assert_eq!(fs.create("/docs/sub", None, true), Ok(()));
    assert_eq!(fs.copy("/docs", "/docs/sub/x"), Ok(()));
    assert_eq!(fs.list_directory("/docs/sub"), Ok(names(&["docs"])));
    assert_eq!(fs.list_directory("/docs/sub/docs"), Ok(names(&["readme.txt", "sub"])));
    assert_eq!(fs.list_directory("/docs/sub/docs/sub"), Ok(vec![]));
}

#[test]
fn copy_reports_each_failure_and_changes_nothing() {
    let mut fs = sample();
    assert_eq!(fs.copy("/", "/docs/x"), Err(FsError::InvalidPath));
    assert_eq!(fs.copy("/docs/none", "/docs/x"), Err(FsError::NotFound));
    assert_eq!(fs.copy("/none/f", "/docs/x"), Err(FsError::NotFound));
    assert_eq!(fs.copy("/docs/readme.txt/f", "/docs/x"), Err(FsError::NotADirectory));
    assert_eq!(fs.copy("/docs/readme.txt", "/"), Err(FsError::InvalidPath));
    assert_eq!(fs.copy("/docs/readme.txt", "/none/x"), Err(FsError::NotFound));
    assert_eq!(
        fs.copy("/docs/readme.txt", "/docs/readme.txt/x"),
        Err(FsError::NotADirectory)
    );
    assert_eq!(fs.copy("/docs/readme.txt", "/docs/copy"), Err(FsError::AlreadyExists));
    assert_eq!(fs.list_directory("/docs"), Ok(names(&["readme.txt"])));
    assert_eq!(fs.list_directory("/"), Ok(names(&["docs"])));
}

#[test]
fn add_tag_reports_missing_entries() {
    let mut fs = sample();
    assert_eq!(fs.add_tag("/docs/none", "t"), Err(FsError::NotFound));
    assert_eq!(fs.add_tag("/", "t"), Err(FsError::InvalidPath));
    assert_eq!(fs.add_tag("/docs/readme.txt", "t"), Ok(()));
    assert_eq!(fs.add_tag("/docs/readme.txt", "t"), Ok(()));
    assert_eq!(fs.metadata("/docs/readme.txt").unwrap().tags, names(&["t", "t"]));
}

#[test]
fn metadata_reports_each_failure() {
    let fs = sample();
    assert_eq!(fs.metadata("/").err(), Some(FsError::InvalidPath));
    assert_eq!(fs.metadata("/none").err(), Some(FsError::NotFound));
    assert_eq!(fs.metadata("/docs/readme.txt/x").err(), Some(FsError::NotADirectory));
}
