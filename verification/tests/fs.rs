use kernel_core::fs::error::FsError;
use kernel_core::fs::ramfs::RamFs;
use kernel_core::fs::{Filesystem, GREETING};

fn booted() -> Filesystem {
    let mut disk = Filesystem::new();
    kernel_core::fs::init(&mut disk);
    disk
}

#[test]
fn greeting_is_there_after_boot() {
    let disk = booted();
    assert_eq!(kernel_core::fs::read(&disk, "/welcome/hello.txt"), Ok(GREETING.as_bytes().to_vec()));
    assert_eq!(
        kernel_core::fs::read(&disk, "/welcome/hello.txt").unwrap(),
        b"hello! welcome to unsafeOS! this filesystem only runs on your memmory!".to_vec()
    );
    assert_eq!(kernel_core::fs::list_dir(&disk, "/"), Ok(vec!["welcome".to_string()]));
    assert_eq!(kernel_core::fs::list_dir(&disk, "/welcome"), Ok(vec!["hello.txt".to_string()]));
}

#[test]
fn nothing_works_before_init() {
    let mut disk = Filesystem::new();
    assert_eq!(kernel_core::fs::read(&disk, "/a"), Err(FsError::NotInitialized));
    assert_eq!(kernel_core::fs::write(&mut disk, "/a", b"x"), Err(FsError::NotInitialized));
    assert_eq!(kernel_core::fs::create_dir(&mut disk, "/a"), Err(FsError::NotInitialized));
    assert_eq!(kernel_core::fs::list_dir(&disk, "/"), Err(FsError::NotInitialized));
    assert_eq!(FsError::NotInitialized.message(), "Filesystem not initialized");
}

#[test]
fn read_returns_the_last_write() {
    let mut disk = RamFs::new();
    assert_eq!(disk.write("/f", b"one"), Ok(()));
    assert_eq!(disk.read("/f"), Ok(b"one".to_vec()));
    assert_eq!(disk.write("/f", b"two and more"), Ok(()));
    assert_eq!(disk.write("/f", b""), Ok(()));
    assert_eq!(disk.write("/f", b"three"), Ok(()));
    assert_eq!(disk.read("/f"), Ok(b"three".to_vec()));
    assert_eq!(disk.list_dir("/"), Ok(vec!["f".to_string()]));
}

#[test]
fn created_directory_is_listed() {
    let mut disk = RamFs::new();
    assert_eq!(disk.create_dir("/a"), Ok(()));
    assert_eq!(disk.create_dir("/a/b"), Ok(()));
    assert_eq!(disk.list_dir("/a"), Ok(vec!["b".to_string()]));
    assert_eq!(disk.list_dir("/a/b"), Ok(Vec::<String>::new()));
}

#[test]
fn missing_segment_is_named() {
    let mut disk = RamFs::new();
    disk.create_dir("/a").unwrap();
    assert_eq!(disk.list_dir("/a/x/y"), Err(FsError::PathSegmentNotFound("x".to_string())));
    assert_eq!(disk.read("/nope"), Err(FsError::PathSegmentNotFound("nope".to_string())));
    assert_eq!(
        FsError::PathSegmentNotFound("nope".to_string()).message(),
        "Path not found: nope"
    );
}

#[test]
fn write_without_parent_changes_nothing() {
    let mut disk = RamFs::new();
    disk.create_dir("/a").unwrap();
    disk.write("/a/f", b"kept").unwrap();
    assert_eq!(
        disk.write("/a/missing/f", b"x"),
        Err(FsError::PathSegmentNotFound("missing".to_string()))
    );
    assert_eq!(
        disk.create_dir("/b/c"),
        Err(FsError::PathSegmentNotFound("b".to_string()))
    );
    assert_eq!(disk.list_dir("/"), Ok(vec!["a".to_string()]));
    assert_eq!(disk.list_dir("/a"), Ok(vec!["f".to_string()]));
    assert_eq!(disk.read("/a/f"), Ok(b"kept".to_vec()));
}

#[test]
fn files_are_no_directories() {
    let mut disk = RamFs::new();
    disk.write("/f", b"data").unwrap();
    assert_eq!(disk.write("/f/g", b"x"), Err(FsError::ParentNotADirectory));
    assert_eq!(disk.create_dir("/f/g"), Err(FsError::ParentNotADirectory));
    assert_eq!(disk.write("/f/g/h", b"x"), Err(FsError::NotADirectory));
    assert_eq!(disk.read("/f/g"), Err(FsError::NotADirectory));
    assert_eq!(disk.list_dir("/f/g"), Err(FsError::NotADirectory));
    assert_eq!(disk.list_dir("/f"), Err(FsError::TargetNotADirectory));
    assert_eq!(disk.read("/"), Err(FsError::NotAFile));
    assert_eq!(disk.read("/f"), Ok(b"data".to_vec()));
    assert_eq!(FsError::ParentNotADirectory.message(), "Parent is not a directory");
    assert_eq!(FsError::NotADirectory.message(), "Not a directory");
    assert_eq!(FsError::TargetNotADirectory.message(), "Path is not a directory");
    assert_eq!(FsError::NotAFile.message(), "Path is not a file");
}

#[test]
fn separators_do_not_matter() {
    let mut disk = RamFs::new();
    disk.create_dir("/a").unwrap();
    disk.write("/a//b/", b"x").unwrap();
    assert_eq!(disk.read("/a/b"), Ok(b"x".to_vec()));
    assert_eq!(disk.read("a/b"), Ok(b"x".to_vec()));
    assert_eq!(disk.read("///a///b///"), Ok(b"x".to_vec()));
    assert_eq!(RamFs::split_path("/a//b/"), vec!["a", "b"]);
    assert_eq!(RamFs::split_path("/a/b"), vec!["a", "b"]);
    assert_eq!(RamFs::split_path("//"), Vec::<&str>::new());
    assert_eq!(RamFs::split_path(""), Vec::<&str>::new());
    assert_eq!(RamFs::split_path("/./../x"), vec![".", "..", "x"]);
}

#[test]
fn names_are_listed_in_order() {
    let mut disk = RamFs::new();
    for name in ["/m", "/b", "/z", "/a", "/ab", "/B", "/é", "/0"] {
        disk.write(name, b"").unwrap();
    }
    assert_eq!(
        disk.list_dir("/"),
        Ok(["0", "B", "a", "ab", "b", "m", "z", "é"].iter().map(|s| s.to_string()).collect())
    );
}

#[test]
fn create_dir_replaces_what_was_there() {
    let mut disk = RamFs::new();
    disk.create_dir("/d").unwrap();
    disk.write("/d/f", b"x").unwrap();
    disk.create_dir("/d").unwrap();
    assert_eq!(disk.list_dir("/d"), Ok(Vec::<String>::new()));
    disk.write("/d", b"now a file").unwrap();
    assert_eq!(disk.read("/d"), Ok(b"now a file".to_vec()));
}
