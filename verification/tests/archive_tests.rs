use std::io::Write;
use void_mod_manager::archive::inspect_zip;
use void_mod_manager::archive::extract_zip;
use void_mod_manager::archive::determine_root_dir;
use void_mod_manager::archive::ArchiveError;

fn make_zip(entries: &[(&str, Option<&[u8]>)]) -> Vec<u8> {
    let mut w = zip::ZipWriter::new(std::io::Cursor::new(Vec::new()));
    let opts = zip::write::SimpleFileOptions::default();
    for (name, data) in entries {
        match data {
            Some(bytes) => {
                w.start_file(*name, opts).unwrap();
                w.write_all(bytes).unwrap();
            }
            None => {
                w.add_directory(*name, opts).unwrap();
            }
        }
    }
    w.finish().unwrap().into_inner()
}

fn read_file(path: &std::path::Path) -> Vec<u8> {
    let rt = tokio::runtime::Builder::new_current_thread().build().unwrap();
    rt.block_on(tokio::fs::read(path)).unwrap()
}

#[test]
fn inspect_lists_files_and_top_dirs() {
    let bytes = make_zip(&[
        ("MyMod/a.lua", Some(b"print(1)")),
        ("MyMod/b.lua", Some(b"print(2)")),
        ("MyMod/readme.txt", Some(b"hello")),
    ]);
    let info = inspect_zip(&bytes).unwrap();
    assert_eq!(info.files, vec!["MyMod/a.lua", "MyMod/b.lua", "MyMod/readme.txt"]);
    assert_eq!(info.top_level_dirs, vec!["MyMod"]);
    assert_eq!(info.total_files, 3);
    assert_eq!(info.count_ext("lua"), 2);
    assert_eq!(info.count_ext("LUA"), 2);
    assert_eq!(info.count_ext("txt"), 1);
    assert_eq!(info.count_ext("zip"), 0);
    assert_eq!(info.single_top_level_dir(), Some("MyMod".to_string()));
}

#[test]
fn single_top_level_dir_none_for_two_tops() {
    let bytes = make_zip(&[
        ("one/a.txt", Some(b"a")),
        ("two/b.txt", Some(b"b")),
    ]);
    let info = inspect_zip(&bytes).unwrap();
    assert_eq!(info.single_top_level_dir(), None);
    assert_eq!(info.top_level_dirs.len(), 2);
}

#[test]
fn single_top_level_dir_from_directory_entry() {
    let bytes = make_zip(&[("justadir", None)]);
    let info = inspect_zip(&bytes).unwrap();
    assert_eq!(info.files.len(), 0);
    assert_eq!(info.total_files, 1);
    assert_eq!(info.single_top_level_dir(), Some("justadir".to_string()));
}

#[test]
fn inspect_empty_archive() {
    let bytes = make_zip(&[]);
    let info = inspect_zip(&bytes).unwrap();
    assert_eq!(info.files.len(), 0);
    assert_eq!(info.total_files, 0);
    assert_eq!(info.single_top_level_dir(), None);
}

#[test]
fn uppercase_extension_counted_lowercased() {
    let bytes = make_zip(&[
        ("A.LUA", Some(b"x")),
        (".gitignore", Some(b"target")),
    ]);
    let info = inspect_zip(&bytes).unwrap();
    assert_eq!(info.count_ext("lua"), 1);
    assert_eq!(info.count_ext("gitignore"), 0);
}

#[test]
fn traversal_entry_rejected_by_inspect() {
    let bytes = make_zip(&[
        ("ok.txt", Some(b"fine")),
        ("../evil.txt", Some(b"bad")),
    ]);
    let err = inspect_zip(&bytes).unwrap_err();
    assert!(matches!(err, ArchiveError::InvalidEntryName(_)));
}

#[test]
fn traversal_entry_rejected_by_extract_and_nothing_written() {
    let bytes = make_zip(&[
        ("ok.txt", Some(b"fine")),
        ("../evil.txt", Some(b"bad")),
    ]);
    let outer = tempfile::tempdir().unwrap();
    let dest = outer.path().join("dest");
    let err = extract_zip(&bytes, dest.to_str().unwrap()).unwrap_err();
    assert!(matches!(err, ArchiveError::InvalidEntryName(_)));
    assert!(!outer.path().join("evil.txt").exists());
    assert!(!dest.join("ok.txt").exists());
}

#[test]
fn balanced_parent_components_resolve() {
    let bytes = make_zip(&[("a/../b.txt", Some(b"ok"))]);
    let info = inspect_zip(&bytes).unwrap();
    assert_eq!(info.files, vec!["b.txt"]);
}

#[test]
fn corrupt_archive_reports_corrupt() {
    let bytes = b"this is not a zip archive at all".to_vec();
    let err = inspect_zip(&bytes).unwrap_err();
    assert!(matches!(err, ArchiveError::Corrupt(_)));
}

#[test]
fn extract_agrees_with_inspect_and_materializes_files() {
    let bytes = make_zip(&[
        ("pack/sub/deep.txt", Some(b"deep contents")),
        ("pack/top.lua", Some(b"return 0")),
        ("pack/empty/", None),
    ]);
    let inspected = inspect_zip(&bytes).unwrap();
    let dir = tempfile::tempdir().unwrap();
    let dest = dir.path().join("out");
    let extracted = extract_zip(&bytes, dest.to_str().unwrap()).unwrap();
    assert_eq!(inspected.files, extracted.files);
    assert_eq!(inspected.top_level_dirs, extracted.top_level_dirs);
    assert_eq!(inspected.total_files, extracted.total_files);
    assert_eq!(read_file(&dest.join("pack/sub/deep.txt")), b"deep contents".to_vec());
    assert_eq!(read_file(&dest.join("pack/top.lua")), b"return 0".to_vec());
    assert!(dest.join("pack/empty").is_dir());
}

#[test]
fn determine_root_dir_prefers_existing_single_top() {
    let bytes = make_zip(&[("D/x.txt", Some(b"x"))]);
    let info = inspect_zip(&bytes).unwrap();
    assert_eq!(determine_root_dir(&info, "/r", true), "/r/D");
    assert_eq!(determine_root_dir(&info, "/r", false), "/r");
    let two = inspect_zip(&make_zip(&[("a/x", Some(b"x")), ("b/y", Some(b"y"))])).unwrap();
    assert_eq!(determine_root_dir(&two, "/r", true), "/r");
}

#[test]
fn non_ascii_entry_names_survive() {
    let bytes = make_zip(&[("Päckchen/ünïcode.lua", Some("löl".as_bytes()))]);
    let info = inspect_zip(&bytes).unwrap();
    assert_eq!(info.files, vec!["Päckchen/ünïcode.lua"]);
    assert_eq!(info.single_top_level_dir(), Some("Päckchen".to_string()));
    assert_eq!(info.count_ext("lua"), 1);
}

#[test]
fn extract_creates_missing_destination() {
    let bytes = make_zip(&[("f.txt", Some(b"content"))]);
    let dir = tempfile::tempdir().unwrap();
    let dest = dir.path().join("deep/nested/dest");
    let info = extract_zip(&bytes, dest.to_str().unwrap()).unwrap();
    assert_eq!(info.files, vec!["f.txt"]);
    assert_eq!(read_file(&dest.join("f.txt")), b"content".to_vec());
}

#[test]
fn unwritable_destination_reports_io() {
    let bytes = make_zip(&[("f.txt", Some(b"content"))]);
    let dir = tempfile::tempdir().unwrap();
    let blocker = dir.path().join("occupied");
    // The destination path already exists as a regular file.
    let rt = tokio::runtime::Builder::new_current_thread().build().unwrap();
    rt.block_on(tokio::fs::write(&blocker, b"in the way")).unwrap();
    let err = extract_zip(&bytes, blocker.to_str().unwrap()).unwrap_err();
    assert!(matches!(err, ArchiveError::Io(_)));
}

#[test]
fn absolute_entry_rejected_by_inspect_and_extract() {
    let bytes = make_zip(&[("/etc/evil.txt", Some(b"bad"))]);
    let err = inspect_zip(&bytes).unwrap_err();
    assert!(matches!(err, ArchiveError::InvalidEntryName(_)));
    let dir = tempfile::tempdir().unwrap();
    let dest = dir.path().join("dest");
    let err = extract_zip(&bytes, dest.to_str().unwrap()).unwrap_err();
    assert!(matches!(err, ArchiveError::InvalidEntryName(_)));
    assert!(!dest.exists());
}

#[test]
fn repeated_inspection_agrees() {
    let good = make_zip(&[("M/a.lua", Some(b"x")), ("M/b.txt", Some(b"y"))]);
    let a = inspect_zip(&good).unwrap();
    let b = inspect_zip(&good).unwrap();
    assert_eq!(a.files, b.files);
    assert_eq!(a.top_level_dirs, b.top_level_dirs);
    assert_eq!(a.total_files, b.total_files);
    assert_eq!(a.count_ext("lua"), b.count_ext("lua"));
    let bad = make_zip(&[("../up.txt", Some(b"z"))]);
    assert!(inspect_zip(&bad).is_err());
    assert!(inspect_zip(&bad).is_err());
}

#[test]
fn duplicate_landing_paths_rejected_by_extract() {
    // Two distinct entry names landing on the same output path.
    let bytes = make_zip(&[
        ("./a.txt", Some(b"first")),
        ("a.txt", Some(b"second")),
    ]);
    // Inspection is read-only and lists both resolved paths.
    let info = inspect_zip(&bytes).unwrap();
    assert_eq!(info.files, vec!["a.txt", "a.txt"]);
    // Extraction refuses the collision before anything is written.
    let dir = tempfile::tempdir().unwrap();
    let dest = dir.path().join("dest");
    let err = extract_zip(&bytes, dest.to_str().unwrap()).unwrap_err();
    assert!(matches!(err, ArchiveError::InvalidEntryName(_)));
    assert!(!dest.exists());
}

#[test]
fn drive_prefix_entry_rejected() {
    let bytes = make_zip(&[("C:/evil.txt", Some(b"bad"))]);
    let err = inspect_zip(&bytes).unwrap_err();
    assert!(matches!(err, ArchiveError::InvalidEntryName(_)));
    let dir = tempfile::tempdir().unwrap();
    let dest = dir.path().join("dest");
    let err = extract_zip(&bytes, dest.to_str().unwrap()).unwrap_err();
    assert!(matches!(err, ArchiveError::InvalidEntryName(_)));
    assert!(!dest.exists());
}
