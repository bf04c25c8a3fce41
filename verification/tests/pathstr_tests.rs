use void_mod_manager::pathstr::ascii_lower;
use void_mod_manager::pathstr::extension_of;
use void_mod_manager::pathstr::file_stem_of;
use void_mod_manager::pathstr::is_dir_name;
use void_mod_manager::pathstr::join_parts;
use void_mod_manager::pathstr::last_component_of;
use void_mod_manager::pathstr::path_under;
use void_mod_manager::pathstr::resolve_entry_path;

#[test]
fn lowercase_maps_ascii_only() {
    assert_eq!(ascii_lower("LUA"), "lua");
    assert_eq!(ascii_lower("MiXeD09_z"), "mixed09_z");
    assert_eq!(ascii_lower(""), "");
}

#[test]
fn resolve_keeps_plain_paths() {
    assert_eq!(resolve_entry_path("a/b/c.txt").unwrap(), vec!["a", "b", "c.txt"]);
    assert_eq!(resolve_entry_path("file").unwrap(), vec!["file"]);
}

#[test]
fn resolve_normalizes_dots_and_separators() {
    assert_eq!(resolve_entry_path("a/./b").unwrap(), vec!["a", "b"]);
    assert_eq!(resolve_entry_path("a//b").unwrap(), vec!["a", "b"]);
    assert_eq!(resolve_entry_path("a\\b").unwrap(), vec!["a", "b"]);
    assert_eq!(resolve_entry_path("a/../b").unwrap(), vec!["b"]);
    assert_eq!(resolve_entry_path("dir/").unwrap(), vec!["dir"]);
}

#[test]
fn resolve_rejects_escapes_absolutes_and_nul() {
    assert!(resolve_entry_path("..").is_none());
    assert!(resolve_entry_path("../x").is_none());
    assert!(resolve_entry_path("a/../../x").is_none());
    assert!(resolve_entry_path("/etc/passwd").is_none());
    assert!(resolve_entry_path("\\lead").is_none());
    assert!(resolve_entry_path("a\0b").is_none());
}

#[test]
fn resolve_rejects_drive_prefixes_only() {
    assert!(resolve_entry_path("C:/evil").is_none());
    assert!(resolve_entry_path("c:relative").is_none());
    // A longer first component with a colon is no drive prefix.
    assert_eq!(resolve_entry_path("ab:/x").unwrap(), vec!["ab:", "x"]);
}

#[test]
fn join_and_nest_paths() {
    let parts = vec!["a".to_string(), "b".to_string(), "c".to_string()];
    assert_eq!(join_parts(&parts), "a/b/c");
    assert_eq!(join_parts(&vec!["solo".to_string()]), "solo");
    assert_eq!(join_parts(&Vec::new()), "");
    assert_eq!(path_under("/base", "leaf"), "/base/leaf");
}

#[test]
fn extension_and_stem_split_on_last_dot() {
    assert_eq!(extension_of("archive.tar.gz").unwrap(), "gz");
    assert_eq!(extension_of("a."), Some("".to_string()));
    assert_eq!(extension_of("noext"), None);
    assert_eq!(extension_of(".gitignore"), None);
    assert_eq!(file_stem_of("mod.zip"), "mod");
    assert_eq!(file_stem_of(".gitignore"), ".gitignore");
    assert_eq!(file_stem_of("plain"), "plain");
}

#[test]
fn directory_names_end_with_separator() {
    assert!(is_dir_name("a/b/"));
    assert!(is_dir_name("a\\"));
    assert!(!is_dir_name("a/b"));
    assert!(!is_dir_name(""));
}

#[test]
fn last_component_follows_final_separator() {
    assert_eq!(last_component_of("a/b/c.txt"), "c.txt");
    assert_eq!(last_component_of("c.txt"), "c.txt");
    assert_eq!(last_component_of("a/b/"), "");
}
