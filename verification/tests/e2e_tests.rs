use std::io::Write;
use void_mod_manager::archive::extract_zip;
use void_mod_manager::archive::inspect_zip;
use void_mod_manager::install::InstallEvent;
use void_mod_manager::install::InstallMachine;
use void_mod_manager::install::InstallStep;
use void_mod_manager::install::Installation;

fn make_mod_zip() -> Vec<u8> {
    let mut w = zip::ZipWriter::new(std::io::Cursor::new(Vec::new()));
    let opts = zip::write::SimpleFileOptions::default();
    for (name, data) in [
        ("MyMod/a.lua", &b"print('a')"[..]),
        ("MyMod/b.lua", &b"print('b')"[..]),
        ("MyMod/readme.txt", &b"read me"[..]),
    ] {
        w.start_file(name, opts).unwrap();
        w.write_all(data).unwrap();
    }
    w.finish().unwrap().into_inner()
}

fn read_file(path: &std::path::Path) -> Vec<u8> {
    let rt = tokio::runtime::Builder::new_current_thread().build().unwrap();
    rt.block_on(tokio::fs::read(path)).unwrap()
}

fn create_dir_all(path: &str) {
    let rt = tokio::runtime::Builder::new_current_thread().build().unwrap();
    rt.block_on(tokio::fs::create_dir_all(path)).unwrap();
}

fn remove_tree_if_present(path: &str) {
    if std::path::Path::new(path).exists() {
        let rt = tokio::runtime::Builder::new_current_thread().build().unwrap();
        rt.block_on(tokio::fs::remove_dir_all(path)).unwrap();
    }
}

fn rename(from: &str, to: &str) {
    let rt = tokio::runtime::Builder::new_current_thread().build().unwrap();
    rt.block_on(tokio::fs::rename(from, to)).unwrap();
}

/// Drives one installation of `bytes` for game `G`, performing every
/// filesystem step for real except the final symbolic link, which is only
/// recorded. Returns the finished installation and the recorded link.
fn drive_install(bytes: &[u8], game: &str, data: &str) -> (Installation, (String, String)) {
    let archive = bytes.to_vec();
    let info = inspect_zip(&archive).unwrap();
    let (mut m, mut step) = InstallMachine::start(
        Some(game.to_string()),
        data,
        "G",
        "mod",
        &info,
    )
    .unwrap();

    let mut recorded_link: Option<(String, String)> = None;
    let installation = loop {
        step = match step {
            InstallStep::EnsureModsDir(p) | InstallStep::EnsureOverridesDir(p) => {
                create_dir_all(&p);
                m.on_event(InstallEvent::DirEnsured)
            }
            InstallStep::ClearStaging(p) => {
                remove_tree_if_present(&p);
                m.on_event(InstallEvent::StagingCleared)
            }
            InstallStep::RemoveOldRoot(p) => {
                remove_tree_if_present(&p);
                m.on_event(InstallEvent::OldRootRemoved)
            }
            InstallStep::ExtractToStaging(p) => {
                let summary = extract_zip(&archive, &p).unwrap();
                m.on_event(InstallEvent::Extracted(summary))
            }
            InstallStep::RenameStaging(from, to) => {
                rename(&from, &to);
                m.on_event(InstallEvent::Renamed)
            }
            InstallStep::ProbeContentDir(p) => {
                let is_dir = std::path::Path::new(&p).is_dir();
                m.on_event(InstallEvent::Probed(is_dir))
            }
            InstallStep::ReplaceLink(target, link) => {
                recorded_link = Some((target, link));
                m.on_event(InstallEvent::Linked)
            }
            InstallStep::Done(inst) => break inst,
            InstallStep::Failed(e) => panic!("installation failed: {:?}", e),
        };
    };
    (installation, recorded_link.unwrap())
}

/// Installs an archive holding `MyMod/a.lua`, `MyMod/b.lua` and
/// `MyMod/readme.txt` for game `G`: the canonical root receives all three
/// files and the link targets the package's single top-level directory
/// below it.
#[test]
fn end_to_end_install_materializes_package() {
    let bytes = make_mod_zip();
    let game_dir = tempfile::tempdir().unwrap();
    let data_dir = tempfile::tempdir().unwrap();
    let game = game_dir.path().to_str().unwrap().to_string();
    let data = data_dir.path().to_str().unwrap().to_string();

    let (installation, (target, link)) = drive_install(&bytes, &game, &data);

    let expected_root = format!("{}/mods/extracted/G/MyMod", data);
    assert_eq!(installation.extracted_root, expected_root);
    assert_eq!(installation.link_path, format!("{}/mods/MyMod", game));
    assert_eq!(installation.link_target, format!("{}/MyMod", expected_root));
    assert_eq!(target, installation.link_target);
    assert_eq!(link, installation.link_path);

    let root = std::path::Path::new(&expected_root);
    assert_eq!(read_file(&root.join("MyMod/a.lua")), b"print('a')".to_vec());
    assert_eq!(read_file(&root.join("MyMod/b.lua")), b"print('b')".to_vec());
    assert_eq!(read_file(&root.join("MyMod/readme.txt")), b"read me".to_vec());
    assert!(!root.with_extension("staging").exists());
    assert!(std::path::Path::new(&format!("{}/mods", game)).is_dir());
    assert!(std::path::Path::new(&format!("{}/assets/mod_overrides", game)).is_dir());
}

/// Simulates a crash after staging extraction but before the rename, then
/// re-runs the whole installation: the stale staging directory is discarded
/// and the rerun finishes exactly like an uninterrupted run would.
#[test]
fn interrupted_run_rerun_converges_on_disk() {
    let bytes = make_mod_zip();
    let game_dir = tempfile::tempdir().unwrap();
    let data_dir = tempfile::tempdir().unwrap();
    let game = game_dir.path().to_str().unwrap().to_string();
    let data = data_dir.path().to_str().unwrap().to_string();

    // First run: stop right after extraction succeeded into staging.
    let info = inspect_zip(&bytes).unwrap();
    let (mut m, step) = InstallMachine::start(
        Some(game.clone()),
        &data,
        "G",
        "mod",
        &info,
    )
    .unwrap();
    let step = match step {
        InstallStep::EnsureModsDir(p) => {
            create_dir_all(&p);
            m.on_event(InstallEvent::DirEnsured)
        }
        other => panic!("unexpected first step: {:?}", other),
    };
    let step = match step {
        InstallStep::EnsureOverridesDir(p) => {
            create_dir_all(&p);
            m.on_event(InstallEvent::DirEnsured)
        }
        other => panic!("unexpected step: {:?}", other),
    };
    let step = match step {
        InstallStep::ClearStaging(p) => {
            remove_tree_if_present(&p);
            m.on_event(InstallEvent::StagingCleared)
        }
        other => panic!("unexpected step: {:?}", other),
    };
    let staging = match step {
        InstallStep::ExtractToStaging(p) => {
            extract_zip(&bytes, &p).unwrap();
            p
        }
        other => panic!("unexpected step: {:?}", other),
    };
    drop(m);
    // The crash leaves the staging directory behind, untrusted.
    assert!(std::path::Path::new(&staging).is_dir());

    // Second run from the start: it clears the stale staging and completes.
    let (installation, _) = drive_install(&bytes, &game, &data);
    let expected_root = format!("{}/mods/extracted/G/MyMod", data);
    assert_eq!(installation.extracted_root, expected_root);
    assert_eq!(installation.link_path, format!("{}/mods/MyMod", game));
    assert_eq!(installation.link_target, format!("{}/MyMod", expected_root));
    assert!(!std::path::Path::new(&staging).exists());
    let root = std::path::Path::new(&expected_root);
    assert_eq!(read_file(&root.join("MyMod/a.lua")), b"print('a')".to_vec());
    assert_eq!(read_file(&root.join("MyMod/readme.txt")), b"read me".to_vec());
}

/// A re-install of the same package name replaces the previous root
/// wholesale: content from the older copy does not survive.
#[test]
fn reinstall_replaces_previous_root() {
    let bytes = make_mod_zip();
    let game_dir = tempfile::tempdir().unwrap();
    let data_dir = tempfile::tempdir().unwrap();
    let game = game_dir.path().to_str().unwrap().to_string();
    let data = data_dir.path().to_str().unwrap().to_string();

    let (first, _) = drive_install(&bytes, &game, &data);
    // Plant a leftover file inside the installed root.
    let stray = std::path::Path::new(&first.extracted_root).join("MyMod/stale.txt");
    let rt = tokio::runtime::Builder::new_current_thread().build().unwrap();
    rt.block_on(tokio::fs::write(&stray, b"old")).unwrap();

    let (second, _) = drive_install(&bytes, &game, &data);
    assert_eq!(first.extracted_root, second.extracted_root);
    assert!(!stray.exists());
    let root = std::path::Path::new(&second.extracted_root);
    assert_eq!(read_file(&root.join("MyMod/a.lua")), b"print('a')".to_vec());
}
