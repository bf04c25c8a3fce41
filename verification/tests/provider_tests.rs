use std::io::Write;
use void_mod_manager::archive::inspect_zip;
use void_mod_manager::install::InstallStep;
use void_mod_manager::provider::GameIcon;
use void_mod_manager::provider::GameProvider;
use void_mod_manager::provider::Payday2Provider;

fn make_zip(entries: &[(&str, &[u8])]) -> Vec<u8> {
    let mut w = zip::ZipWriter::new(std::io::Cursor::new(Vec::new()));
    let opts = zip::write::SimpleFileOptions::default();
    for (name, data) in entries {
        w.start_file(*name, opts).unwrap();
        w.write_all(data).unwrap();
    }
    w.finish().unwrap().into_inner()
}

#[test]
fn content_directories_hang_off_the_install_dir() {
    let p = Payday2Provider::new();
    assert_eq!(p.mods_folder("/steam/payday2"), "/steam/payday2/mods");
    assert_eq!(
        p.overrides_folder("/steam/payday2"),
        "/steam/payday2/assets/mod_overrides"
    );
}

#[test]
fn identifiers_and_metadata() {
    let p = Payday2Provider::new();
    assert_eq!(p.game_id(), "core:payday_2");
    assert_eq!(p.mod_provider_id(), "core:modworkshop");
    assert_eq!(p.get_external_id(), "1");
    let md = p.metadata();
    assert_eq!(md.id, "core:payday_2");
    assert_eq!(md.display_name, "PAYDAY 2");
    assert_eq!(md.short_name, "PD2");
    assert_eq!(md.provider_source, "core");
    assert!(matches!(md.icon, GameIcon::Path(_)));
}

#[test]
fn begin_install_keys_paths_by_the_game_id() {
    let p = Payday2Provider::new();
    let bytes = make_zip(&[("Pack/file.txt", b"x")]);
    let info = inspect_zip(&bytes).unwrap();
    let (_m, step) = p
        .begin_install(Some("/game".to_string()), "/data", "archive", &info)
        .unwrap();
    match step {
        InstallStep::EnsureModsDir(dir) => assert_eq!(dir, "/game/mods"),
        other => panic!("expected the mods directory first, got {:?}", other),
    }
}

#[test]
fn begin_install_requires_an_install_dir() {
    let p = Payday2Provider::new();
    let bytes = make_zip(&[("Pack/file.txt", b"x")]);
    let info = inspect_zip(&bytes).unwrap();
    assert!(p.begin_install(None, "/data", "archive", &info).is_err());
}
