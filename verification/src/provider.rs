//! The game provider for the one supported game: its identifiers and
//! metadata, its content directories, and the entry point that starts the
//! installation protocol for a downloaded archive.
use crate::archive::ArchiveInfo;
use crate::install::spec_classify;
use crate::install::spec_extracted_root;
use crate::install::spec_mods_dir;
use crate::install::spec_overrides_dir;
use crate::install::spec_staging;
use crate::install::classify;
use crate::install::InstallError;
use crate::install::InstallMachine;
use crate::install::InstallStep;
use crate::install::ModKind;
use crate::pathstr::path_under;
use crate::pathstr::spec_path_under;
use std::sync::Arc;
use vstd::prelude::*;

verus! {

/// Why a game provider could not be built or resolved.
#[derive(Debug, Clone)]
pub enum GameProviderError {
    /// No builder is registered under the given name.
    MissingBuilder(String),
    /// The builder ran and failed.
    BuildFailed(String),
    /// The provider names a mod source that does not exist.
    InvalidModProviderId(String),
}

/// How a game's icon is delivered to the interface layer.
#[derive(Debug, Clone)]
pub enum GameIcon {
    /// A path or URL to fetch the icon from.
    Path(String),
    /// Inline vector markup.
    InlineSvg(String),
    /// Raw encoded image bytes with their media type.
    Bytes { data: Arc<Vec<u8>>, mime: String },
}

/// Presentation metadata of a supported game.
#[derive(Debug, Clone)]
pub struct GameMetadata {
    pub id: String,
    pub display_name: String,
    pub short_name: String,
    pub icon: GameIcon,
    pub provider_source: String,
}

/// What a mod source is able to do for its games.
#[derive(Debug, Default)]
pub struct ModProviderFeatures {
    pub supports_endorsements: bool,
    pub requires_api_token: bool,
    pub mod_multi_file: bool,
}

/// A supported game: its identity, its mod source, and its metadata.
pub trait GameProvider {
    /// The stable identifier of the game.
    fn game_id(&self) -> String;

    /// The identifier of the mod source serving this game.
    fn mod_provider_id(&self) -> String;

    /// Presentation metadata for the interface layer.
    fn metadata(&self) -> GameMetadata;
}

/// The provider for the one game currently supported.
pub struct Payday2Provider {}

impl Payday2Provider {
    pub fn new() -> (r: Payday2Provider) {
        Payday2Provider {  }
    }

    /// The directory script mods are activated into.
    pub fn mods_folder(&self, base: &str) -> (r: String)
        ensures
            r@ == spec_path_under(base@, "mods"@),
    {
        path_under(base, "mods")
    }

    /// The directory asset overrides are activated into.
    pub fn overrides_folder(&self, base: &str) -> (r: String)
        ensures
            r@ == spec_path_under(spec_path_under(base@, "assets"@), "mod_overrides"@),
    {
        path_under(path_under(base, "assets").as_str(), "mod_overrides")
    }

    /// The identifier this game carries at its external mod source.
    pub fn get_external_id(&self) -> (r: &str)
        ensures
            r@ == "1"@,
    {
        "1"
    }

    /// Classifies an extracted package for this game.
    pub fn classify(info: &ArchiveInfo) -> (r: ModKind)
        requires
            info.wf(),
        ensures
            r == spec_classify(*info),
    {
        classify(info)
    }

    /// Starts the installation protocol for a downloaded archive of this
    /// game: the runtime supplies the resolved install directory, the
    /// application data root and the archive's file stem, together with the
    /// inspection summary that names the package.
    pub fn begin_install(
        &self,
        install_dir: Option<String>,
        data_root: &str,
        archive_stem: &str,
        inspect_info: &ArchiveInfo,
    ) -> (r: Result<(InstallMachine, InstallStep), InstallError>)
        ensures
            match r {
                Ok(pair) => {
                    &&& install_dir matches Some(d) && pair.0.install_dir() == d@
                    &&& pair.0.wf()
                    &&& pair.0.phase() is AwaitMods
                    &&& pair.0.data_root() == data_root@
                    &&& pair.0.game_id() == "core:payday_2"@
                    &&& pair.0.pkg() == (if inspect_info.top_level_dirs@.len() == 1 {
                        inspect_info.top_level_dirs@[0]@
                    } else {
                        archive_stem@
                    })
                    &&& pair.0.mods_path() == spec_mods_dir(pair.0.install_dir())
                    &&& pair.0.overrides_path() == spec_overrides_dir(pair.0.install_dir())
                    &&& pair.0.root_path() == spec_extracted_root(
                        data_root@,
                        "core:payday_2"@,
                        pair.0.pkg(),
                    )
                    &&& pair.0.staging_path() == spec_staging(pair.0.root_path())
                    &&& pair.1 matches InstallStep::EnsureModsDir(p) && p@ == pair.0.mods_path()
                },
                Err(e) => e is GameNotFound && install_dir is None,
            },
    {
        InstallMachine::start(install_dir, data_root, "core:payday_2", archive_stem, inspect_info)
    }
}

impl GameProvider for Payday2Provider {
    fn game_id(&self) -> (r: String)
        ensures
            r@ == "core:payday_2"@,
    {
        String::from_str("core:payday_2")
    }

    fn mod_provider_id(&self) -> (r: String)
        ensures
            r@ == "core:modworkshop"@,
    {
        String::from_str("core:modworkshop")
    }

    fn metadata(&self) -> (r: GameMetadata)
        ensures
            r.id@ == "core:payday_2"@,
            r.display_name@ == "PAYDAY 2"@,
            r.short_name@ == "PD2"@,
            r.provider_source@ == "core"@,
            r.icon is Path,
    {
        GameMetadata {
            id: String::from_str("core:payday_2"),
            display_name: String::from_str("PAYDAY 2"),
            short_name: String::from_str("PD2"),
            icon: GameIcon::Path(
                String::from_str(
                    "https://cdn2.steamgriddb.com/icon/fa6d3cc166fbfbf005c9e77d96cba283/32/256x256.png",
                ),
            ),
            provider_source: String::from_str("core"),
        }
    }
}

} // verus!
