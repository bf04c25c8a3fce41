//! The installation protocol: a step machine that turns a downloaded archive
//! into an active installation. It inspects the package, extracts it into a
//! staging directory (cleared unconditionally, so an interrupted run leaves
//! nothing trusted behind), promotes staging to the canonical root only after
//! extraction fully succeeds, and finally repoints the activation link. The
//! filesystem actions themselves are carried out by the unverified runtime,
//! which reports each outcome back as an event.
use crate::archive::ArchiveError;
use crate::archive::ArchiveInfo;
use crate::pathstr::path_under;
use crate::pathstr::append_suffix;
use crate::pathstr::lower_seq;
use crate::pathstr::spec_path_under;
use vstd::prelude::*;

verus! {

/// The two destinations a package may activate into.
#[derive(Debug, Clone, Copy, PartialEq, Eq, Structural)]
pub enum ModKind {
    /// More than one scripting file: belongs in the mods directory.
    ScriptMod,
    /// Everything else: belongs in the asset override directory.
    AssetOverride,
}

/// Why an installation failed, naming the step that failed.
#[derive(Debug, Clone)]
pub enum InstallError {
    /// The game's install directory could not be resolved.
    GameNotFound,
    /// The archive could not be inspected.
    Inspect(ArchiveError),
    /// The archive could not be extracted into staging.
    Extract(ArchiveError),
    /// A directory could not be created or removed.
    Io(String),
    /// Staging could not be promoted to the canonical root.
    Rename(String),
    /// The activation link could not be replaced.
    Link(String),
}

/// The final on-disk artifact of a successful installation: the canonical
/// extracted copy, and the directory symbolic link that activates it.
#[derive(Debug, Clone)]
pub struct Installation {
    pub extracted_root: String,
    pub link_path: String,
    pub link_target: String,
}

/// A package is a script mod exactly when it carries more than one file with
/// the scripting extension.
pub open spec fn spec_classify(info: ArchiveInfo) -> ModKind {
    if info.ext_view().dom().contains("lua"@) && info.ext_view()["lua"@] > 1 {
        ModKind::ScriptMod
    } else {
        ModKind::AssetOverride
    }
}

/// Classifies an extracted package from its summary: `ScriptMod` exactly
/// when more than one contained file has the scripting extension.
pub fn classify(info: &ArchiveInfo) -> (r: ModKind)
    requires
        info.wf(),
    ensures
        r == spec_classify(*info),
{
    proof {
        reveal_strlit("lua");
        assert(lower_seq("lua"@) =~= "lua"@) by {
            assert(lower_seq("lua"@)[0] == 'l');
            assert(lower_seq("lua"@)[1] == 'u');
            assert(lower_seq("lua"@)[2] == 'a');
        }
    }
    if info.count_ext("lua") > 1 {
        ModKind::ScriptMod
    } else {
        ModKind::AssetOverride
    }
}

/// The mods directory of a game installation.
pub open spec fn spec_mods_dir(install_dir: Seq<char>) -> Seq<char> {
    spec_path_under(install_dir, "mods"@)
}

/// The asset override directory of a game installation.
pub open spec fn spec_overrides_dir(install_dir: Seq<char>) -> Seq<char> {
    spec_path_under(spec_path_under(install_dir, "assets"@), "mod_overrides"@)
}

/// The canonical extracted root of a package: a fixed location below the
/// application data root, keyed by game and package name, so a re-install of
/// the same package always replaces the previous copy.
pub open spec fn spec_extracted_root(
    data_root: Seq<char>,
    game_id: Seq<char>,
    pkg: Seq<char>,
) -> Seq<char> {
    spec_path_under(
        spec_path_under(spec_path_under(spec_path_under(data_root, "mods"@), "extracted"@), game_id),
        pkg,
    )
}

/// The transient sibling a package is extracted into before promotion.
pub open spec fn spec_staging(root: Seq<char>) -> Seq<char> {
    root + ".staging"@
}

/// Where the activation link of a package lives, by classification.
pub open spec fn spec_link_path(
    install_dir: Seq<char>,
    kind: ModKind,
    pkg: Seq<char>,
) -> Seq<char> {
    if kind is ScriptMod {
        spec_path_under(spec_mods_dir(install_dir), pkg)
    } else {
        spec_path_under(spec_overrides_dir(install_dir), pkg)
    }
}

/// The shape a completed installation must have, as a function of the game's
/// directories, the package name, the classification and the resolved
/// content root alone.
pub open spec fn spec_planned(
    inst: Installation,
    install_dir: Seq<char>,
    data_root: Seq<char>,
    game_id: Seq<char>,
    pkg: Seq<char>,
    kind: ModKind,
    content: Seq<char>,
) -> bool {
    &&& inst.extracted_root@ == spec_extracted_root(data_root, game_id, pkg)
    &&& inst.link_path@ == spec_link_path(install_dir, kind, pkg)
    &&& inst.link_target@ == content
}

/// Where the protocol stands: which outcome it is waiting on.
#[derive(Debug, Clone, Copy, PartialEq, Eq, Structural)]
pub enum InstallPhase {
    /// Waiting for the mods directory to exist.
    AwaitMods,
    /// Waiting for the override directory to exist.
    AwaitOverrides,
    /// Waiting for any stale staging directory to be deleted.
    AwaitClear,
    /// Waiting for the archive to be extracted into staging.
    AwaitExtract,
    /// Waiting for any previous extracted root to be deleted.
    AwaitRemove,
    /// Waiting for staging to be renamed onto the canonical root.
    AwaitRename,
    /// Waiting to learn whether the single top-level directory exists.
    AwaitProbe,
    /// Waiting for the activation link to be replaced.
    AwaitLink,
    /// The protocol has ended, in `Done` or `Failed`.
    Finished,
}

/// A filesystem action the runtime must perform next, or the protocol's
/// terminal outcome.
#[derive(Debug, Clone)]
pub enum InstallStep {
    /// Create this directory and its ancestors if absent.
    EnsureModsDir(String),
    /// Create this directory and its ancestors if absent.
    EnsureOverridesDir(String),
    /// Delete this directory tree if it exists; report success if absent.
    ClearStaging(String),
    /// Extract the archive below this directory.
    ExtractToStaging(String),
    /// Delete this directory tree if it exists; report success if absent.
    RemoveOldRoot(String),
    /// Rename the first directory onto the second.
    RenameStaging(String, String),
    /// Report whether this path is a directory.
    ProbeContentDir(String),
    /// Remove whatever sits at the second path and create there a directory
    /// symbolic link to the first.
    ReplaceLink(String, String),
    /// The installation finished.
    Done(Installation),
    /// The installation failed; nothing further will be asked.
    Failed(InstallError),
}

/// What the runtime reports back after performing a step.
#[derive(Debug, Clone)]
pub enum InstallEvent {
    /// The requested directory exists now.
    DirEnsured,
    /// The staging directory is gone.
    StagingCleared,
    /// Extraction into staging succeeded, with its summary.
    Extracted(ArchiveInfo),
    /// Extraction failed; staging is not trusted.
    ExtractFailed(ArchiveError),
    /// No previous extracted root remains.
    OldRootRemoved,
    /// Staging was renamed onto the canonical root.
    Renamed,
    /// The rename failed.
    RenameFailed(String),
    /// Whether the probed path is a directory.
    Probed(bool),
    /// The activation link now points at the content root.
    Linked,
    /// The link could not be replaced.
    LinkFailed(String),
    /// A directory could not be created or removed.
    IoFailed(String),
}

/// The installation protocol for one package. Drives the fixed sequence:
/// ensure both content directories, clear staging unconditionally, extract,
/// remove the old root only after extraction succeeded, rename, resolve the
/// content root, replace the link.
pub struct InstallMachine {
    phase: InstallPhase,
    mods_dir: String,
    overrides_dir: String,
    pkg_name: String,
    root: String,
    staging: String,
    link_path: String,
    content_root: String,
    top_dir: Option<String>,
    kind: ModKind,
    install_dir_g: Ghost<Seq<char>>,
    data_root_g: Ghost<Seq<char>>,
    game_id_g: Ghost<Seq<char>>,
}

impl InstallMachine {
    /// Which outcome the protocol is waiting on.
    pub closed spec fn phase(self) -> InstallPhase {
        self.phase
    }

    /// The game install directory the machine was started with.
    pub closed spec fn install_dir(self) -> Seq<char> {
        self.install_dir_g@
    }

    /// The application data root the machine was started with.
    pub closed spec fn data_root(self) -> Seq<char> {
        self.data_root_g@
    }

    /// The game identifier the machine was started with.
    pub closed spec fn game_id(self) -> Seq<char> {
        self.game_id_g@
    }

    /// The canonical name of the package being installed.
    pub closed spec fn pkg(self) -> Seq<char> {
        self.pkg_name@
    }

    /// The canonical extracted root path.
    pub closed spec fn root_path(self) -> Seq<char> {
        self.root@
    }

    /// The staging path.
    pub closed spec fn staging_path(self) -> Seq<char> {
        self.staging@
    }

    /// The mods directory path.
    pub closed spec fn mods_path(self) -> Seq<char> {
        self.mods_dir@
    }

    /// The override directory path.
    pub closed spec fn overrides_path(self) -> Seq<char> {
        self.overrides_dir@
    }

    /// The classification chosen after extraction.
    pub closed spec fn kind_sel(self) -> ModKind {
        self.kind
    }

    /// The single top-level directory of the extraction summary, if any.
    pub closed spec fn top(self) -> Option<Seq<char>> {
        match self.top_dir {
            Some(d) => Some(d@),
            None => None,
        }
    }

    /// The content root the activation link will point at.
    pub closed spec fn content(self) -> Seq<char> {
        self.content_root@
    }

    /// The fixed paths the machine computed at start, all derived from the
    /// directories it was given and the package name.
    pub closed spec fn wf(self) -> bool {
        &&& self.mods_dir@ == spec_mods_dir(self.install_dir_g@)
        &&& self.overrides_dir@ == spec_overrides_dir(self.install_dir_g@)
        &&& self.root@ == spec_extracted_root(self.data_root_g@, self.game_id_g@, self.pkg_name@)
        &&& self.staging@ == spec_staging(self.root@)
        &&& ((self.phase is AwaitLink) ==> self.link_path@ == spec_link_path(
            self.install_dir_g@,
            self.kind,
            self.pkg_name@,
        ))
        &&& ((self.phase is AwaitLink) ==> (self.content_root@ == self.root@ || (
        self.top_dir matches Some(d) && self.content_root@ == spec_path_under(self.root@, d@))))
    }

    /// The configuration fixed at start never changes afterwards.
    pub open spec fn same_config(self, other: Self) -> bool {
        &&& self.install_dir() == other.install_dir()
        &&& self.data_root() == other.data_root()
        &&& self.game_id() == other.game_id()
        &&& self.pkg() == other.pkg()
        &&& self.root_path() == other.root_path()
        &&& self.staging_path() == other.staging_path()
        &&& self.mods_path() == other.mods_path()
        &&& self.overrides_path() == other.overrides_path()
    }

    /// Starts an installation. Fails with `GameNotFound` exactly when no
    /// install directory could be resolved. The package name is the
    /// archive's single top-level directory when it has one, else the
    /// archive's file stem; every path of the protocol is derived from it
    /// here, so a rerun over the same archive computes the same paths. The
    /// first step asks for the mods directory.
    pub fn start(
        install_dir: Option<String>,
        data_root: &str,
        game_id: &str,
        archive_stem: &str,
        inspect_info: &ArchiveInfo,
    ) -> (r: Result<(InstallMachine, InstallStep), InstallError>)
        ensures
            match r {
                Ok(pair) => {
                    &&& install_dir matches Some(d) && pair.0.install_dir() == d@
                    &&& pair.0.wf()
                    &&& pair.0.phase() is AwaitMods
                    &&& pair.0.data_root() == data_root@
                    &&& pair.0.game_id() == game_id@
                    &&& pair.0.pkg() == (if inspect_info.top_level_dirs@.len() == 1 {
                        inspect_info.top_level_dirs@[0]@
                    } else {
                        archive_stem@
                    })
                    &&& pair.0.mods_path() == spec_mods_dir(pair.0.install_dir())
                    &&& pair.0.overrides_path() == spec_overrides_dir(pair.0.install_dir())
                    &&& pair.0.root_path() == spec_extracted_root(
                        data_root@,
                        game_id@,
                        pair.0.pkg(),
                    )
                    &&& pair.0.staging_path() == spec_staging(pair.0.root_path())
                    &&& pair.1 matches InstallStep::EnsureModsDir(p) && p@ == pair.0.mods_path()
                },
                Err(e) => e is GameNotFound && install_dir is None,
            },
    {
        let dir = match install_dir {
            Some(d) => d,
            None => { return Err(InstallError::GameNotFound); },
        };
        let pkg_name = match inspect_info.single_top_level_dir() {
            Some(d) => d,
            None => String::from_str(archive_stem),
        };
        let mods_dir = path_under(dir.as_str(), "mods");
        let overrides_dir = path_under(path_under(dir.as_str(), "assets").as_str(), "mod_overrides");
        let root = path_under(
            path_under(
                path_under(path_under(data_root, "mods").as_str(), "extracted").as_str(),
                game_id,
            ).as_str(),
            pkg_name.as_str(),
        );
        let staging = append_suffix(root.as_str(), ".staging");
        let first = InstallStep::EnsureModsDir(mods_dir.clone());
        let m = InstallMachine {
            phase: InstallPhase::AwaitMods,
            mods_dir,
            overrides_dir,
            pkg_name,
            root,
            staging,
            link_path: String::new(),
            content_root: String::new(),
            top_dir: None,
            kind: ModKind::AssetOverride,
            install_dir_g: Ghost(dir@),
            data_root_g: Ghost(data_root@),
            game_id_g: Ghost(game_id@),
        };
        Ok((m, first))
    }

    /// Feeds the outcome of the previous step to the machine and obtains the
    /// next one. The order is fixed: both content directories are ensured,
    /// staging is cleared unconditionally, and only a successful extraction
    /// leads to the destructive steps; an extraction failure aborts with the
    /// previous installation untouched. The machine answers `Failed` to any
    /// event that does not answer the step it is waiting on.
    pub fn on_event(&mut self, ev: InstallEvent) -> (r: InstallStep)
        requires
            old(self).wf(),
            ev matches InstallEvent::Extracted(info) ==> info.wf(),
        ensures
            final(self).wf(),
            final(self).same_config(*old(self)),
            old(self).phase() is AwaitMods ==> (match ev {
                InstallEvent::DirEnsured => final(self).phase() is AwaitOverrides && (
                r matches InstallStep::EnsureOverridesDir(p) && p@ == old(self).overrides_path()),
                _ => final(self).phase() is Finished && r is Failed,
            }),
            old(self).phase() is AwaitOverrides ==> (match ev {
                InstallEvent::DirEnsured => final(self).phase() is AwaitClear && (
                r matches InstallStep::ClearStaging(p) && p@ == old(self).staging_path()),
                _ => final(self).phase() is Finished && r is Failed,
            }),
            old(self).phase() is AwaitClear ==> (match ev {
                InstallEvent::StagingCleared => final(self).phase() is AwaitExtract && (
                r matches InstallStep::ExtractToStaging(p) && p@ == old(self).staging_path()),
                _ => final(self).phase() is Finished && r is Failed,
            }),
            old(self).phase() is AwaitExtract ==> (match ev {
                InstallEvent::Extracted(info) => {
                    &&& final(self).phase() is AwaitRemove
                    &&& (r matches InstallStep::RemoveOldRoot(p) && p@ == old(self).root_path())
                    &&& final(self).kind_sel() == spec_classify(info)
                    &&& final(self).top() == (if info.top_level_dirs@.len() == 1 {
                        Some(info.top_level_dirs@[0]@)
                    } else {
                        None::<Seq<char>>
                    })
                },
                InstallEvent::ExtractFailed(e) => final(self).phase() is Finished && (
                r matches InstallStep::Failed(f) && f matches InstallError::Extract(e2) && e2 == e),
                _ => final(self).phase() is Finished && r is Failed,
            }),
            old(self).phase() is AwaitRemove ==> (match ev {
                InstallEvent::OldRootRemoved => {
                    &&& final(self).phase() is AwaitRename
                    &&& final(self).kind_sel() == old(self).kind_sel()
                    &&& final(self).top() == old(self).top()
                    &&& (r matches InstallStep::RenameStaging(a, b) && a@ == old(
                        self,
                    ).staging_path() && b@ == old(self).root_path())
                },
                _ => final(self).phase() is Finished && r is Failed,
            }),
            old(self).phase() is AwaitRename ==> (match ev {
                InstallEvent::Renamed => {
                    &&& final(self).kind_sel() == old(self).kind_sel()
                    &&& final(self).top() == old(self).top()
                    &&& (match old(self).top() {
                        Some(d) => final(self).phase() is AwaitProbe && (
                        r matches InstallStep::ProbeContentDir(p) && p@ == spec_path_under(
                            old(self).root_path(),
                            d,
                        )),
                        None => final(self).phase() is AwaitLink && final(self).content() == old(
                            self,
                        ).root_path() && (r matches InstallStep::ReplaceLink(t, l) && t@ == old(
                            self,
                        ).root_path() && l@ == spec_link_path(
                            old(self).install_dir(),
                            old(self).kind_sel(),
                            old(self).pkg(),
                        )),
                    })
                },
                InstallEvent::RenameFailed(m) => final(self).phase() is Finished && (
                r matches InstallStep::Failed(f) && f matches InstallError::Rename(m2) && m2 == m),
                _ => final(self).phase() is Finished && r is Failed,
            }),
            old(self).phase() is AwaitProbe ==> (match ev {
                InstallEvent::Probed(is_dir) => {
                    &&& final(self).phase() is AwaitLink
                    &&& final(self).kind_sel() == old(self).kind_sel()
                    &&& final(self).top() == old(self).top()
                    &&& final(self).content() == (if is_dir && old(self).top() is Some {
                        spec_path_under(old(self).root_path(), old(self).top().unwrap())
                    } else {
                        old(self).root_path()
                    })
                    &&& (r matches InstallStep::ReplaceLink(t, l) && t@ == final(self).content()
                        && l@ == spec_link_path(
                        old(self).install_dir(),
                        old(self).kind_sel(),
                        old(self).pkg(),
                    ))
                },
                _ => final(self).phase() is Finished && r is Failed,
            }),
            old(self).phase() is AwaitLink ==> (match ev {
                InstallEvent::Linked => {
                    &&& final(self).phase() is Finished
                    &&& (r matches InstallStep::Done(inst) && spec_planned(
                        inst,
                        old(self).install_dir(),
                        old(self).data_root(),
                        old(self).game_id(),
                        old(self).pkg(),
                        old(self).kind_sel(),
                        old(self).content(),
                    ))
                },
                InstallEvent::LinkFailed(m) => final(self).phase() is Finished && (
                r matches InstallStep::Failed(f) && f matches InstallError::Link(m2) && m2 == m),
                _ => final(self).phase() is Finished && r is Failed,
            }),
            old(self).phase() is Finished ==> final(self).phase() is Finished && r is Failed,
    {
        match (self.phase, ev) {
            (InstallPhase::AwaitMods, InstallEvent::DirEnsured) => {
                self.phase = InstallPhase::AwaitOverrides;
                InstallStep::EnsureOverridesDir(self.overrides_dir.clone())
            },
            (InstallPhase::AwaitOverrides, InstallEvent::DirEnsured) => {
                self.phase = InstallPhase::AwaitClear;
                InstallStep::ClearStaging(self.staging.clone())
            },
            (InstallPhase::AwaitClear, InstallEvent::StagingCleared) => {
                self.phase = InstallPhase::AwaitExtract;
                InstallStep::ExtractToStaging(self.staging.clone())
            },
            (InstallPhase::AwaitExtract, InstallEvent::Extracted(info)) => {
                self.kind = classify(&info);
                self.top_dir = info.single_top_level_dir();
                self.phase = InstallPhase::AwaitRemove;
                InstallStep::RemoveOldRoot(self.root.clone())
            },
            (InstallPhase::AwaitExtract, InstallEvent::ExtractFailed(e)) => {
                self.phase = InstallPhase::Finished;
                InstallStep::Failed(InstallError::Extract(e))
            },
            (InstallPhase::AwaitRemove, InstallEvent::OldRootRemoved) => {
                self.phase = InstallPhase::AwaitRename;
                InstallStep::RenameStaging(self.staging.clone(), self.root.clone())
            },
            (InstallPhase::AwaitRename, InstallEvent::Renamed) => {
                match &self.top_dir {
                    Some(d) => {
                        let candidate = path_under(self.root.as_str(), d.as_str());
                        self.phase = InstallPhase::AwaitProbe;
                        InstallStep::ProbeContentDir(candidate)
                    },
                    None => {
                        self.content_root = self.root.clone();
                        self.link_path = self.make_link_path();
                        self.phase = InstallPhase::AwaitLink;
                        InstallStep::ReplaceLink(self.content_root.clone(), self.link_path.clone())
                    },
                }
            },
            (InstallPhase::AwaitRename, InstallEvent::RenameFailed(m)) => {
                self.phase = InstallPhase::Finished;
                InstallStep::Failed(InstallError::Rename(m))
            },
            (InstallPhase::AwaitProbe, InstallEvent::Probed(is_dir)) => {
                let content = match &self.top_dir {
                    Some(d) => {
                        if is_dir {
                            path_under(self.root.as_str(), d.as_str())
                        } else {
                            self.root.clone()
                        }
                    },
                    None => self.root.clone(),
                };
                self.content_root = content;
                self.link_path = self.make_link_path();
                self.phase = InstallPhase::AwaitLink;
                InstallStep::ReplaceLink(self.content_root.clone(), self.link_path.clone())
            },
            (InstallPhase::AwaitLink, InstallEvent::Linked) => {
                self.phase = InstallPhase::Finished;
                InstallStep::Done(
                    Installation {
                        extracted_root: self.root.clone(),
                        link_path: self.link_path.clone(),
                        link_target: self.content_root.clone(),
                    },
                )
            },
            (InstallPhase::AwaitLink, InstallEvent::LinkFailed(m)) => {
                self.phase = InstallPhase::Finished;
                InstallStep::Failed(InstallError::Link(m))
            },
            (_, InstallEvent::IoFailed(m)) => {
                self.phase = InstallPhase::Finished;
                InstallStep::Failed(InstallError::Io(m))
            },
            _ => {
                self.phase = InstallPhase::Finished;
                InstallStep::Failed(
                    InstallError::Io(String::from_str("event does not answer the awaited step")),
                )
            },
        }
    }

    /// The activation link path for the current classification.
    fn make_link_path(&self) -> (r: String)
        requires
            self.wf(),
        ensures
            r@ == spec_link_path(self.install_dir(), self.kind_sel(), self.pkg()),
    {
        match self.kind {
            ModKind::ScriptMod => path_under(self.mods_dir.as_str(), self.pkg_name.as_str()),
            ModKind::AssetOverride => path_under(
                self.overrides_dir.as_str(),
                self.pkg_name.as_str(),
            ),
        }
    }
}

/// An installation interrupted after staging and retried from the start
/// converges with an uninterrupted run: the machine clears staging before
/// every extraction without consulting what a previous run left there, and a
/// completed installation is a pure function of the game's directories, the
/// package name, the classification and the resolved content root. Two
/// completed runs over the same inputs therefore produce the same
/// installation.
pub proof fn lemma_rerun_converges(
    a: Installation,
    b: Installation,
    install_dir: Seq<char>,
    data_root: Seq<char>,
    game_id: Seq<char>,
    pkg: Seq<char>,
    kind: ModKind,
    content: Seq<char>,
)
    requires
        spec_planned(a, install_dir, data_root, game_id, pkg, kind, content),
        spec_planned(b, install_dir, data_root, game_id, pkg, kind, content),
    ensures
        a.extracted_root@ == b.extracted_root@,
        a.link_path@ == b.link_path@,
        a.link_target@ == b.link_target@,
{
}

} // verus!
