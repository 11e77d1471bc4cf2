use modpack_installer::config::{
    ModEntry, ModLoader, ModPackConfig, Profile, ResourceEntry, SideType, SourceType,
};
use modpack_installer::downloader::DownloadOutcome;
use modpack_installer::event::{AlertLevel, InstallerEvent, Phase, Progress, Report, Work};
use modpack_installer::installer::{Installer, InstallerError, InstallerMode};
use modpack_installer::protocol::{Stage, Step};
use modpack_installer::state::{InstallerState, ModLoaderState, ModState, ResourceState};
use modpack_installer::version::PackVersion;

/// What a driver would meet and leave behind.
struct World {
    stored: Option<InstallerState>,
    hashes: Vec<(String, String)>,
    fetched: Vec<String>,
    delivered: Vec<(String, String, bool)>,
    removed: Vec<String>,
    copied: Vec<String>,
    events: Vec<InstallerEvent>,
    works: Vec<Work>,
    persists: usize,
    profile_fails: bool,
    launch_fails: bool,
    stop_after_persists: Option<usize>,
}

impl World {
    fn new(stored: Option<InstallerState>) -> World {
        World {
            stored,
            hashes: Vec::new(),
            fetched: Vec::new(),
            delivered: Vec::new(),
            removed: Vec::new(),
            copied: Vec::new(),
            events: Vec::new(),
            works: Vec::new(),
            persists: 0,
            profile_fails: false,
            launch_fails: false,
            stop_after_persists: None,
        }
    }

    fn serve(&mut self, url: &str, hash: &str) {
        self.hashes.push((url.to_string(), hash.to_string()));
    }

    fn phases(&self) -> Vec<Phase> {
        self.events
            .iter()
            .filter_map(|e| match e {
                InstallerEvent::ChangePhase(p) => Some(*p),
                _ => None,
            })
            .collect()
    }

    fn progress(&self) -> Vec<(u128, u128)> {
        self.events
            .iter()
            .filter_map(|e| match e {
                InstallerEvent::UpdateProgress(Progress { completed, total }) => Some((*completed, *total)),
                _ => None,
            })
            .collect()
    }
}

fn file_name_of(url: &str) -> String {
    url.rsplit('/').next().unwrap().to_string()
}

/// Drives an installer until the run ends or is interrupted. `Ok(true)`
/// says that the run was completed.
fn drive(mut installer: Installer, world: &mut World) -> Result<bool, InstallerError> {
    let mut report = Report::Done;
    loop {
        let (next, result) = installer.advance(report);
        installer = next;
        let directive = result?;
        world.events.extend(directive.events);
        report = match &directive.work {
            Work::Nothing | Work::ClearScratch => Report::Done,
            Work::LoadState => Report::State(world.stored.clone()),
            Work::Persist => {
                world.stored = Some(installer.state().clone());
                world.persists += 1;
                if world.stop_after_persists == Some(world.persists) {
                    return Ok(false);
                }
                Report::Done
            }
            Work::Fetch { url, .. } => {
                world.fetched.push(url.clone());
                match world.hashes.iter().find(|(u, _)| u == url) {
                    Some((_, hash)) => Report::Fetched(DownloadOutcome {
                        file_name: file_name_of(url),
                        hash: hash.clone(),
                    }),
                    None => Report::Failed(format!("Failed to download from {url}")),
                }
            }
            Work::Deliver { file_name, dir, decompress } => {
                world.delivered.push((file_name.clone(), dir.clone(), *decompress));
                Report::Done
            }
            Work::RemoveMod { file_name } => {
                world.removed.push(file_name.clone());
                Report::Done
            }
            Work::OverwriteConfigs { paths } => {
                world.copied.extend(paths.iter().cloned());
                Report::Done
            }
            Work::AddProfile => {
                if world.profile_fails {
                    Report::Failed("no launcher".to_string())
                } else {
                    Report::Done
                }
            }
            Work::LaunchLoader => {
                if world.launch_fails {
                    Report::Failed("no java".to_string())
                } else {
                    Report::Done
                }
            }
            Work::Finish => {
                assert_eq!(installer.stage(), Stage::Finished);
                return Ok(true);
            }
        };
        world.works.push(directive.work);
    }
}

fn direct(name: &str) -> SourceType {
    SourceType::Direct { url: format!("https://example.com/{name}") }
}

fn mod_entry(name: &str, hash: &str, side: SideType) -> ModEntry {
    ModEntry { name: name.to_string(), source: direct(name), hash: hash.to_string(), side }
}

fn resource(name: &str, hash: &str, target_dir: &str, decompress: bool) -> ResourceEntry {
    ResourceEntry {
        name: name.to_string(),
        source: direct(name),
        hash: hash.to_string(),
        target_dir: target_dir.to_string(),
        decompress,
        side: SideType::Both,
    }
}

fn manifest(version: PackVersion, auto_open: bool, mods: Vec<ModEntry>, resources: Vec<ResourceEntry>) -> ModPackConfig {
    ModPackConfig::new(
        2,
        version,
        Profile {
            name: "Pack".to_string(),
            icon: "Furnace".to_string(),
            version: "1.20.1-forge".to_string(),
            jvm_args: Some("-Xmx4G".to_string()),
        },
        ModLoader {
            name: "Forge".to_string(),
            url: "https://example.com/forge-installer.jar".to_string(),
            hash: "f0".to_string(),
            auto_open,
        },
        mods,
        resources,
    )
    .unwrap()
}

fn usual(version: PackVersion) -> ModPackConfig {
    manifest(
        version,
        false,
        vec![
            mod_entry("a.jar", "0a", SideType::Both),
            mod_entry("server-only.jar", "05", SideType::Server),
            mod_entry("b.jar", "0b", SideType::Client),
        ],
        vec![resource("pack.zip", "0c", "resourcepacks", false), resource("conf.zip", "0d", "config", true)],
    )
}

fn usual_world(stored: Option<InstallerState>) -> World {
    let mut world = World::new(stored);
    world.serve("https://example.com/forge-installer.jar", "F0");
    world.serve("https://example.com/a.jar", "0a");
    world.serve("https://example.com/b.jar", "0B");
    world.serve("https://example.com/pack.zip", "0c");
    world.serve("https://example.com/conf.zip", "0d");
    world
}

fn installer_version() -> PackVersion {
    PackVersion::new(0, 9, 0)
}

fn install(config: ModPackConfig) -> Installer {
    Installer::new(InstallerMode::Install, config, SideType::Client, installer_version())
}

fn update(config: ModPackConfig) -> Installer {
    Installer::new(InstallerMode::Update, config, SideType::Client, installer_version())
}

fn mod_record(name: &str, hash: &str) -> ModState {
    ModState { file_name: name.to_string(), source: direct(name), hash: hash.to_string() }
}

fn installed_state(version: PackVersion) -> InstallerState {
    let mut world = usual_world(None);
    assert_eq!(drive(install(usual(version)), &mut world), Ok(true));
    world.stored.unwrap()
}

#[test]
fn a_first_installation_fetches_everything_in_order() {
    let mut world = usual_world(None);
    assert_eq!(drive(install(usual(PackVersion::new(1, 0, 0))), &mut world), Ok(true));
    assert_eq!(
        world.fetched,
        vec![
            "https://example.com/forge-installer.jar",
            "https://example.com/a.jar",
            "https://example.com/b.jar",
            "https://example.com/pack.zip",
            "https://example.com/conf.zip",
        ]
    );
    assert_eq!(
        world.delivered,
        vec![
            ("forge-installer.jar".to_string(), "".to_string(), false),
            ("a.jar".to_string(), "mods".to_string(), false),
            ("b.jar".to_string(), "mods".to_string(), false),
            ("pack.zip".to_string(), "resourcepacks".to_string(), false),
            ("conf.zip".to_string(), "config".to_string(), true),
        ]
    );
    assert!(world.removed.is_empty());
    assert!(world.copied.is_empty());
    assert_eq!(
        world.phases(),
        vec![Phase::DownloadModLoader, Phase::DownloadMods, Phase::DownloadResources, Phase::AddProfile]
    );
    let state = world.stored.clone().unwrap();
    assert_eq!(state.get_process_mode(), None);
    assert_eq!(state.get_installer_version(), &installer_version());
    assert_eq!(state.get_pack_version(), &PackVersion::new(1, 0, 0));
    assert_eq!(
        state.get_mod_loader(),
        Some(&ModLoaderState {
            file_name: "forge-installer.jar".to_string(),
            url: "https://example.com/forge-installer.jar".to_string(),
            hash: "f0".to_string(),
        })
    );
    assert_eq!(state.get_all_mods(), &vec![mod_record("a.jar", "0a"), mod_record("b.jar", "0b")]);
    assert_eq!(
        state.get_all_resources(),
        &vec![
            ResourceState {
                file_name: "pack.zip".to_string(),
                source: direct("pack.zip"),
                hash: "0c".to_string(),
                target_dir: "resourcepacks".to_string(),
                decompress: false,
            },
            ResourceState {
                file_name: "conf.zip".to_string(),
                source: direct("conf.zip"),
                hash: "0d".to_string(),
                target_dir: "config".to_string(),
                decompress: true,
            },
        ]
    );
}

#[test]
fn progress_rises_step_by_step() {
    let mut world = usual_world(None);
    assert_eq!(drive(install(usual(PackVersion::new(1, 0, 0))), &mut world), Ok(true));
    let progress = world.progress();
    assert_eq!(progress.first(), Some(&(0, 1)));
    assert_eq!(progress.last(), Some(&(1, 1)));
    let steps: Vec<(u128, u128)> = progress[1..progress.len() - 1].to_vec();
    assert_eq!(
        steps,
        vec![(1, 5), (1, 5), (2, 5), (2, 5), (3, 5), (3, 5), (4, 5), (4, 5), (5, 5), (5, 5)]
    );
}

#[test]
fn the_state_is_stored_after_every_change() {
    let mut world = usual_world(None);
    assert_eq!(drive(install(usual(PackVersion::new(1, 0, 0))), &mut world), Ok(true));
    // the mode, five items, and the completion
    assert_eq!(world.persists, 7);
    let mut after_deliver = 0;
    for pair in world.works.windows(2) {
        if matches!(pair[0], Work::Deliver { .. }) {
            assert_eq!(pair[1], Work::Persist);
            after_deliver += 1;
        }
    }
    assert_eq!(after_deliver, 5);
}

#[test]
fn a_second_installation_downloads_nothing_and_ends_alike() {
    let first = installed_state(PackVersion::new(1, 0, 0));
    let mut world = World::new(Some(first.clone()));
    assert_eq!(drive(install(usual(PackVersion::new(1, 0, 0))), &mut world), Ok(true));
    assert!(world.fetched.is_empty());
    assert!(world.delivered.is_empty());
    assert_eq!(world.stored, Some(first));
    assert_eq!(world.phases(), vec![Phase::AddProfile]);
}

#[test]
fn an_installation_marked_in_progress_skips_what_is_recorded() {
    let mut first = installed_state(PackVersion::new(1, 0, 0));
    first.set_process_mode(InstallerMode::Install);
    let mut world = World::new(Some(first.clone()));
    assert_eq!(drive(install(usual(PackVersion::new(1, 0, 0))), &mut world), Ok(true));
    assert!(world.fetched.is_empty());
    first.finalize();
    assert_eq!(world.stored, Some(first));
    assert_eq!(
        world.phases(),
        vec![Phase::DownloadModLoader, Phase::DownloadMods, Phase::DownloadResources, Phase::AddProfile]
    );
}

#[test]
fn an_interrupted_installation_is_resumed_to_the_same_end() {
    let whole = installed_state(PackVersion::new(1, 0, 0));
    // Persist 1 stores the mode; persist 1 + n stores the n-th item.
    for n in 0..=5usize {
        let mut world = usual_world(None);
        world.stop_after_persists = Some(1 + n);
        assert_eq!(drive(install(usual(PackVersion::new(1, 0, 0))), &mut world), Ok(false));
        let first_run: Vec<String> = world.fetched.clone();
        assert_eq!(first_run.len(), n);
        assert_eq!(world.stored.as_ref().unwrap().get_process_mode(), Some(InstallerMode::Install));

        let mut again = usual_world(world.stored.clone());
        assert_eq!(drive(install(usual(PackVersion::new(1, 0, 0))), &mut again), Ok(true));
        assert_eq!(again.stored, Some(whole.clone()));
        assert_eq!(again.fetched.len(), 5 - n);
        for url in &first_run {
            assert!(!again.fetched.contains(url));
        }
    }
}

#[test]
fn a_wrong_hash_ends_the_run_before_the_file_is_placed() {
    let config = manifest(
        PackVersion::new(1, 0, 0),
        false,
        vec![mod_entry("a.jar", "abc123", SideType::Both), mod_entry("b.jar", "0b", SideType::Both)],
        Vec::new(),
    );
    let mut world = World::new(None);
    world.serve("https://example.com/forge-installer.jar", "f0");
    world.serve("https://example.com/a.jar", "def456");
    world.serve("https://example.com/b.jar", "0b");
    let result = drive(install(config), &mut world);
    assert_eq!(
        result,
        Err(InstallerError::HashMismatch {
            file_name: "a.jar".to_string(),
            expected: "abc123".to_string(),
            actual: "def456".to_string(),
        })
    );
    assert_eq!(world.delivered, vec![("forge-installer.jar".to_string(), "".to_string(), false)]);
    assert_eq!(
        world.fetched,
        vec!["https://example.com/forge-installer.jar", "https://example.com/a.jar"]
    );
    let stored = world.stored.unwrap();
    assert!(stored.get_all_mods().is_empty());
    assert!(stored.get_mod_loader().is_some());
    assert_eq!(stored.get_process_mode(), Some(InstallerMode::Install));
}

#[test]
fn a_failed_download_ends_the_run() {
    let mut world = World::new(None);
    world.serve("https://example.com/forge-installer.jar", "f0");
    let result = drive(install(usual(PackVersion::new(1, 0, 0))), &mut world);
    assert_eq!(
        result,
        Err(InstallerError::StepFailed {
            reason: "Failed to download from https://example.com/a.jar".to_string()
        })
    );
    assert_eq!(world.delivered.len(), 1);
}

#[test]
fn a_failed_run_answers_nothing_more() {
    let installer = install(usual(PackVersion::new(1, 0, 0)));
    let (installer, result) = installer.advance(Report::Failed("boom".to_string()));
    assert_eq!(result, Err(InstallerError::StepFailed { reason: "boom".to_string() }));
    assert_eq!(installer.stage(), Stage::Failed);
    let (installer, result) = installer.advance(Report::Done);
    assert_eq!(result, Err(InstallerError::UnexpectedReport));
    assert_eq!(installer.stage(), Stage::Failed);
}

#[test]
fn a_report_that_was_not_awaited_ends_the_run() {
    let installer = install(usual(PackVersion::new(1, 0, 0)));
    let (installer, first) = installer.advance(Report::Done);
    assert_eq!(first.unwrap().work, Work::ClearScratch);
    assert_eq!(installer.stage(), Stage::ClearingScratch);
    let (installer, second) = installer.advance(Report::State(None));
    assert_eq!(second, Err(InstallerError::UnexpectedReport));
    assert_eq!(installer.stage(), Stage::Failed);
}

#[test]
fn an_installation_is_refused_while_an_update_is_in_progress() {
    let mut stored = installed_state(PackVersion::new(1, 0, 0));
    stored.set_process_mode(InstallerMode::Update);
    let mut world = World::new(Some(stored.clone()));
    let result = drive(install(usual(PackVersion::new(1, 0, 0))), &mut world);
    assert_eq!(result, Err(InstallerError::AnotherModeInProgress(InstallerMode::Update)));
    assert_eq!(world.persists, 0);
    assert_eq!(world.stored, Some(stored));
}

#[test]
fn a_failure_to_add_the_profile_only_alerts() {
    let mut world = usual_world(None);
    world.profile_fails = true;
    assert_eq!(drive(install(usual(PackVersion::new(1, 0, 0))), &mut world), Ok(true));
    assert!(world.events.contains(&InstallerEvent::AddAlert {
        level: AlertLevel::Warning,
        translation_key: "alertOnFailedAddProfile".to_string(),
    }));
    assert_eq!(world.stored.clone().unwrap().get_process_mode(), None);
    assert!(!world.works.contains(&Work::LaunchLoader));
}

#[test]
fn the_loader_is_launched_when_the_manifest_says_so() {
    let config = manifest(PackVersion::new(1, 0, 0), true, Vec::new(), Vec::new());
    let mut world = usual_world(None);
    assert_eq!(drive(install(config), &mut world), Ok(true));
    assert!(world.works.contains(&Work::LaunchLoader));
    assert_eq!(
        world.phases(),
        vec![
            Phase::DownloadModLoader,
            Phase::DownloadMods,
            Phase::DownloadResources,
            Phase::AddProfile,
            Phase::LaunchModLoader,
        ]
    );
    assert!(world.events.contains(&InstallerEvent::AddAlert {
        level: AlertLevel::Info,
        translation_key: "alertOnLaunchModLoader".to_string(),
    }));

    let config = manifest(PackVersion::new(1, 0, 0), true, Vec::new(), Vec::new());
    let mut failing = usual_world(None);
    failing.launch_fails = true;
    assert_eq!(drive(install(config), &mut failing), Ok(true));
    assert!(failing.events.contains(&InstallerEvent::AddAlert {
        level: AlertLevel::Warning,
        translation_key: "alertOnFailedLaunchModLoader".to_string(),
    }));
    assert_eq!(failing.stored.clone().unwrap().get_process_mode(), None);
}

#[test]
fn an_installation_leaves_a_changed_mod_alone() {
    let mut stored = installed_state(PackVersion::new(1, 0, 0));
    stored.set_process_mode(InstallerMode::Install);
    let changed = manifest(
        PackVersion::new(1, 0, 0),
        false,
        vec![mod_entry("a.jar", "ff", SideType::Both)],
        Vec::new(),
    );
    let mut world = World::new(Some(stored));
    assert_eq!(drive(install(changed), &mut world), Ok(true));
    assert!(world.fetched.is_empty());
    assert_eq!(
        world.stored.clone().unwrap().get_all_mods(),
        &vec![mod_record("a.jar", "0a"), mod_record("b.jar", "0b")]
    );
}

#[test]
fn an_update_without_a_state_is_refused() {
    let mut world = World::new(None);
    assert_eq!(
        drive(update(usual(PackVersion::new(1, 1, 0))), &mut world),
        Err(InstallerError::StateNotFound)
    );
    assert!(world.stored.is_none());
}

#[test]
fn an_update_to_the_same_version_is_refused() {
    let stored = installed_state(PackVersion::new(1, 0, 0));
    let mut world = World::new(Some(stored));
    assert_eq!(
        drive(update(usual(PackVersion::new(1, 0, 0))), &mut world),
        Err(InstallerError::NoUpdateNeeded)
    );
}

#[test]
fn an_update_removes_what_the_manifest_dropped() {
    let stored = installed_state(PackVersion::new(1, 0, 0));
    let next = manifest(
        PackVersion::new(1, 0, 1),
        false,
        vec![mod_entry("b.jar", "0b", SideType::Client)],
        vec![resource("pack.zip", "0c", "resourcepacks", false), resource("conf.zip", "0d", "config", true)],
    );
    let mut world = World::new(Some(stored));
    assert_eq!(drive(update(next), &mut world), Ok(true));
    assert_eq!(world.removed, vec!["a.jar"]);
    assert!(world.fetched.is_empty());
    let state = world.stored.clone().unwrap();
    assert_eq!(state.get_all_mods(), &vec![mod_record("b.jar", "0b")]);
    assert_eq!(state.get_mod(&mod_entry("a.jar", "0a", SideType::Both)), None);
    assert_eq!(state.get_pack_version(), &PackVersion::new(1, 0, 1));
    assert_eq!(state.get_process_mode(), None);
    assert_eq!(
        world.phases(),
        vec![Phase::RemoveMods, Phase::DownloadMods, Phase::DownloadResources, Phase::UpdateSettings]
    );
    assert_eq!(world.progress().last(), Some(&(1, 1)));
}

#[test]
fn an_update_keeps_a_mod_of_the_other_side_that_the_manifest_lists() {
    let mut stored = installed_state(PackVersion::new(1, 0, 0));
    stored.add_mod(mod_record("server-only.jar", "05"));
    let mut world = World::new(Some(stored));
    assert_eq!(drive(update(usual(PackVersion::new(1, 0, 1))), &mut world), Ok(true));
    assert!(world.removed.is_empty());
    assert_eq!(world.stored.clone().unwrap().get_mod_count(), 3);
}

#[test]
fn an_update_fetches_a_changed_mod_again() {
    let stored = installed_state(PackVersion::new(1, 0, 0));
    let next = manifest(
        PackVersion::new(1, 0, 1),
        false,
        vec![mod_entry("a.jar", "aa11", SideType::Both), mod_entry("b.jar", "0b", SideType::Client)],
        vec![resource("pack.zip", "cc22", "resourcepacks", false), resource("conf.zip", "0d", "config", true)],
    );
    let mut world = World::new(Some(stored));
    world.serve("https://example.com/a.jar", "AA11");
    world.serve("https://example.com/pack.zip", "cc22");
    assert_eq!(drive(update(next), &mut world), Ok(true));
    assert!(world.removed.is_empty());
    assert_eq!(world.fetched, vec!["https://example.com/a.jar", "https://example.com/pack.zip"]);
    let state = world.stored.clone().unwrap();
    assert_eq!(state.get_all_mods(), &vec![mod_record("b.jar", "0b"), mod_record("a.jar", "aa11")]);
    assert_eq!(state.get_all_resources().len(), 2);
    assert_eq!(state.get_mod(&mod_entry("a.jar", "", SideType::Both)).unwrap().hash, "aa11");
    assert_eq!(
        state.get_resource(&resource("pack.zip", "", "resourcepacks", false)).unwrap().hash,
        "cc22"
    );
    assert_eq!(state.get_mod(&mod_entry("b.jar", "", SideType::Both)).unwrap().hash, "0b");
}

#[test]
fn an_update_leaves_a_mod_alone_whose_hash_differs_in_case_only() {
    let stored = installed_state(PackVersion::new(1, 0, 0));
    let next = manifest(
        PackVersion::new(1, 0, 1),
        false,
        vec![mod_entry("a.jar", "0A", SideType::Both), mod_entry("b.jar", "0B", SideType::Client)],
        vec![resource("pack.zip", "0C", "resourcepacks", false), resource("conf.zip", "0D", "config", true)],
    );
    let mut world = World::new(Some(stored.clone()));
    assert_eq!(drive(update(next), &mut world), Ok(true));
    assert!(world.fetched.is_empty());
    let state = world.stored.clone().unwrap();
    assert_eq!(state.get_all_mods(), stored.get_all_mods());
    assert_eq!(state.get_all_resources(), stored.get_all_resources());
}

#[test]
fn an_update_applies_the_migrations_it_crosses() {
    let stored = installed_state(PackVersion::new(1, 1, 0));
    let mut world = World::new(Some(stored));
    world.serve(
        "https://github.com/kyazuki/Makibania-Modpack-Resources/releases/download/v1.2.0/configs.zip",
        "4CB14E94845A0F03775C0D1B8F3F0CBDDB675DDB",
    );
    world.serve(
        "https://github.com/kyazuki/Makibania-Modpack-Resources/releases/download/v1.2.1/configs.zip",
        "9e5f63a8b1a6da42792ffc1563dcd6c6f6eac495",
    );
    assert_eq!(drive(update(usual(PackVersion::new(1, 3, 0))), &mut world), Ok(true));
    assert_eq!(
        world.fetched,
        vec![
            "https://github.com/kyazuki/Makibania-Modpack-Resources/releases/download/v1.2.0/configs.zip",
            "https://github.com/kyazuki/Makibania-Modpack-Resources/releases/download/v1.2.1/configs.zip",
        ]
    );
    assert_eq!(
        world.delivered,
        vec![
            ("configs.zip".to_string(), "config".to_string(), true),
            ("configs.zip".to_string(), "config".to_string(), true),
        ]
    );
    assert_eq!(world.copied.len(), 13);
    assert_eq!(world.copied[0], "fancymenu/customization/loading_makibania_default.txt");
    assert_eq!(world.copied[12], "ftbquests/quests/data.snbt");
    assert!(world.events.contains(&InstallerEvent::ChangeDetail("configs".to_string())));
    let progress = world.progress();
    assert_eq!(progress[progress.len() - 2], (9, 9));
    let copies = world.works.iter().filter(|w| matches!(w, Work::OverwriteConfigs { .. })).count();
    assert_eq!(copies, 1);
    assert_eq!(world.stored.clone().unwrap().get_pack_version(), &PackVersion::new(1, 3, 0));
}

#[test]
fn an_update_from_a_later_version_applies_only_what_is_left() {
    let stored = installed_state(PackVersion::new(1, 2, 1));
    let mut world = World::new(Some(stored));
    assert_eq!(drive(update(usual(PackVersion::new(1, 3, 0))), &mut world), Ok(true));
    assert!(world.fetched.is_empty());
    assert_eq!(world.copied.len(), 13);
}

#[test]
fn an_interrupted_update_is_resumed_to_the_same_end() {
    let stored = {
        let mut s = installed_state(PackVersion::new(1, 0, 0));
        s.add_mod(mod_record("gone1.jar", "01"));
        s.add_mod(mod_record("gone2.jar", "02"));
        s
    };
    let next = || {
        manifest(
            PackVersion::new(1, 0, 1),
            false,
            vec![
                mod_entry("a.jar", "aa11", SideType::Both),
                mod_entry("b.jar", "0b", SideType::Client),
                mod_entry("c.jar", "0c", SideType::Client),
            ],
            vec![resource("pack.zip", "0c", "resourcepacks", false)],
        )
    };
    let serve = |world: &mut World| {
        world.serve("https://example.com/a.jar", "aa11");
        world.serve("https://example.com/c.jar", "0c");
    };
    let mut whole = World::new(Some(stored.clone()));
    serve(&mut whole);
    assert_eq!(drive(update(next()), &mut whole), Ok(true));
    assert_eq!(whole.removed, vec!["gone1.jar", "gone2.jar"]);
    assert_eq!(whole.persists, 6);

    for stop in 1..=5usize {
        let mut first = World::new(Some(stored.clone()));
        serve(&mut first);
        first.stop_after_persists = Some(stop);
        assert_eq!(drive(update(next()), &mut first), Ok(false));
        let mut again = World::new(first.stored.clone());
        serve(&mut again);
        assert_eq!(drive(update(next()), &mut again), Ok(true));
        assert_eq!(again.stored, whole.stored);
        for url in &first.fetched {
            assert!(!again.fetched.contains(url));
        }
        assert_eq!(first.removed.len() + again.removed.len(), 2);
    }
}

#[test]
fn a_new_installer_stands_at_the_beginning() {
    let installer = update(usual(PackVersion::new(1, 0, 0)));
    assert_eq!(installer.mode(), InstallerMode::Update);
    assert_eq!(installer.stage(), Stage::Created);
    assert_eq!(installer.completed_steps(), 0);
    assert_eq!(installer.total_steps(), 0);
    assert_eq!(installer.config().get_pack_version(), &PackVersion::new(1, 0, 0));
    assert_eq!(installer.state().get_mod_count(), 0);
}

#[test]
fn steps_are_counted_while_the_run_goes_on() {
    let mut installer = install(usual(PackVersion::new(1, 0, 0)));
    let mut report = Report::Done;
    let mut seen_fetching = false;
    loop {
        let (next, result) = installer.advance(report);
        installer = next;
        let directive = result.unwrap();
        assert!(installer.completed_steps() <= installer.total_steps());
        report = match directive.work {
            Work::LoadState => Report::State(None),
            Work::Fetch { url, .. } => {
                assert!(matches!(installer.stage(), Stage::Working { step: Step::Fetching, .. }));
                seen_fetching = true;
                let hash = installer_hash(&url);
                Report::Fetched(DownloadOutcome { file_name: file_name_of(&url), hash })
            }
            Work::Finish => break,
            _ => Report::Done,
        };
        if installer.stage() == Stage::AddingProfile {
            assert_eq!(installer.completed_steps(), 5);
            assert_eq!(installer.total_steps(), 5);
        }
    }
    assert!(seen_fetching);
}

fn installer_hash(url: &str) -> String {
    match file_name_of(url).as_str() {
        "forge-installer.jar" => "f0",
        "a.jar" => "0a",
        "b.jar" => "0b",
        "pack.zip" => "0c",
        _ => "0d",
    }
    .to_string()
}
