use modpack_installer::config::{
    ModEntry, ModLoader, ModPackConfig, Profile, ResourceEntry, SideType, SourceType,
};
use modpack_installer::installer::{
    hash_matches, verify_hash, Installer, InstallerError, InstallerMode,
};
use modpack_installer::migration::{fired_migrations, migration_table, Migration, MigrationAction};
use modpack_installer::state::{InstallerState, ModState};
use modpack_installer::version::PackVersion;

fn config(pack_version: PackVersion, mods: Vec<ModEntry>, resources: Vec<ResourceEntry>) -> ModPackConfig {
    ModPackConfig::new(
        2,
        pack_version,
        Profile {
            name: "Pack".to_string(),
            icon: "Furnace".to_string(),
            version: "1.20.1-forge".to_string(),
            jvm_args: None,
        },
        ModLoader {
            name: "Forge".to_string(),
            url: "https://example.com/forge.jar".to_string(),
            hash: "aa".to_string(),
            auto_open: false,
        },
        mods,
        resources,
    )
    .unwrap()
}

fn mod_entry(id: u32, side: SideType) -> ModEntry {
    ModEntry {
        name: format!("mod{id}"),
        source: SourceType::Curseforge { project_id: id, file_id: 1 },
        hash: "00".to_string(),
        side,
    }
}

fn resource(id: u32, side: SideType) -> ResourceEntry {
    ResourceEntry {
        name: format!("res{id}"),
        source: SourceType::Curseforge { project_id: id, file_id: 2 },
        hash: "11".to_string(),
        target_dir: "config".to_string(),
        decompress: false,
        side,
    }
}

fn state(pack_version: PackVersion, mode: Option<InstallerMode>) -> InstallerState {
    InstallerState::load(PackVersion::new(0, 1, 0), Some(pack_version), None, Vec::new(), Vec::new(), mode)
}

fn thresholds(migrations: &Vec<Migration>) -> Vec<PackVersion> {
    migrations.iter().map(|m| m.threshold.clone()).collect()
}

#[test]
fn installer_modes_have_names() {
    assert_eq!(InstallerMode::Install.name(), "Install");
    assert_eq!(InstallerMode::Update.name(), "Update");
}

#[test]
fn hashes_match_whatever_their_case() {
    assert!(hash_matches("abc123", "abc123"));
    assert!(hash_matches("ABC123", "abc123"));
    assert!(hash_matches("aBc123", "AbC123"));
    assert!(!hash_matches("abc123", "def456"));
    assert!(!hash_matches("abc123", "abc12"));
    assert!(!hash_matches("abc123", "abc1234"));
    assert!(hash_matches("", ""));
    assert!(!hash_matches("k", "\u{212A}"));
}

#[test]
fn a_wrong_hash_is_refused_with_both_hashes() {
    assert_eq!(verify_hash("ABC123", "abc123", "a.jar"), Ok(()));
    assert_eq!(
        verify_hash("abc123", "def456", "a.jar"),
        Err(InstallerError::HashMismatch {
            file_name: "a.jar".to_string(),
            expected: "abc123".to_string(),
            actual: "def456".to_string(),
        })
    );
}

#[test]
fn without_a_state_installing_is_open_and_updating_is_not() {
    let c = config(PackVersion::new(1, 0, 0), Vec::new(), Vec::new());
    assert_eq!(Installer::can_install(true, None), Ok(()));
    assert_eq!(Installer::can_update(&c, None), Err(InstallerError::StateNotFound));
    assert_eq!(Installer::can_update_state(&c, None), Err(InstallerError::StateNotFound));
}

#[test]
fn without_a_manifest_nothing_is_installed() {
    assert_eq!(Installer::can_install(false, None), Err(InstallerError::ConfigNotFound));
    let s = state(PackVersion::new(1, 0, 0), None);
    assert_eq!(Installer::can_install(false, Some(&s)), Err(InstallerError::ConfigNotFound));
}

#[test]
fn an_installation_in_progress_is_resumed_and_blocks_updates() {
    let c = config(PackVersion::new(2, 0, 0), Vec::new(), Vec::new());
    let s = state(PackVersion::new(1, 0, 0), Some(InstallerMode::Install));
    assert_eq!(Installer::can_install(true, Some(&s)), Ok(()));
    assert_eq!(Installer::can_install_state(&s), Ok(()));
    assert_eq!(
        Installer::can_update(&c, Some(&s)),
        Err(InstallerError::AnotherModeInProgress(InstallerMode::Install))
    );
}

#[test]
fn an_update_in_progress_is_resumed_and_blocks_installations() {
    let c = config(PackVersion::new(1, 0, 0), Vec::new(), Vec::new());
    let s = state(PackVersion::new(1, 0, 0), Some(InstallerMode::Update));
    assert_eq!(
        Installer::can_install(true, Some(&s)),
        Err(InstallerError::AnotherModeInProgress(InstallerMode::Update))
    );
    assert_eq!(Installer::can_update(&c, Some(&s)), Ok(()));
    assert_eq!(Installer::can_update_state(&c, Some(s.clone())), Ok(s));
}

#[test]
fn an_update_needs_a_newer_package() {
    let s = state(PackVersion::new(1, 2, 0), None);
    let same = config(PackVersion::new(1, 2, 0), Vec::new(), Vec::new());
    let older = config(PackVersion::new(1, 1, 9), Vec::new(), Vec::new());
    let newer = config(PackVersion::new(1, 2, 1), Vec::new(), Vec::new());
    assert_eq!(Installer::can_update(&same, Some(&s)), Err(InstallerError::NoUpdateNeeded));
    assert_eq!(Installer::can_update(&older, Some(&s)), Err(InstallerError::NoUpdateNeeded));
    assert_eq!(Installer::can_update(&newer, Some(&s)), Ok(()));
    assert_eq!(Installer::can_install(true, Some(&s)), Ok(()));
}

#[test]
fn installer_errors_describe_themselves() {
    assert_eq!(InstallerError::ConfigNotFound.message(), "Config file is not found.");
    assert_eq!(InstallerError::StateNotFound.message(), "Installer state file is not found.");
    assert_eq!(
        InstallerError::AnotherModeInProgress(InstallerMode::Update).message(),
        "Another mode (Update) is already in progress."
    );
    assert_eq!(InstallerError::NoUpdateNeeded.message(), "No update is needed.");
    assert_eq!(
        InstallerError::HashMismatch {
            file_name: "a.jar".to_string(),
            expected: "abc123".to_string(),
            actual: "def456".to_string(),
        }
        .message(),
        "Hash mismatch for a.jar. Expected abc123, got def456"
    );
    assert_eq!(
        InstallerError::StepFailed { reason: "disk full".to_string() }.message(),
        "disk full"
    );
    assert_eq!(
        InstallerError::UnexpectedReport.message(),
        "The installer was not waiting for this report."
    );
}

#[test]
fn the_table_has_one_migration_for_each_version_in_rising_order() {
    let table = migration_table();
    assert_eq!(table.len(), 3);
    assert_eq!(
        thresholds(&table),
        vec![PackVersion::new(1, 2, 0), PackVersion::new(1, 2, 1), PackVersion::new(1, 3, 0)]
    );
    for pair in table.windows(2) {
        assert!(pair[0].threshold.at_most(&pair[1].threshold));
    }
    assert_eq!(
        table[0].action,
        MigrationAction::ExtractArchive {
            url: "https://github.com/kyazuki/Makibania-Modpack-Resources/releases/download/v1.2.0/configs.zip".to_string(),
            name: "configs".to_string(),
            hash: "4cb14e94845a0f03775c0d1b8f3f0cbddb675ddb".to_string(),
        }
    );
    match &table[2].action {
        MigrationAction::OverwriteConfigs { paths } => {
            assert_eq!(paths.len(), 13);
            assert_eq!(paths[0], "fancymenu/customization/loading_makibania_default.txt");
            assert_eq!(paths[7], "fancymenu/user_variables.db");
            assert_eq!(paths[12], "ftbquests/quests/data.snbt");
        }
        other => panic!("the last migration copies defaults, not {other:?}"),
    }
}

#[test]
fn migrations_fire_when_their_threshold_is_crossed() {
    let all = fired_migrations(&PackVersion::new(1, 1, 0), &PackVersion::new(1, 3, 0));
    assert_eq!(
        thresholds(&all),
        vec![PackVersion::new(1, 2, 0), PackVersion::new(1, 2, 1), PackVersion::new(1, 3, 0)]
    );
    assert_eq!(all, migration_table());

    let last = fired_migrations(&PackVersion::new(1, 2, 1), &PackVersion::new(1, 3, 0));
    assert_eq!(thresholds(&last), vec![PackVersion::new(1, 3, 0)]);
    assert_eq!(last[..], migration_table()[2..]);

    let first = fired_migrations(&PackVersion::new(1, 1, 9), &PackVersion::new(1, 2, 0));
    assert_eq!(thresholds(&first), vec![PackVersion::new(1, 2, 0)]);

    assert!(fired_migrations(&PackVersion::new(1, 3, 0), &PackVersion::new(1, 4, 0)).is_empty());
    assert!(fired_migrations(&PackVersion::new(1, 0, 0), &PackVersion::new(1, 1, 9)).is_empty());
    assert!(fired_migrations(&PackVersion::new(1, 3, 0), &PackVersion::new(1, 1, 0)).is_empty());
}

#[test]
fn a_pre_release_of_a_threshold_has_not_crossed_it() {
    let mut beta = PackVersion::new(1, 2, 0);
    beta.pre = "beta".to_string();
    assert!(fired_migrations(&PackVersion::new(1, 1, 0), &beta).is_empty());
    let from_beta = fired_migrations(&beta, &PackVersion::new(1, 2, 0));
    assert_eq!(thresholds(&from_beta), vec![PackVersion::new(1, 2, 0)]);
}

#[test]
fn migration_steps_are_counted() {
    assert_eq!(
        Installer::get_update_settings_steps(&PackVersion::new(1, 1, 0), &PackVersion::new(1, 3, 0)),
        3
    );
    assert_eq!(
        Installer::get_update_settings_steps(&PackVersion::new(1, 2, 0), &PackVersion::new(1, 2, 1)),
        1
    );
    assert_eq!(
        Installer::get_update_settings_steps(&PackVersion::new(1, 2, 1), &PackVersion::new(1, 3, 0)),
        1
    );
    assert_eq!(
        Installer::get_update_settings_steps(&PackVersion::new(1, 3, 0), &PackVersion::new(2, 0, 0)),
        0
    );
}

#[test]
fn steps_of_a_run_are_counted() {
    let c = config(
        PackVersion::new(1, 3, 0),
        vec![
            mod_entry(1, SideType::Both),
            mod_entry(2, SideType::Server),
            mod_entry(3, SideType::Client),
        ],
        vec![resource(4, SideType::Client), resource(5, SideType::Server)],
    );
    let mut s = state(PackVersion::new(1, 2, 0), None);
    for id in [7, 8, 9, 10] {
        s.add_mod(ModState {
            file_name: format!("old{id}.jar"),
            source: SourceType::Curseforge { project_id: id, file_id: 1 },
            hash: "00".to_string(),
        });
    }
    assert_eq!(Installer::total_download_steps(InstallerMode::Install, &c, &SideType::Client, &s), 1 + 2 + 1);
    assert_eq!(Installer::total_download_steps(InstallerMode::Install, &c, &SideType::Server, &s), 1 + 2 + 1);
    assert_eq!(
        Installer::total_download_steps(InstallerMode::Update, &c, &SideType::Client, &s),
        4 + 2 + 1 + 2
    );
}
