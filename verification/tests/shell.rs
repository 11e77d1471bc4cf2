use modpack_installer::config::{ModLoader, ModPackConfig, Profile};
use modpack_installer::installer::InstallerMode;
use modpack_installer::shell::{
    claim_run, initialize_title, release_run, select_mode, ModeResult, TitleStatus,
};
use modpack_installer::state::InstallerState;
use modpack_installer::version::PackVersion;

fn config(version: PackVersion) -> ModPackConfig {
    ModPackConfig::new(
        2,
        version,
        Profile { name: "Pack".to_string(), icon: "i".to_string(), version: "v".to_string(), jvm_args: None },
        ModLoader { name: "Forge".to_string(), url: "u".to_string(), hash: "h".to_string(), auto_open: false },
        Vec::new(),
        Vec::new(),
    )
    .unwrap()
}

fn state(version: PackVersion, mode: Option<InstallerMode>) -> InstallerState {
    InstallerState::load(PackVersion::new(0, 1, 0), Some(version), None, Vec::new(), Vec::new(), mode)
}

#[test]
fn the_title_offers_what_may_run() {
    let c = config(PackVersion::new(1, 1, 0));
    assert_eq!(
        initialize_title(true, Some(&c), None),
        TitleStatus { can_install: true, can_update: false }
    );
    let done = state(PackVersion::new(1, 0, 0), None);
    assert_eq!(
        initialize_title(true, Some(&c), Some(&done)),
        TitleStatus { can_install: true, can_update: true }
    );
    let current = state(PackVersion::new(1, 1, 0), None);
    assert_eq!(
        initialize_title(true, Some(&c), Some(&current)),
        TitleStatus { can_install: true, can_update: false }
    );
    let installing = state(PackVersion::new(1, 0, 0), Some(InstallerMode::Install));
    assert_eq!(
        initialize_title(true, Some(&c), Some(&installing)),
        TitleStatus { can_install: true, can_update: false }
    );
    let updating = state(PackVersion::new(1, 0, 0), Some(InstallerMode::Update));
    assert_eq!(
        initialize_title(true, Some(&c), Some(&updating)),
        TitleStatus { can_install: false, can_update: true }
    );
    assert_eq!(
        initialize_title(false, None, Some(&done)),
        TitleStatus { can_install: false, can_update: false }
    );
    assert_eq!(
        initialize_title(true, None, Some(&done)),
        TitleStatus { can_install: true, can_update: false }
    );
}

#[test]
fn a_mode_is_accepted_or_refused_with_a_reason() {
    let c = config(PackVersion::new(1, 0, 0));
    let current = state(PackVersion::new(1, 0, 0), None);
    assert_eq!(
        select_mode(InstallerMode::Install, true, Some(&c), Some(&current)),
        Some(ModeResult { is_accept: true, error: None })
    );
    assert_eq!(
        select_mode(InstallerMode::Update, true, Some(&c), Some(&current)),
        Some(ModeResult { is_accept: false, error: Some("No update is needed.".to_string()) })
    );
    assert_eq!(
        select_mode(InstallerMode::Update, true, Some(&c), None),
        Some(ModeResult {
            is_accept: false,
            error: Some("Installer state file is not found.".to_string()),
        })
    );
    assert_eq!(
        select_mode(InstallerMode::Install, false, None, None),
        Some(ModeResult { is_accept: false, error: Some("Config file is not found.".to_string()) })
    );
    let updating = state(PackVersion::new(0, 9, 0), Some(InstallerMode::Update));
    assert_eq!(
        select_mode(InstallerMode::Install, true, Some(&c), Some(&updating)),
        Some(ModeResult {
            is_accept: false,
            error: Some("Another mode (Update) is already in progress.".to_string()),
        })
    );
    assert_eq!(select_mode(InstallerMode::Update, true, None, Some(&current)), None);
}

#[test]
fn only_one_run_at_a_time() {
    let mut is_running = false;
    assert_eq!(claim_run(&mut is_running), Ok(()));
    assert!(is_running);
    assert_eq!(claim_run(&mut is_running), Err("Installer is already running".to_string()));
    assert!(is_running);
    release_run(&mut is_running);
    assert!(!is_running);
    assert_eq!(claim_run(&mut is_running), Ok(()));
}
