use modpack_installer::config::{ModEntry, ModLoader, ResourceEntry, SideType, SourceType};
use modpack_installer::installer::InstallerMode;
use modpack_installer::state::{InstallerState, ModLoaderState, ModState, ResourceState};
use modpack_installer::version::PackVersion;

fn cf(project_id: u32, file_id: u32) -> SourceType {
    SourceType::Curseforge { project_id, file_id }
}

fn direct(url: &str) -> SourceType {
    SourceType::Direct { url: url.to_string() }
}

fn record(file_name: &str, source: SourceType, hash: &str) -> ModState {
    ModState { file_name: file_name.to_string(), source, hash: hash.to_string() }
}

fn entry(source: SourceType, hash: &str) -> ModEntry {
    ModEntry { name: "mod".to_string(), source, hash: hash.to_string(), side: SideType::Both }
}

fn resource_record(file_name: &str, source: SourceType, target_dir: &str) -> ResourceState {
    ResourceState {
        file_name: file_name.to_string(),
        source,
        hash: "h".to_string(),
        target_dir: target_dir.to_string(),
        decompress: false,
    }
}

fn resource_entry(source: SourceType, hash: &str, target_dir: &str) -> ResourceEntry {
    ResourceEntry {
        name: "res".to_string(),
        source,
        hash: hash.to_string(),
        target_dir: target_dir.to_string(),
        decompress: false,
        side: SideType::Both,
    }
}

#[test]
fn fresh_state_is_empty() {
    let state = InstallerState::new(&PackVersion::new(0, 3, 0), &PackVersion::new(1, 0, 0));
    assert_eq!(state.get_installer_version(), &PackVersion::new(0, 3, 0));
    assert_eq!(state.get_pack_version(), &PackVersion::new(1, 0, 0));
    assert_eq!(state.get_mod_loader(), None);
    assert_eq!(state.get_mod_count(), 0);
    assert!(state.get_all_mods().is_empty());
    assert!(state.get_all_resources().is_empty());
    assert_eq!(state.get_process_mode(), None);
}

#[test]
fn stored_state_without_pack_version_counts_as_lowest() {
    let state = InstallerState::load(
        PackVersion::new(0, 1, 0),
        None,
        None,
        Vec::new(),
        Vec::new(),
        Some(InstallerMode::Install),
    );
    assert_eq!(state.get_pack_version(), &PackVersion::new(0, 0, 0));
    assert_eq!(InstallerState::migrate_pack_version(), PackVersion::new(0, 0, 0));
    assert_eq!(state.get_process_mode(), Some(InstallerMode::Install));
    let kept = InstallerState::load(
        PackVersion::new(0, 1, 0),
        Some(PackVersion::new(2, 0, 1)),
        None,
        Vec::new(),
        Vec::new(),
        None,
    );
    assert_eq!(kept.get_pack_version(), &PackVersion::new(2, 0, 1));
}

#[test]
fn setters_change_one_thing() {
    let mut state = InstallerState::new(&PackVersion::new(0, 3, 0), &PackVersion::new(1, 0, 0));
    state.set_installer_version(&PackVersion::new(0, 4, 0));
    state.set_pack_version(&PackVersion::new(1, 1, 0));
    state.set_process_mode(InstallerMode::Update);
    let loader = ModLoaderState {
        file_name: "forge.jar".to_string(),
        url: "https://example.com/forge.jar".to_string(),
        hash: "aa".to_string(),
    };
    state.set_mod_loader(loader.clone());
    assert_eq!(state.get_installer_version(), &PackVersion::new(0, 4, 0));
    assert_eq!(state.get_pack_version(), &PackVersion::new(1, 1, 0));
    assert_eq!(state.get_process_mode(), Some(InstallerMode::Update));
    assert_eq!(state.get_mod_loader(), Some(&loader));
    state.finalize();
    assert_eq!(state.get_process_mode(), None);
    assert_eq!(state.get_mod_loader(), Some(&loader));
    assert_eq!(state.get_pack_version(), &PackVersion::new(1, 1, 0));
}

#[test]
fn mods_are_found_by_source() {
    let mut state = InstallerState::new(&PackVersion::new(0, 3, 0), &PackVersion::new(1, 0, 0));
    state.add_mod(record("a.jar", cf(1, 10), "ha"));
    state.add_mod(record("b.jar", SourceType::Direct { url: "u".to_string() }, "hb"));
    assert_eq!(state.get_mod_count(), 2);
    assert_eq!(state.get_mod(&entry(cf(1, 10), "other")), Some(&record("a.jar", cf(1, 10), "ha")));
    assert_eq!(
        state.get_mod(&entry(SourceType::Direct { url: "u".to_string() }, "hb")).map(|m| m.file_name.clone()),
        Some("b.jar".to_string())
    );
    assert_eq!(state.get_mod(&entry(cf(1, 11), "ha")), None);
    assert_eq!(state.get_mod(&entry(cf(10, 1), "ha")), None);
}

#[test]
fn a_new_record_takes_the_place_of_the_old_one() {
    let mut state = InstallerState::new(&PackVersion::new(0, 3, 0), &PackVersion::new(1, 0, 0));
    state.add_mod(record("old.jar", cf(1, 10), "old"));
    state.add_mod(record("x.jar", cf(2, 20), "x"));
    state.add_mod(record("new.jar", cf(1, 10), "new"));
    assert_eq!(
        state.get_all_mods(),
        &vec![record("x.jar", cf(2, 20), "x"), record("new.jar", cf(1, 10), "new")]
    );
    assert_eq!(state.get_mod(&entry(cf(1, 10), "")).unwrap().hash, "new");
    state.remove_mod(&record("whatever", cf(1, 10), ""));
    assert_eq!(state.get_all_mods(), &vec![record("x.jar", cf(2, 20), "x")]);
    assert_eq!(state.get_mod(&entry(cf(1, 10), "")), None);
}

#[test]
fn a_new_resource_record_takes_the_place_of_the_old_one() {
    let mut state = InstallerState::new(&PackVersion::new(0, 3, 0), &PackVersion::new(1, 0, 0));
    state.add_resource(resource_record("old.zip", cf(5, 50), "config"));
    state.add_resource(resource_record("other.zip", cf(5, 50), "resourcepacks"));
    state.add_resource(resource_record("new.zip", cf(5, 50), "config"));
    assert_eq!(
        state.get_all_resources(),
        &vec![
            resource_record("other.zip", cf(5, 50), "resourcepacks"),
            resource_record("new.zip", cf(5, 50), "config"),
        ]
    );
}

#[test]
fn a_stored_list_is_rebuilt_without_doubles() {
    let state = InstallerState::load(
        PackVersion::new(0, 1, 0),
        Some(PackVersion::new(1, 0, 0)),
        None,
        vec![
            record("old.jar", cf(1, 10), "old"),
            record("x.jar", cf(2, 20), "x"),
            record("new.jar", cf(1, 10), "new"),
        ],
        vec![
            resource_record("r1.zip", cf(5, 50), "config"),
            resource_record("r2.zip", cf(5, 50), "config"),
        ],
        None,
    );
    assert_eq!(
        state.get_all_mods(),
        &vec![record("x.jar", cf(2, 20), "x"), record("new.jar", cf(1, 10), "new")]
    );
    assert_eq!(state.get_all_resources(), &vec![resource_record("r2.zip", cf(5, 50), "config")]);
    let kept = InstallerState::load(
        PackVersion::new(0, 1, 0),
        Some(PackVersion::new(1, 0, 0)),
        None,
        vec![record("a.jar", cf(1, 1), "a"), record("b.jar", cf(2, 2), "b")],
        Vec::new(),
        None,
    );
    assert_eq!(
        kept.get_all_mods(),
        &vec![record("a.jar", cf(1, 1), "a"), record("b.jar", cf(2, 2), "b")]
    );
}

#[test]
fn removing_keeps_the_order_of_the_rest() {
    let mut state = InstallerState::new(&PackVersion::new(0, 3, 0), &PackVersion::new(1, 0, 0));
    state.add_mod(record("a.jar", cf(1, 1), "a"));
    state.add_mod(record("b.jar", cf(2, 2), "b"));
    state.add_mod(record("c.jar", cf(3, 3), "c"));
    state.remove_mod(&record("b.jar", cf(2, 2), "b"));
    assert_eq!(
        state.get_all_mods(),
        &vec![record("a.jar", cf(1, 1), "a"), record("c.jar", cf(3, 3), "c")]
    );
    assert_eq!(state.get_mod(&entry(cf(3, 3), "c")), Some(&record("c.jar", cf(3, 3), "c")));
    state.remove_mod(&record("zzz", cf(9, 9), "z"));
    assert_eq!(state.get_mod_count(), 2);
}

#[test]
fn resources_are_found_by_source_and_directory() {
    let mut state = InstallerState::new(&PackVersion::new(0, 3, 0), &PackVersion::new(1, 0, 0));
    state.add_resource(resource_record("r1.zip", cf(5, 50), "config"));
    state.add_resource(resource_record("r2.zip", cf(5, 50), "resourcepacks"));
    assert_eq!(
        state.get_resource(&resource_entry(cf(5, 50), "h", "config")).map(|r| r.file_name.clone()),
        Some("r1.zip".to_string())
    );
    assert_eq!(
        state.get_resource(&resource_entry(cf(5, 50), "h", "resourcepacks")).map(|r| r.file_name.clone()),
        Some("r2.zip".to_string())
    );
    assert_eq!(state.get_resource(&resource_entry(cf(5, 50), "h", "mods")), None);
    assert_eq!(state.get_resource(&resource_entry(cf(5, 51), "h", "config")), None);
    assert_eq!(state.get_all_resources().len(), 2);
}

#[test]
fn loader_record_equals_by_address_and_hash() {
    let record = ModLoaderState {
        file_name: "forge.jar".to_string(),
        url: "https://example.com/forge.jar".to_string(),
        hash: "aa".to_string(),
    };
    let mut config = ModLoader {
        name: "Forge".to_string(),
        url: "https://example.com/forge.jar".to_string(),
        hash: "aa".to_string(),
        auto_open: true,
    };
    assert!(record.equals(&config));
    config.hash = "AA".to_string();
    assert!(record.equals(&config));
    config.hash = "ab".to_string();
    assert!(!record.equals(&config));
    config.hash = "aa".to_string();
    config.url = "https://example.com/other.jar".to_string();
    assert!(!record.equals(&config));
}

#[test]
fn mod_record_equals_by_source_and_maybe_hash() {
    let r = record("a.jar", cf(1, 10), "ha");
    assert!(r.equals(&entry(cf(1, 10), "ha"), false));
    assert!(r.equals(&entry(cf(1, 10), "HA"), false));
    assert!(record("a.jar", direct("u"), "ABC123").equals(&entry(direct("u"), "abc123"), false));
    assert!(!r.equals(&entry(cf(1, 10), "hb"), false));
    assert!(r.equals(&entry(cf(1, 10), "hb"), true));
    assert!(!r.equals(&entry(cf(1, 11), "ha"), true));
    assert!(!r.equals(&entry(cf(1, 11), "ha"), false));
}

#[test]
fn resource_record_equals_by_source_and_hash() {
    let r = resource_record("r.zip", cf(5, 50), "config");
    assert!(r.equals(&resource_entry(cf(5, 50), "h", "config")));
    assert!(r.equals(&resource_entry(cf(5, 50), "H", "config")));
    assert!(r.equals(&resource_entry(cf(5, 50), "h", "elsewhere")));
    assert!(!r.equals(&resource_entry(cf(5, 50), "other", "config")));
    assert!(!r.equals(&resource_entry(cf(5, 51), "h", "config")));
}

#[test]
fn a_copy_of_a_state_is_equal_to_it() {
    let mut state = InstallerState::new(&PackVersion::new(0, 3, 0), &PackVersion::new(1, 0, 0));
    state.add_mod(record("a.jar", cf(1, 1), "a"));
    state.add_resource(resource_record("r1.zip", cf(5, 50), "config"));
    state.set_process_mode(InstallerMode::Install);
    assert_eq!(state.clone(), state);
}
