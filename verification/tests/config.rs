use modpack_installer::config::{
    check_relative_dir, read_path, validate_relative_dir, ConfigError, ModEntry, ModLoader,
    ModPackConfig, PathPart, PathReading, Profile, ResourceEntry, SideType, SourceType,
    LATEST_SCHEMA_VERSION,
};
use modpack_installer::version::PackVersion;

fn profile(name: &str, version: &str) -> Profile {
    Profile {
        name: name.to_string(),
        icon: "Furnace".to_string(),
        version: version.to_string(),
        jvm_args: None,
    }
}

fn loader() -> ModLoader {
    ModLoader {
        name: "Forge".to_string(),
        url: "https://example.com/forge-installer.jar".to_string(),
        hash: "aa".to_string(),
        auto_open: false,
    }
}

fn mod_entry(name: &str, source: SourceType, side: SideType) -> ModEntry {
    ModEntry { name: name.to_string(), source, hash: "00".to_string(), side }
}

fn resource(target_dir: &str) -> ResourceEntry {
    ResourceEntry {
        name: "pack".to_string(),
        source: SourceType::Direct { url: "https://example.com/pack.zip".to_string() },
        hash: "11".to_string(),
        target_dir: target_dir.to_string(),
        decompress: true,
        side: SideType::Both,
    }
}

#[test]
fn registry_source_has_the_registry_download_address() {
    let source = SourceType::Curseforge { project_id: 238222, file_id: 4712866 };
    assert_eq!(
        source.get_download_url(),
        "https://www.curseforge.com/api/v1/mods/238222/files/4712866/download"
    );
    let zero = SourceType::Curseforge { project_id: 0, file_id: 4294967295 };
    assert_eq!(
        zero.get_download_url(),
        "https://www.curseforge.com/api/v1/mods/0/files/4294967295/download"
    );
}

#[test]
fn direct_source_is_its_own_address() {
    let source = SourceType::Direct { url: "https://example.com/a.jar".to_string() };
    assert_eq!(source.get_download_url(), "https://example.com/a.jar");
}

#[test]
fn sources_are_equal_by_structure() {
    let a = SourceType::Curseforge { project_id: 1, file_id: 2 };
    let b = SourceType::Curseforge { project_id: 1, file_id: 2 };
    let c = SourceType::Curseforge { project_id: 1, file_id: 3 };
    let d = SourceType::Direct { url: "cf:1:2".to_string() };
    assert!(a == b);
    assert!(a != c);
    assert!(a != d);
    assert!(d == SourceType::Direct { url: "cf:1:2".to_string() });
    assert!(a.clone() == a);
}

#[test]
fn side_decides_what_is_installed() {
    assert!(SideType::Both.should_install(&SideType::Client));
    assert!(SideType::Both.should_install(&SideType::Server));
    assert!(SideType::Client.should_install(&SideType::Client));
    assert!(!SideType::Client.should_install(&SideType::Server));
    assert!(!SideType::Server.should_install(&SideType::Client));
    let entry = mod_entry("a", SourceType::Curseforge { project_id: 1, file_id: 1 }, SideType::Server);
    assert!(!entry.should_install(&SideType::Client));
    assert!(entry.should_install(&SideType::Server));
    assert!(resource("config").should_install(&SideType::Client));
}

#[test]
fn profile_needs_a_name_and_a_version() {
    assert_eq!(profile("Pack", "1.20.1-forge").validate(), Ok(()));
    assert_eq!(profile("", "1.20.1").validate(), Err(ConfigError::EmptyProfileName));
    assert_eq!(profile(" \t\n", "1.20.1").validate(), Err(ConfigError::EmptyProfileName));
    assert_eq!(profile("\u{3000}", "1.20.1").validate(), Err(ConfigError::EmptyProfileName));
    assert_eq!(profile("Pack", "").validate(), Err(ConfigError::EmptyProfileVersion));
    assert_eq!(profile("Pack", "   ").validate(), Err(ConfigError::EmptyProfileVersion));
    assert_eq!(profile(" ", " ").validate(), Err(ConfigError::EmptyProfileName));
    assert_eq!(profile(" x ", " y ").validate(), Ok(()));
}

#[test]
fn white_space_is_what_unicode_says() {
    let white = [
        '\u{0009}', '\u{000A}', '\u{000B}', '\u{000C}', '\u{000D}', '\u{0020}', '\u{0085}',
        '\u{00A0}', '\u{1680}', '\u{2000}', '\u{2005}', '\u{200A}', '\u{2028}', '\u{2029}',
        '\u{202F}', '\u{205F}', '\u{3000}',
    ];
    for c in white {
        assert_eq!(
            profile(&c.to_string(), "1").validate(),
            Err(ConfigError::EmptyProfileName),
            "{:?}",
            c
        );
    }
    let other = [
        '\u{0008}', '\u{000E}', '\u{001F}', '\u{0021}', '\u{0084}', '\u{0086}', '\u{009F}',
        '\u{00A1}', '\u{167F}', '\u{1681}', '\u{180E}', '\u{1FFF}', '\u{200B}', '\u{2027}',
        '\u{202A}', '\u{202E}', '\u{2030}', '\u{205E}', '\u{2060}', '\u{2FFF}', '\u{3001}',
        '\u{FEFF}', 'a',
    ];
    for c in other {
        assert_eq!(profile(&c.to_string(), "1").validate(), Ok(()), "{:?}", c);
    }
}

#[test]
fn loader_and_mod_entries_are_always_accepted() {
    assert_eq!(loader().validate(), Ok(()));
    let entry = mod_entry("a", SourceType::Direct { url: String::new() }, SideType::Both);
    assert_eq!(entry.validate(), Ok(()));
}

#[test]
fn relative_directories_are_accepted() {
    assert_eq!(validate_relative_dir("config", "resources.targetDir"), Ok(()));
    assert_eq!(validate_relative_dir("resourcepacks/extra", "resources.targetDir"), Ok(()));
    assert_eq!(validate_relative_dir("./config", "resources.targetDir"), Ok(()));
    assert_eq!(validate_relative_dir("", "resources.targetDir"), Ok(()));
}

#[test]
fn absolute_directories_are_refused() {
    assert_eq!(
        validate_relative_dir("/etc", "resources.targetDir"),
        Err(ConfigError::NotRelative { field: "resources.targetDir".to_string() })
    );
}

#[test]
fn parent_segments_are_refused() {
    assert_eq!(
        validate_relative_dir("../outside", "resources.targetDir"),
        Err(ConfigError::ParentSegment { field: "resources.targetDir".to_string() })
    );
    assert_eq!(
        validate_relative_dir("a/../../b", "f"),
        Err(ConfigError::ParentSegment { field: "f".to_string() })
    );
}

#[test]
fn a_colon_in_a_segment_is_refused() {
    assert_eq!(
        validate_relative_dir("a/b:c", "resources.targetDir"),
        Err(ConfigError::InvalidCharacters { field: "resources.targetDir".to_string() })
    );
}

#[test]
fn components_decide_the_verdict_on_a_directory() {
    let ok = vec![PathPart::CurDir, PathPart::Normal("config".to_string())];
    assert_eq!(check_relative_dir(false, &ok, "f"), Ok(()));
    assert_eq!(
        check_relative_dir(true, &ok, "f"),
        Err(ConfigError::NotRelative { field: "f".to_string() })
    );
    let prefixed = vec![PathPart::Prefix, PathPart::ParentDir];
    assert_eq!(
        check_relative_dir(false, &prefixed, "f"),
        Err(ConfigError::NotRelative { field: "f".to_string() })
    );
    let rooted = vec![PathPart::Normal("a".to_string()), PathPart::RootDir];
    assert_eq!(
        check_relative_dir(false, &rooted, "f"),
        Err(ConfigError::NotRelative { field: "f".to_string() })
    );
    let first_fault_wins = vec![
        PathPart::Normal("a".to_string()),
        PathPart::Normal("b\\c".to_string()),
        PathPart::ParentDir,
    ];
    assert_eq!(
        check_relative_dir(false, &first_fault_wins, "f"),
        Err(ConfigError::InvalidCharacters { field: "f".to_string() })
    );
    let parent_first = vec![PathPart::ParentDir, PathPart::Normal("b:c".to_string())];
    assert_eq!(
        check_relative_dir(false, &parent_first, "f"),
        Err(ConfigError::ParentSegment { field: "f".to_string() })
    );
    assert_eq!(check_relative_dir(false, &Vec::new(), "f"), Ok(()));
}

#[test]
fn resource_entry_validates_its_target_directory() {
    assert_eq!(resource("config").validate(), Ok(()));
    assert_eq!(
        resource("..").validate(),
        Err(ConfigError::ParentSegment { field: "resources.targetDir".to_string() })
    );
}

#[test]
fn manifest_is_validated_in_order() {
    let too_new = ModPackConfig::new(
        LATEST_SCHEMA_VERSION + 1,
        PackVersion::new(1, 0, 0),
        profile("", ""),
        loader(),
        Vec::new(),
        vec![resource("..")],
    );
    assert_eq!(too_new.err(), Some(ConfigError::UnsupportedSchemaVersion { found: 3 }));
    let no_name = ModPackConfig::new(
        2,
        PackVersion::new(1, 0, 0),
        profile(" ", "1"),
        loader(),
        Vec::new(),
        vec![resource("..")],
    );
    assert_eq!(no_name.err(), Some(ConfigError::EmptyProfileName));
    let bad_dir = ModPackConfig::new(
        1,
        PackVersion::new(1, 0, 0),
        profile("Pack", "1"),
        loader(),
        Vec::new(),
        vec![resource("ok"), resource("/abs"), resource("..")],
    );
    assert_eq!(
        bad_dir.err(),
        Some(ConfigError::NotRelative { field: "resources.targetDir".to_string() })
    );
}

fn reading(is_absolute: bool, parts: Vec<PathPart>) -> PathReading {
    PathReading { is_absolute, parts }
}

fn from_readings(schema: u32, name: &str, readings: Vec<PathReading>) -> Result<ModPackConfig, ConfigError> {
    let resources = readings.iter().map(|_| resource("dir")).collect();
    ModPackConfig::from_readings(
        schema,
        PackVersion::new(1, 0, 0),
        profile(name, "1"),
        loader(),
        Vec::new(),
        resources,
        &readings,
    )
}

#[test]
fn the_first_faulty_directory_decides() {
    let fine = || reading(false, vec![PathPart::Normal("config".to_string())]);
    let parent = || reading(false, vec![PathPart::ParentDir]);
    let absolute = || reading(true, vec![PathPart::RootDir, PathPart::Normal("etc".to_string())]);
    let colon = || reading(false, vec![PathPart::Normal("a:b".to_string())]);
    let field = "resources.targetDir".to_string();
    assert!(from_readings(2, "Pack", vec![fine(), fine()]).is_ok());
    assert!(from_readings(2, "Pack", Vec::new()).is_ok());
    assert_eq!(
        from_readings(2, "Pack", vec![fine(), parent(), absolute()]).err(),
        Some(ConfigError::ParentSegment { field: field.clone() })
    );
    assert_eq!(
        from_readings(2, "Pack", vec![absolute(), parent()]).err(),
        Some(ConfigError::NotRelative { field: field.clone() })
    );
    assert_eq!(
        from_readings(2, "Pack", vec![fine(), fine(), colon()]).err(),
        Some(ConfigError::InvalidCharacters { field: field.clone() })
    );
    assert_eq!(
        from_readings(3, " ", vec![parent()]).err(),
        Some(ConfigError::UnsupportedSchemaVersion { found: 3 })
    );
    assert_eq!(from_readings(2, " ", vec![parent()]).err(), Some(ConfigError::EmptyProfileName));
}

#[test]
fn a_path_is_read_into_its_components() {
    assert_eq!(
        read_path("./config/extra"),
        reading(
            false,
            vec![
                PathPart::CurDir,
                PathPart::Normal("config".to_string()),
                PathPart::Normal("extra".to_string()),
            ]
        )
    );
    assert_eq!(read_path("../x").parts[0], PathPart::ParentDir);
    assert!(read_path("/etc").is_absolute);
}

#[test]
fn manifest_hands_out_what_it_was_built_from() {
    let mods = vec![
        mod_entry("a", SourceType::Curseforge { project_id: 1, file_id: 10 }, SideType::Both),
        mod_entry("b", SourceType::Direct { url: "https://example.com/b.jar".to_string() }, SideType::Server),
        mod_entry("c", SourceType::Curseforge { project_id: 3, file_id: 30 }, SideType::Client),
    ];
    let config = ModPackConfig::new(
        0,
        PackVersion::new(1, 2, 3),
        profile("Pack", "1.20.1"),
        loader(),
        mods.clone(),
        vec![resource("config")],
    )
    .unwrap();
    assert_eq!(config.get_schema_version(), 0);
    assert_eq!(config.get_pack_version(), &PackVersion::new(1, 2, 3));
    assert_eq!(config.get_profile(), &profile("Pack", "1.20.1"));
    assert_eq!(config.get_mod_loader(), &loader());
    assert_eq!(config.get_mods(), &mods);
    assert_eq!(config.get_resources(), &vec![resource("config")]);
    assert!(config.has_mod(&SourceType::Curseforge { project_id: 1, file_id: 10 }));
    assert!(config.has_mod(&SourceType::Direct { url: "https://example.com/b.jar".to_string() }));
    assert!(!config.has_mod(&SourceType::Curseforge { project_id: 1, file_id: 11 }));
    let client: Vec<String> = config.mods_for(&SideType::Client).into_iter().map(|m| m.name).collect();
    assert_eq!(client, vec!["a".to_string(), "c".to_string()]);
    let server: Vec<String> = config.mods_for(&SideType::Server).into_iter().map(|m| m.name).collect();
    assert_eq!(server, vec!["a".to_string(), "b".to_string()]);
    assert_eq!(config.resources_for(&SideType::Server), vec![resource("config")]);
}

#[test]
fn config_errors_describe_themselves() {
    assert_eq!(
        ConfigError::UnsupportedSchemaVersion { found: 7 }.message(),
        "Unsupported config schema version '7' (expected version 2 or lower)"
    );
    assert_eq!(ConfigError::EmptyProfileName.message(), "profile.name must not be empty");
    assert_eq!(ConfigError::EmptyProfileVersion.message(), "profile.version must not be empty");
    assert_eq!(
        ConfigError::NotRelative { field: "resources.targetDir".to_string() }.message(),
        "resources.targetDir must be a relative path"
    );
    assert_eq!(
        ConfigError::ParentSegment { field: "resources.targetDir".to_string() }.message(),
        "resources.targetDir must not contain '..' segments"
    );
    assert_eq!(
        ConfigError::InvalidCharacters { field: "resources.targetDir".to_string() }.message(),
        "resources.targetDir contains invalid characters"
    );
}
