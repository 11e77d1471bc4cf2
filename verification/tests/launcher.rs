use modpack_installer::config::Profile;
use modpack_installer::launcher::{
    backup_extension, is_jar_extension, is_newer_runtime, profile_exists, LauncherProfile,
};

#[test]
fn the_profile_is_built_from_the_manifest() {
    let profile = Profile {
        name: "Pack".to_string(),
        icon: "Furnace".to_string(),
        version: "1.20.1-forge-47.2.0".to_string(),
        jvm_args: Some("-Xmx4G".to_string()),
    };
    let made = LauncherProfile::new(&profile, "/games/pack", 1_700_000_000_123);
    assert_eq!(
        made,
        LauncherProfile {
            created: Some(1_700_000_000_123),
            game_dir: Some("/games/pack".to_string()),
            icon: "Furnace".to_string(),
            java_args: Some("-Xmx4G".to_string()),
            java_dir: None,
            last_used: Some(1_700_000_000_123),
            last_version_id: "1.20.1-forge-47.2.0".to_string(),
            name: "Pack".to_string(),
            resolution: None,
            skip_jre_version_check: None,
            profile_type: "custom".to_string(),
        }
    );
}

#[test]
fn a_profile_is_known_by_its_name() {
    let names = vec!["Latest".to_string(), "Pack".to_string()];
    assert!(profile_exists(&names, "Pack"));
    assert!(profile_exists(&names, "Latest"));
    assert!(!profile_exists(&names, "pack"));
    assert!(!profile_exists(&names, "Pac"));
    assert!(!profile_exists(&Vec::new(), "Pack"));
}

#[test]
fn backups_are_numbered_from_the_second_on() {
    assert_eq!(backup_extension(0), "json.bak");
    assert_eq!(backup_extension(1), "json.bak1");
    assert_eq!(backup_extension(2), "json.bak2");
    assert_eq!(backup_extension(10), "json.bak10");
    assert_eq!(backup_extension(4294967295), "json.bak4294967295");
}

#[test]
fn jar_files_are_known_by_their_extension() {
    assert!(is_jar_extension(Some("jar")));
    assert!(is_jar_extension(Some("JAR")));
    assert!(is_jar_extension(Some("Jar")));
    assert!(!is_jar_extension(Some("zip")));
    assert!(!is_jar_extension(Some("jar ")));
    assert!(!is_jar_extension(Some("")));
    assert!(!is_jar_extension(None));
}

#[test]
fn newer_runtimes_are_known_by_their_name() {
    assert!(is_newer_runtime("java-runtime-gamma"));
    assert!(is_newer_runtime("java-runtime-"));
    assert!(!is_newer_runtime("jre-legacy"));
    assert!(!is_newer_runtime("java-runtime"));
    assert!(!is_newer_runtime("x-java-runtime-gamma"));
}
