//! Decisions around the launcher: the profile that an installation
//! registers, and where a Java runtime is looked for first.

use vstd::prelude::*;
use crate::config::{Profile, ProfileView};
use crate::text::{ascii_case_eq, decimal, strip_prefix, to_decimal};

verus! {

/// A profile as the launcher keeps it.
#[derive(Debug, PartialEq, Eq)]
pub struct LauncherProfile {
    /// When the profile was created, in milliseconds since the epoch.
    pub created: Option<i64>,
    pub game_dir: Option<String>,
    pub icon: String,
    pub java_args: Option<String>,
    pub java_dir: Option<String>,
    /// When the profile was used last, in milliseconds since the epoch.
    pub last_used: Option<i64>,
    pub last_version_id: String,
    pub name: String,
    pub resolution: Option<(u32, u32)>,
    pub skip_jre_version_check: Option<bool>,
    pub profile_type: String,
}

/// The mathematical value of a [`LauncherProfile`].
pub struct LauncherProfileView {
    pub created: Option<i64>,
    pub game_dir: Option<Seq<char>>,
    pub icon: Seq<char>,
    pub java_args: Option<Seq<char>>,
    pub java_dir: Option<Seq<char>>,
    pub last_used: Option<i64>,
    pub last_version_id: Seq<char>,
    pub name: Seq<char>,
    pub resolution: Option<(u32, u32)>,
    pub skip_jre_version_check: Option<bool>,
    pub profile_type: Seq<char>,
}

/// The view of a text that may be absent.
pub open spec fn optional_text(text: Option<String>) -> Option<Seq<char>> {
    match text {
        Some(t) => Some(t@),
        None => None,
    }
}

impl View for LauncherProfile {
    type V = LauncherProfileView;

    open spec fn view(&self) -> LauncherProfileView {
        LauncherProfileView {
            created: self.created,
            game_dir: optional_text(self.game_dir),
            icon: self.icon@,
            java_args: optional_text(self.java_args),
            java_dir: optional_text(self.java_dir),
            last_used: self.last_used,
            last_version_id: self.last_version_id@,
            name: self.name@,
            resolution: self.resolution,
            skip_jre_version_check: self.skip_jre_version_check,
            profile_type: self.profile_type@,
        }
    }
}

/// The profile that an installation registers: a custom profile with the
/// manifest's name, icon, version and runtime arguments, which plays in the
/// installation's directory and was created and used last at `now`.
pub open spec fn profile_for(profile: ProfileView, game_dir: Seq<char>, now: i64) -> LauncherProfileView {
    LauncherProfileView {
        created: Some(now),
        game_dir: Some(game_dir),
        icon: profile.icon,
        java_args: profile.jvm_args,
        java_dir: None,
        last_used: Some(now),
        last_version_id: profile.version,
        name: profile.name,
        resolution: None,
        skip_jre_version_check: None,
        profile_type: "custom"@,
    }
}

impl LauncherProfile {
    /// The profile that an installation in `game_dir` registers at the
    /// time `now`, given in milliseconds since the epoch.
    pub fn new(profile: &Profile, game_dir: &str, now: i64) -> (r: LauncherProfile)
        ensures
            r@ == profile_for(profile@, game_dir@, now),
    {
        LauncherProfile {
            created: Some(now),
            game_dir: Some(String::from_str(game_dir)),
            icon: profile.icon.clone(),
            java_args: match &profile.jvm_args {
                Some(args) => Some(args.clone()),
                None => None,
            },
            java_dir: None,
            last_used: Some(now),
            last_version_id: profile.version.clone(),
            name: profile.name.clone(),
            resolution: None,
            skip_jre_version_check: None,
            profile_type: String::from_str("custom"),
        }
    }
}

/// Whether the launcher has a profile of this name already, in which case
/// none is added.
pub fn profile_exists(names: &Vec<String>, name: &str) -> (r: bool)
    ensures
        r == exists|i: int| 0 <= i < names@.len() && (#[trigger] names@[i])@ == name@,
{
    let wanted = String::from_str(name);
    let mut i: usize = 0;
    while i < names.len()
        invariant
            i <= names.len(),
            wanted@ == name@,
            forall|k: int| 0 <= k < i ==> (#[trigger] names@[k])@ != name@,
        decreases names.len() - i,
    {
        if names[i] == wanted {
            return true;
        }
        i += 1;
    }
    false
}

/// The extension of the `attempt`-th name that is tried for the backup of
/// the launcher's profiles file: `json.bak` first, then `json.bak1`,
/// `json.bak2` and so on.
pub open spec fn backup_extension_text(attempt: u32) -> Seq<char> {
    if attempt == 0 {
        "json.bak"@
    } else {
        "json.bak"@ + decimal(attempt as nat)
    }
}

/// The extension of the `attempt`-th name that is tried for the backup of
/// the launcher's profiles file.
pub fn backup_extension(attempt: u32) -> (r: String)
    ensures
        r@ == backup_extension_text(attempt),
{
    let mut r = String::from_str("json.bak");
    if attempt != 0 {
        let number = to_decimal(attempt);
        r.append(number.as_str());
    }
    r
}

/// Whether a file with this extension is taken for the loader's installer:
/// the extension must be `jar`, in whatever case.
pub fn is_jar_extension(extension: Option<&str>) -> (r: bool)
    ensures
        r == (extension is Some && ascii_case_eq(extension->0@, "jar"@)),
{
    match extension {
        Some(e) => e.eq_ignore_ascii_case("jar"),
        None => false,
    }
}

/// Whether a directory of Java runtimes is of the newer kind, whose names
/// begin with `java-runtime-`.
pub fn is_newer_runtime(name: &str) -> (r: bool)
    ensures
        r == "java-runtime-"@.is_prefix_of(name@),
{
    strip_prefix(name, "java-runtime-").is_some()
}

} // verus!
