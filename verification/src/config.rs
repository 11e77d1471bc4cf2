//! The manifest of a modpack: what an installation is to consist of.

use std::path::{Component, Path};
use vstd::prelude::*;
use vstd::string::StrSliceExecFns;
use crate::text::{decimal, to_decimal, trimmed};
use crate::version::{PackVersion, VersionView};

verus! {

/// The newest manifest schema that this crate understands.
pub const LATEST_SCHEMA_VERSION: u32 = 2;

/// The views of the items of a sequence, in order.
pub open spec fn views<T: View>(s: Seq<T>) -> Seq<T::V> {
    s.map_values(|t: T| t@)
}

/// Where a mod or resource comes from. Two items are the same item exactly
/// when their sources are equal.
#[derive(Debug)]
pub enum SourceType {
    Curseforge { project_id: u32, file_id: u32 },
    Direct { url: String },
}

/// The mathematical value of a [`SourceType`].
pub enum SourceView {
    Curseforge { project_id: u32, file_id: u32 },
    Direct { url: Seq<char> },
}

impl View for SourceType {
    type V = SourceView;

    open spec fn view(&self) -> SourceView {
        match self {
            SourceType::Curseforge { project_id, file_id } => SourceView::Curseforge {
                project_id: *project_id,
                file_id: *file_id,
            },
            SourceType::Direct { url } => SourceView::Direct { url: url@ },
        }
    }
}

impl PartialEq for SourceType {
    fn eq(&self, other: &Self) -> (r: bool) {
        match (self, other) {
            (
                SourceType::Curseforge { project_id, file_id },
                SourceType::Curseforge { project_id: other_project, file_id: other_file },
            ) => *project_id == *other_project && *file_id == *other_file,
            (SourceType::Direct { url }, SourceType::Direct { url: other_url }) => *url
                == *other_url,
            _ => false,
        }
    }
}

impl Eq for SourceType {}

impl vstd::std_specs::cmp::PartialEqSpecImpl for SourceType {
    open spec fn obeys_eq_spec() -> bool {
        true
    }

    open spec fn eq_spec(&self, other: &Self) -> bool {
        self@ == other@
    }
}

impl Clone for SourceType {
    fn clone(&self) -> (r: Self)
        ensures
            r@ == self@,
    {
        match self {
            SourceType::Curseforge { project_id, file_id } => SourceType::Curseforge {
                project_id: *project_id,
                file_id: *file_id,
            },
            SourceType::Direct { url } => SourceType::Direct { url: url.clone() },
        }
    }
}

/// The address from which a source is downloaded.
pub open spec fn download_url(source: SourceView) -> Seq<char> {
    match source {
        SourceView::Curseforge { project_id, file_id } => {
            "https://www.curseforge.com/api/v1/mods/"@ + decimal(project_id as nat) + "/files/"@
                + decimal(file_id as nat) + "/download"@
        },
        SourceView::Direct { url } => url,
    }
}

impl SourceType {
    /// The address from which this source is downloaded: for a registry
    /// source the registry's download address of the file, for a direct
    /// source its own address.
    pub fn get_download_url(&self) -> (r: String)
        ensures
            r@ == download_url(self@),
    {
        match self {
            SourceType::Curseforge { project_id, file_id } => {
                let mut r = String::from_str("https://www.curseforge.com/api/v1/mods/");
                let project = to_decimal(*project_id);
                r.append(project.as_str());
                r.append("/files/");
                let file = to_decimal(*file_id);
                r.append(file.as_str());
                r.append("/download");
                r
            },
            SourceType::Direct { url } => url.clone(),
        }
    }
}

/// The side of a deployment that an item applies to.
#[derive(Debug, Clone, Copy, PartialEq, Eq, Structural)]
pub enum SideType {
    Both,
    Client,
    Server,
}

impl SideType {
    /// Whether an item marked with this side belongs on a deployment of
    /// `side`: an item for both sides belongs everywhere, any other only on
    /// its own side.
    pub open spec fn applies_to(self, side: SideType) -> bool {
        self == SideType::Both || self == side
    }

    /// Whether an item marked with this side is installed on a deployment of
    /// `side`.
    pub fn should_install(&self, side: &SideType) -> (r: bool)
        ensures
            r == self.applies_to(*side),
    {
        *self == SideType::Both || *self == *side
    }
}

/// Why a manifest is refused.
#[derive(Debug, PartialEq, Eq)]
pub enum ConfigError {
    /// The manifest is written in a schema newer than this crate knows.
    UnsupportedSchemaVersion { found: u32 },
    /// The profile's name is empty or white space.
    EmptyProfileName,
    /// The profile's version is empty or white space.
    EmptyProfileVersion,
    /// The directory named by `field` is absolute or starts at a root.
    NotRelative { field: String },
    /// The directory named by `field` has a `..` segment.
    ParentSegment { field: String },
    /// A segment of the directory named by `field` holds `\` or `:`.
    InvalidCharacters { field: String },
}

/// The mathematical value of a [`ConfigError`].
pub enum ConfigErrorView {
    UnsupportedSchemaVersion { found: u32 },
    EmptyProfileName,
    EmptyProfileVersion,
    NotRelative { field: Seq<char> },
    ParentSegment { field: Seq<char> },
    InvalidCharacters { field: Seq<char> },
}

impl View for ConfigError {
    type V = ConfigErrorView;

    open spec fn view(&self) -> ConfigErrorView {
        match self {
            ConfigError::UnsupportedSchemaVersion { found } => {
                ConfigErrorView::UnsupportedSchemaVersion { found: *found }
            },
            ConfigError::EmptyProfileName => ConfigErrorView::EmptyProfileName,
            ConfigError::EmptyProfileVersion => ConfigErrorView::EmptyProfileVersion,
            ConfigError::NotRelative { field } => ConfigErrorView::NotRelative { field: field@ },
            ConfigError::ParentSegment { field } => ConfigErrorView::ParentSegment {
                field: field@,
            },
            ConfigError::InvalidCharacters { field } => ConfigErrorView::InvalidCharacters {
                field: field@,
            },
        }
    }
}

/// The text that describes a [`ConfigError`].
pub open spec fn config_error_text(e: ConfigErrorView) -> Seq<char> {
    match e {
        ConfigErrorView::UnsupportedSchemaVersion { found } => {
            "Unsupported config schema version '"@ + decimal(found as nat)
                + "' (expected version "@ + decimal(LATEST_SCHEMA_VERSION as nat) + " or lower)"@
        },
        ConfigErrorView::EmptyProfileName => "profile.name must not be empty"@,
        ConfigErrorView::EmptyProfileVersion => "profile.version must not be empty"@,
        ConfigErrorView::NotRelative { field } => field + " must be a relative path"@,
        ConfigErrorView::ParentSegment { field } => field + " must not contain '..' segments"@,
        ConfigErrorView::InvalidCharacters { field } => field + " contains invalid characters"@,
    }
}

impl ConfigError {
    /// The text that describes this error.
    pub fn message(&self) -> (r: String)
        ensures
            r@ == config_error_text(self@),
    {
        match self {
            ConfigError::UnsupportedSchemaVersion { found } => {
                let mut r = String::from_str("Unsupported config schema version '");
                let found_text = to_decimal(*found);
                r.append(found_text.as_str());
                r.append("' (expected version ");
                let latest_text = to_decimal(LATEST_SCHEMA_VERSION);
                r.append(latest_text.as_str());
                r.append(" or lower)");
                r
            },
            ConfigError::EmptyProfileName => String::from_str("profile.name must not be empty"),
            ConfigError::EmptyProfileVersion => String::from_str(
                "profile.version must not be empty",
            ),
            ConfigError::NotRelative { field } => {
                let mut r = field.clone();
                r.append(" must be a relative path");
                r
            },
            ConfigError::ParentSegment { field } => {
                let mut r = field.clone();
                r.append(" must not contain '..' segments");
                r
            },
            ConfigError::InvalidCharacters { field } => {
                let mut r = field.clone();
                r.append(" contains invalid characters");
                r
            },
        }
    }
}

/// The launcher profile that an installation registers.
#[derive(Debug, PartialEq, Eq)]
pub struct Profile {
    pub name: String,
    pub icon: String,
    pub version: String,
    pub jvm_args: Option<String>,
}

/// The mathematical value of a [`Profile`].
pub struct ProfileView {
    pub name: Seq<char>,
    pub icon: Seq<char>,
    pub version: Seq<char>,
    pub jvm_args: Option<Seq<char>>,
}

impl View for Profile {
    type V = ProfileView;

    open spec fn view(&self) -> ProfileView {
        ProfileView {
            name: self.name@,
            icon: self.icon@,
            version: self.version@,
            jvm_args: match self.jvm_args {
                Some(args) => Some(args@),
                None => None,
            },
        }
    }
}

/// A text is blank when nothing is left of it once white space is trimmed.
pub open spec fn blank(s: Seq<char>) -> bool {
    trimmed(s).len() == 0
}

/// What is wrong with a profile, if anything: its name is looked at first.
pub open spec fn profile_fault(p: ProfileView) -> Option<ConfigErrorView> {
    if blank(p.name) {
        Some(ConfigErrorView::EmptyProfileName)
    } else if blank(p.version) {
        Some(ConfigErrorView::EmptyProfileVersion)
    } else {
        None
    }
}

impl Profile {
    /// Accepts a profile whose name and version are not blank.
    pub fn validate(&self) -> (r: Result<(), ConfigError>)
        ensures
            match r {
                Ok(_) => profile_fault(self@) is None,
                Err(e) => profile_fault(self@) == Some(e@),
            },
    {
        if self.name.as_str().trim().is_empty() {
            return Err(ConfigError::EmptyProfileName);
        }
        if self.version.as_str().trim().is_empty() {
            return Err(ConfigError::EmptyProfileVersion);
        }
        Ok(())
    }
}

impl Clone for Profile {
    fn clone(&self) -> (r: Self)
        ensures
            r@ == self@,
    {
        Profile {
            name: self.name.clone(),
            icon: self.icon.clone(),
            version: self.version.clone(),
            jvm_args: match &self.jvm_args {
                Some(args) => Some(args.clone()),
                None => None,
            },
        }
    }
}

/// The loader that an installation starts with.
#[derive(Debug, PartialEq, Eq)]
pub struct ModLoader {
    pub name: String,
    pub url: String,
    pub hash: String,
    pub auto_open: bool,
}

/// The mathematical value of a [`ModLoader`].
pub struct ModLoaderView {
    pub name: Seq<char>,
    pub url: Seq<char>,
    pub hash: Seq<char>,
    pub auto_open: bool,
}

impl View for ModLoader {
    type V = ModLoaderView;

    open spec fn view(&self) -> ModLoaderView {
        ModLoaderView {
            name: self.name@,
            url: self.url@,
            hash: self.hash@,
            auto_open: self.auto_open,
        }
    }
}

impl ModLoader {
    /// Every loader description is accepted.
    pub fn validate(&self) -> (r: Result<(), ConfigError>)
        ensures
            r is Ok,
    {
        Ok(())
    }
}

impl Clone for ModLoader {
    fn clone(&self) -> (r: Self)
        ensures
            r@ == self@,
    {
        ModLoader {
            name: self.name.clone(),
            url: self.url.clone(),
            hash: self.hash.clone(),
            auto_open: self.auto_open,
        }
    }
}

/// A mod that the manifest asks for.
#[derive(Debug, PartialEq, Eq)]
pub struct ModEntry {
    pub name: String,
    pub source: SourceType,
    pub hash: String,
    pub side: SideType,
}

/// The mathematical value of a [`ModEntry`].
pub struct ModEntryView {
    pub name: Seq<char>,
    pub source: SourceView,
    pub hash: Seq<char>,
    pub side: SideType,
}

impl View for ModEntry {
    type V = ModEntryView;

    open spec fn view(&self) -> ModEntryView {
        ModEntryView { name: self.name@, source: self.source@, hash: self.hash@, side: self.side }
    }
}

impl ModEntry {
    /// Every mod entry is accepted.
    pub fn validate(&self) -> (r: Result<(), ConfigError>)
        ensures
            r is Ok,
    {
        Ok(())
    }

    /// Whether this mod is installed on a deployment of `side`.
    pub fn should_install(&self, side: &SideType) -> (r: bool)
        ensures
            r == self@.side.applies_to(*side),
    {
        self.side.should_install(side)
    }
}

impl Clone for ModEntry {
    fn clone(&self) -> (r: Self)
        ensures
            r@ == self@,
    {
        ModEntry {
            name: self.name.clone(),
            source: self.source.clone(),
            hash: self.hash.clone(),
            side: self.side,
        }
    }
}

/// A resource bundle that the manifest asks for.
#[derive(Debug, PartialEq, Eq)]
pub struct ResourceEntry {
    pub name: String,
    pub source: SourceType,
    pub hash: String,
    pub target_dir: String,
    pub decompress: bool,
    pub side: SideType,
}

/// The mathematical value of a [`ResourceEntry`].
pub struct ResourceEntryView {
    pub name: Seq<char>,
    pub source: SourceView,
    pub hash: Seq<char>,
    pub target_dir: Seq<char>,
    pub decompress: bool,
    pub side: SideType,
}

impl View for ResourceEntry {
    type V = ResourceEntryView;

    open spec fn view(&self) -> ResourceEntryView {
        ResourceEntryView {
            name: self.name@,
            source: self.source@,
            hash: self.hash@,
            target_dir: self.target_dir@,
            decompress: self.decompress,
            side: self.side,
        }
    }
}

impl Clone for ResourceEntry {
    fn clone(&self) -> (r: Self)
        ensures
            r@ == self@,
    {
        ResourceEntry {
            name: self.name.clone(),
            source: self.source.clone(),
            hash: self.hash.clone(),
            target_dir: self.target_dir.clone(),
            decompress: self.decompress,
            side: self.side,
        }
    }
}

/// A component of a path, as the platform's path syntax divides it.
#[derive(Debug, PartialEq, Eq)]
pub enum PathPart {
    /// A drive or share prefix.
    Prefix,
    /// The root directory.
    RootDir,
    /// `.`
    CurDir,
    /// `..`
    ParentDir,
    /// An ordinary segment.
    Normal(String),
}

/// The mathematical value of a [`PathPart`].
pub enum PathPartView {
    Prefix,
    RootDir,
    CurDir,
    ParentDir,
    Normal(Seq<char>),
}

impl View for PathPart {
    type V = PathPartView;

    open spec fn view(&self) -> PathPartView {
        match self {
            PathPart::Prefix => PathPartView::Prefix,
            PathPart::RootDir => PathPartView::RootDir,
            PathPart::CurDir => PathPartView::CurDir,
            PathPart::ParentDir => PathPartView::ParentDir,
            PathPart::Normal(segment) => PathPartView::Normal(segment@),
        }
    }
}

/// What disqualifies a directory from being a target inside the
/// installation.
#[derive(Debug, Clone, Copy, PartialEq, Eq, Structural)]
pub enum DirFault {
    NotRelative,
    ParentSegment,
    InvalidCharacters,
}

/// A segment holds a separator that belongs to another platform's paths.
pub open spec fn has_foreign_separator(segment: Seq<char>) -> bool {
    segment.contains('\\') || segment.contains(':')
}

/// What is wrong with one component, if anything.
pub open spec fn part_fault(part: PathPartView) -> Option<DirFault> {
    match part {
        PathPartView::Prefix => Some(DirFault::NotRelative),
        PathPartView::RootDir => Some(DirFault::NotRelative),
        PathPartView::CurDir => None,
        PathPartView::ParentDir => Some(DirFault::ParentSegment),
        PathPartView::Normal(segment) => if has_foreign_separator(segment) {
            Some(DirFault::InvalidCharacters)
        } else {
            None
        },
    }
}

/// The fault of the first faulty component, if there is one.
pub open spec fn first_fault(parts: Seq<PathPartView>) -> Option<DirFault>
    decreases parts.len(),
{
    if parts.len() == 0 {
        None
    } else if part_fault(parts[0]) is Some {
        part_fault(parts[0])
    } else {
        first_fault(parts.drop_first())
    }
}

/// What is wrong with a directory, given whether the platform takes it for
/// absolute and the components it divides into. Being absolute comes first.
pub open spec fn dir_fault(is_absolute: bool, parts: Seq<PathPartView>) -> Option<DirFault> {
    if is_absolute {
        Some(DirFault::NotRelative)
    } else {
        first_fault(parts)
    }
}

/// The error that reports a fault of the directory named by `field`.
pub open spec fn fault_error(fault: DirFault, field: Seq<char>) -> ConfigErrorView {
    match fault {
        DirFault::NotRelative => ConfigErrorView::NotRelative { field },
        DirFault::ParentSegment => ConfigErrorView::ParentSegment { field },
        DirFault::InvalidCharacters => ConfigErrorView::InvalidCharacters { field },
    }
}

/// `std::path::Path::is_absolute` for the path that `dir` spells. What
/// counts as absolute is the platform's matter, so nothing is claimed of
/// the answer.
#[verifier::external_body]
fn path_is_absolute(dir: &str) -> bool {
    Path::new(dir).is_absolute()
}

/// `std::path::Path::components` for the path that `dir` spells, each
/// component copied into a [`PathPart`]. How a path divides is the
/// platform's matter, so nothing is claimed of the components.
#[verifier::external_body]
fn path_components(dir: &str) -> Vec<PathPart> {
    Path::new(dir)
        .components()
        .map(
            |c| match c {
                Component::Prefix(_) => PathPart::Prefix,
                Component::RootDir => PathPart::RootDir,
                Component::CurDir => PathPart::CurDir,
                Component::ParentDir => PathPart::ParentDir,
                Component::Normal(s) => PathPart::Normal(s.to_string_lossy().into_owned()),
            },
        )
        .collect()
}

/// Whether a segment holds `\` or `:`.
pub fn segment_has_foreign_separator(segment: &str) -> (r: bool)
    ensures
        r == has_foreign_separator(segment@),
{
    let n = segment.unicode_len();
    let mut i: usize = 0;
    while i < n
        invariant
            n == segment@.len(),
            i <= n,
            forall|j: int| 0 <= j < i ==> segment@[j] != '\\' && segment@[j] != ':',
        decreases n - i,
    {
        let c = segment.get_char(i);
        if c == '\\' || c == ':' {
            return true;
        }
        i += 1;
    }
    false
}

fn fault_to_error(fault: DirFault, field: &str) -> (r: ConfigError)
    ensures
        r@ == fault_error(fault, field@),
{
    match fault {
        DirFault::NotRelative => ConfigError::NotRelative { field: String::from_str(field) },
        DirFault::ParentSegment => ConfigError::ParentSegment { field: String::from_str(field) },
        DirFault::InvalidCharacters => ConfigError::InvalidCharacters {
            field: String::from_str(field),
        },
    }
}

/// Judges a directory from what the platform says of it: it must not be
/// absolute, and none of its components may be a prefix, a root, `..`, or a
/// segment that holds `\` or `:`. The first fault found is reported.
pub fn check_relative_dir(is_absolute: bool, parts: &Vec<PathPart>, field: &str) -> (r: Result<
    (),
    ConfigError,
>)
    ensures
        match r {
            Ok(_) => dir_fault(is_absolute, views(parts@)) is None,
            Err(e) => dir_fault(is_absolute, views(parts@)) is Some && e@ == fault_error(
                dir_fault(is_absolute, views(parts@))->0,
                field@,
            ),
        },
{
    if is_absolute {
        return Err(fault_to_error(DirFault::NotRelative, field));
    }
    let ghost all = views(parts@);
    assert(all.skip(0) =~= all);
    let mut i: usize = 0;
    while i < parts.len()
        invariant
            !is_absolute,
            i <= parts.len(),
            all == views(parts@),
            first_fault(all) == first_fault(all.skip(i as int)),
        decreases parts.len() - i,
    {
        proof {
            assert(all.skip(i as int).drop_first() =~= all.skip(i as int + 1));
            assert(all.skip(i as int)[0] == parts@[i as int]@);
        }
        let fault = match &parts[i] {
            PathPart::Prefix => Some(DirFault::NotRelative),
            PathPart::RootDir => Some(DirFault::NotRelative),
            PathPart::CurDir => None,
            PathPart::ParentDir => Some(DirFault::ParentSegment),
            PathPart::Normal(segment) => {
                if segment_has_foreign_separator(segment.as_str()) {
                    Some(DirFault::InvalidCharacters)
                } else {
                    None
                }
            },
        };
        assert(fault == part_fault(all.skip(i as int)[0]));
        match fault {
            Some(f) => {
                return Err(fault_to_error(f, field));
            },
            None => {},
        }
        i += 1;
    }
    Ok(())
}

/// What the platform makes of the path that a text spells: whether it is
/// absolute, and the components it divides into.
#[derive(Debug, PartialEq, Eq)]
pub struct PathReading {
    pub is_absolute: bool,
    pub parts: Vec<PathPart>,
}

/// The mathematical value of a [`PathReading`].
pub struct ReadingView {
    pub is_absolute: bool,
    pub parts: Seq<PathPartView>,
}

impl View for PathReading {
    type V = ReadingView;

    open spec fn view(&self) -> ReadingView {
        ReadingView { is_absolute: self.is_absolute, parts: views(self.parts@) }
    }
}

/// What the platform makes of the path that `dir` spells.
pub fn read_path(dir: &str) -> PathReading {
    PathReading { is_absolute: path_is_absolute(dir), parts: path_components(dir) }
}

/// The fault of the first faulty directory, if there is one.
pub open spec fn first_dir_fault(readings: Seq<ReadingView>) -> Option<DirFault>
    decreases readings.len(),
{
    if readings.len() == 0 {
        None
    } else if dir_fault(readings[0].is_absolute, readings[0].parts) is Some {
        dir_fault(readings[0].is_absolute, readings[0].parts)
    } else {
        first_dir_fault(readings.drop_first())
    }
}

/// The error that a directory earns, if any, given what the platform makes
/// of it. `field` names the directory.
pub open spec fn reading_verdict(reading: ReadingView, field: Seq<char>) -> Option<
    ConfigErrorView,
> {
    match dir_fault(reading.is_absolute, reading.parts) {
        Some(fault) => Some(fault_error(fault, field)),
        None => None,
    }
}

/// What is wrong with a manifest, if anything, given what the platform
/// makes of the target directories of its resources: a schema that is
/// too new, else a fault of the profile, else the first fault of a target
/// directory.
pub open spec fn manifest_fault(
    schema_version: u32,
    profile: ProfileView,
    readings: Seq<ReadingView>,
) -> Option<ConfigErrorView> {
    if schema_version > LATEST_SCHEMA_VERSION {
        Some(ConfigErrorView::UnsupportedSchemaVersion { found: schema_version })
    } else if profile_fault(profile) is Some {
        profile_fault(profile)
    } else {
        match first_dir_fault(readings) {
            Some(fault) => Some(fault_error(fault, "resources.targetDir"@)),
            None => None,
        }
    }
}

/// Accepts a directory that lies inside the installation: a relative path
/// without `..` segments and without separators of another platform.
///
/// The platform's path syntax decides how `dir` divides into components;
/// [`check_relative_dir`] says what follows from each division.
pub fn validate_relative_dir(dir: &str, field: &str) -> (r: Result<(), ConfigError>)
    ensures
        exists|reading: ReadingView| #[trigger]
            reading_verdict(reading, field@) == match r {
                Ok(_) => None::<ConfigErrorView>,
                Err(e) => Some(e@),
            },
        r matches Err(e) ==> exists|fault: DirFault| e@ == fault_error(fault, field@),
{
    let reading = read_path(dir);
    let r = check_relative_dir(reading.is_absolute, &reading.parts, field);
    proof {
        assert(reading_verdict(reading@, field@) == match r {
            Ok(_) => None::<ConfigErrorView>,
            Err(e) => Some(e@),
        });
    }
    r
}

impl ResourceEntry {
    /// Accepts a resource whose target directory lies inside the
    /// installation.
    pub fn validate(&self) -> (r: Result<(), ConfigError>)
        ensures
            exists|reading: ReadingView| #[trigger]
                reading_verdict(reading, "resources.targetDir"@) == match r {
                    Ok(_) => None::<ConfigErrorView>,
                    Err(e) => Some(e@),
                },
            r matches Err(e) ==> exists|fault: DirFault|
                e@ == fault_error(fault, "resources.targetDir"@),
    {
        validate_relative_dir(self.target_dir.as_str(), "resources.targetDir")
    }

    /// Whether this resource is installed on a deployment of `side`.
    pub fn should_install(&self, side: &SideType) -> (r: bool)
        ensures
            r == self@.side.applies_to(*side),
    {
        self.side.should_install(side)
    }
}

/// The manifest: the package version, the profile, the loader, and the mods
/// and resources that an installation is to hold. Every value of this type
/// has passed [`ModPackConfig::new`].
#[derive(Debug, PartialEq, Eq)]
pub struct ModPackConfig {
    schema_version: u32,
    pack_version: PackVersion,
    profile: Profile,
    mod_loader: ModLoader,
    mods: Vec<ModEntry>,
    resources: Vec<ResourceEntry>,
}

/// The mathematical value of a [`ModPackConfig`].
pub struct ConfigView {
    pub schema_version: u32,
    pub pack_version: VersionView,
    pub profile: ProfileView,
    pub mod_loader: ModLoaderView,
    pub mods: Seq<ModEntryView>,
    pub resources: Seq<ResourceEntryView>,
}

impl ConfigView {
    /// Whether a mod with this source is listed, on whatever side.
    pub open spec fn has_mod(self, source: SourceView) -> bool {
        exists|i: int| 0 <= i < self.mods.len() && (#[trigger] self.mods[i]).source == source
    }

    /// What holds of every manifest that was accepted: a schema that this
    /// crate knows, and a profile with a name and a version.
    pub open spec fn accepted(self) -> bool {
        &&& self.schema_version <= LATEST_SCHEMA_VERSION
        &&& profile_fault(self.profile) is None
    }
}

impl View for ModPackConfig {
    type V = ConfigView;

    closed spec fn view(&self) -> ConfigView {
        ConfigView {
            schema_version: self.schema_version,
            pack_version: self.pack_version@,
            profile: self.profile@,
            mod_loader: self.mod_loader@,
            mods: views(self.mods@),
            resources: views(self.resources@),
        }
    }
}

impl ModPackConfig {
    /// What holds of every manifest.
    #[verifier::type_invariant]
    pub open spec fn well_formed(&self) -> bool {
        self@.accepted()
    }

    /// Builds a manifest from its parts and from what the platform makes of
    /// the target directory of each resource, in the order of the
    /// resources. The manifest is accepted if it has no fault; otherwise the
    /// first fault is reported: the schema version is looked at first, then
    /// the profile, then the target directories in order.
    pub fn from_readings(
        schema_version: u32,
        pack_version: PackVersion,
        profile: Profile,
        mod_loader: ModLoader,
        mods: Vec<ModEntry>,
        resources: Vec<ResourceEntry>,
        readings: &Vec<PathReading>,
    ) -> (r: Result<ModPackConfig, ConfigError>)
        ensures
            match r {
                Ok(c) => manifest_fault(schema_version, profile@, views(readings@)) is None && c@
                    == (ConfigView {
                    schema_version,
                    pack_version: pack_version@,
                    profile: profile@,
                    mod_loader: mod_loader@,
                    mods: views(mods@),
                    resources: views(resources@),
                }) && c@.accepted(),
                Err(e) => manifest_fault(schema_version, profile@, views(readings@)) == Some(e@),
            },
    {
        if schema_version > LATEST_SCHEMA_VERSION {
            return Err(ConfigError::UnsupportedSchemaVersion { found: schema_version });
        }
        match profile.validate() {
            Err(e) => {
                return Err(e);
            },
            Ok(_) => {},
        }
        let ghost all = views(readings@);
        assert(all.skip(0) =~= all);
        let mut i: usize = 0;
        while i < readings.len()
            invariant
                i <= readings.len(),
                all == views(readings@),
                schema_version <= LATEST_SCHEMA_VERSION,
                profile_fault(profile@) is None,
                first_dir_fault(all) == first_dir_fault(all.skip(i as int)),
            decreases readings.len() - i,
        {
            proof {
                assert(all.skip(i as int).drop_first() =~= all.skip(i as int + 1));
                assert(all.skip(i as int)[0] == readings@[i as int]@);
            }
            match check_relative_dir(
                readings[i].is_absolute,
                &readings[i].parts,
                "resources.targetDir",
            ) {
                Err(e) => {
                    return Err(e);
                },
                Ok(_) => {},
            }
            i += 1;
        }
        Ok(ModPackConfig { schema_version, pack_version, profile, mod_loader, mods, resources })
    }

    /// Builds a manifest from its parts and validates it: the schema version
    /// first, then the profile, then the target directory of each resource
    /// in order. The first fault is reported.
    ///
    /// What the target directories are made of, the platform's path syntax
    /// says; [`ModPackConfig::from_readings`] says what follows from it.
    pub fn new(
        schema_version: u32,
        pack_version: PackVersion,
        profile: Profile,
        mod_loader: ModLoader,
        mods: Vec<ModEntry>,
        resources: Vec<ResourceEntry>,
    ) -> (r: Result<ModPackConfig, ConfigError>)
        ensures
            exists|readings: Seq<ReadingView>|
                readings.len() == resources@.len() && match r {
                    Ok(c) => manifest_fault(schema_version, profile@, readings) is None,
                    Err(e) => #[trigger] manifest_fault(schema_version, profile@, readings)
                        == Some(e@),
                },
            schema_version > LATEST_SCHEMA_VERSION ==> r is Err && r->Err_0@
                == (ConfigErrorView::UnsupportedSchemaVersion { found: schema_version }),
            schema_version <= LATEST_SCHEMA_VERSION && profile_fault(profile@) is Some ==> r is Err
                && Some(r->Err_0@) == profile_fault(profile@),
            schema_version <= LATEST_SCHEMA_VERSION && profile_fault(profile@) is None ==> match r {
                Ok(_) => true,
                Err(e) => exists|fault: DirFault|
                    e@ == fault_error(fault, "resources.targetDir"@),
            },
            schema_version <= LATEST_SCHEMA_VERSION && profile_fault(profile@) is None
                && resources@.len() == 0 ==> r is Ok,
            r matches Ok(c) ==> c@ == (ConfigView {
                schema_version,
                pack_version: pack_version@,
                profile: profile@,
                mod_loader: mod_loader@,
                mods: views(mods@),
                resources: views(resources@),
            }) && c@.accepted(),
    {
        let mut readings: Vec<PathReading> = Vec::new();
        let mut i: usize = 0;
        while i < resources.len()
            invariant
                i <= resources.len(),
                readings.len() == i,
            decreases resources.len() - i,
        {
            readings.push(read_path(resources[i].target_dir.as_str()));
            i += 1;
        }
        let r = Self::from_readings(
            schema_version,
            pack_version,
            profile,
            mod_loader,
            mods,
            resources,
            &readings,
        );
        proof {
            let witness = views(readings@);
            assert(witness.len() == resources@.len());
            if witness.len() == 0 {
                assert(first_dir_fault(witness) is None);
            }
            assert(match r {
                Ok(c) => manifest_fault(schema_version, profile@, witness) is None,
                Err(e) => manifest_fault(schema_version, profile@, witness) == Some(e@),
            });
        }
        r
    }

    /// The schema in which the manifest was written.
    pub fn get_schema_version(&self) -> (r: u32)
        ensures
            r == self@.schema_version,
            r <= LATEST_SCHEMA_VERSION,
    {
        proof {
            use_type_invariant(self);
        }
        self.schema_version
    }

    /// The version of the package that the manifest describes.
    pub fn get_pack_version(&self) -> (r: &PackVersion)
        ensures
            r@ == self@.pack_version,
    {
        &self.pack_version
    }

    /// The launcher profile, whose name and version are not blank.
    pub fn get_profile(&self) -> (r: &Profile)
        ensures
            r@ == self@.profile,
            profile_fault(r@) is None,
    {
        proof {
            use_type_invariant(self);
        }
        &self.profile
    }

    /// The loader.
    pub fn get_mod_loader(&self) -> (r: &ModLoader)
        ensures
            r@ == self@.mod_loader,
    {
        &self.mod_loader
    }

    /// Whether a mod with this source is listed, on whatever side.
    pub fn has_mod(&self, source: &SourceType) -> (r: bool)
        ensures
            r == self@.has_mod(source@),
    {
        let mut i: usize = 0;
        while i < self.mods.len()
            invariant
                i <= self.mods.len(),
                forall|k: int| 0 <= k < i ==> self.mods@[k]@.source != source@,
            decreases self.mods.len() - i,
        {
            if self.mods[i].source == *source {
                assert(self@.mods[i as int].source == source@);
                return true;
            }
            i += 1;
        }
        assert forall|k: int| 0 <= k < self@.mods.len() implies (#[trigger] self@.mods[k]).source
            != source@ by {
            assert(self@.mods[k] == self.mods@[k]@);
        }
        false
    }

    /// The mods, in the order in which the manifest lists them.
    pub fn get_mods(&self) -> (r: &Vec<ModEntry>)
        ensures
            views(r@) == self@.mods,
    {
        &self.mods
    }

    /// The resources, in the order in which the manifest lists them.
    pub fn get_resources(&self) -> (r: &Vec<ResourceEntry>)
        ensures
            views(r@) == self@.resources,
    {
        &self.resources
    }
}

/// The mods among `mods` that belong on a deployment of `side`, in order.
pub open spec fn applicable_mods(mods: Seq<ModEntryView>, side: SideType) -> Seq<ModEntryView> {
    mods.filter(|e: ModEntryView| e.side.applies_to(side))
}

/// The resources among `resources` that belong on a deployment of `side`,
/// in order.
pub open spec fn applicable_resources(resources: Seq<ResourceEntryView>, side: SideType) -> Seq<
    ResourceEntryView,
> {
    resources.filter(|e: ResourceEntryView| e.side.applies_to(side))
}

impl ModPackConfig {
    /// The mods that belong on a deployment of `side`, in the manifest's
    /// order.
    pub fn mods_for(&self, side: &SideType) -> (r: Vec<ModEntry>)
        ensures
            views(r@) == applicable_mods(self@.mods, *side),
    {
        let ghost all = self@.mods;
        let mut r: Vec<ModEntry> = Vec::new();
        let mut i: usize = 0;
        proof {
            reveal(Seq::filter);
            assert(all.take(0) =~= Seq::empty());
            assert(views(r@) =~= Seq::empty());
        }
        while i < self.mods.len()
            invariant
                i <= self.mods.len(),
                all == self@.mods,
                all.len() == self.mods.len(),
                views(r@) == applicable_mods(all.take(i as int), *side),
            decreases self.mods.len() - i,
        {
            proof {
                reveal(Seq::filter);
                assert(all.take(i as int + 1).drop_last() =~= all.take(i as int));
                assert(all.take(i as int + 1).last() == self.mods@[i as int]@);
            }
            if self.mods[i].should_install(side) {
                r.push(self.mods[i].clone());
                assert(views(r@) =~= applicable_mods(all.take(i as int), *side).push(
                    self.mods@[i as int]@,
                ));
            }
            i += 1;
        }
        assert(all.take(self.mods.len() as int) =~= all);
        r
    }

    /// The resources that belong on a deployment of `side`, in the
    /// manifest's order.
    pub fn resources_for(&self, side: &SideType) -> (r: Vec<ResourceEntry>)
        ensures
            views(r@) == applicable_resources(self@.resources, *side),
    {
        let ghost all = self@.resources;
        let mut r: Vec<ResourceEntry> = Vec::new();
        let mut i: usize = 0;
        proof {
            reveal(Seq::filter);
            assert(all.take(0) =~= Seq::empty());
            assert(views(r@) =~= Seq::empty());
        }
        while i < self.resources.len()
            invariant
                i <= self.resources.len(),
                all == self@.resources,
                all.len() == self.resources.len(),
                views(r@) == applicable_resources(all.take(i as int), *side),
            decreases self.resources.len() - i,
        {
            proof {
                reveal(Seq::filter);
                assert(all.take(i as int + 1).drop_last() =~= all.take(i as int));
                assert(all.take(i as int + 1).last() == self.resources@[i as int]@);
            }
            if self.resources[i].should_install(side) {
                r.push(self.resources[i].clone());
                assert(views(r@) =~= applicable_resources(all.take(i as int), *side).push(
                    self.resources@[i as int]@,
                ));
            }
            i += 1;
        }
        assert(all.take(self.resources.len() as int) =~= all);
        r
    }
}

} // verus!
