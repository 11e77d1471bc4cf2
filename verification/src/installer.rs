//! The installer itself: what may run, what a run consists of, and the
//! decisions taken along the way.

use vstd::prelude::*;
use crate::config::{
    applicable_mods, applicable_resources, views, ConfigView, ModEntry, ModLoader, ModPackConfig,
    ResourceEntry, SideType,
};
use crate::event::{
    AlertLevel, Directive, DirectiveView, InstallerEvent, Phase, Progress, Report, Work,
};
use crate::migration::{fired, fired_migrations, migration_rows, Migration, MigrationAction};
use crate::protocol::{
    after_profile, alert, enter, fail, finalize, go, loader_request, mod_needs_download,
    mod_request, on_delivered, on_fetched, on_ready, on_removed, on_state, progress,
    resource_needs_download, resource_request, step, stray, tail, take_up, work_step,
    DemandView, InstallerView, Outcome, RequestView, Stage, Step,
};
use crate::state::{
    clone_mods, fresh_state, InstallerState, ModLoaderState, ModState, ResourceState,
    StateView,
};
use crate::text::ascii_case_eq;
use crate::version::{version_lt, PackVersion, VersionView};

verus! {

/// What a run of the installer is to do.
#[derive(Debug, Clone, Copy, PartialEq, Eq, Structural)]
pub enum InstallerMode {
    Install,
    Update,
}

impl InstallerMode {
    /// The mode's name.
    pub open spec fn spec_name(self) -> Seq<char> {
        match self {
            InstallerMode::Install => "Install"@,
            InstallerMode::Update => "Update"@,
        }
    }

    /// The mode's name, as shown to the user.
    pub fn name(&self) -> (r: &'static str)
        ensures
            r@ == self.spec_name(),
    {
        match self {
            InstallerMode::Install => "Install",
            InstallerMode::Update => "Update",
        }
    }
}

/// Why the installer refuses to run, or why a run came to an end.
#[derive(Debug, PartialEq, Eq)]
pub enum InstallerError {
    /// There is no manifest.
    ConfigNotFound,
    /// There is no stored state, so nothing that could be updated.
    StateNotFound,
    /// A run of another mode was begun and has not been completed.
    AnotherModeInProgress(InstallerMode),
    /// The stored package version is not older than the manifest's.
    NoUpdateNeeded,
    /// A downloaded file does not have the content that the manifest asks
    /// for.
    HashMismatch { file_name: String, expected: String, actual: String },
    /// The driver could not do what a run cannot do without.
    StepFailed { reason: String },
    /// The driver reported something that the installer was not waiting for.
    UnexpectedReport,
}

/// The mathematical value of an [`InstallerError`].
pub enum ErrorView {
    ConfigNotFound,
    StateNotFound,
    AnotherModeInProgress(InstallerMode),
    NoUpdateNeeded,
    HashMismatch { file_name: Seq<char>, expected: Seq<char>, actual: Seq<char> },
    StepFailed { reason: Seq<char> },
    UnexpectedReport,
}

impl View for InstallerError {
    type V = ErrorView;

    open spec fn view(&self) -> ErrorView {
        match self {
            InstallerError::ConfigNotFound => ErrorView::ConfigNotFound,
            InstallerError::StateNotFound => ErrorView::StateNotFound,
            InstallerError::AnotherModeInProgress(mode) => ErrorView::AnotherModeInProgress(
                *mode,
            ),
            InstallerError::NoUpdateNeeded => ErrorView::NoUpdateNeeded,
            InstallerError::HashMismatch { file_name, expected, actual } => {
                ErrorView::HashMismatch {
                    file_name: file_name@,
                    expected: expected@,
                    actual: actual@,
                }
            },
            InstallerError::StepFailed { reason } => ErrorView::StepFailed { reason: reason@ },
            InstallerError::UnexpectedReport => ErrorView::UnexpectedReport,
        }
    }
}

/// The text that describes an [`InstallerError`].
pub open spec fn error_text(e: ErrorView) -> Seq<char> {
    match e {
        ErrorView::ConfigNotFound => "Config file is not found."@,
        ErrorView::StateNotFound => "Installer state file is not found."@,
        ErrorView::AnotherModeInProgress(mode) => "Another mode ("@ + mode.spec_name()
            + ") is already in progress."@,
        ErrorView::NoUpdateNeeded => "No update is needed."@,
        ErrorView::HashMismatch { file_name, expected, actual } => "Hash mismatch for "@
            + file_name + ". Expected "@ + expected + ", got "@ + actual,
        ErrorView::StepFailed { reason } => reason,
        ErrorView::UnexpectedReport => "The installer was not waiting for this report."@,
    }
}

impl InstallerError {
    /// The text that describes this error.
    pub fn message(&self) -> (r: String)
        ensures
            r@ == error_text(self@),
    {
        match self {
            InstallerError::ConfigNotFound => String::from_str("Config file is not found."),
            InstallerError::StateNotFound => String::from_str(
                "Installer state file is not found.",
            ),
            InstallerError::AnotherModeInProgress(mode) => {
                let mut r = String::from_str("Another mode (");
                r.append(mode.name());
                r.append(") is already in progress.");
                r
            },
            InstallerError::NoUpdateNeeded => String::from_str("No update is needed."),
            InstallerError::HashMismatch { file_name, expected, actual } => {
                let mut r = String::from_str("Hash mismatch for ");
                r.append(file_name.as_str());
                r.append(". Expected ");
                r.append(expected.as_str());
                r.append(", got ");
                r.append(actual.as_str());
                r
            },
            InstallerError::StepFailed { reason } => reason.clone(),
            InstallerError::UnexpectedReport => String::from_str(
                "The installer was not waiting for this report.",
            ),
        }
    }
}

/// The view of the result of a check.
pub open spec fn check_view(r: Result<(), InstallerError>) -> Result<(), ErrorView> {
    match r {
        Ok(_) => Ok(()),
        Err(e) => Err(e@),
    }
}

/// Whether a computed hash is the expected one. Hashes are written in
/// hexadecimal digits, whose case does not matter.
pub fn hash_matches(expected: &str, actual: &str) -> (r: bool)
    ensures
        r == ascii_case_eq(expected@, actual@),
{
    expected.eq_ignore_ascii_case(actual)
}

/// The verdict on a downloaded file: accepted if its hash is the expected
/// one, refused otherwise.
pub open spec fn hash_verdict(expected: Seq<char>, actual: Seq<char>, file_name: Seq<char>) -> Result<
    (),
    ErrorView,
> {
    if ascii_case_eq(expected, actual) {
        Ok(())
    } else {
        Err(ErrorView::HashMismatch { file_name, expected, actual })
    }
}

/// Accepts a downloaded file whose hash is the expected one, and refuses
/// any other.
pub fn verify_hash(expected: &str, actual: &str, file_name: &str) -> (r: Result<(), InstallerError>)
    ensures
        check_view(r) == hash_verdict(expected@, actual@, file_name@),
{
    if hash_matches(expected, actual) {
        Ok(())
    } else {
        Err(
            InstallerError::HashMismatch {
                file_name: String::from_str(file_name),
                expected: String::from_str(expected),
                actual: String::from_str(actual),
            },
        )
    }
}

/// Whether an installation may run on this stored state: no run of another
/// mode may be in progress.
pub open spec fn install_verdict(state: StateView) -> Result<(), ErrorView> {
    match state.process_mode {
        Some(mode) => if mode != InstallerMode::Install {
            Err(ErrorView::AnotherModeInProgress(mode))
        } else {
            Ok(())
        },
        None => Ok(()),
    }
}

/// Whether an installation may run: there must be a manifest, and if there
/// is a stored state, it must allow it.
pub open spec fn can_install_verdict(config_present: bool, state: Option<StateView>) -> Result<
    (),
    ErrorView,
> {
    if !config_present {
        Err(ErrorView::ConfigNotFound)
    } else {
        match state {
            None => Ok(()),
            Some(s) => install_verdict(s),
        }
    }
}

/// Whether an update may run. There must be a stored state. If no run is in
/// progress, the manifest's package version must be newer than the stored
/// one; if one is, it must be an update.
pub open spec fn update_verdict(config: ConfigView, state: Option<StateView>) -> Result<
    (),
    ErrorView,
> {
    match state {
        None => Err(ErrorView::StateNotFound),
        Some(s) => match s.process_mode {
            None => if version_lt(s.pack_version, config.pack_version) {
                Ok(())
            } else {
                Err(ErrorView::NoUpdateNeeded)
            },
            Some(mode) => if mode != InstallerMode::Update {
                Err(ErrorView::AnotherModeInProgress(mode))
            } else {
                Ok(())
            },
        },
    }
}

/// The view of a stored state that may be absent.
pub open spec fn state_view(state: Option<&InstallerState>) -> Option<StateView> {
    match state {
        Some(s) => Some(s@),
        None => None,
    }
}

/// How many steps a run has: the loader when installing; when updating, one
/// for each stored mod and one for each migration that the update applies;
/// and in both modes one for each mod and each resource of the manifest
/// that belongs on this side.
pub open spec fn total_steps(mode: InstallerMode, config: ConfigView, side: SideType, state: StateView) -> nat {
    let loader: nat = if mode == InstallerMode::Install { 1 } else { 0 };
    let removals: nat = if mode == InstallerMode::Update { state.mods.len() } else { 0 };
    let migrations: nat = if mode == InstallerMode::Update {
        fired(migration_rows(), state.pack_version, config.pack_version).len()
    } else {
        0
    };
    loader + removals + applicable_mods(config.mods, side).len() + applicable_resources(
        config.resources,
        side,
    ).len() + migrations
}

/// A download and what is to become of the file.
#[derive(Debug, PartialEq, Eq)]
pub struct DownloadRequest {
    pub url: String,
    /// The name under which the item is shown.
    pub name: String,
    /// The hash that the content must have.
    pub hash: String,
    /// The directory that the file goes to, relative to the installation's
    /// root.
    pub dir: String,
    /// Whether the file is an archive that is extracted into `dir`.
    pub decompress: bool,
}

impl View for DownloadRequest {
    type V = RequestView;

    open spec fn view(&self) -> RequestView {
        RequestView {
            url: self.url@,
            name: self.name@,
            hash: self.hash@,
            dir: self.dir@,
            decompress: self.decompress,
        }
    }
}

/// What the item under the cursor asks for.
#[derive(Debug, PartialEq, Eq)]
pub enum Demand {
    /// The phase has no further item.
    PhaseDone,
    /// The item is in place already.
    Skip,
    Download(DownloadRequest),
    /// The file of an obsolete mod is to be deleted.
    Remove(String),
    /// The defaults of configuration files are to be copied.
    Copy(Vec<String>),
}

impl View for Demand {
    type V = DemandView;

    open spec fn view(&self) -> DemandView {
        match self {
            Demand::PhaseDone => DemandView::PhaseDone,
            Demand::Skip => DemandView::Skip,
            Demand::Download(request) => DemandView::Download(request@),
            Demand::Remove(file_name) => DemandView::Remove(file_name@),
            Demand::Copy(paths) => DemandView::Copy(views(paths@)),
        }
    }
}

/// The installer: a run in progress. Its driver performs the work it asks
/// for and reports back; see [`Installer::advance`].
#[derive(Debug, PartialEq, Eq)]
pub struct Installer {
    mode: InstallerMode,
    config: ModPackConfig,
    side: SideType,
    installer_version: PackVersion,
    state: InstallerState,
    stage: Stage,
    cursor: usize,
    completed_steps: u128,
    total_steps: u128,
    obsolete: Vec<ModState>,
    mods: Vec<ModEntry>,
    resources: Vec<ResourceEntry>,
    migrations: Vec<Migration>,
    pending: String,
}

impl View for Installer {
    type V = InstallerView;

    closed spec fn view(&self) -> InstallerView {
        InstallerView {
            mode: self.mode,
            config: self.config@,
            side: self.side,
            installer_version: self.installer_version@,
            state: self.state@,
            stage: self.stage,
            cursor: self.cursor as nat,
            completed: self.completed_steps as nat,
            total: self.total_steps as nat,
            obsolete: views(self.obsolete@),
            mods: views(self.mods@),
            resources: views(self.resources@),
            migrations: views(self.migrations@),
            pending: self.pending@,
        }
    }
}

/// The installer before its first step.
pub open spec fn initial(
    mode: InstallerMode,
    config: ConfigView,
    side: SideType,
    installer_version: VersionView,
) -> InstallerView {
    InstallerView {
        mode,
        config,
        side,
        installer_version,
        state: fresh_state(installer_version, config.pack_version),
        stage: Stage::Created,
        cursor: 0,
        completed: 0,
        total: 0,
        obsolete: Seq::empty(),
        mods: applicable_mods(config.mods, side),
        resources: applicable_resources(config.resources, side),
        migrations: Seq::empty(),
        pending: Seq::empty(),
    }
}

/// The view of what a step hands back.
pub open spec fn result_view(r: Result<Directive, InstallerError>) -> Result<
    DirectiveView,
    ErrorView,
> {
    match r {
        Ok(directive) => Ok(directive@),
        Err(e) => Err(e@),
    }
}

/// The outcome that an installer and what it handed back stand for.
pub open spec fn outcome_of(r: (Installer, Result<Directive, InstallerError>)) -> Outcome {
    Outcome { installer: r.0@, result: result_view(r.1) }
}

fn progress_event(completed: u128, total: u128) -> (e: InstallerEvent)
    ensures
        e@ == progress(completed as nat, total as nat),
{
    InstallerEvent::UpdateProgress(Progress { completed, total })
}

fn alert_event(level: AlertLevel, translation_key: &str) -> (e: InstallerEvent)
    ensures
        e@ == alert(level, translation_key@),
{
    InstallerEvent::AddAlert { level, translation_key: String::from_str(translation_key) }
}

fn no_events() -> (r: Vec<InstallerEvent>)
    ensures
        views(r@) == Seq::<crate::event::EventView>::empty(),
{
    let r: Vec<InstallerEvent> = Vec::new();
    assert(views(r@) =~= Seq::empty());
    r
}

fn one_event(a: InstallerEvent) -> (r: Vec<InstallerEvent>)
    ensures
        views(r@) == seq![a@],
{
    let mut r: Vec<InstallerEvent> = Vec::new();
    r.push(a);
    assert(views(r@) =~= seq![a@]);
    r
}

fn two_events(a: InstallerEvent, b: InstallerEvent) -> (r: Vec<InstallerEvent>)
    ensures
        views(r@) == seq![a@, b@],
{
    let mut r: Vec<InstallerEvent> = Vec::new();
    r.push(a);
    r.push(b);
    assert(views(r@) =~= seq![a@, b@]);
    r
}

fn loader_request_of(loader: &ModLoader) -> (r: DownloadRequest)
    ensures
        r@ == loader_request(loader@),
{
    DownloadRequest {
        url: loader.url.clone(),
        name: loader.name.clone(),
        hash: loader.hash.clone(),
        dir: String::new(),
        decompress: false,
    }
}

fn mod_request_of(entry: &ModEntry) -> (r: DownloadRequest)
    ensures
        r@ == mod_request(entry@),
{
    DownloadRequest {
        url: entry.source.get_download_url(),
        name: entry.name.clone(),
        hash: entry.hash.clone(),
        dir: String::from_str("mods"),
        decompress: false,
    }
}

fn resource_request_of(entry: &ResourceEntry) -> (r: DownloadRequest)
    ensures
        r@ == resource_request(entry@),
{
    DownloadRequest {
        url: entry.source.get_download_url(),
        name: entry.name.clone(),
        hash: entry.hash.clone(),
        dir: entry.target_dir.clone(),
        decompress: entry.decompress,
    }
}

fn next_phase_of(mode: InstallerMode, phase: Phase) -> (r: Option<Phase>)
    ensures
        r == crate::protocol::next_phase(mode, phase),
{
    match phase {
        Phase::DownloadModLoader => Some(Phase::DownloadMods),
        Phase::RemoveMods => Some(Phase::DownloadMods),
        Phase::DownloadMods => Some(Phase::DownloadResources),
        Phase::DownloadResources => {
            if mode == InstallerMode::Update {
                Some(Phase::UpdateSettings)
            } else {
                None
            }
        },
        Phase::UpdateSettings => None,
        Phase::AddProfile => None,
        Phase::LaunchModLoader => None,
    }
}

impl Installer {
    /// Whether an installation may run on this stored state.
    pub fn can_install_state(state: &InstallerState) -> (r: Result<(), InstallerError>)
        ensures
            check_view(r) == install_verdict(state@),
    {
        match state.get_process_mode() {
            Some(mode) => {
                if mode != InstallerMode::Install {
                    Err(InstallerError::AnotherModeInProgress(mode))
                } else {
                    Ok(())
                }
            },
            None => Ok(()),
        }
    }

    /// Whether an installation may run, given whether there is a manifest
    /// and the stored state, if there is one.
    pub fn can_install(config_present: bool, state: Option<&InstallerState>) -> (r: Result<
        (),
        InstallerError,
    >)
        ensures
            check_view(r) == can_install_verdict(config_present, state_view(state)),
    {
        if !config_present {
            return Err(InstallerError::ConfigNotFound);
        }
        match state {
            None => Ok(()),
            Some(s) => Self::can_install_state(s),
        }
    }

    /// Whether an update to the manifest's package version may run, given
    /// the stored state, if there is one.
    pub fn can_update(config: &ModPackConfig, state: Option<&InstallerState>) -> (r: Result<
        (),
        InstallerError,
    >)
        ensures
            check_view(r) == update_verdict(config@, state_view(state)),
    {
        match state {
            None => Err(InstallerError::StateNotFound),
            Some(s) => match s.get_process_mode() {
                None => {
                    if s.get_pack_version().precedes(config.get_pack_version()) {
                        Ok(())
                    } else {
                        Err(InstallerError::NoUpdateNeeded)
                    }
                },
                Some(mode) => {
                    if mode != InstallerMode::Update {
                        Err(InstallerError::AnotherModeInProgress(mode))
                    } else {
                        Ok(())
                    }
                },
            },
        }
    }

    /// Hands the stored state on if an update may run on it.
    pub fn can_update_state(config: &ModPackConfig, state: Option<InstallerState>) -> (r: Result<
        InstallerState,
        InstallerError,
    >)
        ensures
            match r {
                Ok(s) => state == Some(s) && update_verdict(config@, Some(s@)) is Ok,
                Err(e) => update_verdict(
                    config@,
                    match state {
                        Some(s) => Some(s@),
                        None => None,
                    },
                ) == Err::<(), ErrorView>(e@),
            },
    {
        match state {
            None => Err(InstallerError::StateNotFound),
            Some(s) => match Self::can_update(config, Some(&s)) {
                Ok(_) => Ok(s),
                Err(e) => Err(e),
            },
        }
    }

    /// How many migrations an update from `now` to `new` applies.
    pub fn get_update_settings_steps(now: &PackVersion, new: &PackVersion) -> (r: u32)
        ensures
            r == fired(migration_rows(), now@, new@).len(),
    {
        let migrations = fired_migrations(now, new);
        proof {
            migration_rows().lemma_filter_len(
                |m: crate::migration::MigrationView| m.fires(now@, new@),
            );
            assert(migration_rows().len() == 3);
        }
        migrations.len() as u32
    }

    /// How many steps a run of `mode` has on this side, from this stored
    /// state.
    pub fn total_download_steps(
        mode: InstallerMode,
        config: &ModPackConfig,
        side: &SideType,
        state: &InstallerState,
    ) -> (r: u128)
        ensures
            r == total_steps(mode, config@, *side, state@),
    {
        let mut steps: u128 = 0;
        if mode == InstallerMode::Install {
            steps += 1;
        }
        if mode == InstallerMode::Update {
            steps += state.get_mod_count() as u128;
        }
        steps += config.mods_for(side).len() as u128;
        steps += config.resources_for(side).len() as u128;
        if mode == InstallerMode::Update {
            steps += Self::get_update_settings_steps(
                state.get_pack_version(),
                config.get_pack_version(),
            ) as u128;
        }
        steps
    }
}

impl Installer {
    /// What holds of every installer.
    #[verifier::type_invariant]
    pub open spec fn well_formed(&self) -> bool {
        self@.wf()
    }

    /// An installer for a run of `mode` on a deployment of `side`, which is
    /// the client or the server. `installer_version` is the version of the
    /// program that drives the run.
    pub fn new(
        mode: InstallerMode,
        config: ModPackConfig,
        side: SideType,
        installer_version: PackVersion,
    ) -> (r: Installer)
        requires
            side != SideType::Both,
        ensures
            r@ == initial(mode, config@, side, installer_version@),
            r@.wf(),
    {
        let state = InstallerState::new(&installer_version, config.get_pack_version());
        let mods = config.mods_for(&side);
        let resources = config.resources_for(&side);
        let obsolete: Vec<ModState> = Vec::new();
        let migrations: Vec<Migration> = Vec::new();
        proof {
            assert(views(obsolete@) =~= Seq::empty());
            assert(views(migrations@) =~= Seq::empty());
            use_type_invariant(&config);
        }
        Installer {
            mode,
            config,
            side,
            installer_version,
            state,
            stage: Stage::Created,
            cursor: 0,
            completed_steps: 0,
            total_steps: 0,
            obsolete,
            mods,
            resources,
            migrations,
            pending: String::new(),
        }
    }
}

impl Installer {
    /// The mode of the run.
    pub fn mode(&self) -> (r: InstallerMode)
        ensures
            r == self@.mode,
    {
        self.mode
    }

    /// The manifest that the run works towards.
    pub fn config(&self) -> (r: &ModPackConfig)
        ensures
            r@ == self@.config,
    {
        &self.config
    }

    /// The state of the installation as the run has brought it about. This
    /// is what the driver stores when it is asked to persist.
    pub fn state(&self) -> (r: &InstallerState)
        ensures
            r@ == self@.state,
    {
        &self.state
    }

    /// Where the run stands.
    pub fn stage(&self) -> (r: Stage)
        ensures
            r == self@.stage,
    {
        self.stage
    }

    /// How many steps of the run are behind it, never more than there are.
    pub fn completed_steps(&self) -> (r: u128)
        ensures
            r == self@.completed,
            r <= self@.total,
    {
        proof {
            use_type_invariant(self);
        }
        self.completed_steps
    }

    /// How many steps the run has.
    pub fn total_steps(&self) -> (r: u128)
        ensures
            r == self@.total,
    {
        self.total_steps
    }

    fn mod_needs_download(&self, entry: &ModEntry) -> (r: bool)
        ensures
            r == mod_needs_download(self@.mode, self@.state, entry@),
    {
        match self.state.get_mod(entry) {
            None => true,
            Some(record) => self.mode == InstallerMode::Update && !record.equals(entry, false),
        }
    }

    fn resource_needs_download(&self, entry: &ResourceEntry) -> (r: bool)
        ensures
            r == resource_needs_download(self@.mode, self@.state, entry@),
    {
        match self.state.get_resource(entry) {
            None => true,
            Some(record) => self.mode == InstallerMode::Update && !record.equals(entry),
        }
    }

    /// What the item under the cursor of `phase` asks for.
    fn demand(&self, phase: Phase) -> (r: Demand)
        ensures
            r@ == self@.demand(phase),
    {
        let i = self.cursor;
        match phase {
            Phase::DownloadModLoader => {
                if i >= 1 {
                    Demand::PhaseDone
                } else if self.state.get_mod_loader().is_some() {
                    Demand::Skip
                } else {
                    Demand::Download(loader_request_of(self.config.get_mod_loader()))
                }
            },
            Phase::RemoveMods => {
                if i >= self.obsolete.len() {
                    Demand::PhaseDone
                } else if self.config.has_mod(&self.obsolete[i].source) {
                    Demand::Skip
                } else {
                    Demand::Remove(self.obsolete[i].file_name.clone())
                }
            },
            Phase::DownloadMods => {
                if i >= self.mods.len() {
                    Demand::PhaseDone
                } else if self.mod_needs_download(&self.mods[i]) {
                    Demand::Download(mod_request_of(&self.mods[i]))
                } else {
                    Demand::Skip
                }
            },
            Phase::DownloadResources => {
                if i >= self.resources.len() {
                    Demand::PhaseDone
                } else if self.resource_needs_download(&self.resources[i]) {
                    Demand::Download(resource_request_of(&self.resources[i]))
                } else {
                    Demand::Skip
                }
            },
            Phase::UpdateSettings => {
                if i >= self.migrations.len() {
                    Demand::PhaseDone
                } else {
                    match &self.migrations[i].action {
                        MigrationAction::ExtractArchive { url, name, hash } => Demand::Download(
                            DownloadRequest {
                                url: url.clone(),
                                name: name.clone(),
                                hash: hash.clone(),
                                dir: String::from_str("config"),
                                decompress: true,
                            },
                        ),
                        MigrationAction::OverwriteConfigs { paths } => Demand::Copy(
                            crate::migration::clone_texts(paths),
                        ),
                    }
                }
            },
            Phase::AddProfile => Demand::PhaseDone,
            Phase::LaunchModLoader => Demand::PhaseDone,
        }
    }

    fn fail(self, error: InstallerError) -> (r: (Installer, Result<Directive, InstallerError>))
        ensures
            outcome_of(r) == fail(self@, error@),
    {
        proof {
            use_type_invariant(&self);
        }
        (Installer { stage: Stage::Failed, ..self }, Err(error))
    }

    fn stray(self, report: Report) -> (r: (Installer, Result<Directive, InstallerError>))
        ensures
            outcome_of(r) == stray(self@, report@),
    {
        match report {
            Report::Failed(reason) => self.fail(InstallerError::StepFailed { reason }),
            _ => self.fail(InstallerError::UnexpectedReport),
        }
    }

    fn finalize(self, events: Vec<InstallerEvent>) -> (r: (
        Installer,
        Result<Directive, InstallerError>,
    ))
        ensures
            outcome_of(r) == finalize(self@, views(events@)),
    {
        proof {
            use_type_invariant(&self);
        }
        let mut state = self.state;
        state.set_installer_version(&self.installer_version);
        if self.mode == InstallerMode::Update {
            state.set_pack_version(self.config.get_pack_version());
        }
        state.finalize();
        (
            Installer { state, stage: Stage::Finalizing, ..self },
            Ok(Directive { events, work: Work::Persist }),
        )
    }

    fn tail(self) -> (r: (Installer, Result<Directive, InstallerError>))
        ensures
            outcome_of(r) == tail(self@),
    {
        proof {
            use_type_invariant(&self);
        }
        if self.mode == InstallerMode::Install {
            let events = two_events(
                progress_event(1, 1),
                InstallerEvent::ChangePhase(Phase::AddProfile),
            );
            (
                Installer { stage: Stage::AddingProfile, ..self },
                Ok(Directive { events, work: Work::AddProfile }),
            )
        } else {
            self.finalize(one_event(progress_event(1, 1)))
        }
    }

    fn after_profile(self, events: Vec<InstallerEvent>) -> (r: (
        Installer,
        Result<Directive, InstallerError>,
    ))
        ensures
            outcome_of(r) == after_profile(self@, views(events@)),
    {
        proof {
            use_type_invariant(&self);
        }
        if self.config.get_mod_loader().auto_open {
            let mut events = events;
            let ghost before = views(events@);
            events.push(InstallerEvent::ChangePhase(Phase::LaunchModLoader));
            assert(views(events@) =~= before.push(
                crate::event::EventView::ChangePhase(Phase::LaunchModLoader),
            ));
            (
                Installer { stage: Stage::Launching, ..self },
                Ok(Directive { events, work: Work::LaunchLoader }),
            )
        } else {
            self.finalize(events)
        }
    }

    fn take_up(self, state: InstallerState, retry: bool) -> (r: (
        Installer,
        Result<Directive, InstallerError>,
    ))
        requires
            retry ==> self@.mode == InstallerMode::Install,
        ensures
            outcome_of(r) == take_up(self@, state@, retry),
    {
        proof {
            use_type_invariant(&self);
        }
        let update = self.mode == InstallerMode::Update;
        let obsolete = if update {
            clone_mods(state.get_all_mods())
        } else {
            let none: Vec<ModState> = Vec::new();
            assert(views(none@) =~= Seq::empty());
            none
        };
        let migrations = if update {
            fired_migrations(state.get_pack_version(), self.config.get_pack_version())
        } else {
            let none: Vec<Migration> = Vec::new();
            assert(views(none@) =~= Seq::empty());
            none
        };
        let mut state = state;
        state.set_process_mode(self.mode);
        let first: u128 = if update {
            obsolete.len() as u128
        } else {
            1
        };
        let total: u128 = if retry {
            0
        } else {
            first + self.mods.len() as u128 + self.resources.len() as u128
                + migrations.len() as u128
        };
        (
            Installer {
                state,
                stage: Stage::SavingMode { retry },
                cursor: 0,
                completed_steps: 0,
                total_steps: total,
                obsolete,
                migrations,
                ..self
            },
            Ok(Directive { events: no_events(), work: Work::Persist }),
        )
    }

    fn on_state(self, found: Option<InstallerState>) -> (r: (
        Installer,
        Result<Directive, InstallerError>,
    ))
        ensures
            outcome_of(r) == on_state(
                self@,
                match found {
                    Some(s) => Some(s@),
                    None => None,
                },
            ),
    {
        if self.mode == InstallerMode::Install {
            match found {
                None => {
                    let state = InstallerState::new(
                        &self.installer_version,
                        self.config.get_pack_version(),
                    );
                    self.take_up(state, false)
                },
                Some(state) => match Self::can_install_state(&state) {
                    Ok(_) => {
                        let retry = state.get_process_mode().is_none();
                        self.take_up(state, retry)
                    },
                    Err(e) => self.fail(e),
                },
            }
        } else {
            match Self::can_update_state(&self.config, found) {
                Ok(state) => self.take_up(state, false),
                Err(e) => self.fail(e),
            }
        }
    }

    fn enter(self, retry: bool) -> (r: (Installer, Result<Directive, InstallerError>))
        requires
            self@.stage == (Stage::SavingMode { retry }),
        ensures
            outcome_of(r) == enter(self@, retry),
    {
        proof {
            use_type_invariant(&self);
        }
        if self.mode == InstallerMode::Install {
            if retry {
                self.tail()
            } else {
                (
                    Installer {
                        stage: Stage::Working {
                            phase: Phase::DownloadModLoader,
                            step: Step::Ready,
                        },
                        cursor: 0,
                        ..self
                    },
                    Ok(
                        Directive {
                            events: one_event(
                                InstallerEvent::ChangePhase(Phase::DownloadModLoader),
                            ),
                            work: Work::Nothing,
                        },
                    ),
                )
            }
        } else {
            (
                Installer {
                    stage: Stage::Working { phase: Phase::RemoveMods, step: Step::Ready },
                    cursor: 0,
                    ..self
                },
                Ok(
                    Directive {
                        events: one_event(InstallerEvent::ChangePhase(Phase::RemoveMods)),
                        work: Work::Nothing,
                    },
                ),
            )
        }
    }

    /// The installer with the item under the cursor behind it, and the
    /// events that say so.
    fn pass(self, phase: Phase, twice: bool) -> (r: (Installer, Result<Directive, InstallerError>))
        requires
            self@.stage matches Stage::Working { phase: p, step } && p == phase,
            self@.cursor < self@.phase_len(phase),
        ensures
            outcome_of(r) == go(
                crate::protocol::passed(self@, phase),
                if twice {
                    seq![
                        progress(self@.completed + 1, self@.total),
                        progress(self@.completed + 1, self@.total),
                    ]
                } else {
                    seq![progress(self@.completed + 1, self@.total)]
                },
                crate::event::WorkView::Nothing,
            ),
    {
        proof {
            use_type_invariant(&self);
            assert(views(self.obsolete@).len() == self.obsolete.len());
            assert(views(self.mods@).len() == self.mods.len());
            assert(views(self.resources@).len() == self.resources.len());
            assert(views(self.migrations@).len() == self.migrations.len());
        }
        let completed = self.completed_steps + 1;
        let events = if twice {
            two_events(
                progress_event(completed, self.total_steps),
                progress_event(completed, self.total_steps),
            )
        } else {
            one_event(progress_event(completed, self.total_steps))
        };
        (
            Installer {
                stage: Stage::Working { phase, step: Step::Ready },
                cursor: self.cursor + 1,
                completed_steps: completed,
                ..self
            },
            Ok(Directive { events, work: Work::Nothing }),
        )
    }

    fn on_ready(self, phase: Phase) -> (r: (Installer, Result<Directive, InstallerError>))
        requires
            self@.stage == (Stage::Working { phase, step: Step::Ready }),
        ensures
            outcome_of(r) == on_ready(self@, phase),
    {
        proof {
            use_type_invariant(&self);
        }
        match self.demand(phase) {
            Demand::PhaseDone => match next_phase_of(self.mode, phase) {
                Some(next) => (
                    Installer {
                        stage: Stage::Working { phase: next, step: Step::Ready },
                        cursor: 0,
                        ..self
                    },
                    Ok(
                        Directive {
                            events: one_event(InstallerEvent::ChangePhase(next)),
                            work: Work::Nothing,
                        },
                    ),
                ),
                None => self.tail(),
            },
            Demand::Skip => self.pass(phase, false),
            Demand::Download(request) => {
                let name = request.name.clone();
                (
                    Installer { stage: Stage::Working { phase, step: Step::Fetching }, ..self },
                    Ok(
                        Directive {
                            events: one_event(InstallerEvent::ChangeDetail(name)),
                            work: Work::Fetch { url: request.url, name: request.name },
                        },
                    ),
                )
            },
            Demand::Remove(file_name) => (
                Installer { stage: Stage::Working { phase, step: Step::Removing }, ..self },
                Ok(Directive { events: no_events(), work: Work::RemoveMod { file_name } }),
            ),
            Demand::Copy(paths) => (
                Installer { stage: Stage::Working { phase, step: Step::Copying }, ..self },
                Ok(Directive { events: no_events(), work: Work::OverwriteConfigs { paths } }),
            ),
        }
    }

    fn on_fetched(self, phase: Phase, file_name: String, hash: String) -> (r: (
        Installer,
        Result<Directive, InstallerError>,
    ))
        requires
            self@.stage == (Stage::Working { phase, step: Step::Fetching }),
        ensures
            outcome_of(r) == on_fetched(self@, phase, file_name@, hash@),
    {
        proof {
            use_type_invariant(&self);
        }
        match self.demand(phase) {
            Demand::Download(request) => {
                match verify_hash(request.hash.as_str(), hash.as_str(), file_name.as_str()) {
                    Ok(_) => {
                        let pending = file_name.clone();
                        (
                            Installer {
                                stage: Stage::Working { phase, step: Step::Delivering },
                                pending,
                                ..self
                            },
                            Ok(
                                Directive {
                                    events: no_events(),
                                    work: Work::Deliver {
                                        file_name,
                                        dir: request.dir,
                                        decompress: request.decompress,
                                    },
                                },
                            ),
                        )
                    },
                    Err(e) => self.fail(e),
                }
            },
            _ => self.fail(InstallerError::UnexpectedReport),
        }
    }

    fn on_delivered(self, phase: Phase) -> (r: (Installer, Result<Directive, InstallerError>))
        requires
            self@.stage == (Stage::Working { phase, step: Step::Delivering }),
        ensures
            outcome_of(r) == on_delivered(self@, phase),
    {
        proof {
            use_type_invariant(&self);
        }
        if phase == Phase::UpdateSettings {
            return self.pass(phase, true);
        }
        let events = one_event(progress_event(self.completed_steps + 1, self.total_steps));
        let mut state = self.state;
        match phase {
            Phase::DownloadModLoader => {
                let loader = self.config.get_mod_loader();
                state.set_mod_loader(
                    ModLoaderState {
                        file_name: self.pending.clone(),
                        url: loader.url.clone(),
                        hash: loader.hash.clone(),
                    },
                );
            },
            Phase::DownloadMods => {
                let entry = &self.mods[self.cursor];
                state.add_mod(
                    ModState {
                        file_name: self.pending.clone(),
                        source: entry.source.clone(),
                        hash: entry.hash.clone(),
                    },
                );
            },
            Phase::DownloadResources => {
                let entry = &self.resources[self.cursor];
                state.add_resource(
                    ResourceState {
                        file_name: self.pending.clone(),
                        source: entry.source.clone(),
                        hash: entry.hash.clone(),
                        target_dir: entry.target_dir.clone(),
                        decompress: entry.decompress,
                    },
                );
            },
            _ => {},
        }
        (
            Installer { state, stage: Stage::Working { phase, step: Step::Saving }, ..self },
            Ok(Directive { events, work: Work::Persist }),
        )
    }

    fn on_removed(self, phase: Phase) -> (r: (Installer, Result<Directive, InstallerError>))
        requires
            self@.stage == (Stage::Working { phase, step: Step::Removing }),
        ensures
            outcome_of(r) == on_removed(self@, phase),
    {
        proof {
            use_type_invariant(&self);
        }
        let mut state = self.state;
        state.remove_mod(&self.obsolete[self.cursor]);
        (
            Installer { state, stage: Stage::Working { phase, step: Step::Saving }, ..self },
            Ok(Directive { events: no_events(), work: Work::Persist }),
        )
    }

    fn work_step(self, phase: Phase, step: Step, report: Report) -> (r: (
        Installer,
        Result<Directive, InstallerError>,
    ))
        requires
            self@.stage == (Stage::Working { phase, step }),
        ensures
            outcome_of(r) == work_step(self@, phase, step, report@),
    {
        proof {
            use_type_invariant(&self);
        }
        match (step, report) {
            (Step::Ready, Report::Done) => self.on_ready(phase),
            (Step::Fetching, Report::Fetched(outcome)) => self.on_fetched(
                phase,
                outcome.file_name,
                outcome.hash,
            ),
            (Step::Delivering, Report::Done) => self.on_delivered(phase),
            (Step::Removing, Report::Done) => self.on_removed(phase),
            (Step::Copying, Report::Done) => self.pass(phase, false),
            (Step::Saving, Report::Done) => self.pass(phase, false),
            (_, report) => self.stray(report),
        }
    }

    /// Takes the driver's report on the last work and says what is to be
    /// done next. The first report to a new installer is [`Report::Done`].
    ///
    /// The installer that is handed back has taken the step that the
    /// protocol describes. An error ends the run: the state that was stored
    /// last stands, and a later run takes it up.
    pub fn advance(self, report: Report) -> (r: (Installer, Result<Directive, InstallerError>))
        ensures
            outcome_of(r) == step(self@, report@),
            r.0@.wf(),
    {
        proof {
            use_type_invariant(&self);
            crate::protocol::lemma_step_wf(self@, report@);
        }
        match self.stage {
            Stage::Created => match report {
                Report::Done => (
                    Installer { stage: Stage::ClearingScratch, ..self },
                    Ok(
                        Directive {
                            events: one_event(progress_event(0, 1)),
                            work: Work::ClearScratch,
                        },
                    ),
                ),
                other => self.stray(other),
            },
            Stage::ClearingScratch => match report {
                Report::Done => (
                    Installer { stage: Stage::LoadingState, ..self },
                    Ok(Directive { events: no_events(), work: Work::LoadState }),
                ),
                other => self.stray(other),
            },
            Stage::LoadingState => match report {
                Report::State(found) => self.on_state(found),
                other => self.stray(other),
            },
            Stage::SavingMode { retry } => match report {
                Report::Done => self.enter(retry),
                other => self.stray(other),
            },
            Stage::Working { phase, step } => self.work_step(phase, step, report),
            Stage::AddingProfile => match report {
                Report::Done => self.after_profile(no_events()),
                Report::Failed(_) => self.after_profile(
                    one_event(alert_event(AlertLevel::Warning, "alertOnFailedAddProfile")),
                ),
                other => self.stray(other),
            },
            Stage::Launching => match report {
                Report::Done => self.finalize(
                    one_event(alert_event(AlertLevel::Info, "alertOnLaunchModLoader")),
                ),
                Report::Failed(_) => self.finalize(
                    one_event(alert_event(AlertLevel::Warning, "alertOnFailedLaunchModLoader")),
                ),
                other => self.stray(other),
            },
            Stage::Finalizing => match report {
                Report::Done => (
                    Installer { stage: Stage::Finished, ..self },
                    Ok(Directive { events: no_events(), work: Work::Finish }),
                ),
                other => self.stray(other),
            },
            Stage::Finished => (self, Err(InstallerError::UnexpectedReport)),
            Stage::Failed => (self, Err(InstallerError::UnexpectedReport)),
        }
    }
}

} // verus!
