//! The installer as a state machine: from the installer's condition and the
//! driver's report to the next condition and the next directive.

use vstd::prelude::*;
use crate::config::{
    applicable_mods, applicable_resources, download_url, ConfigView, ModEntryView, ModLoaderView,
    ResourceEntryView, SideType,
};
use crate::event::{AlertLevel, DirectiveView, EventView, Phase, Progress, ReportView, WorkView};
use crate::installer::{
    hash_verdict, install_verdict, update_verdict, ErrorView, InstallerMode,
};
use crate::migration::{fired, migration_rows, MigrationActionView, MigrationView};
use crate::state::{
    fresh_state, ModLoaderStateView, ModStateView, ResourceStateView, StateView,
};
use crate::version::VersionView;

verus! {

/// Where the work on one item stands.
#[derive(Debug, Clone, Copy, PartialEq, Eq, Structural)]
pub enum Step {
    /// Nothing has been asked for yet.
    Ready,
    /// The item is being downloaded.
    Fetching,
    /// The downloaded file is being brought to its place.
    Delivering,
    /// The item's file is being deleted.
    Removing,
    /// The defaults of configuration files are being copied.
    Copying,
    /// The state that records the item is being stored.
    Saving,
}

/// Where a run stands.
#[derive(Debug, Clone, Copy, PartialEq, Eq, Structural)]
pub enum Stage {
    /// Nothing has been asked for yet.
    Created,
    ClearingScratch,
    LoadingState,
    /// The state that marks the run as in progress is being stored. `retry`
    /// says that the stored state showed no run in progress.
    SavingMode { retry: bool },
    /// The items of a phase are being worked through.
    Working { phase: Phase, step: Step },
    AddingProfile,
    Launching,
    /// The state that marks the run as complete is being stored.
    Finalizing,
    Finished,
    Failed,
}

/// A download and what is to become of the file.
pub struct RequestView {
    pub url: Seq<char>,
    pub name: Seq<char>,
    pub hash: Seq<char>,
    pub dir: Seq<char>,
    pub decompress: bool,
}

/// What the item under the cursor asks for.
pub enum DemandView {
    /// The phase has no further item.
    PhaseDone,
    /// The item is in place already.
    Skip,
    Download(RequestView),
    /// The file of an obsolete mod is to be deleted.
    Remove(Seq<char>),
    /// The defaults of configuration files are to be copied.
    Copy(Seq<Seq<char>>),
}

/// The mathematical value of an [`crate::installer::Installer`].
pub struct InstallerView {
    pub mode: InstallerMode,
    pub config: ConfigView,
    pub side: SideType,
    pub installer_version: VersionView,
    pub state: StateView,
    pub stage: Stage,
    /// The position of the current item within its phase.
    pub cursor: nat,
    pub completed: nat,
    pub total: nat,
    /// The mods that were recorded when the update began.
    pub obsolete: Seq<ModStateView>,
    /// The manifest's mods that belong on this side.
    pub mods: Seq<ModEntryView>,
    /// The manifest's resources that belong on this side.
    pub resources: Seq<ResourceEntryView>,
    /// The migrations that the update applies.
    pub migrations: Seq<MigrationView>,
    /// The name of the file that was fetched last.
    pub pending: Seq<char>,
}

/// The download of the loader, which goes into the installation's root.
pub open spec fn loader_request(loader: ModLoaderView) -> RequestView {
    RequestView {
        url: loader.url,
        name: loader.name,
        hash: loader.hash,
        dir: Seq::empty(),
        decompress: false,
    }
}

/// The download of a mod, which goes into the directory of mods.
pub open spec fn mod_request(entry: ModEntryView) -> RequestView {
    RequestView {
        url: download_url(entry.source),
        name: entry.name,
        hash: entry.hash,
        dir: "mods"@,
        decompress: false,
    }
}

/// The download of a resource, which goes into its target directory.
pub open spec fn resource_request(entry: ResourceEntryView) -> RequestView {
    RequestView {
        url: download_url(entry.source),
        name: entry.name,
        hash: entry.hash,
        dir: entry.target_dir,
        decompress: entry.decompress,
    }
}

/// The download of a migration's archive, which is extracted over the
/// configuration directory.
pub open spec fn archive_request(url: Seq<char>, name: Seq<char>, hash: Seq<char>) -> RequestView {
    RequestView { url, name, hash, dir: "config"@, decompress: true }
}

/// Whether a mod has to be downloaded. A mod without a record has to. A mod
/// with a record is left alone by an installation; an update downloads it
/// again if the manifest asks for other content than was recorded.
pub open spec fn mod_needs_download(mode: InstallerMode, state: StateView, entry: ModEntryView) -> bool {
    match state.find_mod(entry.source) {
        None => true,
        Some(record) => mode == InstallerMode::Update && !record.equals(entry, false),
    }
}

/// Whether a resource has to be downloaded, by the rule for mods.
pub open spec fn resource_needs_download(
    mode: InstallerMode,
    state: StateView,
    entry: ResourceEntryView,
) -> bool {
    match state.find_resource(entry.source, entry.target_dir) {
        None => true,
        Some(record) => mode == InstallerMode::Update && !record.equals(entry),
    }
}

/// The record of a loader that was fetched under `file_name`.
pub open spec fn loader_record(loader: ModLoaderView, file_name: Seq<char>) -> ModLoaderStateView {
    ModLoaderStateView { file_name, url: loader.url, hash: loader.hash }
}

/// The record of a mod that was fetched under `file_name`.
pub open spec fn mod_record(entry: ModEntryView, file_name: Seq<char>) -> ModStateView {
    ModStateView { file_name, source: entry.source, hash: entry.hash }
}

/// The record of a resource that was fetched under `file_name`.
pub open spec fn resource_record(entry: ResourceEntryView, file_name: Seq<char>) -> ResourceStateView {
    ResourceStateView {
        file_name,
        source: entry.source,
        hash: entry.hash,
        target_dir: entry.target_dir,
        decompress: entry.decompress,
    }
}

/// The event that reports `completed` steps out of `total`.
pub open spec fn progress(completed: nat, total: nat) -> EventView {
    EventView::UpdateProgress(Progress { completed: completed as u128, total: total as u128 })
}

/// The event that alerts the user.
pub open spec fn alert(level: AlertLevel, translation_key: Seq<char>) -> EventView {
    EventView::AddAlert { level, translation_key }
}

/// Whether a run of `mode` goes through `phase` item by item.
pub open spec fn phase_in_mode(mode: InstallerMode, phase: Phase) -> bool {
    match phase {
        Phase::DownloadModLoader => mode == InstallerMode::Install,
        Phase::RemoveMods => mode == InstallerMode::Update,
        Phase::DownloadMods => true,
        Phase::DownloadResources => true,
        Phase::UpdateSettings => mode == InstallerMode::Update,
        Phase::AddProfile => false,
        Phase::LaunchModLoader => false,
    }
}

/// The phase that follows `phase` in a run of `mode`, if items remain to be
/// worked through.
pub open spec fn next_phase(mode: InstallerMode, phase: Phase) -> Option<Phase> {
    match phase {
        Phase::DownloadModLoader => Some(Phase::DownloadMods),
        Phase::RemoveMods => Some(Phase::DownloadMods),
        Phase::DownloadMods => Some(Phase::DownloadResources),
        Phase::DownloadResources => if mode == InstallerMode::Update {
            Some(Phase::UpdateSettings)
        } else {
            None
        },
        Phase::UpdateSettings => None,
        Phase::AddProfile => None,
        Phase::LaunchModLoader => None,
    }
}

impl InstallerView {
    /// How many items `phase` has.
    pub open spec fn phase_len(self, phase: Phase) -> nat {
        match phase {
            Phase::DownloadModLoader => 1,
            Phase::RemoveMods => self.obsolete.len(),
            Phase::DownloadMods => self.mods.len(),
            Phase::DownloadResources => self.resources.len(),
            Phase::UpdateSettings => self.migrations.len(),
            Phase::AddProfile => 0,
            Phase::LaunchModLoader => 0,
        }
    }

    /// How many steps lie before the first item of `phase`.
    pub open spec fn offset(self, phase: Phase) -> nat {
        let first: nat = if self.mode == InstallerMode::Install {
            1
        } else {
            self.obsolete.len()
        };
        match phase {
            Phase::DownloadModLoader => 0,
            Phase::RemoveMods => 0,
            Phase::DownloadMods => first,
            Phase::DownloadResources => first + self.mods.len(),
            _ => first + self.mods.len() + self.resources.len(),
        }
    }

    /// How many steps the run has.
    pub open spec fn plan_total(self) -> nat {
        let first: nat = if self.mode == InstallerMode::Install {
            1
        } else {
            self.obsolete.len()
        };
        first + self.mods.len() + self.resources.len() + self.migrations.len()
    }

    /// What the item under the cursor asks for.
    pub open spec fn demand(self, phase: Phase) -> DemandView {
        if self.cursor >= self.phase_len(phase) {
            DemandView::PhaseDone
        } else {
            let i = self.cursor as int;
            match phase {
                Phase::DownloadModLoader => if self.state.mod_loader is Some {
                    DemandView::Skip
                } else {
                    DemandView::Download(loader_request(self.config.mod_loader))
                },
                Phase::RemoveMods => if self.config.has_mod(self.obsolete[i].source) {
                    DemandView::Skip
                } else {
                    DemandView::Remove(self.obsolete[i].file_name)
                },
                Phase::DownloadMods => if mod_needs_download(self.mode, self.state, self.mods[i]) {
                    DemandView::Download(mod_request(self.mods[i]))
                } else {
                    DemandView::Skip
                },
                Phase::DownloadResources => if resource_needs_download(
                    self.mode,
                    self.state,
                    self.resources[i],
                ) {
                    DemandView::Download(resource_request(self.resources[i]))
                } else {
                    DemandView::Skip
                },
                Phase::UpdateSettings => match self.migrations[i].action {
                    MigrationActionView::ExtractArchive { url, name, hash } => DemandView::Download(
                        archive_request(url, name, hash),
                    ),
                    MigrationActionView::OverwriteConfigs { paths } => DemandView::Copy(paths),
                },
                Phase::AddProfile => DemandView::PhaseDone,
                Phase::LaunchModLoader => DemandView::PhaseDone,
            }
        }
    }

    /// The state once the file of the item under the cursor is in place.
    pub open spec fn recorded(self, phase: Phase) -> StateView {
        let i = self.cursor as int;
        match phase {
            Phase::DownloadModLoader => StateView {
                mod_loader: Some(loader_record(self.config.mod_loader, self.pending)),
                ..self.state
            },
            Phase::DownloadMods => self.state.add_mod(mod_record(self.mods[i], self.pending)),
            Phase::DownloadResources => self.state.add_resource(
                resource_record(self.resources[i], self.pending),
            ),
            _ => self.state,
        }
    }

    /// The state of a completed run: written by this installer, at the
    /// manifest's package version if the run was an update, and with no run
    /// in progress.
    pub open spec fn completed_state(self) -> StateView {
        StateView {
            installer_version: self.installer_version,
            pack_version: if self.mode == InstallerMode::Update {
                self.config.pack_version
            } else {
                self.state.pack_version
            },
            process_mode: None,
            ..self.state
        }
    }

    /// What always holds of an installer.
    pub open spec fn wf(self) -> bool {
        &&& self.config.accepted()
        &&& self.side != SideType::Both
        &&& self.mods == applicable_mods(self.config.mods, self.side)
        &&& self.resources == applicable_resources(self.config.resources, self.side)
        &&& self.completed <= self.total
        &&& match self.stage {
            Stage::SavingMode { retry } => (retry ==> self.mode == InstallerMode::Install)
                && self.completed == 0,
            Stage::Working { phase, step } => {
                &&& phase_in_mode(self.mode, phase)
                &&& self.cursor <= self.phase_len(phase)
                &&& self.completed == self.offset(phase) + self.cursor
                &&& step != Step::Ready ==> self.cursor < self.phase_len(phase)
                &&& step == Step::Fetching ==> self.demand(phase) is Download
                &&& step == Step::Delivering ==> phase != Phase::RemoveMods
                &&& step == Step::Removing ==> phase == Phase::RemoveMods
                &&& step == Step::Copying ==> phase == Phase::UpdateSettings
                &&& step == Step::Saving ==> phase != Phase::UpdateSettings
            },
            _ => true,
        }
        &&& self.stage is SavingMode || self.stage is Working ==> {
            &&& self.total == self.plan_total() || (self.stage matches Stage::SavingMode {
                retry,
            } && retry)
            &&& self.mode == InstallerMode::Install ==> self.obsolete.len() == 0
                && self.migrations.len() == 0
        }
    }
}

/// The outcome of a step: the installer afterwards, and the directive or
/// the error that ends the run.
pub struct Outcome {
    pub installer: InstallerView,
    pub result: Result<DirectiveView, ErrorView>,
}

/// The run goes on.
pub open spec fn go(installer: InstallerView, events: Seq<EventView>, work: WorkView) -> Outcome {
    Outcome { installer, result: Ok(DirectiveView { events, work }) }
}

/// The run ends in failure.
pub open spec fn fail(m: InstallerView, error: ErrorView) -> Outcome {
    Outcome { installer: InstallerView { stage: Stage::Failed, ..m }, result: Err(error) }
}

/// What a report that the installer was not waiting for leads to. A
/// failure that was reported ends the run with its reason.
pub open spec fn stray(m: InstallerView, report: ReportView) -> Outcome {
    match report {
        ReportView::Failed(reason) => fail(m, ErrorView::StepFailed { reason }),
        _ => fail(m, ErrorView::UnexpectedReport),
    }
}

/// The run is marked as complete, and the state is stored.
pub open spec fn finalize(m: InstallerView, events: Seq<EventView>) -> Outcome {
    go(
        InstallerView { state: m.completed_state(), stage: Stage::Finalizing, ..m },
        events,
        WorkView::Persist,
    )
}

/// What follows the last item. An installation goes on to register the
/// profile; an update is complete.
pub open spec fn tail(m: InstallerView) -> Outcome {
    if m.mode == InstallerMode::Install {
        go(
            InstallerView { stage: Stage::AddingProfile, ..m },
            seq![progress(1, 1), EventView::ChangePhase(Phase::AddProfile)],
            WorkView::AddProfile,
        )
    } else {
        finalize(m, seq![progress(1, 1)])
    }
}

/// What follows the attempt to register the profile, whose failure has been
/// turned into `events`: the loader is launched if the manifest says so.
pub open spec fn after_profile(m: InstallerView, events: Seq<EventView>) -> Outcome {
    if m.config.mod_loader.auto_open {
        go(
            InstallerView { stage: Stage::Launching, ..m },
            events.push(EventView::ChangePhase(Phase::LaunchModLoader)),
            WorkView::LaunchLoader,
        )
    } else {
        finalize(m, events)
    }
}

/// The installer takes up the stored state, or a fresh one when installing
/// for the first time, marks its run as in progress and has the state
/// stored.
pub open spec fn take_up(m: InstallerView, state: StateView, retry: bool) -> Outcome {
    let update = m.mode == InstallerMode::Update;
    let taken = InstallerView {
        state: StateView { process_mode: Some(m.mode), ..state },
        stage: Stage::SavingMode { retry },
        cursor: 0,
        completed: 0,
        obsolete: if update { state.mods } else { Seq::empty() },
        migrations: if update {
            fired(migration_rows(), state.pack_version, m.config.pack_version)
        } else {
            Seq::empty()
        },
        ..m
    };
    go(
        InstallerView { total: if retry { 0 } else { taken.plan_total() }, ..taken },
        Seq::empty(),
        WorkView::Persist,
    )
}

/// What the stored state leads to.
pub open spec fn on_state(m: InstallerView, found: Option<StateView>) -> Outcome {
    if m.mode == InstallerMode::Install {
        match found {
            None => take_up(m, fresh_state(m.installer_version, m.config.pack_version), false),
            Some(state) => match install_verdict(state) {
                Ok(_) => take_up(m, state, state.process_mode is None),
                Err(e) => fail(m, e),
            },
        }
    } else {
        match update_verdict(m.config, found) {
            Ok(_) => take_up(m, found->0, false),
            Err(e) => fail(m, e),
        }
    }
}

/// The first phase begins, unless the stored state showed no run in
/// progress: such an installation has all its files and goes on to
/// register the profile.
pub open spec fn enter(m: InstallerView, retry: bool) -> Outcome {
    if m.mode == InstallerMode::Install {
        if retry {
            tail(m)
        } else {
            go(
                InstallerView {
                    stage: Stage::Working { phase: Phase::DownloadModLoader, step: Step::Ready },
                    cursor: 0,
                    ..m
                },
                seq![EventView::ChangePhase(Phase::DownloadModLoader)],
                WorkView::Nothing,
            )
        }
    } else {
        go(
            InstallerView {
                stage: Stage::Working { phase: Phase::RemoveMods, step: Step::Ready },
                cursor: 0,
                ..m
            },
            seq![EventView::ChangePhase(Phase::RemoveMods)],
            WorkView::Nothing,
        )
    }
}

/// The installer with the item under the cursor behind it.
pub open spec fn passed(m: InstallerView, phase: Phase) -> InstallerView {
    InstallerView {
        stage: Stage::Working { phase, step: Step::Ready },
        cursor: m.cursor + 1,
        completed: m.completed + 1,
        ..m
    }
}

/// The installer turns to the item under the cursor.
pub open spec fn on_ready(m: InstallerView, phase: Phase) -> Outcome {
    match m.demand(phase) {
        DemandView::PhaseDone => match next_phase(m.mode, phase) {
            Some(next) => go(
                InstallerView {
                    stage: Stage::Working { phase: next, step: Step::Ready },
                    cursor: 0,
                    ..m
                },
                seq![EventView::ChangePhase(next)],
                WorkView::Nothing,
            ),
            None => tail(m),
        },
        DemandView::Skip => go(
            passed(m, phase),
            seq![progress(m.completed + 1, m.total)],
            WorkView::Nothing,
        ),
        DemandView::Download(request) => go(
            InstallerView { stage: Stage::Working { phase, step: Step::Fetching }, ..m },
            seq![EventView::ChangeDetail(request.name)],
            WorkView::Fetch { url: request.url, name: request.name },
        ),
        DemandView::Remove(file_name) => go(
            InstallerView { stage: Stage::Working { phase, step: Step::Removing }, ..m },
            Seq::empty(),
            WorkView::RemoveMod { file_name },
        ),
        DemandView::Copy(paths) => go(
            InstallerView { stage: Stage::Working { phase, step: Step::Copying }, ..m },
            Seq::empty(),
            WorkView::OverwriteConfigs { paths },
        ),
    }
}

/// A download has succeeded. The file is brought to its place only if its
/// hash is the expected one; otherwise the run ends.
pub open spec fn on_fetched(
    m: InstallerView,
    phase: Phase,
    file_name: Seq<char>,
    hash: Seq<char>,
) -> Outcome {
    match m.demand(phase) {
        DemandView::Download(request) => match hash_verdict(request.hash, hash, file_name) {
            Ok(_) => go(
                InstallerView {
                    stage: Stage::Working { phase, step: Step::Delivering },
                    pending: file_name,
                    ..m
                },
                Seq::empty(),
                WorkView::Deliver { file_name, dir: request.dir, decompress: request.decompress },
            ),
            Err(e) => fail(m, e),
        },
        _ => fail(m, ErrorView::UnexpectedReport),
    }
}

/// A file is in its place. It is recorded and the state stored; the archive
/// of a migration leaves no record.
pub open spec fn on_delivered(m: InstallerView, phase: Phase) -> Outcome {
    if phase == Phase::UpdateSettings {
        go(
            passed(m, phase),
            seq![progress(m.completed + 1, m.total), progress(m.completed + 1, m.total)],
            WorkView::Nothing,
        )
    } else {
        go(
            InstallerView {
                state: m.recorded(phase),
                stage: Stage::Working { phase, step: Step::Saving },
                ..m
            },
            seq![progress(m.completed + 1, m.total)],
            WorkView::Persist,
        )
    }
}

/// The file of an obsolete mod is gone. Its record is removed and the state
/// stored.
pub open spec fn on_removed(m: InstallerView, phase: Phase) -> Outcome {
    go(
        InstallerView {
            state: m.state.remove_mod(m.obsolete[m.cursor as int].source),
            stage: Stage::Working { phase, step: Step::Saving },
            ..m
        },
        Seq::empty(),
        WorkView::Persist,
    )
}

/// One step while the items of `phase` are worked through.
pub open spec fn work_step(m: InstallerView, phase: Phase, step: Step, report: ReportView) -> Outcome {
    match (step, report) {
        (Step::Ready, ReportView::Done) => on_ready(m, phase),
        (Step::Fetching, ReportView::Fetched(outcome)) => on_fetched(
            m,
            phase,
            outcome.file_name,
            outcome.hash,
        ),
        (Step::Delivering, ReportView::Done) => on_delivered(m, phase),
        (Step::Removing, ReportView::Done) => on_removed(m, phase),
        (Step::Copying, ReportView::Done) => go(
            passed(m, phase),
            seq![progress(m.completed + 1, m.total)],
            WorkView::Nothing,
        ),
        (Step::Saving, ReportView::Done) => go(
            passed(m, phase),
            seq![progress(m.completed + 1, m.total)],
            WorkView::Nothing,
        ),
        _ => stray(m, report),
    }
}

/// One step of the installer: what it becomes and what it asks for when its
/// driver reports how the last work went.
///
/// A run clears the scratch directory, takes up the stored state, marks
/// itself as in progress, and works through its phases item by item; the
/// state is stored after every change. A failure that is reported ends the
/// run, except that of registering the profile and of launching the loader,
/// which only alert the user.
pub open spec fn step(m: InstallerView, report: ReportView) -> Outcome {
    match m.stage {
        Stage::Created => match report {
            ReportView::Done => go(
                InstallerView { stage: Stage::ClearingScratch, ..m },
                seq![progress(0, 1)],
                WorkView::ClearScratch,
            ),
            _ => stray(m, report),
        },
        Stage::ClearingScratch => match report {
            ReportView::Done => go(
                InstallerView { stage: Stage::LoadingState, ..m },
                Seq::empty(),
                WorkView::LoadState,
            ),
            _ => stray(m, report),
        },
        Stage::LoadingState => match report {
            ReportView::State(found) => on_state(m, found),
            _ => stray(m, report),
        },
        Stage::SavingMode { retry } => match report {
            ReportView::Done => enter(m, retry),
            _ => stray(m, report),
        },
        Stage::Working { phase, step } => work_step(m, phase, step, report),
        Stage::AddingProfile => match report {
            ReportView::Done => after_profile(m, Seq::empty()),
            ReportView::Failed(_) => after_profile(
                m,
                seq![alert(AlertLevel::Warning, "alertOnFailedAddProfile"@)],
            ),
            _ => stray(m, report),
        },
        Stage::Launching => match report {
            ReportView::Done => finalize(
                m,
                seq![alert(AlertLevel::Info, "alertOnLaunchModLoader"@)],
            ),
            ReportView::Failed(_) => finalize(
                m,
                seq![alert(AlertLevel::Warning, "alertOnFailedLaunchModLoader"@)],
            ),
            _ => stray(m, report),
        },
        Stage::Finalizing => match report {
            ReportView::Done => go(
                InstallerView { stage: Stage::Finished, ..m },
                Seq::empty(),
                WorkView::Finish,
            ),
            _ => stray(m, report),
        },
        Stage::Finished => Outcome { installer: m, result: Err(ErrorView::UnexpectedReport) },
        Stage::Failed => Outcome { installer: m, result: Err(ErrorView::UnexpectedReport) },
    }
}

/// A step leaves an installer as it should be.
pub proof fn lemma_step_wf(m: InstallerView, report: ReportView)
    requires
        m.wf(),
    ensures
        step(m, report).installer.wf(),
{
}

} // verus!
