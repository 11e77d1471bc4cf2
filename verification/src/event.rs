//! What passes between the installer and its driver: the work that the
//! installer asks for, the reports it gets back, and the events it has the
//! driver announce.

use vstd::prelude::*;
use crate::config::views;
use crate::downloader::{DownloadOutcome, OutcomeView};
use crate::state::{InstallerState, StateView};

verus! {

/// The phases of a run, as they are announced.
#[derive(Debug, Clone, Copy, PartialEq, Eq, Structural)]
pub enum Phase {
    DownloadModLoader,
    RemoveMods,
    DownloadMods,
    DownloadResources,
    UpdateSettings,
    AddProfile,
    LaunchModLoader,
}

/// How serious an alert is.
#[derive(Debug, Clone, Copy, PartialEq, Eq, Structural)]
pub enum AlertLevel {
    Info,
    Warning,
}

/// Progress as a fraction: `completed` out of `total`.
#[derive(Debug, Clone, Copy, PartialEq, Eq, Structural)]
pub struct Progress {
    pub completed: u128,
    pub total: u128,
}

/// Something for the driver to announce.
#[derive(Debug, PartialEq, Eq)]
pub enum InstallerEvent {
    ChangePhase(Phase),
    /// The item that is being worked on.
    ChangeDetail(String),
    UpdateProgress(Progress),
    /// A message for the user, named by its translation key.
    AddAlert { level: AlertLevel, translation_key: String },
}

/// The mathematical value of an [`InstallerEvent`].
pub enum EventView {
    ChangePhase(Phase),
    ChangeDetail(Seq<char>),
    UpdateProgress(Progress),
    AddAlert { level: AlertLevel, translation_key: Seq<char> },
}

impl View for InstallerEvent {
    type V = EventView;

    open spec fn view(&self) -> EventView {
        match self {
            InstallerEvent::ChangePhase(phase) => EventView::ChangePhase(*phase),
            InstallerEvent::ChangeDetail(detail) => EventView::ChangeDetail(detail@),
            InstallerEvent::UpdateProgress(progress) => EventView::UpdateProgress(*progress),
            InstallerEvent::AddAlert { level, translation_key } => EventView::AddAlert {
                level: *level,
                translation_key: translation_key@,
            },
        }
    }
}

/// Work that the installer asks its driver to do. Directories are relative
/// to the installation's root; an empty directory is the root itself.
#[derive(Debug, PartialEq, Eq)]
pub enum Work {
    /// Nothing: report back at once.
    Nothing,
    /// Empty the scratch directory, creating it if need be.
    ClearScratch,
    /// Read the stored state, if there is one, and report it.
    LoadState,
    /// Store the installer's state durably.
    Persist,
    /// Download `url` into the scratch directory and report the file's name
    /// and the hash of its content.
    Fetch { url: String, name: String },
    /// Bring a fetched file to its place: extract it into `dir` and delete
    /// it if `decompress` is set, move it into `dir` otherwise.
    Deliver { file_name: String, dir: String, decompress: bool },
    /// Delete a file from the directory of mods. A file that is not there
    /// is no failure.
    RemoveMod { file_name: String },
    /// Copy the defaults of configuration files over the files in use, in
    /// the order given; the first failure ends the work.
    OverwriteConfigs { paths: Vec<String> },
    /// Register the profile with the launcher.
    AddProfile,
    /// Start the loader's own installer.
    LaunchLoader,
    /// The run is complete.
    Finish,
}

/// The mathematical value of a [`Work`].
pub enum WorkView {
    Nothing,
    ClearScratch,
    LoadState,
    Persist,
    Fetch { url: Seq<char>, name: Seq<char> },
    Deliver { file_name: Seq<char>, dir: Seq<char>, decompress: bool },
    RemoveMod { file_name: Seq<char> },
    OverwriteConfigs { paths: Seq<Seq<char>> },
    AddProfile,
    LaunchLoader,
    Finish,
}

impl View for Work {
    type V = WorkView;

    open spec fn view(&self) -> WorkView {
        match self {
            Work::Nothing => WorkView::Nothing,
            Work::ClearScratch => WorkView::ClearScratch,
            Work::LoadState => WorkView::LoadState,
            Work::Persist => WorkView::Persist,
            Work::Fetch { url, name } => WorkView::Fetch { url: url@, name: name@ },
            Work::Deliver { file_name, dir, decompress } => WorkView::Deliver {
                file_name: file_name@,
                dir: dir@,
                decompress: *decompress,
            },
            Work::RemoveMod { file_name } => WorkView::RemoveMod { file_name: file_name@ },
            Work::OverwriteConfigs { paths } => WorkView::OverwriteConfigs { paths: views(paths@) },
            Work::AddProfile => WorkView::AddProfile,
            Work::LaunchLoader => WorkView::LaunchLoader,
            Work::Finish => WorkView::Finish,
        }
    }
}

/// What the driver is to do next: announce the events in order, then do the
/// work and report how it went.
#[derive(Debug, PartialEq, Eq)]
pub struct Directive {
    pub events: Vec<InstallerEvent>,
    pub work: Work,
}

/// The mathematical value of a [`Directive`].
pub struct DirectiveView {
    pub events: Seq<EventView>,
    pub work: WorkView,
}

impl View for Directive {
    type V = DirectiveView;

    open spec fn view(&self) -> DirectiveView {
        DirectiveView { events: views(self.events@), work: self.work@ }
    }
}

/// How the work of the last directive went.
#[derive(Debug, PartialEq, Eq)]
pub enum Report {
    /// The work was done.
    Done,
    /// The stored state, or none if there is no state yet.
    State(Option<InstallerState>),
    /// The download succeeded.
    Fetched(DownloadOutcome),
    /// The work failed, for the reason given.
    Failed(String),
}

/// The mathematical value of a [`Report`].
pub enum ReportView {
    Done,
    State(Option<StateView>),
    Fetched(OutcomeView),
    Failed(Seq<char>),
}

impl View for Report {
    type V = ReportView;

    open spec fn view(&self) -> ReportView {
        match self {
            Report::Done => ReportView::Done,
            Report::State(found) => ReportView::State(
                match found {
                    Some(state) => Some(state@),
                    None => None,
                },
            ),
            Report::Fetched(outcome) => ReportView::Fetched(outcome@),
            Report::Failed(reason) => ReportView::Failed(reason@),
        }
    }
}

} // verus!
