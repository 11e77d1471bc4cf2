//! What the graphical shell is told: which modes are open, and whether the
//! mode it chose may run.

use vstd::prelude::*;
use crate::config::ModPackConfig;
use crate::installer::{
    can_install_verdict, error_text, state_view, update_verdict, Installer, InstallerMode,
};
use crate::state::InstallerState;

verus! {

/// Which modes the title screen offers.
#[derive(Debug, Clone, Copy, PartialEq, Eq, Structural)]
pub struct TitleStatus {
    pub can_install: bool,
    pub can_update: bool,
}

/// Whether the chosen mode may run, and if not, why.
#[derive(Debug, PartialEq, Eq)]
pub struct ModeResult {
    pub is_accept: bool,
    pub error: Option<String>,
}

/// The mathematical value of a [`ModeResult`].
pub struct ModeResultView {
    pub is_accept: bool,
    pub error: Option<Seq<char>>,
}

impl View for ModeResult {
    type V = ModeResultView;

    open spec fn view(&self) -> ModeResultView {
        ModeResultView {
            is_accept: self.is_accept,
            error: match self.error {
                Some(text) => Some(text@),
                None => None,
            },
        }
    }
}

/// Which modes are open. An installation needs a manifest file; an update
/// needs a manifest that could be read and a stored state that allows it.
pub fn initialize_title(
    config_present: bool,
    config: Option<&ModPackConfig>,
    state: Option<&InstallerState>,
) -> (r: TitleStatus)
    ensures
        r.can_install == can_install_verdict(config_present, state_view(state)) is Ok,
        r.can_update == (config is Some && update_verdict(config->0@, state_view(state)) is Ok),
{
    let can_install = Installer::can_install(config_present, state).is_ok();
    let can_update = match config {
        Some(c) => Installer::can_update(c, state).is_ok(),
        None => false,
    };
    TitleStatus { can_install, can_update }
}

/// What the shell is told of a check: the mode is accepted, or it is
/// refused with the error's text.
pub open spec fn mode_result(check: Result<(), crate::installer::ErrorView>) -> ModeResultView {
    match check {
        Ok(_) => ModeResultView { is_accept: true, error: None },
        Err(e) => ModeResultView { is_accept: false, error: Some(error_text(e)) },
    }
}

/// Whether the chosen mode may run. `config` is the manifest, if it could
/// be read; `config_present` says whether there is a manifest file at all.
/// A mode is refused with the text of the error that forbids it. An update
/// without a manifest that could be read is not decided here.
pub fn select_mode(
    mode: InstallerMode,
    config_present: bool,
    config: Option<&ModPackConfig>,
    state: Option<&InstallerState>,
) -> (r: Option<ModeResult>)
    ensures
        mode == InstallerMode::Install ==> r is Some && r->0@ == mode_result(
            can_install_verdict(config_present, state_view(state)),
        ),
        mode == InstallerMode::Update ==> match config {
            Some(c) => r is Some && r->0@ == mode_result(update_verdict(c@, state_view(state))),
            None => r is None,
        },
{
    let check = match mode {
        InstallerMode::Install => Installer::can_install(config_present, state),
        InstallerMode::Update => match config {
            Some(c) => Installer::can_update(c, state),
            None => {
                return None;
            },
        },
    };
    match check {
        Ok(_) => Some(ModeResult { is_accept: true, error: None }),
        Err(e) => Some(ModeResult { is_accept: false, error: Some(e.message()) }),
    }
}

/// Claims the right to run: only one run may be under way at a time. A
/// second claim is refused until the first is released.
pub fn claim_run(is_running: &mut bool) -> (r: Result<(), String>)
    ensures
        *final(is_running),
        match r {
            Ok(_) => !*old(is_running),
            Err(text) => *old(is_running) && text@ == "Installer is already running"@,
        },
{
    if *is_running {
        return Err(String::from_str("Installer is already running"));
    }
    *is_running = true;
    Ok(())
}

/// Gives up the right to run.
pub fn release_run(is_running: &mut bool)
    ensures
        !*final(is_running),
{
    *is_running = false;
}

} // verus!
