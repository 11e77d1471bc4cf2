//! A run as a whole: the installer together with a driver that does what it
//! is asked and meets no failure.

use vstd::prelude::*;
use crate::config::{ConfigView, ModEntryView, ResourceEntryView, SideType};
use crate::downloader::OutcomeView;
use crate::event::{Phase, ReportView};
use crate::installer::{initial, install_verdict, update_verdict, InstallerMode};
use crate::laws::{
    completed, download_pass, install_result, item_done, item_needs, item_request,
    consistent, law_install_resumed, law_install_twice, law_needed_item_is_recorded,
    law_obsolete_mod_is_removed, law_settled_item_is_passed, law_update_resumed_in_download,
    law_update_resumed_in_removal, lemma_pass_keeps_mode, lemma_removal_keeps, planned_items,
    removal_item, removal_pass, taken_up, update_result, ItemView,
};
use crate::migration::MigrationActionView;
use crate::protocol::{
    archive_request, lemma_step_wf, passed, step, DemandView, InstallerView, Stage, Step,
};
use crate::state::{ModStateView, StateView};
use crate::text::ascii_case_eq;

verus! {

/// What a driver meets: the state that is stored when the run begins, what
/// a download of an address yields, and whether the profile can be
/// registered and the loader launched.
pub struct World {
    pub stored: Option<StateView>,
    pub fetch: spec_fn(Seq<char>) -> OutcomeView,
    pub profile_added: bool,
    pub loader_launched: bool,
}

/// What a driver that meets no failure reports when the installer stands
/// as `m`: that the work was done, or what it found.
pub open spec fn response(m: InstallerView, w: World) -> ReportView {
    match m.stage {
        Stage::LoadingState => ReportView::State(w.stored),
        Stage::Working { phase, step: Step::Fetching } => match m.demand(phase) {
            DemandView::Download(request) => ReportView::Fetched((w.fetch)(request.url)),
            _ => ReportView::Done,
        },
        Stage::AddingProfile => if w.profile_added {
            ReportView::Done
        } else {
            ReportView::Failed(Seq::empty())
        },
        Stage::Launching => if w.loader_launched {
            ReportView::Done
        } else {
            ReportView::Failed(Seq::empty())
        },
        _ => ReportView::Done,
    }
}

/// The installer after `steps` steps with such a driver.
#[verifier::opaque]
pub open spec fn drive(m: InstallerView, w: World, steps: nat) -> InstallerView
    decreases steps,
{
    if steps == 0 {
        m
    } else {
        drive(step(m, response(m, w)).installer, w, (steps - 1) as nat)
    }
}

/// Steps add up.
pub proof fn lemma_drive_add(m: InstallerView, w: World, a: nat, b: nat)
    ensures
        drive(m, w, a + b) == drive(drive(m, w, a), w, b),
    decreases a,
{
    reveal_with_fuel(drive, 2);
    if a > 0 {
        lemma_drive_add(step(m, response(m, w)).installer, w, (a - 1) as nat, b);
        assert((a + b - 1) as nat == (a - 1) as nat + b);
    }
}

/// Every step leaves the installer as it should be.
pub proof fn lemma_drive_wf(m: InstallerView, w: World, steps: nat)
    requires
        m.wf(),
    ensures
        drive(m, w, steps).wf(),
    decreases steps,
{
    reveal_with_fuel(drive, 2);
    if steps > 0 {
        lemma_step_wf(m, response(m, w));
        lemma_drive_wf(step(m, response(m, w)).installer, w, (steps - 1) as nat);
    }
}

/// The download of an item yields a file with the hash that the manifest
/// asks for.
pub open spec fn fetches_well(w: World, item: ItemView) -> bool {
    ascii_case_eq(item_request(item).hash, (w.fetch)(item_request(item).url).hash)
}

/// The names under which the items are fetched.
pub open spec fn names_of(w: World, items: Seq<ItemView>) -> Seq<Seq<char>> {
    items.map_values(|item: ItemView| (w.fetch)(item_request(item).url).file_name)
}

/// The items of a phase that downloads and records.
pub open spec fn phase_items(m: InstallerView, phase: Phase) -> Seq<ItemView> {
    match phase {
        Phase::DownloadMods => m.mods.map_values(|e: ModEntryView| ItemView::Mod(e)),
        Phase::DownloadResources => m.resources.map_values(
            |e: ResourceEntryView| ItemView::Resource(e),
        ),
        _ => seq![ItemView::Loader(m.config.mod_loader)],
    }
}

/// Two installers are of the same run and stand in the same phase, ready
/// for an item.
pub open spec fn same_phase(a: InstallerView, b: InstallerView, phase: Phase) -> bool {
    &&& b.stage == (Stage::Working { phase, step: Step::Ready })
    &&& a.stage == b.stage
    &&& a.mode == b.mode
    &&& a.config == b.config
    &&& a.side == b.side
    &&& a.installer_version == b.installer_version
    &&& a.total == b.total
    &&& a.obsolete == b.obsolete
    &&& a.mods == b.mods
    &&& a.resources == b.resources
    &&& a.migrations == b.migrations
}

/// The item under the cursor of a phase that downloads and records is
/// worked through in one step or in four, and the state is then what
/// [`item_done`] says.
pub proof fn lemma_drive_item(m: InstallerView, w: World, phase: Phase) -> (steps: nat)
    requires
        m.wf(),
        m.stage == (Stage::Working { phase, step: Step::Ready }),
        phase == Phase::DownloadModLoader || phase == Phase::DownloadMods || phase
            == Phase::DownloadResources,
        m.cursor < m.phase_len(phase),
        fetches_well(w, crate::laws::item_at(m, phase)),
    ensures
        same_phase(drive(m, w, steps), m, phase),
        drive(m, w, steps).cursor == m.cursor + 1,
        drive(m, w, steps).state == item_done(
            m.mode,
            m.state,
            crate::laws::item_at(m, phase),
            (w.fetch)(item_request(crate::laws::item_at(m, phase)).url).file_name,
        ),
{
    let item = crate::laws::item_at(m, phase);
    if item_needs(m.mode, m.state, item) {
        let fetched = (w.fetch)(item_request(item).url);
        law_needed_item_is_recorded(m, phase, fetched);
        let asked = step(m, ReportView::Done);
        let checked = step(asked.installer, ReportView::Fetched(fetched));
        let placed = step(checked.installer, ReportView::Done);
        let stored = step(placed.installer, ReportView::Done);
        assert(response(m, w) == ReportView::Done);
        assert(response(asked.installer, w) == ReportView::Fetched(fetched));
        assert(response(checked.installer, w) == ReportView::Done);
        assert(response(placed.installer, w) == ReportView::Done);
        assert(drive(m, w, 4) == stored.installer) by {
            reveal_with_fuel(drive, 5);
        }
        4
    } else {
        law_settled_item_is_passed(m, phase);
        assert(response(m, w) == ReportView::Done);
        assert(drive(m, w, 1) == passed(m, phase)) by {
            reveal_with_fuel(drive, 2);
        }
        1
    }
}

/// The first `j` items of a phase that downloads and records are worked
/// through in some number of steps, and the state is then what
/// [`download_pass`] says of them.
pub proof fn lemma_drive_items(m: InstallerView, w: World, phase: Phase, j: nat) -> (steps: nat)
    requires
        m.wf(),
        m.stage == (Stage::Working { phase, step: Step::Ready }),
        phase == Phase::DownloadModLoader || phase == Phase::DownloadMods || phase
            == Phase::DownloadResources,
        m.cursor == 0,
        j <= m.phase_len(phase),
        forall|i: int|
            0 <= i < phase_items(m, phase).len() ==> fetches_well(
                w,
                #[trigger] phase_items(m, phase)[i],
            ),
    ensures
        drive(m, w, steps).wf(),
        same_phase(drive(m, w, steps), m, phase),
        drive(m, w, steps).cursor == j,
        drive(m, w, steps).state == download_pass(
            m.mode,
            m.state,
            phase_items(m, phase).take(j as int),
            names_of(w, phase_items(m, phase)).take(j as int),
        ),
    decreases j,
{
    let items = phase_items(m, phase);
    let names = names_of(w, items);
    assert(items.len() == m.phase_len(phase));
    if j == 0 {
        assert(items.take(0) =~= Seq::<ItemView>::empty());
        assert(drive(m, w, 0) == m) by {
            reveal_with_fuel(drive, 1);
        }
        0
    } else {
        let before = lemma_drive_items(m, w, phase, (j - 1) as nat);
        let at = drive(m, w, before);
        let item = items[j - 1];
        assert(items.take(j as int).drop_last() =~= items.take(j - 1));
        assert(names.take(j as int).drop_last() =~= names.take(j - 1));
        assert(items.take(j as int).last() == item);
        assert(names.take(j as int).last() == (w.fetch)(item_request(item).url).file_name);
        assert(crate::laws::item_at(at, phase) == item);
        assert(at.phase_len(phase) == m.phase_len(phase));
        let more = lemma_drive_item(at, w, phase);
        lemma_drive_add(m, w, before, more);
        lemma_drive_wf(m, w, before + more);
        before + more
    }
}

/// Steps for two lists of items, one after the other, are the steps for
/// the two lists joined.
pub proof fn lemma_pass_joined(
    mode: InstallerMode,
    state: StateView,
    a: Seq<ItemView>,
    names_a: Seq<Seq<char>>,
    b: Seq<ItemView>,
    names_b: Seq<Seq<char>>,
)
    requires
        names_a.len() == a.len(),
        names_b.len() == b.len(),
    ensures
        download_pass(mode, state, a + b, names_a + names_b) == download_pass(
            mode,
            download_pass(mode, state, a, names_a),
            b,
            names_b,
        ),
    decreases b.len(),
{
    if b.len() == 0 {
        assert(a + b =~= a);
        assert(names_a + names_b =~= names_a);
    } else {
        lemma_pass_joined(mode, state, a, names_a, b.drop_last(), names_b.drop_last());
        assert((a + b).drop_last() =~= a + b.drop_last());
        assert((names_a + names_b).drop_last() =~= names_a + names_b.drop_last());
        assert((a + b).last() == b.last());
        assert((names_a + names_b).last() == names_b.last());
    }
}

/// When a phase has no further item, one step leads to the next phase, if
/// there is one.
pub proof fn lemma_drive_phase_done(m: InstallerView, w: World, phase: Phase, next: Phase)
    requires
        m.wf(),
        m.stage == (Stage::Working { phase, step: Step::Ready }),
        m.cursor == m.phase_len(phase),
        crate::protocol::next_phase(m.mode, phase) == Some(next),
    ensures
        drive(m, w, 1) == (InstallerView {
            stage: Stage::Working { phase: next, step: Step::Ready },
            cursor: 0,
            ..m
        }),
        drive(m, w, 1).wf(),
{
    reveal_with_fuel(drive, 2);
    lemma_step_wf(m, response(m, w));
}

/// The end of a run: once the state of a completed run is being stored,
/// one step finishes the run.
pub proof fn lemma_drive_finalizing(m: InstallerView, w: World)
    requires
        m.stage == Stage::Finalizing,
    ensures
        drive(m, w, 1) == (InstallerView { stage: Stage::Finished, ..m }),
{
    reveal_with_fuel(drive, 2);
}

/// The end of an installation: from the registration of the profile the
/// run is finished in two or three steps, whether or not the profile can
/// be registered and the loader launched, and the state is the state of a
/// completed run.
pub proof fn lemma_drive_install_tail(m: InstallerView, w: World) -> (steps: nat)
    requires
        m.stage == Stage::AddingProfile,
    ensures
        drive(m, w, steps).stage == Stage::Finished,
        drive(m, w, steps).state == m.completed_state(),
{
    let next = step(m, response(m, w)).installer;
    if m.config.mod_loader.auto_open {
        let last = step(next, response(next, w)).installer;
        lemma_drive_finalizing(last, w);
        assert(drive(m, w, 2) == last) by {
            reveal_with_fuel(drive, 3);
        }
        lemma_drive_add(m, w, 2, 1);
        3
    } else {
        lemma_drive_finalizing(next, w);
        assert(drive(m, w, 1) == next) by {
            reveal_with_fuel(drive, 2);
        }
        lemma_drive_add(m, w, 1, 1);
        2
    }
}

/// The beginning of a run: four steps clear the scratch directory, take up
/// the stored state and store it with the run's mark, and enter the first
/// phase.
pub proof fn lemma_drive_begin(
    mode: InstallerMode,
    config: ConfigView,
    side: SideType,
    version: crate::version::VersionView,
    w: World,
)
    requires
        config.accepted(),
        side != SideType::Both,
        mode == InstallerMode::Install ==> (w.stored matches Some(s) ==> install_verdict(s) is Ok),
        mode == InstallerMode::Update ==> update_verdict(config, w.stored) is Ok,
        !(mode == InstallerMode::Install && w.stored is Some && w.stored->0.process_mode is None),
    ensures
        ({
            let m = drive(initial(mode, config, side, version), w, 4);
            let first = if mode == InstallerMode::Install {
                Phase::DownloadModLoader
            } else {
                Phase::RemoveMods
            };
            &&& m.wf()
            &&& m.stage == (Stage::Working { phase: first, step: Step::Ready })
            &&& m.cursor == 0
            &&& m.mode == mode
            &&& m.config == config
            &&& m.side == side
            &&& m.installer_version == version
            &&& m.state == taken_up(mode, config, version, w.stored)
            &&& mode == InstallerMode::Update ==> m.obsolete == w.stored->0.mods
            &&& mode == InstallerMode::Update ==> m.migrations == crate::migration::fired(
                crate::migration::migration_rows(),
                w.stored->0.pack_version,
                config.pack_version,
            )
        }),
{
    let m0 = initial(mode, config, side, version);
    assert(m0.wf());
    let m1 = step(m0, response(m0, w)).installer;
    assert(m1 == InstallerView { stage: Stage::ClearingScratch, ..m0 });
    let m2 = step(m1, response(m1, w)).installer;
    assert(m2 == InstallerView { stage: Stage::LoadingState, ..m0 });
    assert(response(m2, w) == ReportView::State(w.stored));
    let start = match w.stored {
        Some(s) => s,
        None => crate::state::fresh_state(version, config.pack_version),
    };
    let m3 = step(m2, response(m2, w)).installer;
    assert(m3 == crate::protocol::take_up(m2, start, false).installer);
    lemma_step_wf(m2, response(m2, w));
    let m4 = step(m3, response(m3, w)).installer;
    assert(m4 == crate::protocol::enter(m3, false).installer);
    lemma_step_wf(m3, response(m3, w));
    assert(drive(m0, w, 4) == m4) by {
        reveal_with_fuel(drive, 5);
    }
}

/// An installation on a stored state that shows no run in progress is
/// finished without a download: it goes straight on to register the
/// profile.
pub proof fn lemma_drive_retry(
    config: ConfigView,
    side: SideType,
    version: crate::version::VersionView,
    w: World,
)
    requires
        config.accepted(),
        side != SideType::Both,
        w.stored is Some,
        w.stored->0.process_mode is None,
    ensures
        ({
            let m = drive(initial(InstallerMode::Install, config, side, version), w, 4);
            &&& m.stage == Stage::AddingProfile
            &&& m.mode == InstallerMode::Install
            &&& m.config == config
            &&& m.installer_version == version
            &&& m.state == taken_up(InstallerMode::Install, config, version, w.stored)
        }),
{
    let m0 = initial(InstallerMode::Install, config, side, version);
    let m1 = step(m0, response(m0, w)).installer;
    let m2 = step(m1, response(m1, w)).installer;
    let m3 = step(m2, response(m2, w)).installer;
    let m4 = step(m3, response(m3, w)).installer;
    assert(drive(m0, w, 4) == m4) by {
        reveal_with_fuel(drive, 5);
    }
}

/// When the last phase of an installation has no further item, one step
/// leads to the registration of the profile.
pub proof fn lemma_drive_downloads_done(m: InstallerView, w: World)
    requires
        m.wf(),
        m.mode == InstallerMode::Install,
        m.stage == (Stage::Working { phase: Phase::DownloadResources, step: Step::Ready }),
        m.cursor == m.resources.len(),
    ensures
        drive(m, w, 1) == (InstallerView { stage: Stage::AddingProfile, ..m }),
{
    reveal_with_fuel(drive, 2);
}

/// The mods and then the resources of a run are worked through in some
/// number of steps, and the state is then what [`download_pass`] says of
/// them.
pub proof fn lemma_drive_mods_and_resources(m: InstallerView, w: World) -> (steps: nat)
    requires
        m.wf(),
        m.stage == (Stage::Working { phase: Phase::DownloadMods, step: Step::Ready }),
        m.cursor == 0,
        forall|i: int|
            0 <= i < phase_items(m, Phase::DownloadMods).len() ==> fetches_well(
                w,
                #[trigger] phase_items(m, Phase::DownloadMods)[i],
            ),
        forall|i: int|
            0 <= i < phase_items(m, Phase::DownloadResources).len() ==> fetches_well(
                w,
                #[trigger] phase_items(m, Phase::DownloadResources)[i],
            ),
    ensures
        drive(m, w, steps).wf(),
        same_phase(
            drive(m, w, steps),
            InstallerView {
                stage: Stage::Working { phase: Phase::DownloadResources, step: Step::Ready },
                ..m
            },
            Phase::DownloadResources,
        ),
        drive(m, w, steps).cursor == m.resources.len(),
        drive(m, w, steps).state == download_pass(
            m.mode,
            m.state,
            phase_items(m, Phase::DownloadMods) + phase_items(m, Phase::DownloadResources),
            names_of(
                w,
                phase_items(m, Phase::DownloadMods) + phase_items(m, Phase::DownloadResources),
            ),
        ),
{
    let mods = phase_items(m, Phase::DownloadMods);
    let resources = phase_items(m, Phase::DownloadResources);
    let k1 = lemma_drive_items(m, w, Phase::DownloadMods, m.mods.len());
    let a = drive(m, w, k1);
    assert(mods.take(m.mods.len() as int) =~= mods);
    assert(names_of(w, mods).take(m.mods.len() as int) =~= names_of(w, mods));
    lemma_drive_phase_done(a, w, Phase::DownloadMods, Phase::DownloadResources);
    let b = drive(a, w, 1);
    assert(phase_items(b, Phase::DownloadResources) == resources);
    let k2 = lemma_drive_items(b, w, Phase::DownloadResources, m.resources.len());
    assert(resources.take(m.resources.len() as int) =~= resources);
    assert(names_of(w, resources).take(m.resources.len() as int) =~= names_of(w, resources));
    lemma_pass_joined(
        m.mode,
        m.state,
        mods,
        names_of(w, mods),
        resources,
        names_of(w, resources),
    );
    assert(names_of(w, mods + resources) =~= names_of(w, mods) + names_of(w, resources));
    lemma_drive_add(m, w, k1, 1);
    lemma_drive_add(m, w, k1 + 1, k2);
    k1 + 1 + k2
}

/// An installation as a whole: with a driver that meets no failure, and
/// with downloads that yield what the manifest asks for, the installer
/// reaches the end of the run, and the state is then what
/// [`install_result`] says. What holds of that state (see
/// [`crate::laws::law_install_twice`] and
/// [`crate::laws::law_install_resumed`]) therefore holds of the
/// installer's runs.
pub proof fn law_install_run_ends_in_result(
    config: ConfigView,
    side: SideType,
    version: crate::version::VersionView,
    w: World,
) -> (steps: nat)
    requires
        config.accepted(),
        side != SideType::Both,
        w.stored matches Some(s) ==> install_verdict(s) is Ok,
        forall|i: int|
            0 <= i < planned_items(InstallerMode::Install, config, side).len() ==> fetches_well(
                w,
                #[trigger] planned_items(InstallerMode::Install, config, side)[i],
            ),
    ensures
        drive(initial(InstallerMode::Install, config, side, version), w, steps).stage
            == Stage::Finished,
        drive(initial(InstallerMode::Install, config, side, version), w, steps).state
            == install_result(
            config,
            side,
            version,
            w.stored,
            names_of(w, planned_items(InstallerMode::Install, config, side)),
        ),
{
    let mode = InstallerMode::Install;
    let m0 = initial(mode, config, side, version);
    let items = planned_items(mode, config, side);
    if w.stored is Some && w.stored->0.process_mode is None {
        lemma_drive_retry(config, side, version, w);
        let m = drive(m0, w, 4);
        let k = lemma_drive_install_tail(m, w);
        lemma_drive_add(m0, w, 4, k);
        4 + k
    } else {
        lemma_drive_begin(mode, config, side, version, w);
        let m = drive(m0, w, 4);
        let loader = phase_items(m, Phase::DownloadModLoader);
        let mods = phase_items(m, Phase::DownloadMods);
        let resources = phase_items(m, Phase::DownloadResources);
        assert(items =~= loader + mods + resources);
        assert forall|i: int| 0 <= i < loader.len() implies fetches_well(
            w,
            #[trigger] loader[i],
        ) by {
            assert(loader[i] == items[i]);
        }
        assert forall|i: int| 0 <= i < mods.len() implies fetches_well(w, #[trigger] mods[i]) by {
            assert(mods[i] == items[i + 1]);
        }
        assert forall|i: int| 0 <= i < resources.len() implies fetches_well(
            w,
            #[trigger] resources[i],
        ) by {
            assert(resources[i] == items[i + 1 + mods.len()]);
        }
        let k1 = lemma_drive_items(m, w, Phase::DownloadModLoader, 1);
        let a = drive(m, w, k1);
        assert(loader.take(1) =~= loader);
        assert(names_of(w, loader).take(1) =~= names_of(w, loader));
        lemma_drive_phase_done(a, w, Phase::DownloadModLoader, Phase::DownloadMods);
        let b = drive(a, w, 1);
        assert(phase_items(b, Phase::DownloadMods) == mods);
        assert(phase_items(b, Phase::DownloadResources) == resources);
        let k2 = lemma_drive_mods_and_resources(b, w);
        let c = drive(b, w, k2);
        lemma_drive_downloads_done(c, w);
        let d = drive(c, w, 1);
        let k3 = lemma_drive_install_tail(d, w);
        lemma_pass_joined(
            mode,
            m.state,
            loader,
            names_of(w, loader),
            mods + resources,
            names_of(w, mods + resources),
        );
        assert(names_of(w, items) =~= names_of(w, loader) + names_of(w, mods + resources));
        assert(items =~= loader + (mods + resources));
        lemma_drive_add(m0, w, 4, k1);
        lemma_drive_add(m0, w, 4 + k1, 1);
        lemma_drive_add(m0, w, 4 + k1 + 1, k2);
        lemma_drive_add(m0, w, 4 + k1 + 1 + k2, 1);
        lemma_drive_add(m0, w, 4 + k1 + 1 + k2 + 1, k3);
        4 + k1 + 1 + k2 + 1 + k3
    }
}

/// Removal steps for a list of records with one more at its end are the
/// removal steps for the list, and then the step for that one.
pub proof fn lemma_removal_then_one(
    config: ConfigView,
    state: StateView,
    obsolete: Seq<ModStateView>,
    record: ModStateView,
)
    ensures
        removal_pass(config, state, obsolete.push(record)) == removal_item(
            config,
            removal_pass(config, state, obsolete),
            record,
        ),
    decreases obsolete.len(),
{
    let all = obsolete.push(record);
    if obsolete.len() == 0 {
        assert(all.drop_first() =~= Seq::<ModStateView>::empty());
        assert(removal_pass(config, removal_item(config, state, record), all.drop_first())
            == removal_item(config, state, record));
    } else {
        assert(all.drop_first() =~= obsolete.drop_first().push(record));
        assert(all[0] == obsolete[0]);
        lemma_removal_then_one(
            config,
            removal_item(config, state, obsolete[0]),
            obsolete.drop_first(),
            record,
        );
    }
}

/// The obsolete mod under the cursor is worked through in one step or in
/// three, and the state is then what [`removal_item`] says.
pub proof fn lemma_drive_removal(m: InstallerView, w: World) -> (steps: nat)
    requires
        m.wf(),
        m.stage == (Stage::Working { phase: Phase::RemoveMods, step: Step::Ready }),
        m.cursor < m.obsolete.len(),
    ensures
        same_phase(drive(m, w, steps), m, Phase::RemoveMods),
        drive(m, w, steps).cursor == m.cursor + 1,
        drive(m, w, steps).state == removal_item(m.config, m.state, m.obsolete[m.cursor as int]),
{
    law_obsolete_mod_is_removed(m);
    let record = m.obsolete[m.cursor as int];
    let asked = step(m, ReportView::Done);
    assert(response(m, w) == ReportView::Done);
    if m.config.has_mod(record.source) {
        assert(drive(m, w, 1) == asked.installer) by {
            reveal_with_fuel(drive, 2);
        }
        1
    } else {
        let removed = step(asked.installer, ReportView::Done);
        let stored = step(removed.installer, ReportView::Done);
        assert(response(asked.installer, w) == ReportView::Done);
        assert(response(removed.installer, w) == ReportView::Done);
        assert(drive(m, w, 3) == stored.installer) by {
            reveal_with_fuel(drive, 4);
        }
        3
    }
}

/// The first `j` obsolete mods are worked through in some number of steps,
/// and the state is then what [`removal_pass`] says of them.
pub proof fn lemma_drive_removals(m: InstallerView, w: World, j: nat) -> (steps: nat)
    requires
        m.wf(),
        m.stage == (Stage::Working { phase: Phase::RemoveMods, step: Step::Ready }),
        m.cursor == 0,
        j <= m.obsolete.len(),
    ensures
        drive(m, w, steps).wf(),
        same_phase(drive(m, w, steps), m, Phase::RemoveMods),
        drive(m, w, steps).cursor == j,
        drive(m, w, steps).state == removal_pass(m.config, m.state, m.obsolete.take(j as int)),
    decreases j,
{
    if j == 0 {
        assert(m.obsolete.take(0) =~= Seq::<ModStateView>::empty());
        assert(drive(m, w, 0) == m) by {
            reveal_with_fuel(drive, 1);
        }
        0
    } else {
        let before = lemma_drive_removals(m, w, (j - 1) as nat);
        let at = drive(m, w, before);
        let more = lemma_drive_removal(at, w);
        lemma_removal_then_one(m.config, m.state, m.obsolete.take(j - 1), m.obsolete[j - 1]);
        assert(m.obsolete.take(j as int) =~= m.obsolete.take(j - 1).push(m.obsolete[j - 1]));
        lemma_drive_add(m, w, before, more);
        lemma_drive_wf(m, w, before + more);
        before + more
    }
}

/// The download of the archive of every migration yields a file with the
/// hash that the migration names.
pub open spec fn archives_fetch_well(w: World, migrations: Seq<crate::migration::MigrationView>) -> bool {
    forall|i: int|
        0 <= i < migrations.len() ==> ((#[trigger] migrations[i]).action
            matches MigrationActionView::ExtractArchive { url, name, hash } ==> ascii_case_eq(
            hash,
            (w.fetch)(url).hash,
        ))
}

/// The migration under the cursor is worked through in two steps or in
/// three, and the state stays as it is.
pub proof fn lemma_drive_migration(m: InstallerView, w: World) -> (steps: nat)
    requires
        m.wf(),
        m.stage == (Stage::Working { phase: Phase::UpdateSettings, step: Step::Ready }),
        m.cursor < m.migrations.len(),
        archives_fetch_well(w, m.migrations),
    ensures
        same_phase(drive(m, w, steps), m, Phase::UpdateSettings),
        drive(m, w, steps).cursor == m.cursor + 1,
        drive(m, w, steps).state == m.state,
{
    let migration = m.migrations[m.cursor as int];
    let asked = step(m, ReportView::Done);
    assert(response(m, w) == ReportView::Done);
    match migration.action {
        MigrationActionView::ExtractArchive { url, name, hash } => {
            let fetched = (w.fetch)(url);
            assert(m.demand(Phase::UpdateSettings) == DemandView::Download(
                archive_request(url, name, hash),
            ));
            assert(response(asked.installer, w) == ReportView::Fetched(fetched));
            let checked = step(asked.installer, ReportView::Fetched(fetched));
            assert(response(checked.installer, w) == ReportView::Done);
            let placed = step(checked.installer, ReportView::Done);
            assert(drive(m, w, 3) == placed.installer) by {
                reveal_with_fuel(drive, 4);
            }
            3
        },
        MigrationActionView::OverwriteConfigs { paths } => {
            assert(response(asked.installer, w) == ReportView::Done);
            let copied = step(asked.installer, ReportView::Done);
            assert(drive(m, w, 2) == copied.installer) by {
                reveal_with_fuel(drive, 3);
            }
            2
        },
    }
}

/// The first `j` migrations are worked through in some number of steps,
/// and the state stays as it is.
pub proof fn lemma_drive_migrations(m: InstallerView, w: World, j: nat) -> (steps: nat)
    requires
        m.wf(),
        m.stage == (Stage::Working { phase: Phase::UpdateSettings, step: Step::Ready }),
        m.cursor == 0,
        j <= m.migrations.len(),
        archives_fetch_well(w, m.migrations),
    ensures
        drive(m, w, steps).wf(),
        same_phase(drive(m, w, steps), m, Phase::UpdateSettings),
        drive(m, w, steps).cursor == j,
        drive(m, w, steps).state == m.state,
    decreases j,
{
    if j == 0 {
        assert(drive(m, w, 0) == m) by {
            reveal_with_fuel(drive, 1);
        }
        0
    } else {
        let before = lemma_drive_migrations(m, w, (j - 1) as nat);
        let at = drive(m, w, before);
        let more = lemma_drive_migration(at, w);
        lemma_drive_add(m, w, before, more);
        lemma_drive_wf(m, w, before + more);
        before + more
    }
}

/// The end of an update: when the last migration is behind, two steps
/// store the state of a completed run and finish the run.
pub proof fn lemma_drive_update_tail(m: InstallerView, w: World)
    requires
        m.wf(),
        m.mode == InstallerMode::Update,
        m.stage == (Stage::Working { phase: Phase::UpdateSettings, step: Step::Ready }),
        m.cursor == m.migrations.len(),
    ensures
        drive(m, w, 2).stage == Stage::Finished,
        drive(m, w, 2).state == m.completed_state(),
{
    reveal_with_fuel(drive, 3);
}

/// An update as a whole: with a driver that meets no failure, and with
/// downloads that yield what the manifest and the migrations ask for, the
/// installer reaches the end of the run, and the state is then what
/// [`update_result`] says. What holds of that state (see
/// [`crate::laws::law_update_resumed_in_removal`] and
/// [`crate::laws::law_update_resumed_in_download`]) therefore holds of the
/// installer's runs.
pub proof fn law_update_run_ends_in_result(
    config: ConfigView,
    side: SideType,
    version: crate::version::VersionView,
    w: World,
) -> (steps: nat)
    requires
        config.accepted(),
        side != SideType::Both,
        update_verdict(config, w.stored) is Ok,
        forall|i: int|
            0 <= i < planned_items(InstallerMode::Update, config, side).len() ==> fetches_well(
                w,
                #[trigger] planned_items(InstallerMode::Update, config, side)[i],
            ),
        archives_fetch_well(
            w,
            crate::migration::fired(
                crate::migration::migration_rows(),
                w.stored->0.pack_version,
                config.pack_version,
            ),
        ),
    ensures
        drive(initial(InstallerMode::Update, config, side, version), w, steps).stage
            == Stage::Finished,
        drive(initial(InstallerMode::Update, config, side, version), w, steps).state
            == update_result(
            config,
            side,
            version,
            w.stored->0,
            names_of(w, planned_items(InstallerMode::Update, config, side)),
        ),
{
    let mode = InstallerMode::Update;
    let m0 = initial(mode, config, side, version);
    let items = planned_items(mode, config, side);
    lemma_drive_begin(mode, config, side, version, w);
    let m = drive(m0, w, 4);
    let k1 = lemma_drive_removals(m, w, m.obsolete.len());
    let a = drive(m, w, k1);
    assert(m.obsolete.take(m.obsolete.len() as int) =~= m.obsolete);
    lemma_drive_phase_done(a, w, Phase::RemoveMods, Phase::DownloadMods);
    let b = drive(a, w, 1);
    let mods = phase_items(b, Phase::DownloadMods);
    let resources = phase_items(b, Phase::DownloadResources);
    assert(items =~= mods + resources);
    assert forall|i: int| 0 <= i < mods.len() implies fetches_well(w, #[trigger] mods[i]) by {
        assert(mods[i] == items[i]);
    }
    assert forall|i: int| 0 <= i < resources.len() implies fetches_well(
        w,
        #[trigger] resources[i],
    ) by {
        assert(resources[i] == items[i + mods.len()]);
    }
    let k2 = lemma_drive_mods_and_resources(b, w);
    let c = drive(b, w, k2);
    lemma_drive_phase_done(c, w, Phase::DownloadResources, Phase::UpdateSettings);
    let d = drive(c, w, 1);
    let k3 = lemma_drive_migrations(d, w, d.migrations.len());
    let e = drive(d, w, k3);
    lemma_drive_update_tail(e, w);
    lemma_drive_add(m0, w, 4, k1);
    lemma_drive_add(m0, w, 4 + k1, 1);
    lemma_drive_add(m0, w, 4 + k1 + 1, k2);
    lemma_drive_add(m0, w, 4 + k1 + 1 + k2, 1);
    lemma_drive_add(m0, w, 4 + k1 + 1 + k2 + 1, k3);
    lemma_drive_add(m0, w, 4 + k1 + 1 + k2 + 1 + k3, 2);
    4 + k1 + 1 + k2 + 1 + k3 + 2
}

/// An installer that asks for no download whatever is reported to it next:
/// it is not working through items.
pub open spec fn quiet(m: InstallerView) -> bool {
    &&& m.mode == InstallerMode::Install
    &&& !(m.stage is Working)
    &&& m.stage matches Stage::SavingMode { retry } ==> retry
}

/// An installation on a stored state that shows no run in progress never
/// comes to work through items.
proof fn lemma_retry_stays_quiet(m: InstallerView, w: World)
    requires
        quiet(m),
        w.stored is Some,
        w.stored->0.process_mode is None,
    ensures
        quiet(step(m, response(m, w)).installer),
{
}

/// Idempotence, of the installer's steps: an installation on a stored
/// state that shows no run in progress, as a completed installation
/// leaves it, asks for no download at any step.
pub proof fn law_second_install_downloads_nothing(
    config: ConfigView,
    side: SideType,
    version: crate::version::VersionView,
    w: World,
    n: nat,
)
    requires
        w.stored is Some,
        w.stored->0.process_mode is None,
    ensures
        quiet(drive(initial(InstallerMode::Install, config, side, version), w, n)),
        !(step(
            drive(initial(InstallerMode::Install, config, side, version), w, n),
            response(drive(initial(InstallerMode::Install, config, side, version), w, n), w),
        ).result matches Ok(directive) && directive.work is Fetch),
    decreases n,
{
    let m0 = initial(InstallerMode::Install, config, side, version);
    if n == 0 {
        assert(drive(m0, w, 0) == m0) by {
            reveal_with_fuel(drive, 1);
        }
    } else {
        law_second_install_downloads_nothing(config, side, version, w, (n - 1) as nat);
        let before = drive(m0, w, (n - 1) as nat);
        lemma_retry_stays_quiet(before, w);
        lemma_drive_add(m0, w, (n - 1) as nat, 1);
        assert(drive(before, w, 1) == step(before, response(before, w)).installer) by {
            reveal_with_fuel(drive, 2);
        }
    }
}

/// An installation comes, after some number of steps, to stand where the
/// steps for the first `n` of its items are behind it: the state is then
/// what [`download_pass`] says of these items, and it is the state that
/// was stored last.
pub proof fn lemma_install_reaches_prefix(
    config: ConfigView,
    side: SideType,
    version: crate::version::VersionView,
    w: World,
    n: nat,
) -> (steps: nat)
    requires
        config.accepted(),
        side != SideType::Both,
        w.stored matches Some(s) ==> install_verdict(s) is Ok,
        !(w.stored is Some && w.stored->0.process_mode is None),
        n <= planned_items(InstallerMode::Install, config, side).len(),
        forall|i: int|
            0 <= i < planned_items(InstallerMode::Install, config, side).len() ==> fetches_well(
                w,
                #[trigger] planned_items(InstallerMode::Install, config, side)[i],
            ),
    ensures
        drive(initial(InstallerMode::Install, config, side, version), w, steps).state
            == download_pass(
            InstallerMode::Install,
            taken_up(InstallerMode::Install, config, version, w.stored),
            planned_items(InstallerMode::Install, config, side).take(n as int),
            names_of(w, planned_items(InstallerMode::Install, config, side)).take(n as int),
        ),
        drive(initial(InstallerMode::Install, config, side, version), w, steps).stage is Working,
        drive(initial(InstallerMode::Install, config, side, version), w, steps).stage->Working_step
            == Step::Ready,
{
    let mode = InstallerMode::Install;
    let m0 = initial(mode, config, side, version);
    let items = planned_items(mode, config, side);
    let names = names_of(w, items);
    lemma_drive_begin(mode, config, side, version, w);
    let m = drive(m0, w, 4);
    let loader = phase_items(m, Phase::DownloadModLoader);
    let mods = phase_items(m, Phase::DownloadMods);
    let resources = phase_items(m, Phase::DownloadResources);
    assert(items =~= loader + mods + resources);
    assert(names =~= names_of(w, loader) + names_of(w, mods) + names_of(w, resources));
    assert forall|i: int| 0 <= i < loader.len() implies fetches_well(w, #[trigger] loader[i]) by {
        assert(loader[i] == items[i]);
    }
    assert forall|i: int| 0 <= i < mods.len() implies fetches_well(w, #[trigger] mods[i]) by {
        assert(mods[i] == items[i + 1]);
    }
    assert forall|i: int| 0 <= i < resources.len() implies fetches_well(
        w,
        #[trigger] resources[i],
    ) by {
        assert(resources[i] == items[i + 1 + mods.len()]);
    }
    if n == 0 {
        assert(items.take(0) =~= Seq::<ItemView>::empty());
        4
    } else {
        let k1 = lemma_drive_items(m, w, Phase::DownloadModLoader, 1);
        let a = drive(m, w, k1);
        assert(loader.take(1) =~= loader);
        assert(names_of(w, loader).take(1) =~= names_of(w, loader));
        lemma_drive_phase_done(a, w, Phase::DownloadModLoader, Phase::DownloadMods);
        let b = drive(a, w, 1);
        assert(phase_items(b, Phase::DownloadMods) == mods);
        lemma_drive_add(m0, w, 4, k1);
        lemma_drive_add(m0, w, 4 + k1, 1);
        if n <= 1 + mods.len() {
            let j = (n - 1) as nat;
            let k2 = lemma_drive_items(b, w, Phase::DownloadMods, j);
            lemma_pass_joined(
                mode,
                m.state,
                loader,
                names_of(w, loader),
                mods.take(j as int),
                names_of(w, mods).take(j as int),
            );
            assert(items.take(n as int) =~= loader + mods.take(j as int));
            assert(names.take(n as int) =~= names_of(w, loader) + names_of(w, mods).take(
                j as int,
            ));
            lemma_drive_add(m0, w, 4 + k1 + 1, k2);
            4 + k1 + 1 + k2
        } else {
            let j = (n - 1 - mods.len()) as nat;
            let k2 = lemma_drive_items(b, w, Phase::DownloadMods, mods.len());
            let c = drive(b, w, k2);
            assert(mods.take(mods.len() as int) =~= mods);
            assert(names_of(w, mods).take(mods.len() as int) =~= names_of(w, mods));
            lemma_drive_phase_done(c, w, Phase::DownloadMods, Phase::DownloadResources);
            let d = drive(c, w, 1);
            assert(phase_items(d, Phase::DownloadResources) == resources);
            let k3 = lemma_drive_items(d, w, Phase::DownloadResources, j);
            lemma_pass_joined(
                mode,
                m.state,
                loader,
                names_of(w, loader),
                mods,
                names_of(w, mods),
            );
            lemma_pass_joined(
                mode,
                m.state,
                loader + mods,
                names_of(w, loader) + names_of(w, mods),
                resources.take(j as int),
                names_of(w, resources).take(j as int),
            );
            assert(items.take(n as int) =~= loader + mods + resources.take(j as int));
            assert(names.take(n as int) =~= names_of(w, loader) + names_of(w, mods) + names_of(
                w,
                resources,
            ).take(j as int));
            lemma_drive_add(m0, w, 4 + k1 + 1, k2);
            lemma_drive_add(m0, w, 4 + k1 + 1 + k2, 1);
            lemma_drive_add(m0, w, 4 + k1 + 1 + k2 + 1, k3);
            4 + k1 + 1 + k2 + 1 + k3
        }
    }
}

/// Resumption, of the installer's steps: let an installation be
/// interrupted when the steps for the first `n` of its items are behind
/// it, and let a second installation begin on the state that was stored
/// then, in a world that is otherwise the same. The second run reaches the
/// end, in the state in which the first would have ended.
pub proof fn law_resumed_install_run_ends_alike(
    config: ConfigView,
    side: SideType,
    version: crate::version::VersionView,
    w: World,
    n: nat,
) -> (steps: (nat, nat, nat))
    requires
        config.accepted(),
        side != SideType::Both,
        w.stored matches Some(s) ==> install_verdict(s) is Ok,
        !(w.stored is Some && w.stored->0.process_mode is None),
        n <= planned_items(InstallerMode::Install, config, side).len(),
        forall|i: int|
            0 <= i < planned_items(InstallerMode::Install, config, side).len() ==> fetches_well(
                w,
                #[trigger] planned_items(InstallerMode::Install, config, side)[i],
            ),
    ensures
        ({
            let first = initial(InstallerMode::Install, config, side, version);
            let interrupted = drive(first, w, steps.0).state;
            let again = World { stored: Some(interrupted), ..w };
            &&& drive(first, w, steps.1).stage == Stage::Finished
            &&& drive(first, again, steps.2).stage == Stage::Finished
            &&& drive(first, again, steps.2).state == drive(first, w, steps.1).state
        }),
{
    let mode = InstallerMode::Install;
    let items = planned_items(mode, config, side);
    let names = names_of(w, items);
    let first = initial(mode, config, side, version);
    let k0 = lemma_install_reaches_prefix(config, side, version, w, n);
    let interrupted = drive(first, w, k0).state;
    let again = World { stored: Some(interrupted), ..w };
    let k1 = law_install_run_ends_in_result(config, side, version, w);
    law_install_resumed(config, side, version, w.stored, names, names, n as int);
    lemma_pass_keeps_mode(
        mode,
        taken_up(mode, config, version, w.stored),
        items.take(n as int),
        names.take(n as int),
    );
    assert(names_of(again, items) =~= names);
    assert forall|i: int| 0 <= i < items.len() implies fetches_well(again, #[trigger] items[i]) by {
        assert(fetches_well(w, items[i]));
    }
    let k2 = law_install_run_ends_in_result(config, side, version, again);
    (k0, k1, k2)
}

/// Idempotence, of the installer's runs: let an installation reach its
/// end, and let a second installation begin on the state that it stored,
/// in whatever world. The second run reaches the end, in the state in
/// which the first ended. (That it asks for no download is
/// [`law_second_install_downloads_nothing`].)
pub proof fn law_second_install_run_ends_alike(
    config: ConfigView,
    side: SideType,
    version: crate::version::VersionView,
    w: World,
    again: World,
) -> (steps: (nat, nat))
    requires
        config.accepted(),
        side != SideType::Both,
        w.stored matches Some(s) ==> install_verdict(s) is Ok,
        forall|i: int|
            0 <= i < planned_items(InstallerMode::Install, config, side).len() ==> fetches_well(
                w,
                #[trigger] planned_items(InstallerMode::Install, config, side)[i],
            ),
    ensures
        ({
            let first = initial(InstallerMode::Install, config, side, version);
            &&& drive(first, w, steps.0).stage == Stage::Finished
            &&& again.stored == Some(drive(first, w, steps.0).state) ==> {
                &&& drive(first, again, steps.1).stage == Stage::Finished
                &&& drive(first, again, steps.1).state == drive(first, w, steps.0).state
            }
        }),
{
    let mode = InstallerMode::Install;
    let items = planned_items(mode, config, side);
    let first = initial(mode, config, side, version);
    let k1 = law_install_run_ends_in_result(config, side, version, w);
    let ended = drive(first, w, k1).state;
    law_install_twice(config, side, version, w.stored, names_of(w, items), names_of(again, items));
    if again.stored == Some(ended) {
        lemma_drive_retry(config, side, version, again);
        let m = drive(first, again, 4);
        let k = lemma_drive_install_tail(m, again);
        lemma_drive_add(first, again, 4, k);
        (k1, 4 + k)
    } else {
        (k1, 0)
    }
}

/// An update comes, after some number of steps, to stand where the first
/// `j` of its removal steps are behind it: the state is then what
/// [`removal_pass`] says of them.
pub proof fn lemma_update_reaches_removal(
    config: ConfigView,
    side: SideType,
    version: crate::version::VersionView,
    w: World,
    j: nat,
) -> (steps: nat)
    requires
        config.accepted(),
        side != SideType::Both,
        update_verdict(config, w.stored) is Ok,
        j <= w.stored->0.mods.len(),
    ensures
        drive(initial(InstallerMode::Update, config, side, version), w, steps).state
            == removal_pass(
            config,
            taken_up(InstallerMode::Update, config, version, w.stored),
            taken_up(InstallerMode::Update, config, version, w.stored).mods.take(j as int),
        ),
{
    let mode = InstallerMode::Update;
    let m0 = initial(mode, config, side, version);
    lemma_drive_begin(mode, config, side, version, w);
    let m = drive(m0, w, 4);
    let k = lemma_drive_removals(m, w, j);
    lemma_drive_add(m0, w, 4, k);
    4 + k
}

/// An update comes, after some number of steps, to stand where its
/// removal steps and the steps for the first `n` of its items are behind
/// it: the state is then what [`removal_pass`] and [`download_pass`] say
/// of them.
pub proof fn lemma_update_reaches_prefix(
    config: ConfigView,
    side: SideType,
    version: crate::version::VersionView,
    w: World,
    n: nat,
) -> (steps: nat)
    requires
        config.accepted(),
        side != SideType::Both,
        update_verdict(config, w.stored) is Ok,
        n <= planned_items(InstallerMode::Update, config, side).len(),
        forall|i: int|
            0 <= i < planned_items(InstallerMode::Update, config, side).len() ==> fetches_well(
                w,
                #[trigger] planned_items(InstallerMode::Update, config, side)[i],
            ),
    ensures
        ({
            let start = taken_up(InstallerMode::Update, config, version, w.stored);
            drive(initial(InstallerMode::Update, config, side, version), w, steps).state
                == download_pass(
                InstallerMode::Update,
                removal_pass(config, start, start.mods),
                planned_items(InstallerMode::Update, config, side).take(n as int),
                names_of(w, planned_items(InstallerMode::Update, config, side)).take(n as int),
            )
        }),
{
    let mode = InstallerMode::Update;
    let m0 = initial(mode, config, side, version);
    let items = planned_items(mode, config, side);
    let names = names_of(w, items);
    lemma_drive_begin(mode, config, side, version, w);
    let m = drive(m0, w, 4);
    let k1 = lemma_drive_removals(m, w, m.obsolete.len());
    let a = drive(m, w, k1);
    assert(m.obsolete.take(m.obsolete.len() as int) =~= m.obsolete);
    lemma_drive_phase_done(a, w, Phase::RemoveMods, Phase::DownloadMods);
    let b = drive(a, w, 1);
    let mods = phase_items(b, Phase::DownloadMods);
    let resources = phase_items(b, Phase::DownloadResources);
    assert(items =~= mods + resources);
    assert(names =~= names_of(w, mods) + names_of(w, resources));
    assert forall|i: int| 0 <= i < mods.len() implies fetches_well(w, #[trigger] mods[i]) by {
        assert(mods[i] == items[i]);
    }
    assert forall|i: int| 0 <= i < resources.len() implies fetches_well(
        w,
        #[trigger] resources[i],
    ) by {
        assert(resources[i] == items[i + mods.len()]);
    }
    lemma_drive_add(m0, w, 4, k1);
    lemma_drive_add(m0, w, 4 + k1, 1);
    if n <= mods.len() {
        let k2 = lemma_drive_items(b, w, Phase::DownloadMods, n);
        assert(items.take(n as int) =~= mods.take(n as int));
        assert(names.take(n as int) =~= names_of(w, mods).take(n as int));
        lemma_drive_add(m0, w, 4 + k1 + 1, k2);
        4 + k1 + 1 + k2
    } else {
        let j = (n - mods.len()) as nat;
        let k2 = lemma_drive_items(b, w, Phase::DownloadMods, mods.len());
        let c = drive(b, w, k2);
        assert(mods.take(mods.len() as int) =~= mods);
        assert(names_of(w, mods).take(mods.len() as int) =~= names_of(w, mods));
        lemma_drive_phase_done(c, w, Phase::DownloadMods, Phase::DownloadResources);
        let d = drive(c, w, 1);
        assert(phase_items(d, Phase::DownloadResources) == resources);
        let k3 = lemma_drive_items(d, w, Phase::DownloadResources, j);
        lemma_pass_joined(
            mode,
            b.state,
            mods,
            names_of(w, mods),
            resources.take(j as int),
            names_of(w, resources).take(j as int),
        );
        assert(items.take(n as int) =~= mods + resources.take(j as int));
        assert(names.take(n as int) =~= names_of(w, mods) + names_of(w, resources).take(
            j as int,
        ));
        lemma_drive_add(m0, w, 4 + k1 + 1, k2);
        lemma_drive_add(m0, w, 4 + k1 + 1 + k2, 1);
        lemma_drive_add(m0, w, 4 + k1 + 1 + k2 + 1, k3);
        4 + k1 + 1 + k2 + 1 + k3
    }
}

/// What an update needs of the world to reach its end: a stored state
/// that allows it, and downloads that yield what the manifest and the
/// migrations ask for.
pub open spec fn update_goes_well(config: ConfigView, side: SideType, w: World) -> bool {
    &&& update_verdict(config, w.stored) is Ok
    &&& forall|i: int|
        0 <= i < planned_items(InstallerMode::Update, config, side).len() ==> fetches_well(
            w,
            #[trigger] planned_items(InstallerMode::Update, config, side)[i],
        )
    &&& archives_fetch_well(
        w,
        crate::migration::fired(
            crate::migration::migration_rows(),
            w.stored->0.pack_version,
            config.pack_version,
        ),
    )
}

/// Resumption, of the installer's steps, for an update that is
/// interrupted while it removes obsolete mods: a second update that begins
/// on the state that was stored after the first `j` removal steps, in a
/// world that is otherwise the same, reaches the end in the state in which
/// the first would have ended.
pub proof fn law_update_resumed_in_removal_ends_alike(
    config: ConfigView,
    side: SideType,
    version: crate::version::VersionView,
    w: World,
    j: nat,
) -> (steps: (nat, nat, nat))
    requires
        config.accepted(),
        side != SideType::Both,
        update_goes_well(config, side, w),
        j <= w.stored->0.mods.len(),
    ensures
        ({
            let first = initial(InstallerMode::Update, config, side, version);
            let interrupted = drive(first, w, steps.0).state;
            let again = World { stored: Some(interrupted), ..w };
            &&& drive(first, w, steps.1).stage == Stage::Finished
            &&& drive(first, again, steps.2).stage == Stage::Finished
            &&& drive(first, again, steps.2).state == drive(first, w, steps.1).state
        }),
{
    let mode = InstallerMode::Update;
    let items = planned_items(mode, config, side);
    let names = names_of(w, items);
    let first = initial(mode, config, side, version);
    let start = taken_up(mode, config, version, w.stored);
    let k0 = lemma_update_reaches_removal(config, side, version, w, j);
    let interrupted = drive(first, w, k0).state;
    let again = World { stored: Some(interrupted), ..w };
    let k1 = law_update_run_ends_in_result(config, side, version, w);
    law_update_resumed_in_removal(config, side, version, w.stored->0, names, j as int);
    lemma_removal_keeps(config, start, start.mods.take(j as int));
    assert(names_of(again, items) =~= names);
    assert forall|i: int| 0 <= i < items.len() implies fetches_well(again, #[trigger] items[i]) by {
        assert(fetches_well(w, items[i]));
    }
    let k2 = law_update_run_ends_in_result(config, side, version, again);
    (k0, k1, k2)
}

/// Resumption, of the installer's steps, for an update that is
/// interrupted while it downloads: a second update that begins on the
/// state that was stored when the steps for the first `n` items were
/// behind, in a world that is otherwise the same, reaches the end in the
/// state in which the first would have ended. The manifest must not ask
/// for two contents of one item.
pub proof fn law_update_resumed_in_download_ends_alike(
    config: ConfigView,
    side: SideType,
    version: crate::version::VersionView,
    w: World,
    n: nat,
) -> (steps: (nat, nat, nat))
    requires
        config.accepted(),
        side != SideType::Both,
        update_goes_well(config, side, w),
        n <= planned_items(InstallerMode::Update, config, side).len(),
        consistent(planned_items(InstallerMode::Update, config, side)),
    ensures
        ({
            let first = initial(InstallerMode::Update, config, side, version);
            let interrupted = drive(first, w, steps.0).state;
            let again = World { stored: Some(interrupted), ..w };
            &&& drive(first, w, steps.1).stage == Stage::Finished
            &&& drive(first, again, steps.2).stage == Stage::Finished
            &&& drive(first, again, steps.2).state == drive(first, w, steps.1).state
        }),
{
    let mode = InstallerMode::Update;
    let items = planned_items(mode, config, side);
    let names = names_of(w, items);
    let first = initial(mode, config, side, version);
    let start = taken_up(mode, config, version, w.stored);
    let removed = removal_pass(config, start, start.mods);
    let k0 = lemma_update_reaches_prefix(config, side, version, w, n);
    let interrupted = drive(first, w, k0).state;
    let again = World { stored: Some(interrupted), ..w };
    let k1 = law_update_run_ends_in_result(config, side, version, w);
    law_update_resumed_in_download(config, side, version, w.stored->0, names, names, n as int);
    lemma_removal_keeps(config, start, start.mods);
    lemma_pass_keeps_mode(mode, removed, items.take(n as int), names.take(n as int));
    assert(names_of(again, items) =~= names);
    assert forall|i: int| 0 <= i < items.len() implies fetches_well(again, #[trigger] items[i]) by {
        assert(fetches_well(w, items[i]));
    }
    let k2 = law_update_run_ends_in_result(config, side, version, again);
    (k0, k1, k2)
}

} // verus!
