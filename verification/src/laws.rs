//! What holds of runs as a whole: removal of obsolete mods, resumption after
//! an interruption, and repetition.

use vstd::prelude::*;
use crate::config::{
    applicable_mods, applicable_resources, ConfigView, ModEntryView, ModLoaderView,
    ResourceEntryView, SideType,
};
use crate::downloader::OutcomeView;
use crate::event::{DirectiveView, EventView, Phase, ReportView, WorkView};
use crate::installer::{install_verdict, update_verdict, ErrorView, InstallerMode};
use crate::protocol::{
    loader_record, loader_request, mod_needs_download, mod_record, mod_request, passed,
    progress, resource_needs_download, resource_record, resource_request, step, DemandView,
    InstallerView, RequestView, Stage, Step,
};
use crate::state::fresh_state;
use crate::text::{ascii_case_eq, lemma_ascii_case_eq};
use crate::version::VersionView;
use crate::state::{
    count_mods, lemma_filter_all, lemma_filter_split, lemma_last_index, lemma_other_mods,
    lemma_put_mod, lemma_put_resource, mod_keys, ModStateView, StateView,
};

verus! {

/// The records of mods that the manifest still lists, in order.
pub open spec fn kept_mods(config: ConfigView, mods: Seq<ModStateView>) -> Seq<ModStateView> {
    mods.filter(|m: ModStateView| config.has_mod(m.source))
}

/// The state after the step that removes an obsolete mod: the record of a
/// mod that the manifest no longer lists is removed.
pub open spec fn removal_item(config: ConfigView, state: StateView, record: ModStateView) -> StateView {
    if config.has_mod(record.source) {
        state
    } else {
        state.remove_mod(record.source)
    }
}

/// The state after the removal steps for `obsolete`, taken in order.
pub open spec fn removal_pass(config: ConfigView, state: StateView, obsolete: Seq<ModStateView>) -> StateView
    decreases obsolete.len(),
{
    if obsolete.len() == 0 {
        state
    } else {
        removal_pass(config, removal_item(config, state, obsolete[0]), obsolete.drop_first())
    }
}

/// While no more records of an unlisted mod stand in the state than
/// removal steps are still to come for it, the removal steps leave exactly
/// the records of listed mods.
proof fn lemma_removal_pass(config: ConfigView, state: StateView, obsolete: Seq<ModStateView>)
    requires
        forall|source: crate::config::SourceView|
            !config.has_mod(source) ==> count_mods(state.mods, source) <= count_mods(
                obsolete,
                source,
            ),
    ensures
        removal_pass(config, state, obsolete) == (StateView {
            mods: kept_mods(config, state.mods),
            ..state
        }),
    decreases obsolete.len(),
{
    let keep = |m: ModStateView| config.has_mod(m.source);
    if obsolete.len() == 0 {
        assert forall|i: int| 0 <= i < state.mods.len() implies keep(state.mods[i]) by {
            let source = state.mods[i].source;
            if !config.has_mod(source) {
                let same = |m: ModStateView| m.source == source;
                state.mods.lemma_filter_contains(same, i);
                reveal(Seq::filter);
                assert(obsolete.filter(same).len() == 0);
                assert(state.mods.filter(same).len() > 0);
            }
        }
        lemma_filter_all(state.mods, keep);
    } else {
        let record = obsolete[0];
        let rest = obsolete.drop_first();
        let next = removal_item(config, state, record);
        assert(obsolete =~= seq![record] + rest);
        assert forall|source: crate::config::SourceView| !config.has_mod(source) implies count_mods(
            next.mods,
            source,
        ) <= count_mods(rest, source) && kept_mods(config, next.mods) == kept_mods(
            config,
            state.mods,
        ) by {
            let same = |m: ModStateView| m.source == source;
            lemma_filter_split(obsolete, same, 0);
            assert(obsolete.take(0) =~= Seq::<ModStateView>::empty());
            assert(obsolete.skip(1) =~= rest);
            reveal(Seq::filter);
            assert(obsolete.filter(same).len() == rest.filter(same).len() + if record.source
                == source {
                1nat
            } else {
                0nat
            });
            if !config.has_mod(record.source) {
                lemma_last_index(mod_keys(state.mods), record.source);
                match state.mod_position(record.source) {
                    Some(i) => {
                        lemma_filter_split(state.mods, same, i);
                        lemma_filter_split(state.mods, keep, i);
                        assert(state.mods[i].source == record.source);
                    },
                    None => {
                        if record.source == source {
                            assert forall|j: int| 0 <= j < state.mods.len() implies !same(
                                state.mods[j],
                            ) by {
                                assert(mod_keys(state.mods)[j] == state.mods[j].source);
                            }
                            state.mods.lemma_all_neg_filter_empty(same);
                        }
                    },
                }
            }
        }
        if config.has_mod(record.source) {
        } else {
            lemma_last_index(mod_keys(state.mods), record.source);
            match state.mod_position(record.source) {
                Some(i) => {
                    lemma_filter_split(state.mods, keep, i);
                    assert(state.mods[i].source == record.source);
                },
                None => {},
            }
        }
        assert(kept_mods(config, next.mods) == kept_mods(config, state.mods));
        lemma_removal_pass(config, next, rest);
    }
}

/// Removal of obsolete mods: when an update has taken its removal steps for
/// the mods that were recorded, exactly the records of mods that the
/// manifest still lists are left, in their order, and nothing else of the
/// state has changed. No record of a mod that the manifest has dropped
/// remains.
pub proof fn law_removal_leaves_listed_mods(config: ConfigView, state: StateView)
    ensures
        removal_pass(config, state, state.mods) == (StateView {
            mods: kept_mods(config, state.mods),
            ..state
        }),
        forall|i: int|
            0 <= i < removal_pass(config, state, state.mods).mods.len() ==> config.has_mod(
                (#[trigger] removal_pass(config, state, state.mods).mods[i]).source,
            ),
{
    lemma_removal_pass(config, state, state.mods);
    let keep = |m: ModStateView| config.has_mod(m.source);
    assert forall|i: int| 0 <= i < kept_mods(config, state.mods).len() implies config.has_mod(
        (#[trigger] kept_mods(config, state.mods)[i]).source,
    ) by {
        state.mods.lemma_filter_pred(keep, i);
    }
}

/// Something that a run downloads and records.
pub enum ItemView {
    Loader(ModLoaderView),
    Mod(ModEntryView),
    Resource(ResourceEntryView),
}

/// Whether an item has to be downloaded. The loader has to while it has no
/// record; for mods and resources see [`mod_needs_download`].
pub open spec fn item_needs(mode: InstallerMode, state: StateView, item: ItemView) -> bool {
    match item {
        ItemView::Loader(_) => state.mod_loader is None,
        ItemView::Mod(entry) => mod_needs_download(mode, state, entry),
        ItemView::Resource(entry) => resource_needs_download(mode, state, entry),
    }
}

/// The state with the record of an item that was fetched under `name`.
pub open spec fn item_recorded(state: StateView, item: ItemView, name: Seq<char>) -> StateView {
    match item {
        ItemView::Loader(loader) => StateView {
            mod_loader: Some(loader_record(loader, name)),
            ..state
        },
        ItemView::Mod(entry) => state.add_mod(mod_record(entry, name)),
        ItemView::Resource(entry) => state.add_resource(resource_record(entry, name)),
    }
}

/// The state after the step for an item: if the item had to be downloaded,
/// it was fetched under `name` and recorded.
pub open spec fn item_done(mode: InstallerMode, state: StateView, item: ItemView, name: Seq<char>) -> StateView {
    if item_needs(mode, state, item) {
        item_recorded(state, item, name)
    } else {
        state
    }
}

/// The state after the steps for `items`, taken in order, where a fetch of
/// the item at a position yields the name at that position.
pub open spec fn download_pass(
    mode: InstallerMode,
    state: StateView,
    items: Seq<ItemView>,
    names: Seq<Seq<char>>,
) -> StateView
    decreases items.len(),
{
    if items.len() == 0 {
        state
    } else {
        item_done(
            mode,
            download_pass(mode, state, items.drop_last(), names.drop_last()),
            items.last(),
            names.last(),
        )
    }
}

/// Two items do not contradict each other: if they are the same mod, or the
/// same resource for the same directory, they ask for the same content.
pub open spec fn agree(a: ItemView, b: ItemView) -> bool {
    match (a, b) {
        (ItemView::Mod(x), ItemView::Mod(y)) => x.source == y.source ==> ascii_case_eq(
            x.hash,
            y.hash,
        ),
        (ItemView::Resource(x), ItemView::Resource(y)) => x.source == y.source && x.target_dir
            == y.target_dir ==> ascii_case_eq(x.hash, y.hash),
        _ => true,
    }
}

/// No two of the items contradict each other.
pub open spec fn consistent(items: Seq<ItemView>) -> bool {
    forall|i: int, j: int|
        0 <= i < items.len() && 0 <= j < items.len() ==> agree(
            #[trigger] items[i],
            #[trigger] items[j],
        )
}

/// Once the step for an item has been taken, the item need not be
/// downloaded.
proof fn lemma_done_is_settled(mode: InstallerMode, state: StateView, item: ItemView, name: Seq<char>)
    ensures
        !item_needs(mode, item_done(mode, state, item, name), item),
{
    match item {
        ItemView::Loader(_) => {},
        ItemView::Mod(entry) => {
            lemma_put_mod(state.mods, mod_record(entry, name), entry.source);
            lemma_ascii_case_eq(entry.hash, entry.hash, entry.hash);
        },
        ItemView::Resource(entry) => {
            lemma_put_resource(
                state.resources,
                resource_record(entry, name),
                (entry.source, entry.target_dir),
            );
            lemma_ascii_case_eq(entry.hash, entry.hash, entry.hash);
        },
    }
}

/// An item that need not be downloaded stays so when the step for another
/// item is taken, provided that an update does not ask for two contents
/// of one item.
proof fn lemma_settled_stays(
    mode: InstallerMode,
    state: StateView,
    settled: ItemView,
    item: ItemView,
    name: Seq<char>,
)
    requires
        !item_needs(mode, state, settled),
        mode == InstallerMode::Update ==> agree(settled, item),
    ensures
        !item_needs(mode, item_done(mode, state, item, name), settled),
{
    if item_needs(mode, state, item) {
        match (settled, item) {
            (ItemView::Mod(x), ItemView::Mod(y)) => {
                lemma_put_mod(state.mods, mod_record(y, name), x.source);
                lemma_ascii_case_eq(x.hash, y.hash, x.hash);
            },
            (ItemView::Resource(x), ItemView::Resource(y)) => {
                lemma_put_resource(
                    state.resources,
                    resource_record(y, name),
                    (x.source, x.target_dir),
                );
                lemma_ascii_case_eq(x.hash, y.hash, x.hash);
            },
            _ => {},
        }
    }
}

/// After the steps for the first `n` items, none of them has to be
/// downloaded.
proof fn lemma_prefix_settled(
    mode: InstallerMode,
    state: StateView,
    items: Seq<ItemView>,
    names: Seq<Seq<char>>,
    n: int,
    i: int,
)
    requires
        names.len() == items.len(),
        0 <= i < n <= items.len(),
        mode == InstallerMode::Update ==> consistent(items),
    ensures
        !item_needs(mode, download_pass(mode, state, items.take(n), names.take(n)), items[i]),
    decreases n,
{
    let before = download_pass(mode, state, items.take(n - 1), names.take(n - 1));
    assert(items.take(n).drop_last() =~= items.take(n - 1));
    assert(names.take(n).drop_last() =~= names.take(n - 1));
    assert(items.take(n).last() == items[n - 1]);
    if i == n - 1 {
        lemma_done_is_settled(mode, before, items[n - 1], names[n - 1]);
    } else {
        lemma_prefix_settled(mode, state, items, names, n - 1, i);
        lemma_settled_stays(mode, before, items[i], items[n - 1], names[n - 1]);
    }
}

/// A run that is taken up again after the steps for the first `n` items
/// stands, after its own steps for the first `k` items, where the first run
/// stood after the steps for the first `n` items (if `k <= n`) or for the
/// first `k` items (if `k >= n`).
proof fn lemma_resumed_prefix(
    mode: InstallerMode,
    state: StateView,
    items: Seq<ItemView>,
    names: Seq<Seq<char>>,
    again: Seq<Seq<char>>,
    n: int,
    k: int,
)
    requires
        names.len() == items.len(),
        again.len() == items.len(),
        0 <= n <= items.len(),
        0 <= k <= items.len(),
        forall|i: int| n <= i < items.len() ==> again[i] == names[i],
        mode == InstallerMode::Update ==> consistent(items),
    ensures
        download_pass(
            mode,
            download_pass(mode, state, items.take(n), names.take(n)),
            items.take(k),
            again.take(k),
        ) == download_pass(
            mode,
            state,
            items.take(if k <= n {
                n
            } else {
                k
            }),
            names.take(if k <= n {
                n
            } else {
                k
            }),
        ),
    decreases k,
{
    let interrupted = download_pass(mode, state, items.take(n), names.take(n));
    if k == 0 {
        assert(items.take(0) =~= Seq::<ItemView>::empty());
    } else {
        lemma_resumed_prefix(mode, state, items, names, again, n, k - 1);
        assert(items.take(k).drop_last() =~= items.take(k - 1));
        assert(again.take(k).drop_last() =~= again.take(k - 1));
        assert(names.take(k).drop_last() =~= names.take(k - 1));
        assert(items.take(k).last() == items[k - 1]);
        if k <= n {
            lemma_prefix_settled(mode, state, items, names, n, k - 1);
        }
    }
}

/// Resumption: a run that is interrupted after the steps for the first `n`
/// items and taken up again from the state that was stored then ends in
/// the state in which the uninterrupted run ends. It downloads none of the
/// first `n` items again, and of the others exactly those that the
/// uninterrupted run downloads, each when its turn comes.
///
/// `names` are the names under which the first run fetches the items,
/// `again` those of the second run from the `n`-th item on. An update
/// must not ask for two contents of one item.
pub proof fn law_resumed_run_ends_alike(
    mode: InstallerMode,
    state: StateView,
    items: Seq<ItemView>,
    names: Seq<Seq<char>>,
    again: Seq<Seq<char>>,
    n: int,
)
    requires
        names.len() == items.len(),
        again.len() == items.len(),
        0 <= n <= items.len(),
        forall|i: int| n <= i < items.len() ==> again[i] == names[i],
        mode == InstallerMode::Update ==> consistent(items),
    ensures
        download_pass(
            mode,
            download_pass(mode, state, items.take(n), names.take(n)),
            items,
            again,
        ) == download_pass(mode, state, items, names),
        forall|i: int|
            0 <= i < n ==> !item_needs(
                mode,
                download_pass(
                    mode,
                    download_pass(mode, state, items.take(n), names.take(n)),
                    items.take(i),
                    again.take(i),
                ),
                #[trigger] items[i],
            ),
        forall|i: int|
            n <= i < items.len() ==> item_needs(
                mode,
                download_pass(
                    mode,
                    download_pass(mode, state, items.take(n), names.take(n)),
                    items.take(i),
                    again.take(i),
                ),
                #[trigger] items[i],
            ) == item_needs(
                mode,
                download_pass(mode, state, items.take(i), names.take(i)),
                items[i],
            ),
{
    let len = items.len() as int;
    assert forall|i: int| n <= i < items.len() implies item_needs(
        mode,
        download_pass(
            mode,
            download_pass(mode, state, items.take(n), names.take(n)),
            items.take(i),
            again.take(i),
        ),
        #[trigger] items[i],
    ) == item_needs(
        mode,
        download_pass(mode, state, items.take(i), names.take(i)),
        items[i],
    ) by {
        lemma_resumed_prefix(mode, state, items, names, again, n, i);
    }
    lemma_resumed_prefix(mode, state, items, names, again, n, len);
    assert(items.take(len) =~= items);
    assert(names.take(len) =~= names);
    assert(again.take(len) =~= again);
    assert forall|i: int| 0 <= i < n implies !item_needs(
        mode,
        download_pass(
            mode,
            download_pass(mode, state, items.take(n), names.take(n)),
            items.take(i),
            again.take(i),
        ),
        #[trigger] items[i],
    ) by {
        lemma_resumed_prefix(mode, state, items, names, again, n, i);
        lemma_prefix_settled(mode, state, items, names, n, i);
    }
}

/// Repetition: when the steps for all items have been taken, taking them
/// again downloads nothing and changes nothing.
pub proof fn law_repeated_run_changes_nothing(
    mode: InstallerMode,
    state: StateView,
    items: Seq<ItemView>,
    names: Seq<Seq<char>>,
    again: Seq<Seq<char>>,
)
    requires
        names.len() == items.len(),
        again.len() == items.len(),
        mode == InstallerMode::Update ==> consistent(items),
    ensures
        download_pass(mode, download_pass(mode, state, items, names), items, again)
            == download_pass(mode, state, items, names),
        forall|i: int|
            0 <= i < items.len() ==> !item_needs(
                mode,
                download_pass(mode, state, items, names),
                #[trigger] items[i],
            ),
{
    let len = items.len() as int;
    assert(items.take(len) =~= items);
    assert(names.take(len) =~= names);
    assert(again.take(len) =~= again);
    lemma_resumed_prefix(mode, state, items, names, again, len, len);
    assert forall|i: int| 0 <= i < items.len() implies !item_needs(
        mode,
        download_pass(mode, state, items, names),
        #[trigger] items[i],
    ) by {
        lemma_prefix_settled(mode, state, items, names, len, i);
    }
}

/// The item under the cursor of a phase that downloads and records.
pub open spec fn item_at(m: InstallerView, phase: Phase) -> ItemView {
    match phase {
        Phase::DownloadMods => ItemView::Mod(m.mods[m.cursor as int]),
        Phase::DownloadResources => ItemView::Resource(m.resources[m.cursor as int]),
        _ => ItemView::Loader(m.config.mod_loader),
    }
}

/// The download that an item asks for.
pub open spec fn item_request(item: ItemView) -> RequestView {
    match item {
        ItemView::Loader(loader) => loader_request(loader),
        ItemView::Mod(entry) => mod_request(entry),
        ItemView::Resource(entry) => resource_request(entry),
    }
}

/// Whether a phase downloads and records its items.
pub open spec fn records_items(phase: Phase) -> bool {
    phase == Phase::DownloadModLoader || phase == Phase::DownloadMods || phase
        == Phase::DownloadResources
}

/// An item that need not be downloaded takes one step, which changes
/// nothing but the count of steps.
pub proof fn law_settled_item_is_passed(m: InstallerView, phase: Phase)
    requires
        m.wf(),
        m.stage == (Stage::Working { phase, step: Step::Ready }),
        records_items(phase),
        m.cursor < m.phase_len(phase),
        !item_needs(m.mode, m.state, item_at(m, phase)),
    ensures
        step(m, ReportView::Done).installer == passed(m, phase),
        step(m, ReportView::Done).result == Ok::<DirectiveView, ErrorView>(
            DirectiveView {
                events: seq![progress(m.completed + 1, m.total)],
                work: WorkView::Nothing,
            },
        ),
{
}

/// An item that has to be downloaded takes four steps: the download is
/// asked for, once; the file, if its hash is the expected one, is brought
/// to its place; the item is recorded and the state stored; and the item
/// is behind. The state is then what [`item_done`] says.
pub proof fn law_needed_item_is_recorded(m: InstallerView, phase: Phase, fetched: OutcomeView)
    requires
        m.wf(),
        m.stage == (Stage::Working { phase, step: Step::Ready }),
        records_items(phase),
        m.cursor < m.phase_len(phase),
        item_needs(m.mode, m.state, item_at(m, phase)),
        ascii_case_eq(item_request(item_at(m, phase)).hash, fetched.hash),
    ensures
        ({
            let item = item_at(m, phase);
            let request = item_request(item);
            let asked = step(m, ReportView::Done);
            let checked = step(asked.installer, ReportView::Fetched(fetched));
            let placed = step(checked.installer, ReportView::Done);
            let stored = step(placed.installer, ReportView::Done);
            &&& asked.result == Ok::<DirectiveView, ErrorView>(
                DirectiveView {
                    events: seq![EventView::ChangeDetail(request.name)],
                    work: WorkView::Fetch { url: request.url, name: request.name },
                },
            )
            &&& checked.result matches Ok(directive) && directive.work == (WorkView::Deliver {
                file_name: fetched.file_name,
                dir: request.dir,
                decompress: request.decompress,
            })
            &&& placed.result matches Ok(directive) && directive.work == WorkView::Persist
            &&& placed.installer.state == item_done(m.mode, m.state, item, fetched.file_name)
            &&& stored.result matches Ok(directive) && directive.work == WorkView::Nothing
            &&& stored.installer == (InstallerView {
                state: item_done(m.mode, m.state, item, fetched.file_name),
                pending: fetched.file_name,
                ..passed(m, phase)
            })
        }),
{
}

/// The hash gate: a file whose hash is not the expected one ends the run.
/// The installer asks for nothing further, so the file is never brought to
/// its place, and the state stays as it was stored last.
pub proof fn law_wrong_hash_ends_run(m: InstallerView, phase: Phase, fetched: OutcomeView)
    requires
        m.wf(),
        m.stage == (Stage::Working { phase, step: Step::Fetching }),
        m.demand(phase) matches DemandView::Download(request) && !ascii_case_eq(
            request.hash,
            fetched.hash,
        ),
    ensures
        step(m, ReportView::Fetched(fetched)).result == Err::<DirectiveView, ErrorView>(
            ErrorView::HashMismatch {
                file_name: fetched.file_name,
                expected: m.demand(phase)->Download_0.hash,
                actual: fetched.hash,
            },
        ),
        step(m, ReportView::Fetched(fetched)).installer.stage == Stage::Failed,
        step(m, ReportView::Fetched(fetched)).installer.state == m.state,
        forall|report: ReportView|
            step(step(m, ReportView::Fetched(fetched)).installer, report).result is Err,
{
}

/// The removal of an obsolete mod: a mod that the manifest still lists
/// takes one step and stays; any other takes three, in which its file is
/// deleted, its record removed and the state stored. The state is then
/// what [`removal_item`] says.
pub proof fn law_obsolete_mod_is_removed(m: InstallerView)
    requires
        m.wf(),
        m.stage == (Stage::Working { phase: Phase::RemoveMods, step: Step::Ready }),
        m.cursor < m.obsolete.len(),
    ensures
        ({
            let record = m.obsolete[m.cursor as int];
            let asked = step(m, ReportView::Done);
            if m.config.has_mod(record.source) {
                asked.installer == passed(m, Phase::RemoveMods)
            } else {
                let removed = step(asked.installer, ReportView::Done);
                let stored = step(removed.installer, ReportView::Done);
                &&& asked.result matches Ok(directive) && directive.work == (WorkView::RemoveMod {
                    file_name: record.file_name,
                })
                &&& removed.result matches Ok(directive) && directive.work == WorkView::Persist
                &&& stored.installer == (InstallerView {
                    state: removal_item(m.config, m.state, record),
                    ..passed(m, Phase::RemoveMods)
                })
            }
        }),
{
}

/// The items that a run downloads and records, in the order of its steps:
/// the loader when installing, then the mods and the resources of the
/// manifest that belong on this side.
pub open spec fn planned_items(mode: InstallerMode, config: ConfigView, side: SideType) -> Seq<
    ItemView,
> {
    let loader = if mode == InstallerMode::Install {
        seq![ItemView::Loader(config.mod_loader)]
    } else {
        Seq::empty()
    };
    loader + applicable_mods(config.mods, side).map_values(|e: ModEntryView| ItemView::Mod(e))
        + applicable_resources(config.resources, side).map_values(
        |e: ResourceEntryView| ItemView::Resource(e),
    )
}

/// The state that a run works on: the stored state, or a fresh one, marked
/// with the run's mode.
pub open spec fn taken_up(
    mode: InstallerMode,
    config: ConfigView,
    version: VersionView,
    stored: Option<StateView>,
) -> StateView {
    let state = match stored {
        Some(state) => state,
        None => fresh_state(version, config.pack_version),
    };
    StateView { process_mode: Some(mode), ..state }
}

/// The state of a completed run.
pub open spec fn completed(
    mode: InstallerMode,
    config: ConfigView,
    version: VersionView,
    state: StateView,
) -> StateView {
    StateView {
        installer_version: version,
        pack_version: if mode == InstallerMode::Update {
            config.pack_version
        } else {
            state.pack_version
        },
        process_mode: None,
        ..state
    }
}

/// The state in which an installation ends that meets no failure. If the
/// stored state shows no run in progress, nothing is downloaded.
pub open spec fn install_result(
    config: ConfigView,
    side: SideType,
    version: VersionView,
    stored: Option<StateView>,
    names: Seq<Seq<char>>,
) -> StateView {
    let mode = InstallerMode::Install;
    let start = taken_up(mode, config, version, stored);
    if stored matches Some(state) && state.process_mode is None {
        completed(mode, config, version, start)
    } else {
        completed(
            mode,
            config,
            version,
            download_pass(mode, start, planned_items(mode, config, side), names),
        )
    }
}

/// The state in which an update ends that meets no failure.
pub open spec fn update_result(
    config: ConfigView,
    side: SideType,
    version: VersionView,
    stored: StateView,
    names: Seq<Seq<char>>,
) -> StateView {
    let mode = InstallerMode::Update;
    let start = taken_up(mode, config, version, Some(stored));
    completed(
        mode,
        config,
        version,
        download_pass(
            mode,
            removal_pass(config, start, start.mods),
            planned_items(mode, config, side),
            names,
        ),
    )
}

/// Idempotence: an installation that follows a completed installation,
/// with the stored state left in place, may run, downloads nothing, and
/// ends in the state in which the first one ended.
pub proof fn law_install_twice(
    config: ConfigView,
    side: SideType,
    version: VersionView,
    stored: Option<StateView>,
    names: Seq<Seq<char>>,
    again: Seq<Seq<char>>,
)
    ensures
        ({
            let first = install_result(config, side, version, stored, names);
            &&& install_verdict(first) is Ok
            &&& first.process_mode is None
            &&& install_result(config, side, version, Some(first), again) == first
        }),
{
}

/// Resumption of an installation: if the run is interrupted after the
/// steps for the first `n` of its items, a second run may take up the
/// state that was stored then; it ends in the state in which the first
/// would have ended. It downloads none of the first `n` items again, and
/// of the others those that the first run would have downloaded.
pub proof fn law_install_resumed(
    config: ConfigView,
    side: SideType,
    version: VersionView,
    stored: Option<StateView>,
    names: Seq<Seq<char>>,
    again: Seq<Seq<char>>,
    n: int,
)
    requires
        !(stored matches Some(state) && state.process_mode is None),
        names.len() == planned_items(InstallerMode::Install, config, side).len(),
        again.len() == names.len(),
        0 <= n <= names.len(),
        forall|i: int| n <= i < names.len() ==> again[i] == names[i],
    ensures
        ({
            let mode = InstallerMode::Install;
            let items = planned_items(mode, config, side);
            let start = taken_up(mode, config, version, stored);
            let interrupted = download_pass(mode, start, items.take(n), names.take(n));
            &&& install_verdict(interrupted) is Ok
            &&& install_result(config, side, version, Some(interrupted), again)
                == install_result(config, side, version, stored, names)
            &&& forall|i: int|
                0 <= i < n ==> !item_needs(
                    mode,
                    download_pass(mode, interrupted, items.take(i), again.take(i)),
                    #[trigger] items[i],
                )
            &&& forall|i: int|
                n <= i < items.len() ==> item_needs(
                    mode,
                    download_pass(mode, interrupted, items.take(i), again.take(i)),
                    #[trigger] items[i],
                ) == item_needs(
                    mode,
                    download_pass(mode, start, items.take(i), names.take(i)),
                    items[i],
                )
        }),
{
    let mode = InstallerMode::Install;
    let items = planned_items(mode, config, side);
    let start = taken_up(mode, config, version, stored);
    let interrupted = download_pass(mode, start, items.take(n), names.take(n));
    lemma_pass_keeps_mode(mode, start, items.take(n), names.take(n));
    law_resumed_run_ends_alike(mode, start, items, names, again, n);
    assert(taken_up(mode, config, version, Some(interrupted)) == interrupted);
}

/// The steps for items change the loader and the lists, and nothing else.
pub proof fn lemma_pass_keeps_mode(
    mode: InstallerMode,
    state: StateView,
    items: Seq<ItemView>,
    names: Seq<Seq<char>>,
)
    ensures
        download_pass(mode, state, items, names).process_mode == state.process_mode,
        download_pass(mode, state, items, names).pack_version == state.pack_version,
        download_pass(mode, state, items, names).installer_version == state.installer_version,
    decreases items.len(),
{
    if items.len() > 0 {
        lemma_pass_keeps_mode(mode, state, items.drop_last(), names.drop_last());
    }
}

/// A removal step leaves the records of listed mods as they are, and
/// touches nothing but the list of mods.
proof fn lemma_removal_item_keeps(config: ConfigView, state: StateView, record: ModStateView)
    ensures
        removal_item(config, state, record) == (StateView {
            mods: removal_item(config, state, record).mods,
            ..state
        }),
        kept_mods(config, removal_item(config, state, record).mods) == kept_mods(
            config,
            state.mods,
        ),
{
    let keep = |m: ModStateView| config.has_mod(m.source);
    if !config.has_mod(record.source) {
        lemma_last_index(mod_keys(state.mods), record.source);
        match state.mod_position(record.source) {
            Some(i) => {
                lemma_filter_split(state.mods, keep, i);
                assert(state.mods[i].source == record.source);
            },
            None => {},
        }
    }
}

/// Removal steps, however many, leave the records of listed mods as they
/// are, and touch nothing but the list of mods.
pub proof fn lemma_removal_keeps(config: ConfigView, state: StateView, obsolete: Seq<ModStateView>)
    ensures
        removal_pass(config, state, obsolete) == (StateView {
            mods: removal_pass(config, state, obsolete).mods,
            ..state
        }),
        kept_mods(config, removal_pass(config, state, obsolete).mods) == kept_mods(
            config,
            state.mods,
        ),
    decreases obsolete.len(),
{
    if obsolete.len() > 0 {
        lemma_removal_item_keeps(config, state, obsolete[0]);
        lemma_removal_keeps(
            config,
            removal_item(config, state, obsolete[0]),
            obsolete.drop_first(),
        );
    }
}

/// Resumption of an update that was interrupted while it removed obsolete
/// mods: a second run may take up the state that was stored after the
/// first `j` removal steps, and ends in the state in which the first would
/// have ended.
pub proof fn law_update_resumed_in_removal(
    config: ConfigView,
    side: SideType,
    version: VersionView,
    stored: StateView,
    names: Seq<Seq<char>>,
    j: int,
)
    requires
        0 <= j <= stored.mods.len(),
    ensures
        ({
            let mode = InstallerMode::Update;
            let start = taken_up(mode, config, version, Some(stored));
            let interrupted = removal_pass(config, start, start.mods.take(j));
            &&& update_verdict(config, Some(interrupted)) is Ok
            &&& update_result(config, side, version, interrupted, names) == update_result(
                config,
                side,
                version,
                stored,
                names,
            )
        }),
{
    let mode = InstallerMode::Update;
    let start = taken_up(mode, config, version, Some(stored));
    let interrupted = removal_pass(config, start, start.mods.take(j));
    lemma_removal_keeps(config, start, start.mods.take(j));
    law_removal_leaves_listed_mods(config, start);
    law_removal_leaves_listed_mods(config, interrupted);
    assert(taken_up(mode, config, version, Some(interrupted)) == interrupted);
}

/// Every mod among the planned items is listed in the manifest.
proof fn lemma_planned_mods_listed(
    mode: InstallerMode,
    config: ConfigView,
    side: SideType,
    i: int,
)
    requires
        0 <= i < planned_items(mode, config, side).len(),
    ensures
        planned_items(mode, config, side)[i] matches ItemView::Mod(entry) ==> config.has_mod(
            entry.source,
        ),
{
    let items = planned_items(mode, config, side);
    let applies = |e: ModEntryView| e.side.applies_to(side);
    let mods = applicable_mods(config.mods, side);
    match items[i] {
        ItemView::Mod(entry) => {
            let first: int = if mode == InstallerMode::Install {
                1
            } else {
                0
            };
            assert(first <= i < first + mods.len());
            assert(mods[i - first] == entry);
            assert(mods.contains(entry));
            config.mods.lemma_filter_contains_rev(applies, entry);
            let k = choose|k: int| 0 <= k < config.mods.len() && config.mods[k] == entry;
            assert(config.mods[k].source == entry.source);
        },
        _ => {},
    }
}

/// Steps for items whose mods are all listed in the manifest keep a list
/// of mod records in which every record is of a listed mod that way.
proof fn lemma_pass_keeps_listed(
    mode: InstallerMode,
    config: ConfigView,
    state: StateView,
    items: Seq<ItemView>,
    names: Seq<Seq<char>>,
)
    requires
        forall|i: int|
            0 <= i < items.len() ==> (#[trigger] items[i] matches ItemView::Mod(entry)
                ==> config.has_mod(entry.source)),
        forall|i: int| 0 <= i < state.mods.len() ==> config.has_mod(state.mods[i].source),
    ensures
        forall|i: int|
            0 <= i < download_pass(mode, state, items, names).mods.len() ==> config.has_mod(
                download_pass(mode, state, items, names).mods[i].source,
            ),
    decreases items.len(),
{
    if items.len() > 0 {
        lemma_pass_keeps_listed(mode, config, state, items.drop_last(), names.drop_last());
        assert(items.last() == items[items.len() - 1]);
        let before = download_pass(mode, state, items.drop_last(), names.drop_last());
        let after = download_pass(mode, state, items, names);
        match items.last() {
            ItemView::Mod(entry) => {
                if item_needs(mode, before, items.last()) {
                    lemma_other_mods(before.mods, entry.source, entry.source);
                    let kept = crate::state::other_mods(before.mods, entry.source);
                    assert forall|i: int| 0 <= i < after.mods.len() implies config.has_mod(
                        after.mods[i].source,
                    ) by {
                        if i < kept.len() {
                            assert(before.mods.contains(kept[i]));
                            let k = choose|k: int|
                                0 <= k < before.mods.len() && before.mods[k] == kept[i];
                            assert(config.has_mod(before.mods[k].source));
                        }
                    }
                }
            },
            _ => {},
        }
    }
}

/// Resumption of an update that was interrupted while it downloaded: if
/// the run is interrupted after the steps for the first `n` of its items,
/// a second run may take up the state that was stored then; it removes
/// nothing more, ends in the state in which the first would have ended,
/// and downloads none of the first `n` items again.
///
/// The manifest must not ask for two contents of one item.
pub proof fn law_update_resumed_in_download(
    config: ConfigView,
    side: SideType,
    version: VersionView,
    stored: StateView,
    names: Seq<Seq<char>>,
    again: Seq<Seq<char>>,
    n: int,
)
    requires
        names.len() == planned_items(InstallerMode::Update, config, side).len(),
        again.len() == names.len(),
        0 <= n <= names.len(),
        forall|i: int| n <= i < names.len() ==> again[i] == names[i],
        consistent(planned_items(InstallerMode::Update, config, side)),
    ensures
        ({
            let mode = InstallerMode::Update;
            let items = planned_items(mode, config, side);
            let start = taken_up(mode, config, version, Some(stored));
            let removed = removal_pass(config, start, start.mods);
            let interrupted = download_pass(mode, removed, items.take(n), names.take(n));
            &&& update_verdict(config, Some(interrupted)) is Ok
            &&& removal_pass(config, interrupted, interrupted.mods) == interrupted
            &&& update_result(config, side, version, interrupted, again) == update_result(
                config,
                side,
                version,
                stored,
                names,
            )
            &&& forall|i: int|
                0 <= i < n ==> !item_needs(
                    mode,
                    download_pass(mode, interrupted, items.take(i), again.take(i)),
                    #[trigger] items[i],
                )
        }),
{
    let mode = InstallerMode::Update;
    let items = planned_items(mode, config, side);
    let start = taken_up(mode, config, version, Some(stored));
    let removed = removal_pass(config, start, start.mods);
    let interrupted = download_pass(mode, removed, items.take(n), names.take(n));
    law_removal_leaves_listed_mods(config, start);
    assert forall|i: int| 0 <= i < items.take(n).len() implies (#[trigger] items.take(
        n,
    )[i] matches ItemView::Mod(entry) ==> config.has_mod(entry.source)) by {
        lemma_planned_mods_listed(mode, config, side, i);
    }
    lemma_pass_keeps_listed(mode, config, removed, items.take(n), names.take(n));
    lemma_pass_keeps_mode(mode, removed, items.take(n), names.take(n));
    lemma_filter_all(interrupted.mods, |m: ModStateView| config.has_mod(m.source));
    law_removal_leaves_listed_mods(config, interrupted);
    law_resumed_run_ends_alike(mode, removed, items, names, again, n);
    assert(taken_up(mode, config, version, Some(interrupted)) == interrupted);
}

/// A changed upload: when the manifest asks for other content of a mod
/// than was recorded, an update downloads the mod again. Afterwards the
/// state holds one record of that mod, which has the manifest's hash; the
/// record with the old hash has gone.
pub proof fn law_update_refreshes_changed_mod(
    state: StateView,
    entry: ModEntryView,
    name: Seq<char>,
)
    requires
        state.find_mod(entry.source) is Some,
        !ascii_case_eq(state.find_mod(entry.source)->0.hash, entry.hash),
    ensures
        item_needs(InstallerMode::Update, state, ItemView::Mod(entry)),
        item_done(InstallerMode::Update, state, ItemView::Mod(entry), name).find_mod(
            entry.source,
        ) == Some(mod_record(entry, name)),
        mod_record(entry, name).hash == entry.hash,
        count_mods(
            item_done(InstallerMode::Update, state, ItemView::Mod(entry), name).mods,
            entry.source,
        ) == 1,
        forall|i: int|
            0 <= i < item_done(
                InstallerMode::Update,
                state,
                ItemView::Mod(entry),
                name,
            ).mods.len() && (#[trigger] item_done(
                InstallerMode::Update,
                state,
                ItemView::Mod(entry),
                name,
            ).mods[i]).source == entry.source ==> item_done(
                InstallerMode::Update,
                state,
                ItemView::Mod(entry),
                name,
            ).mods[i] == mod_record(entry, name),
{
    let record = mod_record(entry, name);
    let after = item_done(InstallerMode::Update, state, ItemView::Mod(entry), name);
    lemma_put_mod(state.mods, record, entry.source);
    lemma_other_mods(state.mods, entry.source, entry.source);
    let kept = crate::state::other_mods(state.mods, entry.source);
    crate::state::lemma_count_zero(kept, entry.source);
    assert(after.mods == kept.push(record));
}

/// A step for an item leaves no two records of one item in lists that had
/// none.
pub proof fn law_items_keep_lists_unique(
    mode: InstallerMode,
    state: StateView,
    item: ItemView,
    name: Seq<char>,
)
    requires
        state.unique(),
    ensures
        item_done(mode, state, item, name).unique(),
{
    match item {
        ItemView::Loader(_) => {},
        ItemView::Mod(entry) => {
            lemma_put_mod(state.mods, mod_record(entry, name), entry.source);
        },
        ItemView::Resource(entry) => {
            lemma_put_resource(
                state.resources,
                resource_record(entry, name),
                (entry.source, entry.target_dir),
            );
        },
    }
}

/// Before a run: without a stored state an installation may run and an
/// update may not; a stored state that shows an installation in progress
/// lets the installation run on and bars an update; and a stored state
/// that shows no run in progress, at the manifest's package version, needs
/// no update.
pub proof fn law_what_may_run(config: ConfigView, stored: StateView)
    ensures
        crate::installer::can_install_verdict(true, None) is Ok,
        update_verdict(config, None) == Err::<(), ErrorView>(ErrorView::StateNotFound),
        stored.process_mode == Some(InstallerMode::Install) ==> {
            &&& crate::installer::can_install_verdict(true, Some(stored)) is Ok
            &&& update_verdict(config, Some(stored)) == Err::<(), ErrorView>(
                ErrorView::AnotherModeInProgress(InstallerMode::Install),
            )
        },
        stored.process_mode is None && stored.pack_version == config.pack_version
            ==> update_verdict(config, Some(stored)) == Err::<(), ErrorView>(
            ErrorView::NoUpdateNeeded,
        ),
{
}

/// When the last item of a run is behind, every step of the run has been
/// counted.
pub proof fn law_all_steps_are_counted(m: InstallerView, phase: Phase)
    requires
        m.wf(),
        m.stage == (Stage::Working { phase, step: Step::Ready }),
        m.cursor == m.phase_len(phase),
        crate::protocol::next_phase(m.mode, phase) is None,
    ensures
        m.completed == m.total,
{
}

/// While the items are worked through, the count of steps never falls, and
/// the number of steps stays what it is.
pub proof fn law_progress_never_falls(m: InstallerView, report: ReportView)
    requires
        m.wf(),
        m.stage is Working,
    ensures
        step(m, report).installer.completed >= m.completed,
        step(m, report).installer.completed <= m.completed + 1,
        step(m, report).installer.total == m.total,
{
}

/// A download is asked for only for the item under the cursor, and only
/// if that item has to be downloaded.
pub proof fn law_download_only_when_needed(m: InstallerView, report: ReportView)
    requires
        step(m, report).result matches Ok(directive) && directive.work is Fetch,
    ensures
        m.stage is Working,
        m.stage->Working_step == Step::Ready,
        m.demand(m.stage->Working_phase) is Download,
        records_items(m.stage->Working_phase) ==> m.cursor < m.phase_len(m.stage->Working_phase)
            && item_needs(m.mode, m.state, item_at(m, m.stage->Working_phase)),
{
}

/// Durability: whenever a step changes the state, the installer asks at
/// once that the state be stored, and it asks for nothing else before
/// that is done. An interruption therefore loses at most the item that
/// was being worked on.
pub proof fn law_every_change_is_stored(m: InstallerView, report: ReportView)
    requires
        m.wf(),
        m.stage != Stage::LoadingState,
        step(m, report).installer.state != m.state,
    ensures
        step(m, report).result matches Ok(directive) && directive.work == WorkView::Persist,
        step(m, report).installer.stage == Stage::Finalizing || (step(
            m,
            report,
        ).installer.stage is Working && step(m, report).installer.stage->Working_step
            == Step::Saving),
{
}

/// A state that is taken up is stored with the run's mark before anything
/// else is done.
pub proof fn law_taken_state_is_stored(m: InstallerView, found: Option<StateView>)
    requires
        m.wf(),
        m.stage == Stage::LoadingState,
        step(m, ReportView::State(found)).result is Ok,
    ensures
        step(m, ReportView::State(found)).result->Ok_0.work == WorkView::Persist,
        step(m, ReportView::State(found)).installer.state.process_mode == Some(m.mode),
        step(m, ReportView::State(found)).installer.stage is SavingMode,
{
}

/// The steps of a run are counted when the stored state is taken up, by
/// the rule of [`crate::installer::total_steps`]; an installation that
/// only has the profile left to register counts none.
pub proof fn law_steps_are_counted_up_front(m: InstallerView, found: Option<StateView>)
    requires
        m.wf(),
        m.stage == Stage::LoadingState,
        step(m, ReportView::State(found)).result is Ok,
    ensures
        ({
            let taken = step(m, ReportView::State(found)).installer;
            let stored = match found {
                Some(state) => state,
                None => fresh_state(m.installer_version, m.config.pack_version),
            };
            if taken.stage == (Stage::SavingMode { retry: true }) {
                taken.total == 0
            } else {
                taken.total == crate::installer::total_steps(m.mode, m.config, m.side, stored)
            }
        }),
{
}

/// No step of the installer leaves two records of one item: if the state
/// has none, and the stored state that is reported has none, the state
/// after the step has none.
pub proof fn law_steps_keep_lists_unique(m: InstallerView, report: ReportView)
    requires
        m.wf(),
        m.state.unique(),
        report matches ReportView::State(Some(found)) ==> found.unique(),
    ensures
        step(m, report).installer.state.unique(),
{
    let after = step(m, report).installer.state;
    match m.stage {
        Stage::LoadingState => {
            let fresh = fresh_state(m.installer_version, m.config.pack_version);
            assert(fresh.unique()) by {
                reveal(Seq::filter);
            }
        },
        Stage::Working { phase, step } => {
            if step == Step::Delivering && after != m.state {
                if phase == Phase::DownloadMods {
                    let record = mod_record(m.mods[m.cursor as int], m.pending);
                    lemma_put_mod(m.state.mods, record, record.source);
                } else if phase == Phase::DownloadResources {
                    let record = resource_record(m.resources[m.cursor as int], m.pending);
                    lemma_put_resource(
                        m.state.resources,
                        record,
                        (record.source, record.target_dir),
                    );
                }
            } else if step == Step::Removing && after != m.state {
                let source = m.obsolete[m.cursor as int].source;
                lemma_last_index(mod_keys(m.state.mods), source);
                crate::state::lemma_remove_keeps_unique(
                    m.state.mods,
                    m.state.mod_position(source)->0,
                );
            }
        },
        _ => {},
    }
}

} // verus!
