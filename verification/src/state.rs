//! The persisted state of an installation: what has been fetched and placed,
//! and which run, if any, is in progress.

use vstd::prelude::*;
use crate::config::{
    views, ModEntry, ModEntryView, ModLoader, ModLoaderView, ResourceEntry, ResourceEntryView,
    SourceType, SourceView,
};
use crate::installer::InstallerMode;
use crate::text::ascii_case_eq;
use crate::version::{PackVersion, VersionView};

verus! {

/// The record of an installed loader.
#[derive(Debug, PartialEq, Eq)]
pub struct ModLoaderState {
    pub file_name: String,
    pub url: String,
    pub hash: String,
}

/// The mathematical value of a [`ModLoaderState`].
pub struct ModLoaderStateView {
    pub file_name: Seq<char>,
    pub url: Seq<char>,
    pub hash: Seq<char>,
}

impl View for ModLoaderState {
    type V = ModLoaderStateView;

    open spec fn view(&self) -> ModLoaderStateView {
        ModLoaderStateView { file_name: self.file_name@, url: self.url@, hash: self.hash@ }
    }
}

impl ModLoaderStateView {
    /// The record is of the loader that the manifest describes, content
    /// included.
    pub open spec fn equals(self, config: ModLoaderView) -> bool {
        self.url == config.url && ascii_case_eq(self.hash, config.hash)
    }
}

impl ModLoaderState {
    /// Whether this record is of the loader that the manifest describes:
    /// the same address and the same content hash. Hashes are written in
    /// hexadecimal digits, whose case does not matter.
    pub fn equals(&self, config: &ModLoader) -> (r: bool)
        ensures
            r == self@.equals(config@),
    {
        self.url == config.url && self.hash.as_str().eq_ignore_ascii_case(config.hash.as_str())
    }
}

impl Clone for ModLoaderState {
    fn clone(&self) -> (r: Self)
        ensures
            r@ == self@,
    {
        ModLoaderState {
            file_name: self.file_name.clone(),
            url: self.url.clone(),
            hash: self.hash.clone(),
        }
    }
}

/// The record of an installed mod.
#[derive(Debug, PartialEq, Eq)]
pub struct ModState {
    pub file_name: String,
    pub source: SourceType,
    pub hash: String,
}

/// The mathematical value of a [`ModState`].
pub struct ModStateView {
    pub file_name: Seq<char>,
    pub source: SourceView,
    pub hash: Seq<char>,
}

impl View for ModState {
    type V = ModStateView;

    open spec fn view(&self) -> ModStateView {
        ModStateView { file_name: self.file_name@, source: self.source@, hash: self.hash@ }
    }
}

impl ModStateView {
    /// The record is of the mod that the entry asks for: the same source,
    /// and, unless the hash is to be ignored, the same content hash.
    pub open spec fn equals(self, config: ModEntryView, is_ignore_hash: bool) -> bool {
        self.source == config.source && (is_ignore_hash || ascii_case_eq(self.hash, config.hash))
    }
}

impl ModState {
    /// Whether this record is of the mod that the entry asks for. The
    /// sources must be equal; the content hashes too, whatever the case
    /// of their digits, unless `is_ignore_hash` is set.
    pub fn equals(&self, config: &ModEntry, is_ignore_hash: bool) -> (r: bool)
        ensures
            r == self@.equals(config@, is_ignore_hash),
    {
        self.source == config.source && (is_ignore_hash || self.hash.as_str().eq_ignore_ascii_case(
            config.hash.as_str(),
        ))
    }
}

impl Clone for ModState {
    fn clone(&self) -> (r: Self)
        ensures
            r@ == self@,
    {
        ModState {
            file_name: self.file_name.clone(),
            source: self.source.clone(),
            hash: self.hash.clone(),
        }
    }
}

/// The record of an installed resource.
#[derive(Debug, PartialEq, Eq)]
pub struct ResourceState {
    pub file_name: String,
    pub source: SourceType,
    pub hash: String,
    pub target_dir: String,
    pub decompress: bool,
}

/// The mathematical value of a [`ResourceState`].
pub struct ResourceStateView {
    pub file_name: Seq<char>,
    pub source: SourceView,
    pub hash: Seq<char>,
    pub target_dir: Seq<char>,
    pub decompress: bool,
}

impl View for ResourceState {
    type V = ResourceStateView;

    open spec fn view(&self) -> ResourceStateView {
        ResourceStateView {
            file_name: self.file_name@,
            source: self.source@,
            hash: self.hash@,
            target_dir: self.target_dir@,
            decompress: self.decompress,
        }
    }
}

impl ResourceStateView {
    /// The record is of the resource that the entry asks for, content
    /// included.
    pub open spec fn equals(self, config: ResourceEntryView) -> bool {
        self.source == config.source && ascii_case_eq(self.hash, config.hash)
    }
}

impl ResourceState {
    /// Whether this record is of the resource that the entry asks for: the
    /// same source and the same content hash, whatever the case of its
    /// digits.
    pub fn equals(&self, config: &ResourceEntry) -> (r: bool)
        ensures
            r == self@.equals(config@),
    {
        self.source == config.source && self.hash.as_str().eq_ignore_ascii_case(
            config.hash.as_str(),
        )
    }
}

impl Clone for ResourceState {
    fn clone(&self) -> (r: Self)
        ensures
            r@ == self@,
    {
        ResourceState {
            file_name: self.file_name.clone(),
            source: self.source.clone(),
            hash: self.hash.clone(),
            target_dir: self.target_dir.clone(),
            decompress: self.decompress,
        }
    }
}

/// The position of the item of `keys` that equals `key`; should the key
/// occur more than once, the position of its last occurrence.
pub open spec fn last_index<K>(keys: Seq<K>, key: K) -> Option<int>
    decreases keys.len(),
{
    if keys.len() == 0 {
        None
    } else if keys.last() == key {
        Some(keys.len() - 1)
    } else {
        last_index(keys.drop_last(), key)
    }
}

/// What [`last_index`] finds is a position of `key` behind which `key` does
/// not occur again; it finds nothing only if `key` does not occur.
pub proof fn lemma_last_index<K>(keys: Seq<K>, key: K)
    ensures
        match last_index(keys, key) {
            Some(i) => 0 <= i < keys.len() && keys[i] == key && forall|j: int|
                i < j < keys.len() ==> keys[j] != key,
            None => forall|j: int| 0 <= j < keys.len() ==> keys[j] != key,
        },
    decreases keys.len(),
{
    if keys.len() > 0 && keys.last() != key {
        let front = keys.drop_last();
        lemma_last_index(front, key);
        assert forall|j: int| 0 <= j < front.len() implies front[j] == keys[j] by {}
        match last_index(front, key) {
            Some(i) => {
                assert forall|j: int| i < j < keys.len() implies keys[j] != key by {
                    if j < front.len() {
                        assert(front[j] != key);
                    }
                }
            },
            None => {
                assert forall|j: int| 0 <= j < keys.len() implies keys[j] != key by {
                    if j < front.len() {
                        assert(front[j] != key);
                    }
                }
            },
        }
    }
}

/// The sources of a list of mod records, in order.
pub open spec fn mod_keys(mods: Seq<ModStateView>) -> Seq<SourceView> {
    mods.map_values(|m: ModStateView| m.source)
}

/// The source and target directory of each of a list of resource records.
pub open spec fn resource_keys(resources: Seq<ResourceStateView>) -> Seq<(SourceView, Seq<char>)> {
    resources.map_values(|r: ResourceStateView| (r.source, r.target_dir))
}

/// A sequence is its part before a position, the item there, and the rest.
pub proof fn lemma_filter_split<A>(s: Seq<A>, pred: spec_fn(A) -> bool, i: int)
    requires
        0 <= i < s.len(),
    ensures
        s.filter(pred) == s.take(i).filter(pred) + seq![s[i]].filter(pred) + s.skip(i + 1).filter(
            pred,
        ),
        s.remove(i).filter(pred) == s.take(i).filter(pred) + s.skip(i + 1).filter(pred),
        seq![s[i]].filter(pred) == if pred(s[i]) {
            seq![s[i]]
        } else {
            Seq::<A>::empty()
        },
{
    let a = s.take(i);
    let b = seq![s[i]];
    let c = s.skip(i + 1);
    assert(s =~= a + b + c);
    assert(s.remove(i) =~= a + c);
    Seq::filter_distributes_over_add(a + b, c, pred);
    Seq::filter_distributes_over_add(a, b, pred);
    Seq::filter_distributes_over_add(a, c, pred);
    reveal_with_fuel(Seq::filter, 2);
    assert(b.drop_last() =~= Seq::<A>::empty());
    assert(b.filter(pred) =~= if pred(s[i]) {
        seq![s[i]]
    } else {
        Seq::<A>::empty()
    });
}

/// A sequence all of whose items pass a filter is left as it is.
pub proof fn lemma_filter_all<A>(s: Seq<A>, pred: spec_fn(A) -> bool)
    requires
        forall|i: int| 0 <= i < s.len() ==> pred(s[i]),
    ensures
        s.filter(pred) == s,
    decreases s.len(),
{
    reveal(Seq::filter);
    if s.len() > 0 {
        lemma_filter_all(s.drop_last(), pred);
        assert(s.drop_last().push(s.last()) =~= s);
    }
}

/// The records of mods other than the one with this source, in order.
pub open spec fn other_mods(mods: Seq<ModStateView>, source: SourceView) -> Seq<ModStateView> {
    mods.filter(|m: ModStateView| m.source != source)
}

/// The list with the record of a mod put in: the record stands at the end,
/// and what was recorded of that mod before has gone.
pub open spec fn put_mod(mods: Seq<ModStateView>, record: ModStateView) -> Seq<ModStateView> {
    other_mods(mods, record.source).push(record)
}

/// How many of `mods` have this source.
pub open spec fn count_mods(mods: Seq<ModStateView>, source: SourceView) -> nat {
    mods.filter(|m: ModStateView| m.source == source).len()
}

/// No two of `mods` have the same source.
pub open spec fn unique_mods(mods: Seq<ModStateView>) -> bool {
    forall|source: SourceView| count_mods(mods, source) <= 1
}

/// The list that results when the records of `mods` are put in one after
/// the other: of records of the same mod, the last is left.
pub open spec fn rebuilt_mods(mods: Seq<ModStateView>) -> Seq<ModStateView>
    decreases mods.len(),
{
    if mods.len() == 0 {
        Seq::empty()
    } else {
        put_mod(rebuilt_mods(mods.drop_last()), mods.last())
    }
}

/// The records of resources other than the one with this source and
/// target directory, in order.
pub open spec fn other_resources(
    resources: Seq<ResourceStateView>,
    source: SourceView,
    target_dir: Seq<char>,
) -> Seq<ResourceStateView> {
    resources.filter(|r: ResourceStateView| !(r.source == source && r.target_dir == target_dir))
}

/// The list with the record of a resource put in: the record stands at the
/// end, and what was recorded of that resource for that directory before
/// has gone.
pub open spec fn put_resource(
    resources: Seq<ResourceStateView>,
    record: ResourceStateView,
) -> Seq<ResourceStateView> {
    other_resources(resources, record.source, record.target_dir).push(record)
}

/// How many of `resources` have this source and target directory.
pub open spec fn count_resources(
    resources: Seq<ResourceStateView>,
    source: SourceView,
    target_dir: Seq<char>,
) -> nat {
    resources.filter(|r: ResourceStateView| r.source == source && r.target_dir == target_dir).len()
}

/// No two of `resources` have the same source and target directory.
pub open spec fn unique_resources(resources: Seq<ResourceStateView>) -> bool {
    forall|source: SourceView, target_dir: Seq<char>|
        count_resources(resources, source, target_dir) <= 1
}

/// The list that results when the records of `resources` are put in one
/// after the other.
pub open spec fn rebuilt_resources(resources: Seq<ResourceStateView>) -> Seq<ResourceStateView>
    decreases resources.len(),
{
    if resources.len() == 0 {
        Seq::empty()
    } else {
        put_resource(rebuilt_resources(resources.drop_last()), resources.last())
    }
}

/// The record that is found for a source in a list of mod records.
pub open spec fn found_mod(mods: Seq<ModStateView>, source: SourceView) -> Option<ModStateView> {
    match last_index(mod_keys(mods), source) {
        Some(i) => Some(mods[i]),
        None => None,
    }
}

/// The record that is found for a source and target directory in a list of
/// resource records.
pub open spec fn found_resource(
    resources: Seq<ResourceStateView>,
    source: SourceView,
    target_dir: Seq<char>,
) -> Option<ResourceStateView> {
    match last_index(resource_keys(resources), (source, target_dir)) {
        Some(i) => Some(resources[i]),
        None => None,
    }
}

/// With one more record at its end, a list holds one more record of that
/// record's mod, and as many of any other.
pub proof fn lemma_count_mods_push(mods: Seq<ModStateView>, record: ModStateView, source: SourceView)
    ensures
        count_mods(mods.push(record), source) == count_mods(mods, source) + if record.source
            == source {
            1nat
        } else {
            0nat
        },
{
    reveal(Seq::filter);
    assert(mods.push(record).drop_last() =~= mods);
}

/// Without the records of one mod, a list holds none of that mod, and as
/// many of any other as before, each found as before.
pub proof fn lemma_other_mods(mods: Seq<ModStateView>, gone: SourceView, source: SourceView)
    ensures
        count_mods(other_mods(mods, gone), source) == if source == gone {
            0
        } else {
            count_mods(mods, source)
        },
        source != gone ==> found_mod(other_mods(mods, gone), source) == found_mod(mods, source),
        forall|i: int|
            0 <= i < other_mods(mods, gone).len() ==> mods.contains(
                #[trigger] other_mods(mods, gone)[i],
            ),
    decreases mods.len(),
{
    reveal(Seq::filter);
    if mods.len() > 0 {
        let front = mods.drop_last();
        let last = mods.last();
        lemma_other_mods(front, gone, source);
        assert(front.push(last) =~= mods);
        lemma_count_mods_push(front, last, source);
        assert(mod_keys(mods).drop_last() =~= mod_keys(front));
        assert(mod_keys(mods).last() == last.source);
        lemma_last_index(mod_keys(front), source);
        assert forall|i: int| 0 <= i < other_mods(mods, gone).len() implies mods.contains(
            #[trigger] other_mods(mods, gone)[i],
        ) by {
            if i < other_mods(front, gone).len() {
                let x = other_mods(front, gone)[i];
                assert(front.contains(x));
                let k = choose|k: int| 0 <= k < front.len() && front[k] == x;
                assert(mods[k] == x);
            } else {
                assert(mods[mods.len() - 1] == last);
            }
        }
        if last.source != gone {
            let kept = other_mods(front, gone);
            assert(other_mods(mods, gone) == kept.push(last));
            lemma_count_mods_push(kept, last, source);
            assert(mod_keys(kept.push(last)).drop_last() =~= mod_keys(kept));
            assert(mod_keys(kept.push(last)).last() == last.source);
            lemma_last_index(mod_keys(kept), source);
        }
    }
}

/// What putting in the record of a mod does: of that mod the list then
/// holds this one record, and it is the record found for it; of any other
/// mod the list holds what it held, found as before.
pub proof fn lemma_put_mod(mods: Seq<ModStateView>, record: ModStateView, source: SourceView)
    ensures
        count_mods(put_mod(mods, record), source) == if source == record.source {
            1
        } else {
            count_mods(mods, source)
        },
        found_mod(put_mod(mods, record), source) == if source == record.source {
            Some(record)
        } else {
            found_mod(mods, source)
        },
        unique_mods(mods) ==> unique_mods(put_mod(mods, record)),
{
    let kept = other_mods(mods, record.source);
    lemma_other_mods(mods, record.source, source);
    lemma_count_mods_push(kept, record, source);
    assert(mod_keys(kept.push(record)).drop_last() =~= mod_keys(kept));
    assert(mod_keys(kept.push(record)).last() == record.source);
    lemma_last_index(mod_keys(kept), source);
    if unique_mods(mods) {
        assert forall|s: SourceView| count_mods(put_mod(mods, record), s) <= 1 by {
            lemma_other_mods(mods, record.source, s);
            lemma_count_mods_push(kept, record, s);
        }
    }
}

/// What is rebuilt from a list of mod records has no two records of the
/// same mod.
pub proof fn lemma_rebuilt_mods_unique(mods: Seq<ModStateView>)
    ensures
        unique_mods(rebuilt_mods(mods)),
    decreases mods.len(),
{
    reveal(Seq::filter);
    if mods.len() > 0 {
        lemma_rebuilt_mods_unique(mods.drop_last());
        lemma_put_mod(rebuilt_mods(mods.drop_last()), mods.last(), mods.last().source);
    } else {
        assert forall|s: SourceView| count_mods(Seq::<ModStateView>::empty(), s) <= 1 by {}
    }
}

/// With one more record at its end, a list holds one more record of that
/// record's resource, and as many of any other.
pub proof fn lemma_count_resources_push(
    resources: Seq<ResourceStateView>,
    record: ResourceStateView,
    source: SourceView,
    target_dir: Seq<char>,
)
    ensures
        count_resources(resources.push(record), source, target_dir) == count_resources(
            resources,
            source,
            target_dir,
        ) + if record.source == source && record.target_dir == target_dir {
            1nat
        } else {
            0nat
        },
{
    reveal(Seq::filter);
    assert(resources.push(record).drop_last() =~= resources);
}

/// Without the records of one resource, a list holds none of that
/// resource, and as many of any other as before, each found as before.
pub proof fn lemma_other_resources(
    resources: Seq<ResourceStateView>,
    gone: (SourceView, Seq<char>),
    key: (SourceView, Seq<char>),
)
    ensures
        count_resources(other_resources(resources, gone.0, gone.1), key.0, key.1) == if key
            == gone {
            0
        } else {
            count_resources(resources, key.0, key.1)
        },
        key != gone ==> found_resource(other_resources(resources, gone.0, gone.1), key.0, key.1)
            == found_resource(resources, key.0, key.1),
    decreases resources.len(),
{
    reveal(Seq::filter);
    if resources.len() > 0 {
        let front = resources.drop_last();
        let last = resources.last();
        lemma_other_resources(front, gone, key);
        assert(front.push(last) =~= resources);
        lemma_count_resources_push(front, last, key.0, key.1);
        assert(resource_keys(resources).drop_last() =~= resource_keys(front));
        assert(resource_keys(resources).last() == (last.source, last.target_dir));
        lemma_last_index(resource_keys(front), key);
        if (last.source, last.target_dir) != gone {
            let kept = other_resources(front, gone.0, gone.1);
            assert(other_resources(resources, gone.0, gone.1) == kept.push(last));
            lemma_count_resources_push(kept, last, key.0, key.1);
            assert(resource_keys(kept.push(last)).drop_last() =~= resource_keys(kept));
            assert(resource_keys(kept.push(last)).last() == (last.source, last.target_dir));
            lemma_last_index(resource_keys(kept), key);
        }
    }
}

/// What putting in the record of a resource does: of that resource the
/// list then holds this one record, and it is the record found for it; of
/// any other resource the list holds what it held, found as before.
pub proof fn lemma_put_resource(
    resources: Seq<ResourceStateView>,
    record: ResourceStateView,
    key: (SourceView, Seq<char>),
)
    ensures
        count_resources(put_resource(resources, record), key.0, key.1) == if key == (
            record.source,
            record.target_dir,
        ) {
            1
        } else {
            count_resources(resources, key.0, key.1)
        },
        found_resource(put_resource(resources, record), key.0, key.1) == if key == (
            record.source,
            record.target_dir,
        ) {
            Some(record)
        } else {
            found_resource(resources, key.0, key.1)
        },
        unique_resources(resources) ==> unique_resources(put_resource(resources, record)),
{
    let own = (record.source, record.target_dir);
    let kept = other_resources(resources, own.0, own.1);
    lemma_other_resources(resources, own, key);
    lemma_count_resources_push(kept, record, key.0, key.1);
    assert(resource_keys(kept.push(record)).drop_last() =~= resource_keys(kept));
    assert(resource_keys(kept.push(record)).last() == own);
    lemma_last_index(resource_keys(kept), key);
    if unique_resources(resources) {
        assert forall|s: SourceView, d: Seq<char>| count_resources(
            put_resource(resources, record),
            s,
            d,
        ) <= 1 by {
            lemma_other_resources(resources, own, (s, d));
            lemma_count_resources_push(kept, record, s, d);
        }
    }
}

/// What is rebuilt from a list of resource records has no two records of
/// the same resource for the same directory.
pub proof fn lemma_rebuilt_resources_unique(resources: Seq<ResourceStateView>)
    ensures
        unique_resources(rebuilt_resources(resources)),
    decreases resources.len(),
{
    reveal(Seq::filter);
    if resources.len() > 0 {
        lemma_rebuilt_resources_unique(resources.drop_last());
        lemma_put_resource(
            rebuilt_resources(resources.drop_last()),
            resources.last(),
            (resources.last().source, resources.last().target_dir),
        );
    } else {
        assert forall|s: SourceView, d: Seq<char>| count_resources(
            Seq::<ResourceStateView>::empty(),
            s,
            d,
        ) <= 1 by {}
    }
}

/// No record of a list that holds none of a mod has that mod's source.
pub proof fn lemma_count_zero(mods: Seq<ModStateView>, source: SourceView)
    requires
        count_mods(mods, source) == 0,
    ensures
        forall|i: int| 0 <= i < mods.len() ==> (#[trigger] mods[i]).source != source,
{
    assert forall|i: int| 0 <= i < mods.len() implies (#[trigger] mods[i]).source != source by {
        if mods[i].source == source {
            mods.lemma_filter_contains(|m: ModStateView| m.source == source, i);
        }
    }
}

/// Taking a record out of a list in which no two records are of the same
/// mod leaves such a list.
pub proof fn lemma_remove_keeps_unique(mods: Seq<ModStateView>, i: int)
    requires
        0 <= i < mods.len(),
    ensures
        unique_mods(mods) ==> unique_mods(mods.remove(i)),
{
    if unique_mods(mods) {
        assert forall|s: SourceView| count_mods(mods.remove(i), s) <= 1 by {
            lemma_filter_split(mods, |m: ModStateView| m.source == s, i);
            assert(count_mods(mods, s) <= 1);
        }
    }
}

/// Lists in which no two records are of the same item are rebuilt as they
/// are: what this crate stored, it reads back unchanged.
pub proof fn law_unique_lists_are_kept(mods: Seq<ModStateView>, resources: Seq<ResourceStateView>)
    ensures
        unique_mods(mods) ==> rebuilt_mods(mods) == mods,
        unique_resources(resources) ==> rebuilt_resources(resources) == resources,
{
    if unique_mods(mods) {
        lemma_unique_mods_kept(mods);
    }
    if unique_resources(resources) {
        lemma_unique_resources_kept(resources);
    }
}

proof fn lemma_unique_mods_kept(mods: Seq<ModStateView>)
    requires
        unique_mods(mods),
    ensures
        rebuilt_mods(mods) == mods,
    decreases mods.len(),
{
    if mods.len() > 0 {
        let front = mods.drop_last();
        let last = mods.last();
        assert(front.push(last) =~= mods);
        assert forall|s: SourceView| count_mods(front, s) <= 1 by {
            lemma_count_mods_push(front, last, s);
            assert(count_mods(mods, s) <= 1);
        }
        lemma_unique_mods_kept(front);
        lemma_count_mods_push(front, last, last.source);
        assert(count_mods(mods, last.source) <= 1);
        lemma_count_zero(front, last.source);
        lemma_filter_all(front, |m: ModStateView| m.source != last.source);
    } else {
        assert(mods =~= Seq::empty());
    }
}

proof fn lemma_unique_resources_kept(resources: Seq<ResourceStateView>)
    requires
        unique_resources(resources),
    ensures
        rebuilt_resources(resources) == resources,
    decreases resources.len(),
{
    if resources.len() > 0 {
        let front = resources.drop_last();
        let last = resources.last();
        assert(front.push(last) =~= resources);
        assert forall|s: SourceView, d: Seq<char>| count_resources(front, s, d) <= 1 by {
            lemma_count_resources_push(front, last, s, d);
            assert(count_resources(resources, s, d) <= 1);
        }
        lemma_unique_resources_kept(front);
        lemma_count_resources_push(front, last, last.source, last.target_dir);
        assert(count_resources(resources, last.source, last.target_dir) <= 1);
        let same = |r: ResourceStateView| r.source == last.source && r.target_dir
            == last.target_dir;
        assert forall|i: int| 0 <= i < front.len() implies !(front[i].source == last.source
            && front[i].target_dir == last.target_dir) by {
            if same(front[i]) {
                front.lemma_filter_contains(same, i);
            }
        }
        lemma_filter_all(
            front,
            |r: ResourceStateView| !(r.source == last.source && r.target_dir == last.target_dir),
        );
    } else {
        assert(resources =~= Seq::empty());
    }
}

fn mods_except(mods: &Vec<ModState>, at: usize) -> (r: Vec<ModState>)
    requires
        at < mods.len(),
    ensures
        views(r@) == views(mods@).remove(at as int),
{
    let mut r: Vec<ModState> = Vec::new();
    let mut i: usize = 0;
    while i < mods.len()
        invariant
            i <= mods.len(),
            at < mods.len(),
            r.len() == if i <= at {
                i as int
            } else {
                i - 1
            },
            forall|k: int| 0 <= k < r.len() ==> r@[k]@ == if k < at {
                mods@[k]@
            } else {
                mods@[k + 1]@
            },
        decreases mods.len() - i,
    {
        if i != at {
            r.push(mods[i].clone());
        }
        i += 1;
    }
    assert(views(r@) =~= views(mods@).remove(at as int));
    r
}

fn mods_without(mods: &Vec<ModState>, source: &SourceType) -> (r: Vec<ModState>)
    ensures
        views(r@) == other_mods(views(mods@), source@),
{
    let ghost all = views(mods@);
    let mut r: Vec<ModState> = Vec::new();
    let mut i: usize = 0;
    proof {
        reveal(Seq::filter);
        assert(all.take(0) =~= Seq::empty());
        assert(views(r@) =~= Seq::empty());
    }
    while i < mods.len()
        invariant
            i <= mods.len(),
            all == views(mods@),
            all.len() == mods.len(),
            views(r@) == other_mods(all.take(i as int), source@),
        decreases mods.len() - i,
    {
        proof {
            reveal(Seq::filter);
            assert(all.take(i as int + 1).drop_last() =~= all.take(i as int));
            assert(all.take(i as int + 1).last() == mods@[i as int]@);
        }
        if mods[i].source != *source {
            r.push(mods[i].clone());
            assert(views(r@) =~= other_mods(all.take(i as int), source@).push(mods@[i as int]@));
        }
        i += 1;
    }
    assert(all.take(mods.len() as int) =~= all);
    r
}

fn resources_without(resources: &Vec<ResourceState>, source: &SourceType, target_dir: &String) -> (r:
    Vec<ResourceState>)
    ensures
        views(r@) == other_resources(views(resources@), source@, target_dir@),
{
    let ghost all = views(resources@);
    let mut r: Vec<ResourceState> = Vec::new();
    let mut i: usize = 0;
    proof {
        reveal(Seq::filter);
        assert(all.take(0) =~= Seq::empty());
        assert(views(r@) =~= Seq::empty());
    }
    while i < resources.len()
        invariant
            i <= resources.len(),
            all == views(resources@),
            all.len() == resources.len(),
            views(r@) == other_resources(all.take(i as int), source@, target_dir@),
        decreases resources.len() - i,
    {
        proof {
            reveal(Seq::filter);
            assert(all.take(i as int + 1).drop_last() =~= all.take(i as int));
            assert(all.take(i as int + 1).last() == resources@[i as int]@);
        }
        if !(resources[i].source == *source && resources[i].target_dir == *target_dir) {
            r.push(resources[i].clone());
            assert(views(r@) =~= other_resources(all.take(i as int), source@, target_dir@).push(
                resources@[i as int]@,
            ));
        }
        i += 1;
    }
    assert(all.take(resources.len() as int) =~= all);
    r
}

fn rebuild_mods(mods: &Vec<ModState>) -> (r: Vec<ModState>)
    ensures
        views(r@) == rebuilt_mods(views(mods@)),
        unique_mods(views(r@)),
{
    let ghost all = views(mods@);
    let mut r: Vec<ModState> = Vec::new();
    let mut i: usize = 0;
    proof {
        assert(all.take(0) =~= Seq::empty());
        assert(views(r@) =~= Seq::empty());
    }
    while i < mods.len()
        invariant
            i <= mods.len(),
            all == views(mods@),
            all.len() == mods.len(),
            views(r@) == rebuilt_mods(all.take(i as int)),
        decreases mods.len() - i,
    {
        proof {
            assert(all.take(i as int + 1).drop_last() =~= all.take(i as int));
            assert(all.take(i as int + 1).last() == mods@[i as int]@);
        }
        let mut kept = mods_without(&r, &mods[i].source);
        let ghost before = views(kept@);
        kept.push(mods[i].clone());
        assert(views(kept@) =~= before.push(mods@[i as int]@));
        r = kept;
        i += 1;
    }
    proof {
        assert(all.take(mods.len() as int) =~= all);
        lemma_rebuilt_mods_unique(all);
    }
    r
}

fn rebuild_resources(resources: &Vec<ResourceState>) -> (r: Vec<ResourceState>)
    ensures
        views(r@) == rebuilt_resources(views(resources@)),
        unique_resources(views(r@)),
{
    let ghost all = views(resources@);
    let mut r: Vec<ResourceState> = Vec::new();
    let mut i: usize = 0;
    proof {
        assert(all.take(0) =~= Seq::empty());
        assert(views(r@) =~= Seq::empty());
    }
    while i < resources.len()
        invariant
            i <= resources.len(),
            all == views(resources@),
            all.len() == resources.len(),
            views(r@) == rebuilt_resources(all.take(i as int)),
        decreases resources.len() - i,
    {
        proof {
            assert(all.take(i as int + 1).drop_last() =~= all.take(i as int));
            assert(all.take(i as int + 1).last() == resources@[i as int]@);
        }
        let mut kept = resources_without(&r, &resources[i].source, &resources[i].target_dir);
        let ghost before = views(kept@);
        kept.push(resources[i].clone());
        assert(views(kept@) =~= before.push(resources@[i as int]@));
        r = kept;
        i += 1;
    }
    proof {
        assert(all.take(resources.len() as int) =~= all);
        lemma_rebuilt_resources_unique(all);
    }
    r
}

/// The persisted state of an installation.
///
/// The two lists are what is stored. A mod is known by its source, a
/// resource by its source and target directory: no two records of a list
/// have the same, see [`StateView::unique`].
#[derive(Debug, PartialEq, Eq)]
pub struct InstallerState {
    installer_version: PackVersion,
    pack_version: PackVersion,
    mod_loader: Option<ModLoaderState>,
    mods: Vec<ModState>,
    resources: Vec<ResourceState>,
    process_mode: Option<InstallerMode>,
}

/// The mathematical value of an [`InstallerState`].
pub struct StateView {
    pub installer_version: VersionView,
    pub pack_version: VersionView,
    pub mod_loader: Option<ModLoaderStateView>,
    pub mods: Seq<ModStateView>,
    pub resources: Seq<ResourceStateView>,
    pub process_mode: Option<InstallerMode>,
}

impl StateView {
    /// Where the record of the mod with this source stands.
    pub open spec fn mod_position(self, source: SourceView) -> Option<int> {
        last_index(mod_keys(self.mods), source)
    }

    /// The record of the mod with this source.
    pub open spec fn find_mod(self, source: SourceView) -> Option<ModStateView> {
        match self.mod_position(source) {
            Some(i) => Some(self.mods[i]),
            None => None,
        }
    }

    /// The index from sources to positions that the list of mods gives.
    pub open spec fn mod_index(self) -> Map<SourceView, int> {
        Map::new(
            |source: SourceView| self.mod_position(source) is Some,
            |source: SourceView| self.mod_position(source)->0,
        )
    }

    /// The state with the record of a mod: it stands at the end of the
    /// list, and an earlier record of the same mod has gone.
    pub open spec fn add_mod(self, record: ModStateView) -> StateView {
        StateView { mods: put_mod(self.mods, record), ..self }
    }

    /// No two records are of the same mod, and no two of the same resource
    /// for the same directory.
    pub open spec fn unique(self) -> bool {
        unique_mods(self.mods) && unique_resources(self.resources)
    }

    /// The state without the record of the mod with this source.
    pub open spec fn remove_mod(self, source: SourceView) -> StateView {
        match self.mod_position(source) {
            Some(i) => StateView { mods: self.mods.remove(i), ..self },
            None => self,
        }
    }

    /// Where the record of the resource with this source and target
    /// directory stands.
    pub open spec fn resource_position(self, source: SourceView, target_dir: Seq<char>) -> Option<
        int,
    > {
        last_index(resource_keys(self.resources), (source, target_dir))
    }

    /// The record of the resource with this source and target directory.
    pub open spec fn find_resource(self, source: SourceView, target_dir: Seq<char>) -> Option<
        ResourceStateView,
    > {
        match self.resource_position(source, target_dir) {
            Some(i) => Some(self.resources[i]),
            None => None,
        }
    }

    /// The index from source and target directory to positions that the list
    /// of resources gives.
    pub open spec fn resource_index(self) -> Map<(SourceView, Seq<char>), int> {
        Map::new(
            |key: (SourceView, Seq<char>)| self.resource_position(key.0, key.1) is Some,
            |key: (SourceView, Seq<char>)| self.resource_position(key.0, key.1)->0,
        )
    }

    /// The state with the record of a resource: it stands at the end of
    /// the list, and an earlier record of the same resource for the same
    /// directory has gone.
    pub open spec fn add_resource(self, record: ResourceStateView) -> StateView {
        StateView { resources: put_resource(self.resources, record), ..self }
    }

    /// The state with no run in progress.
    pub open spec fn finalize(self) -> StateView {
        StateView { process_mode: None, ..self }
    }
}

impl View for InstallerState {
    type V = StateView;

    closed spec fn view(&self) -> StateView {
        StateView {
            installer_version: self.installer_version@,
            pack_version: self.pack_version@,
            mod_loader: match self.mod_loader {
                Some(loader) => Some(loader@),
                None => None,
            },
            mods: views(self.mods@),
            resources: views(self.resources@),
            process_mode: self.process_mode,
        }
    }
}

/// The state of an installation on which nothing has been done yet.
pub open spec fn fresh_state(installer_version: VersionView, pack_version: VersionView) -> StateView {
    StateView {
        installer_version,
        pack_version,
        mod_loader: None,
        mods: Seq::empty(),
        resources: Seq::empty(),
        process_mode: None,
    }
}

/// The lowest version.
pub open spec fn lowest_version() -> VersionView {
    VersionView { major: 0, minor: 0, patch: 0, pre: Seq::empty(), build: Seq::empty() }
}

impl InstallerState {
    /// What holds of every state: no two records are of the same item.
    #[verifier::type_invariant]
    pub open spec fn well_formed(&self) -> bool {
        self@.unique()
    }

    /// The state of an installation on which nothing has been done yet.
    pub fn new(installer_version: &PackVersion, pack_version: &PackVersion) -> (r: Self)
        ensures
            r@ == fresh_state(installer_version@, pack_version@),
            r@.unique(),
    {
        proof {
            reveal(Seq::filter);
        }
        let r = InstallerState {
            installer_version: installer_version.clone(),
            pack_version: pack_version.clone(),
            mod_loader: None,
            mods: Vec::new(),
            resources: Vec::new(),
            process_mode: None,
        };
        assert(r@.mods =~= Seq::empty());
        assert(r@.resources =~= Seq::empty());
        r
    }

    /// The state that a stored file describes. A file from before package
    /// versions were stored has none: it counts as the lowest version. The
    /// lists are rebuilt record by record, so that the state has no two
    /// records of one item whatever the file held; lists that this crate
    /// stored are taken as they are (see [`law_unique_lists_are_kept`]).
    pub fn load(
        installer_version: PackVersion,
        pack_version: Option<PackVersion>,
        mod_loader: Option<ModLoaderState>,
        mods: Vec<ModState>,
        resources: Vec<ResourceState>,
        process_mode: Option<InstallerMode>,
    ) -> (r: Self)
        ensures
            r@ == (StateView {
                installer_version: installer_version@,
                pack_version: match pack_version {
                    Some(v) => v@,
                    None => lowest_version(),
                },
                mod_loader: match mod_loader {
                    Some(loader) => Some(loader@),
                    None => None,
                },
                mods: rebuilt_mods(views(mods@)),
                resources: rebuilt_resources(views(resources@)),
                process_mode,
            }),
            r@.unique(),
    {
        let pack_version = match pack_version {
            Some(v) => v,
            None => Self::migrate_pack_version(),
        };
        let mods = rebuild_mods(&mods);
        let resources = rebuild_resources(&resources);
        InstallerState { installer_version, pack_version, mod_loader, mods, resources, process_mode }
    }

    /// The package version of a stored state that names none.
    pub fn migrate_pack_version() -> (r: PackVersion)
        ensures
            r@ == lowest_version(),
    {
        PackVersion::new(0, 0, 0)
    }

    /// The version of the installer that last wrote the state.
    pub fn get_installer_version(&self) -> (r: &PackVersion)
        ensures
            r@ == self@.installer_version,
    {
        &self.installer_version
    }

    /// Notes the version of the installer that writes the state.
    pub fn set_installer_version(&mut self, version: &PackVersion)
        ensures
            final(self)@ == (StateView { installer_version: version@, ..old(self)@ }),
    {
        proof {
            use_type_invariant(&*self);
        }
        self.installer_version = version.clone();
    }

    /// The package version that was last applied in full.
    pub fn get_pack_version(&self) -> (r: &PackVersion)
        ensures
            r@ == self@.pack_version,
    {
        &self.pack_version
    }

    /// Notes the package version that has been applied in full.
    pub fn set_pack_version(&mut self, version: &PackVersion)
        ensures
            final(self)@ == (StateView { pack_version: version@, ..old(self)@ }),
    {
        proof {
            use_type_invariant(&*self);
        }
        self.pack_version = version.clone();
    }

    /// The run that is in progress, if any.
    pub fn get_process_mode(&self) -> (r: Option<InstallerMode>)
        ensures
            r == self@.process_mode,
    {
        self.process_mode
    }

    /// Marks a run of `mode` as in progress.
    pub fn set_process_mode(&mut self, mode: InstallerMode)
        ensures
            final(self)@ == (StateView { process_mode: Some(mode), ..old(self)@ }),
    {
        proof {
            use_type_invariant(&*self);
        }
        self.process_mode = Some(mode);
    }

    /// The record of the installed loader, if there is one.
    pub fn get_mod_loader(&self) -> (r: Option<&ModLoaderState>)
        ensures
            match r {
                Some(loader) => self@.mod_loader == Some(loader@),
                None => self@.mod_loader is None,
            },
    {
        self.mod_loader.as_ref()
    }

    /// Records the installed loader.
    pub fn set_mod_loader(&mut self, loader: ModLoaderState)
        ensures
            final(self)@ == (StateView { mod_loader: Some(loader@), ..old(self)@ }),
    {
        proof {
            use_type_invariant(&*self);
        }
        self.mod_loader = Some(loader);
    }

    /// How many mod records there are.
    pub fn get_mod_count(&self) -> (r: usize)
        ensures
            r == self@.mods.len(),
    {
        self.mods.len()
    }

    /// The mod records, in the order in which they were added. No two are
    /// of the same mod.
    pub fn get_all_mods(&self) -> (r: &Vec<ModState>)
        ensures
            views(r@) == self@.mods,
            unique_mods(views(r@)),
    {
        proof {
            use_type_invariant(self);
        }
        &self.mods
    }

    /// The resource records, in the order in which they were added. No
    /// two are of the same resource for the same directory.
    pub fn get_all_resources(&self) -> (r: &Vec<ResourceState>)
        ensures
            views(r@) == self@.resources,
            unique_resources(views(r@)),
    {
        proof {
            use_type_invariant(self);
        }
        &self.resources
    }

    fn mod_position(&self, source: &SourceType) -> (r: Option<usize>)
        ensures
            match r {
                Some(i) => self@.mod_position(source@) == Some(i as int) && i < self.mods@.len(),
                None => self@.mod_position(source@) is None,
            },
    {
        let ghost keys = mod_keys(self@.mods);
        assert(keys.take(keys.len() as int) =~= keys);
        let mut i: usize = self.mods.len();
        while i > 0
            invariant
                i <= self.mods.len(),
                keys == mod_keys(self@.mods),
                keys.len() == self.mods.len(),
                last_index(keys, source@) == last_index(keys.take(i as int), source@),
            decreases i,
        {
            i -= 1;
            proof {
                assert(keys.take(i as int + 1).drop_last() =~= keys.take(i as int));
                assert(keys.take(i as int + 1).last() == self.mods@[i as int]@.source);
            }
            if self.mods[i].source == *source {
                return Some(i);
            }
        }
        None
    }

    /// The record of the mod that the entry asks for, if there is one:
    /// the record with the entry's source.
    pub fn get_mod(&self, mod_entry: &ModEntry) -> (r: Option<&ModState>)
        ensures
            match r {
                Some(record) => self@.find_mod(mod_entry@.source) == Some(record@),
                None => self@.find_mod(mod_entry@.source) is None,
            },
    {
        match self.mod_position(&mod_entry.source) {
            Some(i) => Some(&self.mods[i]),
            None => None,
        }
    }

    /// Records a mod. The record is put at the end of the list, and it
    /// takes the place of what was recorded of that mod before: the list
    /// then holds one record of the mod, this one.
    pub fn add_mod(&mut self, mod_state: ModState)
        ensures
            final(self)@ == old(self)@.add_mod(mod_state@),
            final(self)@.find_mod(mod_state@.source) == Some(mod_state@),
            count_mods(final(self)@.mods, mod_state@.source) == 1,
            final(self)@.unique(),
    {
        proof {
            use_type_invariant(&*self);
        }
        let mut kept = mods_without(&self.mods, &mod_state.source);
        proof {
            lemma_put_mod(self@.mods, mod_state@, mod_state@.source);
        }
        let ghost before = views(kept@);
        kept.push(mod_state);
        assert(views(kept@) =~= before.push(mod_state@));
        self.mods = kept;
    }

    /// Removes the record of the mod with the source of `mod_state`. The
    /// other records keep their order. Without such a record nothing
    /// changes.
    pub fn remove_mod(&mut self, mod_state: &ModState)
        ensures
            final(self)@ == old(self)@.remove_mod(mod_state@.source),
            final(self)@.unique(),
    {
        proof {
            use_type_invariant(&*self);
        }
        match self.mod_position(&mod_state.source) {
            Some(i) => {
                proof {
                    lemma_remove_keeps_unique(self@.mods, i as int);
                }
                let kept = mods_except(&self.mods, i);
                self.mods = kept;
            },
            None => {},
        }
    }

    fn resource_position(&self, source: &SourceType, target_dir: &String) -> (r: Option<usize>)
        ensures
            match r {
                Some(i) => self@.resource_position(source@, target_dir@) == Some(i as int) && i
                    < self.resources@.len(),
                None => self@.resource_position(source@, target_dir@) is None,
            },
    {
        let ghost keys = resource_keys(self@.resources);
        let ghost key = (source@, target_dir@);
        assert(keys.take(keys.len() as int) =~= keys);
        let mut i: usize = self.resources.len();
        while i > 0
            invariant
                i <= self.resources.len(),
                keys == resource_keys(self@.resources),
                keys.len() == self.resources.len(),
                key == (source@, target_dir@),
                last_index(keys, key) == last_index(keys.take(i as int), key),
            decreases i,
        {
            i -= 1;
            proof {
                assert(keys.take(i as int + 1).drop_last() =~= keys.take(i as int));
                assert(keys.take(i as int + 1).last() == (
                    self.resources@[i as int]@.source,
                    self.resources@[i as int]@.target_dir,
                ));
            }
            if self.resources[i].source == *source && self.resources[i].target_dir == *target_dir {
                return Some(i);
            }
        }
        None
    }

    /// The record of the resource that the entry asks for, if there is one:
    /// the record with the entry's source and target directory.
    pub fn get_resource(&self, resource_entry: &ResourceEntry) -> (r: Option<&ResourceState>)
        ensures
            match r {
                Some(record) => self@.find_resource(
                    resource_entry@.source,
                    resource_entry@.target_dir,
                ) == Some(record@),
                None => self@.find_resource(resource_entry@.source, resource_entry@.target_dir)
                    is None,
            },
    {
        match self.resource_position(&resource_entry.source, &resource_entry.target_dir) {
            Some(i) => Some(&self.resources[i]),
            None => None,
        }
    }

    /// Records a resource. The record is put at the end of the list, and
    /// it takes the place of what was recorded of that resource for that
    /// directory before: the list then holds one such record, this one.
    pub fn add_resource(&mut self, resource_state: ResourceState)
        ensures
            final(self)@ == old(self)@.add_resource(resource_state@),
            final(self)@.find_resource(resource_state@.source, resource_state@.target_dir) == Some(
                resource_state@,
            ),
            count_resources(
                final(self)@.resources,
                resource_state@.source,
                resource_state@.target_dir,
            ) == 1,
            final(self)@.unique(),
    {
        proof {
            use_type_invariant(&*self);
        }
        let mut kept = resources_without(
            &self.resources,
            &resource_state.source,
            &resource_state.target_dir,
        );
        proof {
            lemma_put_resource(
                self@.resources,
                resource_state@,
                (resource_state@.source, resource_state@.target_dir),
            );
        }
        let ghost before = views(kept@);
        kept.push(resource_state);
        assert(views(kept@) =~= before.push(resource_state@));
        self.resources = kept;
    }

    /// Marks the run as complete: no run is in progress any more. Storing
    /// the state afterwards is the caller's part.
    pub fn finalize(&mut self)
        ensures
            final(self)@ == old(self)@.finalize(),
    {
        proof {
            use_type_invariant(&*self);
        }
        self.process_mode = None;
    }
}

/// A copy of a list of mod records.
pub fn clone_mods(mods: &Vec<ModState>) -> (r: Vec<ModState>)
    ensures
        views(r@) == views(mods@),
{
    let mut r: Vec<ModState> = Vec::new();
    let mut i: usize = 0;
    while i < mods.len()
        invariant
            i <= mods.len(),
            r.len() == i,
            forall|k: int| 0 <= k < i ==> r@[k]@ == mods@[k]@,
        decreases mods.len() - i,
    {
        r.push(mods[i].clone());
        i += 1;
    }
    assert(views(r@) =~= views(mods@));
    r
}

/// A copy of a list of resource records.
pub fn clone_resources(resources: &Vec<ResourceState>) -> (r: Vec<ResourceState>)
    ensures
        views(r@) == views(resources@),
{
    let mut r: Vec<ResourceState> = Vec::new();
    let mut i: usize = 0;
    while i < resources.len()
        invariant
            i <= resources.len(),
            r.len() == i,
            forall|k: int| 0 <= k < i ==> r@[k]@ == resources@[k]@,
        decreases resources.len() - i,
    {
        r.push(resources[i].clone());
        i += 1;
    }
    assert(views(r@) =~= views(resources@));
    r
}

impl Clone for InstallerState {
    fn clone(&self) -> (r: Self)
        ensures
            r@ == self@,
    {
        proof {
            use_type_invariant(self);
        }
        InstallerState {
            installer_version: self.installer_version.clone(),
            pack_version: self.pack_version.clone(),
            mod_loader: match &self.mod_loader {
                Some(loader) => Some(loader.clone()),
                None => None,
            },
            mods: clone_mods(&self.mods),
            resources: clone_resources(&self.resources),
            process_mode: self.process_mode,
        }
    }
}

/// The index reflects the list: the record that is found for a source is a
/// record of the list with that source, and none is found only if the list
/// has no record with that source.
pub proof fn law_index_reflects_mods(state: StateView, source: SourceView)
    ensures
        match state.find_mod(source) {
            Some(record) => record.source == source && state.mods.contains(record)
                && state.mod_index().dom().contains(source) && state.mods[state.mod_index()[source]]
                == record,
            None => !state.mod_index().dom().contains(source) && forall|i: int|
                0 <= i < state.mods.len() ==> (#[trigger] state.mods[i]).source != source,
        },
{
    lemma_last_index(mod_keys(state.mods), source);
    match state.mod_position(source) {
        Some(i) => {
            assert(mod_keys(state.mods)[i] == state.mods[i].source);
        },
        None => {
            assert forall|i: int| 0 <= i < state.mods.len() implies (
            #[trigger] state.mods[i]).source != source by {
                assert(mod_keys(state.mods)[i] == state.mods[i].source);
            }
        },
    }
}

/// The index reflects the list of resources, by source and target
/// directory.
pub proof fn law_index_reflects_resources(state: StateView, source: SourceView, target_dir: Seq<char>)
    ensures
        match state.find_resource(source, target_dir) {
            Some(record) => record.source == source && record.target_dir == target_dir
                && state.resources.contains(record) && state.resource_index().dom().contains(
                (source, target_dir),
            ) && state.resources[state.resource_index()[(source, target_dir)]] == record,
            None => !state.resource_index().dom().contains((source, target_dir)) && forall|i: int|
                0 <= i < state.resources.len() ==> !((#[trigger] state.resources[i]).source
                    == source && state.resources[i].target_dir == target_dir),
        },
{
    lemma_last_index(resource_keys(state.resources), (source, target_dir));
    match state.resource_position(source, target_dir) {
        Some(i) => {
            assert(resource_keys(state.resources)[i] == (
                state.resources[i].source,
                state.resources[i].target_dir,
            ));
        },
        None => {
            assert forall|i: int| 0 <= i < state.resources.len() implies !((
                #[trigger] state.resources[i]).source == source && state.resources[i].target_dir
                == target_dir) by {
                assert(resource_keys(state.resources)[i] == (
                    state.resources[i].source,
                    state.resources[i].target_dir,
                ));
            }
        },
    }
}

} // verus!
