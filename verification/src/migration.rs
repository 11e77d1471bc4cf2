//! Migrations: changes to an existing installation that an update applies
//! when it crosses a package version.

use vstd::prelude::*;
use crate::config::views;
use crate::version::{version_le, version_lt, PackVersion, VersionView};

verus! {

/// What a migration does.
#[derive(Debug, PartialEq, Eq)]
pub enum MigrationAction {
    /// Download an archive and extract it over the configuration directory.
    ExtractArchive { url: String, name: String, hash: String },
    /// Copy the defaults of configuration files over the files in use, in
    /// the order given. The paths are relative to the configuration
    /// directory.
    OverwriteConfigs { paths: Vec<String> },
}

/// The mathematical value of a [`MigrationAction`].
pub enum MigrationActionView {
    ExtractArchive { url: Seq<char>, name: Seq<char>, hash: Seq<char> },
    OverwriteConfigs { paths: Seq<Seq<char>> },
}

impl View for MigrationAction {
    type V = MigrationActionView;

    open spec fn view(&self) -> MigrationActionView {
        match self {
            MigrationAction::ExtractArchive { url, name, hash } => {
                MigrationActionView::ExtractArchive { url: url@, name: name@, hash: hash@ }
            },
            MigrationAction::OverwriteConfigs { paths } => MigrationActionView::OverwriteConfigs {
                paths: views(paths@),
            },
        }
    }
}

/// A migration and the package version that brings it.
#[derive(Debug, PartialEq, Eq)]
pub struct Migration {
    pub threshold: PackVersion,
    pub action: MigrationAction,
}

/// The mathematical value of a [`Migration`].
pub struct MigrationView {
    pub threshold: VersionView,
    pub action: MigrationActionView,
}

impl View for Migration {
    type V = MigrationView;

    open spec fn view(&self) -> MigrationView {
        MigrationView { threshold: self.threshold@, action: self.action@ }
    }
}

impl MigrationView {
    /// A migration fires when the update crosses its threshold: the stored
    /// version lies before it, and the new version does not.
    pub open spec fn fires(self, stored: VersionView, new: VersionView) -> bool {
        version_lt(stored, self.threshold) && version_le(self.threshold, new)
    }
}

/// The migrations among `rows` that fire, in the order of `rows`.
pub open spec fn fired(rows: Seq<MigrationView>, stored: VersionView, new: VersionView) -> Seq<
    MigrationView,
> {
    rows.filter(|m: MigrationView| m.fires(stored, new))
}

/// A release version.
pub open spec fn release(major: u64, minor: u64, patch: u64) -> VersionView {
    VersionView { major, minor, patch, pre: Seq::empty(), build: Seq::empty() }
}

/// The migration that extracts the configuration archive of a release.
pub open spec fn archive_row(threshold: VersionView, url: Seq<char>, hash: Seq<char>) -> MigrationView {
    MigrationView {
        threshold,
        action: MigrationActionView::ExtractArchive { url, name: "configs"@, hash },
    }
}

/// The migration that restores the defaults of configuration files.
pub open spec fn overwrite_row(threshold: VersionView, paths: Seq<Seq<char>>) -> MigrationView {
    MigrationView { threshold, action: MigrationActionView::OverwriteConfigs { paths } }
}

/// The configuration files whose defaults the migration to 1.3.0 restores.
pub open spec fn restored_defaults() -> Seq<Seq<char>> {
    seq![
        "fancymenu/customization/loading_makibania_default.txt"@,
        "fancymenu/customization/options_makibania.txt"@,
        "fancymenu/customization/title_makibania_default.txt"@,
        "fancymenu/customization/universal_makibania_bg.txt"@,
        "fancymenu/custom_gui_screens.txt"@,
        "fancymenu/customizablemenus.txt"@,
        "fancymenu/options.txt"@,
        "fancymenu/user_variables.db"@,
        "ftbquests/quests/chapters/welcome.snbt"@,
        "ftbquests/quests/lang/en_us.snbt"@,
        "ftbquests/quests/lang/ja_jp.snbt"@,
        "ftbquests/quests/chapter_groups.snbt"@,
        "ftbquests/quests/data.snbt"@,
    ]
}

/// The table of migrations, in the order in which they are applied: one
/// for each package version that brings a change.
pub open spec fn migration_rows() -> Seq<MigrationView> {
    seq![
        archive_row(
            release(1, 2, 0),
            "https://github.com/kyazuki/Makibania-Modpack-Resources/releases/download/v1.2.0/configs.zip"@,
            "4cb14e94845a0f03775c0d1b8f3f0cbddb675ddb"@,
        ),
        archive_row(
            release(1, 2, 1),
            "https://github.com/kyazuki/Makibania-Modpack-Resources/releases/download/v1.2.1/configs.zip"@,
            "9e5f63a8b1a6da42792ffc1563dcd6c6f6eac495"@,
        ),
        overwrite_row(release(1, 3, 0), restored_defaults()),
    ]
}

fn archive(major: u64, minor: u64, patch: u64, url: &str, hash: &str) -> (r: Migration)
    ensures
        r@ == archive_row(release(major, minor, patch), url@, hash@),
{
    Migration {
        threshold: PackVersion::new(major, minor, patch),
        action: MigrationAction::ExtractArchive {
            url: String::from_str(url),
            name: String::from_str("configs"),
            hash: String::from_str(hash),
        },
    }
}

fn text(s: &str) -> (r: String)
    ensures
        r@ == s@,
{
    String::from_str(s)
}

fn restored_default_paths() -> (r: Vec<String>)
    ensures
        views(r@) == restored_defaults(),
{
    let mut r: Vec<String> = Vec::new();
    r.push(text("fancymenu/customization/loading_makibania_default.txt"));
    r.push(text("fancymenu/customization/options_makibania.txt"));
    r.push(text("fancymenu/customization/title_makibania_default.txt"));
    r.push(text("fancymenu/customization/universal_makibania_bg.txt"));
    r.push(text("fancymenu/custom_gui_screens.txt"));
    r.push(text("fancymenu/customizablemenus.txt"));
    r.push(text("fancymenu/options.txt"));
    r.push(text("fancymenu/user_variables.db"));
    r.push(text("ftbquests/quests/chapters/welcome.snbt"));
    r.push(text("ftbquests/quests/lang/en_us.snbt"));
    r.push(text("ftbquests/quests/lang/ja_jp.snbt"));
    r.push(text("ftbquests/quests/chapter_groups.snbt"));
    r.push(text("ftbquests/quests/data.snbt"));
    assert(views(r@) =~= restored_defaults());
    r
}

/// A copy of a list of texts.
pub fn clone_texts(texts: &Vec<String>) -> (r: Vec<String>)
    ensures
        views(r@) == views(texts@),
{
    let mut r: Vec<String> = Vec::new();
    let mut i: usize = 0;
    while i < texts.len()
        invariant
            i <= texts.len(),
            r.len() == i,
            forall|k: int| 0 <= k < i ==> r@[k]@ == texts@[k]@,
        decreases texts.len() - i,
    {
        r.push(texts[i].clone());
        i += 1;
    }
    assert(views(r@) =~= views(texts@));
    r
}

impl Clone for Migration {
    fn clone(&self) -> (r: Self)
        ensures
            r@ == self@,
    {
        Migration {
            threshold: self.threshold.clone(),
            action: match &self.action {
                MigrationAction::ExtractArchive { url, name, hash } => {
                    MigrationAction::ExtractArchive {
                        url: url.clone(),
                        name: name.clone(),
                        hash: hash.clone(),
                    }
                },
                MigrationAction::OverwriteConfigs { paths } => MigrationAction::OverwriteConfigs {
                    paths: clone_texts(paths),
                },
            },
        }
    }
}

impl Migration {
    /// Whether an update from `stored` to `new` applies this migration.
    pub fn fires(&self, stored: &PackVersion, new: &PackVersion) -> (r: bool)
        ensures
            r == self@.fires(stored@, new@),
    {
        stored.precedes(&self.threshold) && self.threshold.at_most(new)
    }
}

/// The table of migrations, in the order in which they are applied.
pub fn migration_table() -> (r: Vec<Migration>)
    ensures
        views(r@) == migration_rows(),
{
    let mut r: Vec<Migration> = Vec::new();
    r.push(
        archive(
            1,
            2,
            0,
            "https://github.com/kyazuki/Makibania-Modpack-Resources/releases/download/v1.2.0/configs.zip",
            "4cb14e94845a0f03775c0d1b8f3f0cbddb675ddb",
        ),
    );
    r.push(
        archive(
            1,
            2,
            1,
            "https://github.com/kyazuki/Makibania-Modpack-Resources/releases/download/v1.2.1/configs.zip",
            "9e5f63a8b1a6da42792ffc1563dcd6c6f6eac495",
        ),
    );
    r.push(
        Migration {
            threshold: PackVersion::new(1, 3, 0),
            action: MigrationAction::OverwriteConfigs { paths: restored_default_paths() },
        },
    );
    assert(views(r@) =~= migration_rows());
    r
}

/// The migrations that an update from `stored` to `new` applies, in the
/// order of the table.
pub fn fired_migrations(stored: &PackVersion, new: &PackVersion) -> (r: Vec<Migration>)
    ensures
        views(r@) == fired(migration_rows(), stored@, new@),
{
    let table = migration_table();
    let ghost rows = migration_rows();
    let mut r: Vec<Migration> = Vec::new();
    let mut i: usize = 0;
    proof {
        reveal(Seq::filter);
        assert(rows.take(0) =~= Seq::empty());
        assert(views(r@) =~= Seq::empty());
    }
    while i < table.len()
        invariant
            i <= table.len(),
            rows == migration_rows(),
            views(table@) == rows,
            views(r@) == fired(rows.take(i as int), stored@, new@),
        decreases table.len() - i,
    {
        proof {
            reveal(Seq::filter);
            assert(rows.take(i as int + 1).drop_last() =~= rows.take(i as int));
            assert(rows.take(i as int + 1).last() == table@[i as int]@);
        }
        if table[i].fires(stored, new) {
            r.push(table[i].clone());
            assert(views(r@) =~= fired(rows.take(i as int), stored@, new@).push(table@[i as int]@));
        }
        i += 1;
    }
    assert(rows.take(table.len() as int) =~= rows);
    r
}

/// The table is in rising order: a migration never comes before one of an
/// earlier version.
pub proof fn law_table_is_in_rising_order(i: int, j: int)
    requires
        0 <= i <= j < migration_rows().len(),
    ensures
        version_le(migration_rows()[i].threshold, migration_rows()[j].threshold),
{
}

} // verus!
