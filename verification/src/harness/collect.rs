//! Collecting the executables that the sandbox allows.
use vstd::prelude::*;

use crate::command_policy::inspect;
use crate::command_policy::inspect::FileFacts;
use crate::error::{ErrorModel, NonoError};
use crate::harness::scan;
use crate::harness::scan::{Exclusion, ExclusionModel};
use crate::harness::FileId;
use crate::path_list;
use crate::paths;
use crate::paths::FilePath;
use crate::text;

verus! {

/// What the file system says of an entry of a scanned directory.
#[derive(Debug, PartialEq, Eq)]
pub enum ScanEntry {
    /// The entry, its canonical path or its metadata could not be had.
    Unreadable,
    Found { canonical: FilePath, facts: FileFacts },
}

/// What an entry stands for.
#[verifier::ext_equal]
pub enum EntryModel {
    Unreadable,
    Found { canonical: Seq<u8>, facts: FileFacts },
}

impl View for ScanEntry {
    type V = EntryModel;

    open spec fn view(&self) -> EntryModel {
        match self {
            ScanEntry::Unreadable => EntryModel::Unreadable,
            ScanEntry::Found { canonical, facts } => EntryModel::Found {
                canonical: canonical@,
                facts: *facts,
            },
        }
    }
}

/// What the file system says of a scanned directory.
#[derive(Debug, PartialEq, Eq)]
pub enum DirListing {
    Entries(Vec<ScanEntry>),
    Unreadable(String),
}

/// What a listing stands for.
#[verifier::ext_equal]
pub enum ListingModel {
    Entries(Seq<EntryModel>),
    Unreadable(Seq<char>),
}

impl View for DirListing {
    type V = ListingModel;

    open spec fn view(&self) -> ListingModel {
        match self {
            DirListing::Entries(entries) => ListingModel::Entries(text::views(entries@)),
            DirListing::Unreadable(reason) => ListingModel::Unreadable(reason@),
        }
    }
}

/// What a scan counted.
#[derive(Debug, Clone, Copy, PartialEq, Eq, Structural)]
pub struct ScanStats {
    pub exec_dirs_requested: usize,
    pub exec_dirs_scanned: usize,
    pub exec_entries_seen: usize,
    pub executable_candidates: usize,
    pub allowed_executable_files: usize,
    pub excluded_by_path: usize,
    pub excluded_by_inode: usize,
    pub duplicate_inode_skips: usize,
    pub non_file_skips: usize,
    pub metadata_errors: usize,
    pub support_dirs_allowed: usize,
    pub support_files_allowed: usize,
    pub total_landlock_rules: usize,
}

/// Counts that are all zero.
pub open spec fn no_stats() -> ScanStats {
    ScanStats {
        exec_dirs_requested: 0,
        exec_dirs_scanned: 0,
        exec_entries_seen: 0,
        executable_candidates: 0,
        allowed_executable_files: 0,
        excluded_by_path: 0,
        excluded_by_inode: 0,
        duplicate_inode_skips: 0,
        non_file_skips: 0,
        metadata_errors: 0,
        support_dirs_allowed: 0,
        support_files_allowed: 0,
        total_landlock_rules: 0,
    }
}

impl Default for ScanStats {
    fn default() -> (r: Self)
        ensures
            r == no_stats(),
    {
        ScanStats {
            exec_dirs_requested: 0,
            exec_dirs_scanned: 0,
            exec_entries_seen: 0,
            executable_candidates: 0,
            allowed_executable_files: 0,
            excluded_by_path: 0,
            excluded_by_inode: 0,
            duplicate_inode_skips: 0,
            non_file_skips: 0,
            metadata_errors: 0,
            support_dirs_allowed: 0,
            support_files_allowed: 0,
            total_landlock_rules: 0,
        }
    }
}

/// What a scan found.
#[derive(Debug, PartialEq, Eq)]
pub struct ScanOutput {
    pub executable_files: Vec<FilePath>,
    pub support_dirs: Vec<FilePath>,
    pub support_files: Vec<FilePath>,
    pub excluded: Vec<Exclusion>,
    pub stats: ScanStats,
}

/// What the outcome of a scan stands for.
#[verifier::ext_equal]
pub struct ScanModel {
    pub executable_files: Seq<Seq<u8>>,
    pub support_dirs: Seq<Seq<u8>>,
    pub support_files: Seq<Seq<u8>>,
    pub excluded: Seq<ExclusionModel>,
    pub stats: ScanStats,
}

impl View for ScanOutput {
    type V = ScanModel;

    open spec fn view(&self) -> ScanModel {
        ScanModel {
            executable_files: text::views(self.executable_files@),
            support_dirs: text::views(self.support_dirs@),
            support_files: text::views(self.support_files@),
            excluded: text::views(self.excluded@),
            stats: self.stats,
        }
    }
}

// ---------------------------------------------------------------------------
// What becomes of an entry
// ---------------------------------------------------------------------------

/// What becomes of an entry.
#[derive(Debug, Clone, Copy, PartialEq, Eq, Structural)]
pub enum EntryClass {
    Unreadable,
    NotExecutable,
    ExcludedByPath,
    ExcludedByInode,
    Duplicate,
    Allowed,
}

/// An executable that is allowed.
#[verifier::ext_equal]
pub struct KeptModel {
    pub path: Seq<u8>,
    pub id: FileId,
}

/// Some allowed executable is this file.
pub open spec fn keeps_id(kept: Seq<KeptModel>, id: FileId) -> bool {
    exists|i: int| 0 <= i < kept.len() && (#[trigger] kept[i]).id == id
}

/// The identity of a file.
pub open spec fn id_of(facts: FileFacts) -> FileId {
    FileId { dev: facts.dev, ino: facts.ino }
}

/// What becomes of an entry, given what is allowed already.
pub open spec fn classify(
    excluded: Seq<ExclusionModel>,
    kept: Seq<KeptModel>,
    entry: EntryModel,
) -> EntryClass {
    match entry {
        EntryModel::Unreadable => EntryClass::Unreadable,
        EntryModel::Found { canonical, facts } => if !inspect::executable_file(facts) {
            EntryClass::NotExecutable
        } else if scan::excludes_path(excluded, canonical) {
            EntryClass::ExcludedByPath
        } else if scan::excludes_id(excluded, id_of(facts)) {
            EntryClass::ExcludedByInode
        } else if keeps_id(kept, id_of(facts)) {
            EntryClass::Duplicate
        } else {
            EntryClass::Allowed
        },
    }
}

/// The executables that are allowed, in the order of the entries.
pub open spec fn kept(excluded: Seq<ExclusionModel>, entries: Seq<EntryModel>) -> Seq<KeptModel>
    decreases entries.len(),
{
    if entries.len() == 0 {
        Seq::empty()
    } else {
        let before = kept(excluded, entries.drop_last());
        match entries.last() {
            EntryModel::Found { canonical, facts } => if classify(
                excluded,
                before,
                entries.last(),
            ) == EntryClass::Allowed {
                before.push(KeptModel { path: canonical, id: id_of(facts) })
            } else {
                before
            },
            EntryModel::Unreadable => before,
        }
    }
}

/// What becomes of the last entry.
pub open spec fn last_class(excluded: Seq<ExclusionModel>, entries: Seq<EntryModel>) -> EntryClass {
    classify(excluded, kept(excluded, entries.drop_last()), entries.last())
}

/// How many entries have a class.
pub open spec fn tally(
    excluded: Seq<ExclusionModel>,
    entries: Seq<EntryModel>,
    class: EntryClass,
) -> nat
    decreases entries.len(),
{
    if entries.len() == 0 {
        0
    } else {
        tally(excluded, entries.drop_last(), class) + (if last_class(excluded, entries) == class {
            1nat
        } else {
            0nat
        })
    }
}

/// How many entries are executable files.
pub open spec fn candidates(excluded: Seq<ExclusionModel>, entries: Seq<EntryModel>) -> nat {
    tally(excluded, entries, EntryClass::ExcludedByPath) + tally(
        excluded,
        entries,
        EntryClass::ExcludedByInode,
    ) + tally(excluded, entries, EntryClass::Duplicate) + tally(
        excluded,
        entries,
        EntryClass::Allowed,
    )
}

/// A count that sticks at the largest number.
pub open spec fn capped(n: nat) -> usize {
    if n > usize::MAX {
        usize::MAX
    } else {
        n as usize
    }
}

/// The paths of allowed executables.
pub open spec fn kept_paths(kept: Seq<KeptModel>) -> Seq<Seq<u8>> {
    kept.map_values(|k: KeptModel| k.path)
}

// ---------------------------------------------------------------------------
// Directories
// ---------------------------------------------------------------------------

/// The first directory that cannot be read decides.
pub open spec fn listing_error(dirs: Seq<Seq<u8>>, listings: Seq<ListingModel>) -> Option<
    ErrorModel,
>
    decreases dirs.len(),
{
    if dirs.len() == 0 {
        None
    } else {
        match listings[0] {
            ListingModel::Unreadable(reason) => Some(
                ErrorModel::ConfigRead { path: dirs[0], source: reason },
            ),
            ListingModel::Entries(_) => listing_error(dirs.skip(1), listings.skip(1)),
        }
    }
}

/// The entries of all directories.
pub open spec fn all_entries(listings: Seq<ListingModel>) -> Seq<EntryModel>
    decreases listings.len(),
{
    if listings.len() == 0 {
        Seq::empty()
    } else {
        let before = all_entries(listings.drop_last());
        match listings.last() {
            ListingModel::Entries(entries) => before + entries,
            ListingModel::Unreadable(_) => before,
        }
    }
}

/// The parents of files.
pub open spec fn parents(files: Seq<Seq<u8>>) -> Seq<Seq<u8>>
    decreases files.len(),
{
    if files.len() == 0 {
        Seq::empty()
    } else {
        let before = parents(files.drop_last());
        match paths::parent_path(files.last()) {
            Some(parent) => before.push(parent),
            None => before,
        }
    }
}

/// The directories that hold files.
pub open spec fn parent_dirs(files: Seq<Seq<u8>>) -> Seq<Seq<u8>> {
    path_list::path_set(parents(files))
}

/// Lists the directories that hold files.
pub fn executable_parent_dirs(executable_files: &Vec<FilePath>) -> (r: Vec<FilePath>)
    ensures
        text::views(r@) == parent_dirs(text::views(executable_files@)),
{
    let ghost all = text::views(executable_files@);
    let mut dirs: Vec<FilePath> = Vec::new();
    assert(text::views(dirs@) =~= parent_dirs(all.take(0)));
    for i in 0..executable_files.len()
        invariant
            all == text::views(executable_files@),
            text::views(dirs@) == parent_dirs(all.take(i as int)),
    {
        assert(all.take(i + 1).drop_last() =~= all.take(i as int));
        assert(all.take(i + 1).last() == executable_files@[i as int]@);
        if let Some(parent) = executable_files[i].parent() {
            proof {
                let before = parents(all.take(i as int));
                assert(before.push(parent@).drop_last() =~= before);
            }
            path_list::insert_into_set(&mut dirs, parent);
        }
    }
    assert(all.take(all.len() as int) =~= all);
    dirs
}

/// How many rules the sandbox takes: one for every executable, for every
/// directory that holds one, and for all that supports them.
pub open spec fn rule_count(
    files: Seq<Seq<u8>>,
    support_dirs: Seq<Seq<u8>>,
    support_files: Seq<Seq<u8>>,
) -> nat {
    files.len() + parent_dirs(files).len() + support_dirs.len() + support_files.len()
}

fn count_rules(
    executable_files: &Vec<FilePath>,
    support_dirs: &Vec<FilePath>,
    support_files: &Vec<FilePath>,
) -> (r: usize)
    ensures
        r == capped(
            rule_count(
                text::views(executable_files@),
                text::views(support_dirs@),
                text::views(support_files@),
            ),
        ),
{
    let parents = executable_parent_dirs(executable_files);
    assert(text::views(parents@).len() == parents@.len());
    executable_files.len().saturating_add(parents.len()).saturating_add(
        support_dirs.len(),
    ).saturating_add(support_files.len())
}

// ---------------------------------------------------------------------------
// The scan
// ---------------------------------------------------------------------------

/// What has been collected so far.
struct Progress {
    files: Vec<FilePath>,
    ids: Vec<FileId>,
    seen: usize,
    executables: usize,
    by_path: usize,
    by_inode: usize,
    duplicates: usize,
    skipped: usize,
    unreadable: usize,
}

impl Progress {
    spec fn kept_files(self) -> Seq<KeptModel> {
        Seq::new(
            self.files@.len(),
            |i: int| KeptModel { path: self.files@[i]@, id: self.ids@[i] },
        )
    }

    /// The state accounts for exactly these entries.
    spec fn accounts_for(self, excluded: Seq<ExclusionModel>, entries: Seq<EntryModel>) -> bool {
        &&& self.files@.len() == self.ids@.len()
        &&& self.kept_files() == kept(excluded, entries)
        &&& self.seen == capped(entries.len())
        &&& self.executables == capped(candidates(excluded, entries))
        &&& self.by_path == capped(tally(excluded, entries, EntryClass::ExcludedByPath))
        &&& self.by_inode == capped(tally(excluded, entries, EntryClass::ExcludedByInode))
        &&& self.duplicates == capped(tally(excluded, entries, EntryClass::Duplicate))
        &&& self.skipped == capped(tally(excluded, entries, EntryClass::NotExecutable))
        &&& self.unreadable == capped(tally(excluded, entries, EntryClass::Unreadable))
    }

    fn start() -> (r: Self)
        ensures
            forall|excluded: Seq<ExclusionModel>|
                #![trigger kept(excluded, Seq::<EntryModel>::empty())]
                r.accounts_for(excluded, Seq::<EntryModel>::empty()),
    {
        let r = Progress {
            files: Vec::new(),
            ids: Vec::new(),
            seen: 0,
            executables: 0,
            by_path: 0,
            by_inode: 0,
            duplicates: 0,
            skipped: 0,
            unreadable: 0,
        };
        assert forall|excluded: Seq<ExclusionModel>|
            #![trigger kept(excluded, Seq::<EntryModel>::empty())]
            r.accounts_for(excluded, Seq::<EntryModel>::empty()) by {
            assert(r.kept_files() =~= Seq::empty());
        }
        r
    }

    fn has_id(&self, id: FileId) -> (r: bool)
        requires
            self.files@.len() == self.ids@.len(),
        ensures
            r == keeps_id(self.kept_files(), id),
    {
        for i in 0..self.ids.len()
            invariant
                self.files@.len() == self.ids@.len(),
                forall|j: int| 0 <= j < i ==> (#[trigger] self.kept_files()[j]).id != id,
        {
            assert(self.kept_files()[i as int].id == self.ids@[i as int]);
            if self.ids[i] == id {
                return true;
            }
        }
        false
    }

    fn note(
        &mut self,
        excluded: &Vec<Exclusion>,
        entry: &ScanEntry,
        Ghost(entries): Ghost<Seq<EntryModel>>,
    )
        requires
            old(self).accounts_for(text::views(excluded@), entries),
        ensures
            final(self).accounts_for(text::views(excluded@), entries.push(entry@)),
    {
        let ghost banned = text::views(excluded@);
        assert(entries.push(entry@).drop_last() =~= entries);
        self.seen = self.seen.saturating_add(1);
        match entry {
            ScanEntry::Unreadable => {
                self.unreadable = self.unreadable.saturating_add(1);
            },
            ScanEntry::Found { canonical, facts } => {
                if !inspect::is_executable_file(facts) {
                    self.skipped = self.skipped.saturating_add(1);
                } else {
                    self.executables = self.executables.saturating_add(1);
                    let id = FileId { dev: facts.dev, ino: facts.ino };
                    if scan::has_excluded_path(excluded, canonical) {
                        self.by_path = self.by_path.saturating_add(1);
                    } else if scan::has_excluded_id(excluded, id) {
                        self.by_inode = self.by_inode.saturating_add(1);
                    } else if self.has_id(id) {
                        self.duplicates = self.duplicates.saturating_add(1);
                    } else {
                        self.files.push(canonical.clone());
                        self.ids.push(id);
                    }
                }
            },
        }
        assert(self.kept_files() =~= kept(banned, entries.push(entry@)));
    }
}

/// What scanning directories finds, or the first directory that cannot be read.
pub open spec fn scanned(
    dirs: Seq<Seq<u8>>,
    listings: Seq<ListingModel>,
    excluded: Seq<ExclusionModel>,
    support_dirs: Seq<Seq<u8>>,
    support_files: Seq<Seq<u8>>,
) -> Result<ScanModel, ErrorModel> {
    let entries = all_entries(listings);
    let files = kept_paths(kept(excluded, entries));
    match listing_error(dirs, listings) {
        Some(error) => Err(error),
        None => Ok(
            ScanModel {
                executable_files: path_list::sorted(files),
                support_dirs,
                support_files,
                excluded,
                stats: ScanStats {
                    exec_dirs_requested: dirs.len() as usize,
                    exec_dirs_scanned: dirs.len() as usize,
                    exec_entries_seen: capped(entries.len()),
                    executable_candidates: capped(candidates(excluded, entries)),
                    allowed_executable_files: files.len() as usize,
                    excluded_by_path: capped(
                        tally(excluded, entries, EntryClass::ExcludedByPath),
                    ),
                    excluded_by_inode: capped(
                        tally(excluded, entries, EntryClass::ExcludedByInode),
                    ),
                    duplicate_inode_skips: capped(
                        tally(excluded, entries, EntryClass::Duplicate),
                    ),
                    non_file_skips: capped(tally(excluded, entries, EntryClass::NotExecutable)),
                    metadata_errors: capped(tally(excluded, entries, EntryClass::Unreadable)),
                    support_dirs_allowed: support_dirs.len() as usize,
                    support_files_allowed: support_files.len() as usize,
                    total_landlock_rules: capped(rule_count(files, support_dirs, support_files)),
                },
            },
        ),
    }
}

fn scan_listing(
    progress: &mut Progress,
    excluded: &Vec<Exclusion>,
    list: &Vec<ScanEntry>,
    Ghost(entries): Ghost<Seq<EntryModel>>,
)
    requires
        old(progress).accounts_for(text::views(excluded@), entries),
    ensures
        final(progress).accounts_for(text::views(excluded@), entries + text::views(list@)),
{
    let ghost all = text::views(list@);
    assert(entries + all.take(0) =~= entries);
    for i in 0..list.len()
        invariant
            all == text::views(list@),
            progress.accounts_for(text::views(excluded@), entries + all.take(i as int)),
    {
        progress.note(excluded, &list[i], Ghost(entries + all.take(i as int)));
        assert((entries + all.take(i as int)).push(list@[i as int]@) =~= entries + all.take(
            i + 1,
        ));
    }
    assert(all.take(all.len() as int) =~= all);
}

/// Collects the executables in directories that are neither excluded nor
/// repeated. `listings` says what each directory holds; `support_dirs` and
/// `support_files` are carried along.
pub fn scan_inputs(
    exec_dirs: &Vec<FilePath>,
    listings: &Vec<DirListing>,
    excluded: Vec<Exclusion>,
    support_dirs: Vec<FilePath>,
    support_files: Vec<FilePath>,
) -> (r: Result<ScanOutput, NonoError>)
    requires
        listings@.len() == exec_dirs@.len(),
    ensures
        crate::error::outcome(r) == scanned(
            text::views(exec_dirs@),
            text::views(listings@),
            text::views(excluded@),
            text::views(support_dirs@),
            text::views(support_files@),
        ),
{
    let ghost dirs = text::views(exec_dirs@);
    let ghost replies = text::views(listings@);
    let ghost banned = text::views(excluded@);
    let mut progress = Progress::start();
    assert(dirs.skip(0) =~= dirs);
    assert(replies.skip(0) =~= replies);
    assert(all_entries(replies.take(0)) =~= Seq::<EntryModel>::empty());
    assert(kept(banned, Seq::<EntryModel>::empty()) =~= Seq::empty());
    for i in 0..exec_dirs.len()
        invariant
            listings@.len() == exec_dirs@.len(),
            dirs == text::views(exec_dirs@),
            replies == text::views(listings@),
            banned == text::views(excluded@),
            listing_error(dirs, replies) == listing_error(
                dirs.skip(i as int),
                replies.skip(i as int),
            ),
            progress.accounts_for(banned, all_entries(replies.take(i as int))),
    {
        proof {
            assert(dirs.skip(i as int)[0] == exec_dirs@[i as int]@);
            assert(replies.skip(i as int)[0] == listings@[i as int]@);
            assert(dirs.skip(i as int).skip(1) =~= dirs.skip(i + 1));
            assert(replies.skip(i as int).skip(1) =~= replies.skip(i + 1));
            assert(replies.take(i + 1).drop_last() =~= replies.take(i as int));
            assert(replies.take(i + 1).last() == listings@[i as int]@);
        }
        match &listings[i] {
            DirListing::Unreadable(reason) => {
                return Err(
                    NonoError::ConfigRead { path: exec_dirs[i].clone(), source: reason.clone() },
                );
            },
            DirListing::Entries(list) => {
                scan_listing(
                    &mut progress,
                    &excluded,
                    list,
                    Ghost(all_entries(replies.take(i as int))),
                );
            },
        }
    }
    proof {
        assert(replies.take(replies.len() as int) =~= replies);
        let entries = all_entries(replies);
        assert(kept_paths(kept(banned, entries)) =~= text::views(progress.files@));
    }
    let total = count_rules(&progress.files, &support_dirs, &support_files);
    let stats = ScanStats {
        exec_dirs_requested: exec_dirs.len(),
        exec_dirs_scanned: exec_dirs.len(),
        exec_entries_seen: progress.seen,
        executable_candidates: progress.executables,
        allowed_executable_files: progress.files.len(),
        excluded_by_path: progress.by_path,
        excluded_by_inode: progress.by_inode,
        duplicate_inode_skips: progress.duplicates,
        non_file_skips: progress.skipped,
        metadata_errors: progress.unreadable,
        support_dirs_allowed: support_dirs.len(),
        support_files_allowed: support_files.len(),
        total_landlock_rules: total,
    };
    let executable_files = path_list::sort_paths(progress.files);
    Ok(ScanOutput { executable_files, support_dirs, support_files, excluded, stats })
}

/// What the sandbox of a single command needs.
pub open spec fn command_scan(
    policy: Seq<u8>,
    support_dirs: Seq<Seq<u8>>,
    support_files: Seq<Seq<u8>>,
) -> ScanModel {
    ScanModel {
        executable_files: seq![policy],
        support_dirs,
        support_files,
        excluded: Seq::empty(),
        stats: ScanStats {
            executable_candidates: 1,
            allowed_executable_files: 1,
            support_dirs_allowed: support_dirs.len() as usize,
            support_files_allowed: support_files.len() as usize,
            total_landlock_rules: capped(rule_count(seq![policy], support_dirs, support_files)),
            ..no_stats()
        },
    }
}

/// Lists what the sandbox of a single command needs.
pub fn command_sandbox_scan(
    policy: FilePath,
    support_dirs: Vec<FilePath>,
    support_files: Vec<FilePath>,
) -> (r: ScanOutput)
    ensures
        r@ == command_scan(policy@, text::views(support_dirs@), text::views(support_files@)),
{
    let ghost value = policy@;
    let mut executable_files: Vec<FilePath> = Vec::new();
    executable_files.push(policy);
    assert(text::views(executable_files@) =~= seq![value]);
    let stats = ScanStats {
        executable_candidates: 1,
        allowed_executable_files: 1,
        support_dirs_allowed: support_dirs.len(),
        support_files_allowed: support_files.len(),
        total_landlock_rules: count_rules(&executable_files, &support_dirs, &support_files),
        ..ScanStats::default()
    };
    let excluded: Vec<Exclusion> = Vec::new();
    assert(text::views(excluded@) =~= Seq::empty());
    ScanOutput { executable_files, support_dirs, support_files, excluded, stats }
}

// ---------------------------------------------------------------------------
// What holds of every scan
// ---------------------------------------------------------------------------

/// Every entry is accounted for once.
pub proof fn law_entries_are_accounted_for(
    excluded: Seq<ExclusionModel>,
    entries: Seq<EntryModel>,
)
    ensures
        tally(excluded, entries, EntryClass::Unreadable) + tally(
            excluded,
            entries,
            EntryClass::NotExecutable,
        ) + candidates(excluded, entries) == entries.len(),
        tally(excluded, entries, EntryClass::Allowed) == kept(excluded, entries).len(),
    decreases entries.len(),
{
    if entries.len() > 0 {
        law_entries_are_accounted_for(excluded, entries.drop_last());
    }
}

/// Nothing that is excluded is allowed, neither by its path nor under another
/// name, and no file is allowed twice.
pub proof fn law_allowed_files_are_clean(
    excluded: Seq<ExclusionModel>,
    entries: Seq<EntryModel>,
)
    ensures
        forall|i: int|
            0 <= i < kept(excluded, entries).len() ==> !scan::excludes_path(
                excluded,
                (#[trigger] kept(excluded, entries)[i]).path,
            ) && !scan::excludes_id(excluded, kept(excluded, entries)[i].id),
        forall|i: int, j: int|
            0 <= i < j < kept(excluded, entries).len() ==> (#[trigger] kept(excluded, entries)[i]).id
                != (#[trigger] kept(excluded, entries)[j]).id,
    decreases entries.len(),
{
    if entries.len() > 0 {
        let front = entries.drop_last();
        let before = kept(excluded, front);
        let all = kept(excluded, entries);
        law_allowed_files_are_clean(excluded, front);
        assert forall|i: int| 0 <= i < all.len() implies !scan::excludes_path(
            excluded,
            (#[trigger] all[i]).path,
        ) && !scan::excludes_id(excluded, all[i].id) by {
            if i < before.len() {
                assert(all[i] == before[i]);
            }
        }
        assert forall|i: int, j: int| 0 <= i < j < all.len() implies (#[trigger] all[i]).id != (
        #[trigger] all[j]).id by {
            assert(all[i] == before[i]);
            if j < before.len() {
                assert(all[j] == before[j]);
            } else {
                assert(!keeps_id(before, all[j].id));
            }
        }
    }
}

/// No excluded binary is among the executables that a scan allows.
pub proof fn law_excluded_binaries_stay_out(
    dirs: Seq<Seq<u8>>,
    listings: Seq<ListingModel>,
    excluded: Seq<ExclusionModel>,
    support_dirs: Seq<Seq<u8>>,
    support_files: Seq<Seq<u8>>,
)
    requires
        scanned(dirs, listings, excluded, support_dirs, support_files) is Ok,
    ensures
        ({
            let files = scanned(
                dirs,
                listings,
                excluded,
                support_dirs,
                support_files,
            )->Ok_0.executable_files;
            forall|i: int|
                0 <= i < files.len() ==> !scan::excludes_path(excluded, #[trigger] files[i])
        }),
{
    let entries = all_entries(listings);
    let allowed = kept(excluded, entries);
    let listed = kept_paths(allowed);
    let files = path_list::sorted(listed);
    law_allowed_files_are_clean(excluded, entries);
    path_list::lemma_sorted_members(listed);
    assert forall|i: int| 0 <= i < files.len() implies !scan::excludes_path(
        excluded,
        #[trigger] files[i],
    ) by {
        assert(files.contains(files[i]));
        let j = listed.index_of(files[i]);
        assert(listed[j] == allowed[j].path);
    }
}

} // verus!
