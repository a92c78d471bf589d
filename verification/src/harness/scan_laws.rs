//! What a scan finds, in terms of what lies in the directories.
use vstd::prelude::*;

use crate::command_policy::inspect;
use crate::command_policy::inspection_laws;
use crate::error::ErrorModel;
use crate::harness::collect;
use crate::harness::collect::{EntryClass, EntryModel, KeptModel, ListingModel, ScanModel};
use crate::harness::scan;
use crate::harness::scan::{ExclusionModel, ExclusionStatusModel, PathStatusModel};
use crate::path_list;
use crate::paths;
use crate::positions;

verus! {

// ---------------------------------------------------------------------------
// Inputs
// ---------------------------------------------------------------------------

/// What the user provides replaces the defaults as a whole.
pub proof fn law_provided_paths_win(provided: Seq<Seq<u8>>, defaults: Seq<Seq<char>>)
    ensures
        provided.len() > 0 ==> scan::chosen_paths(provided, defaults) == provided,
        provided.len() == 0 ==> scan::chosen_paths(provided, defaults).len() == defaults.len()
            && forall|i: int|
            0 <= i < defaults.len() ==> #[trigger] scan::chosen_paths(provided, defaults)[i]
                == vstd::utf8::encode_utf8(defaults[i]),
{
}

/// The usual places: five for executables, six for what supports them, and five
/// files.
pub proof fn law_default_places()
    ensures
        scan::exec_dir_defaults() == seq![
            "/bin"@,
            "/usr/bin"@,
            "/usr/local/bin"@,
            "/sbin"@,
            "/usr/sbin"@,
        ],
        scan::support_dir_defaults() == seq![
            "/lib"@,
            "/lib64"@,
            "/usr/lib"@,
            "/usr/lib64"@,
            "/usr/local/lib"@,
            "/usr/local/lib64"@,
        ],
        scan::support_file_defaults() == seq![
            "/etc/ld.so.cache"@,
            "/etc/ld.so.conf"@,
            "/etc/nsswitch.conf"@,
            "/etc/hosts"@,
            "/etc/resolv.conf"@,
        ],
{
}

/// The first input that is wrong, and what is said of it.
pub open spec fn bad_input_at(
    raw: Seq<Seq<u8>>,
    statuses: Seq<PathStatusModel>,
    require_dir: bool,
    i: int,
    error: ErrorModel,
) -> bool {
    &&& 0 <= i < raw.len()
    &&& forall|j: int| 0 <= j < i ==> good_input(#[trigger] statuses[j], require_dir)
    &&& match statuses[i] {
        PathStatusModel::Missing => false,
        PathStatusModel::Uncanonical(reason) => error == (ErrorModel::PathCanonicalization {
            path: raw[i],
            source: reason,
        }),
        PathStatusModel::Canonical { is_dir, .. } => require_dir && !is_dir && error
            == ErrorModel::ExpectedDirectory(raw[i]),
    }
}

/// Nothing is wrong with the input.
pub open spec fn good_input(status: PathStatusModel, require_dir: bool) -> bool {
    status is Missing || status is Canonical && (require_dir ==> status->is_dir)
}

proof fn lemma_input_errors(
    raw: Seq<Seq<u8>>,
    statuses: Seq<PathStatusModel>,
    require_dir: bool,
)
    requires
        raw.len() == statuses.len(),
    ensures
        match scan::first_input_error(raw, statuses, require_dir) {
            None => forall|i: int|
                0 <= i < statuses.len() ==> good_input(#[trigger] statuses[i], require_dir),
            Some(error) => exists|i: int| #[trigger]
                bad_input_at(raw, statuses, require_dir, i, error),
        },
    decreases raw.len(),
{
    if raw.len() > 0 {
        let more = raw.skip(1);
        let rest = statuses.skip(1);
        lemma_input_errors(more, rest, require_dir);
        if let Some(error) = scan::input_error(raw[0], statuses[0], require_dir) {
            assert(bad_input_at(raw, statuses, require_dir, 0, error));
        } else if let Some(error) = scan::first_input_error(more, rest, require_dir) {
            let i = choose|i: int| #[trigger] bad_input_at(more, rest, require_dir, i, error);
            assert(more[i] == raw[i + 1] && rest[i] == statuses[i + 1]);
            assert forall|j: int| 0 <= j < i + 1 implies good_input(
                #[trigger] statuses[j],
                require_dir,
            ) by {
                if j > 0 {
                    assert(rest[j - 1] == statuses[j]);
                }
            }
            assert(bad_input_at(raw, statuses, require_dir, i + 1, error));
        } else {
            assert forall|i: int| 0 <= i < statuses.len() implies good_input(
                #[trigger] statuses[i],
                require_dir,
            ) by {
                if i > 0 {
                    assert(rest[i - 1] == statuses[i]);
                }
            }
        }
    }
}

/// Some input has the canonical path.
pub open spec fn is_canonical_input(statuses: Seq<PathStatusModel>, path: Seq<u8>) -> bool {
    exists|i: int|
        0 <= i < statuses.len() && #[trigger] statuses[i] is Canonical && statuses[i]->path == path
}

proof fn lemma_canonical_paths(statuses: Seq<PathStatusModel>, path: Seq<u8>)
    ensures
        scan::canonical_paths(statuses).contains(path) <==> is_canonical_input(statuses, path),
    decreases statuses.len(),
{
    if statuses.len() > 0 {
        let n = statuses.len() - 1;
        let front = statuses.drop_last();
        let before = scan::canonical_paths(front);
        lemma_canonical_paths(front, path);
        if let PathStatusModel::Canonical { path: last, .. } = statuses.last() {
            vstd::seq_lib::lemma_seq_contains_after_push(before, last, path);
            if last == path {
                assert(statuses[n] is Canonical && statuses[n]->path == path);
            }
        }
        if is_canonical_input(front, path) {
            let i = choose|i: int|
                0 <= i < front.len() && #[trigger] front[i] is Canonical && front[i]->path == path;
            assert(statuses[i] is Canonical && statuses[i]->path == path);
        }
        if is_canonical_input(statuses, path) {
            let i = choose|i: int|
                0 <= i < statuses.len() && #[trigger] statuses[i] is Canonical && statuses[i]->path
                    == path;
            if i < n {
                assert(front[i] is Canonical && front[i]->path == path);
            }
        }
    }
}

/// Inputs are taken by their canonical paths, in ascending order and without
/// repetition; those that are missing are passed over, and the first that is
/// wrong decides.
pub proof fn law_inputs_are_normalized(
    raw: Seq<Seq<u8>>,
    statuses: Seq<PathStatusModel>,
    require_dir: bool,
)
    requires
        raw.len() == statuses.len(),
    ensures
        match scan::normalized(raw, statuses, require_dir) {
            Ok(list) => {
                &&& forall|i: int|
                    0 <= i < statuses.len() ==> good_input(#[trigger] statuses[i], require_dir)
                &&& path_list::ascending(list)
                &&& forall|p: Seq<u8>| #[trigger]
                    list.contains(p) ==> is_canonical_input(statuses, p)
                &&& forall|p: Seq<u8>| #[trigger]
                    is_canonical_input(statuses, p) ==> path_list::lists_file(list, p)
            },
            Err(error) => exists|i: int| #[trigger]
                bad_input_at(raw, statuses, require_dir, i, error),
        },
{
    lemma_input_errors(raw, statuses, require_dir);
    let found = scan::canonical_paths(statuses);
    path_list::law_path_set(found);
    assert forall|p: Seq<u8>| #[trigger] found.contains(p) <==> is_canonical_input(statuses, p) by {
        lemma_canonical_paths(statuses, p);
    }
    if let Ok(list) = scan::normalized(raw, statuses, require_dir) {
        assert forall|p: Seq<u8>| #[trigger] is_canonical_input(
            statuses,
            p,
        ) implies path_list::lists_file(list, p) by {
            assert(found.contains(p));
        }
        assert forall|p: Seq<u8>| #[trigger] list.contains(p) implies is_canonical_input(
            statuses,
            p,
        ) by {
            assert(found.contains(p));
        }
    }
}

/// The member at a position is marked.
pub open spec fn mark_at(marks: Seq<bool>) -> spec_fn(int) -> bool {
    |p: int| marks[p]
}

proof fn lemma_marked(list: Seq<Seq<u8>>, marks: Seq<bool>) -> (at: Seq<int>)
    requires
        list.len() <= marks.len(),
    ensures
        positions::lists_positions(at, list.len() as int, mark_at(marks)),
        scan::marked(list, marks).len() == at.len(),
        forall|i: int| 0 <= i < at.len() ==> #[trigger] scan::marked(list, marks)[i] == list[at[i]],
    decreases list.len(),
{
    if list.len() == 0 {
        positions::lemma_no_position(mark_at(marks));
        Seq::empty()
    } else {
        let n = list.len() - 1;
        let front = list.drop_last();
        let before = lemma_marked(front, marks);
        let at = positions::lemma_one_more(before, n, mark_at(marks), mark_at(marks));
        let all = scan::marked(list, marks);
        assert forall|i: int| 0 <= i < at.len() implies #[trigger] all[i] == list[at[i]] by {
            if i < before.len() {
                assert(at[i] == before[i]);
                assert(front[before[i]] == list[at[i]]);
                assert(all[i] == scan::marked(front, marks)[i]);
            }
        }
        at
    }
}

/// Of a list the marked members are kept, in their order.
pub proof fn law_marked_are_kept(list: Seq<Seq<u8>>, marks: Seq<bool>)
    requires
        list.len() == marks.len(),
    ensures
        exists|at: Seq<int>|
            {
                &&& #[trigger] positions::lists_positions(at, list.len() as int, mark_at(marks))
                &&& scan::marked(list, marks).len() == at.len()
                &&& forall|i: int|
                    0 <= i < at.len() ==> #[trigger] scan::marked(list, marks)[i] == list[at[i]]
            },
{
    let at = lemma_marked(list, marks);
}

// ---------------------------------------------------------------------------
// Exclusions
// ---------------------------------------------------------------------------

/// The path to exclude is a file.
pub open spec fn good_exclusion(status: ExclusionStatusModel) -> bool {
    status is Found && status->is_file
}

/// The first path to exclude that is wrong, and what is said of it.
pub open spec fn bad_exclusion_at(
    requested: Seq<Seq<u8>>,
    statuses: Seq<ExclusionStatusModel>,
    i: int,
    error: ErrorModel,
) -> bool {
    &&& 0 <= i < requested.len()
    &&& forall|j: int| 0 <= j < i ==> good_exclusion(#[trigger] statuses[j])
    &&& match statuses[i] {
        ExclusionStatusModel::Uncanonical(reason) => error == (ErrorModel::PathCanonicalization {
            path: requested[i],
            source: reason,
        }),
        ExclusionStatusModel::Unreadable { canonical, source } => error == (
        ErrorModel::ConfigRead { path: canonical, source }),
        ExclusionStatusModel::Found { is_file, .. } => !is_file && error
            == ErrorModel::ExpectedFile(requested[i]),
    }
}

proof fn lemma_exclusion_errors(requested: Seq<Seq<u8>>, statuses: Seq<ExclusionStatusModel>)
    requires
        requested.len() == statuses.len(),
    ensures
        match scan::first_exclusion_error(requested, statuses) {
            None => forall|i: int| 0 <= i < statuses.len() ==> good_exclusion(#[trigger] statuses[i]),
            Some(error) => exists|i: int| #[trigger]
                bad_exclusion_at(requested, statuses, i, error),
        },
    decreases requested.len(),
{
    if requested.len() > 0 {
        let more = requested.skip(1);
        let rest = statuses.skip(1);
        lemma_exclusion_errors(more, rest);
        if let Some(error) = scan::exclusion_error(requested[0], statuses[0]) {
            assert(bad_exclusion_at(requested, statuses, 0, error));
        } else if let Some(error) = scan::first_exclusion_error(more, rest) {
            let i = choose|i: int| #[trigger] bad_exclusion_at(more, rest, i, error);
            assert(more[i] == requested[i + 1] && rest[i] == statuses[i + 1]);
            assert forall|j: int| 0 <= j < i + 1 implies good_exclusion(#[trigger] statuses[j]) by {
                if j > 0 {
                    assert(rest[j - 1] == statuses[j]);
                }
            }
            assert(bad_exclusion_at(requested, statuses, i + 1, error));
        } else {
            assert forall|i: int| 0 <= i < statuses.len() implies good_exclusion(
                #[trigger] statuses[i],
            ) by {
                if i > 0 {
                    assert(rest[i - 1] == statuses[i]);
                }
            }
        }
    }
}

/// The file at a position was not found at an earlier one.
pub open spec fn new_exclusion_at(statuses: Seq<ExclusionStatusModel>) -> spec_fn(int) -> bool {
    |p: int|
        statuses[p] is Found && forall|q: int|
            0 <= q < p && #[trigger] statuses[q] is Found ==> statuses[q]->id != statuses[p]->id
}

/// The exclusions are the files found, each once, at its first place, with the
/// path by which it was requested.
pub open spec fn exclusions_are(
    requested: Seq<Seq<u8>>,
    statuses: Seq<ExclusionStatusModel>,
    at: Seq<int>,
    list: Seq<ExclusionModel>,
) -> bool {
    &&& positions::lists_positions(at, statuses.len() as int, new_exclusion_at(statuses))
    &&& list.len() == at.len()
    &&& forall|i: int|
        0 <= i < at.len() ==> {
            &&& (#[trigger] list[i]).requested == requested[at[i]]
            &&& list[i].canonical == statuses[at[i]]->Found_canonical
            &&& list[i].id == statuses[at[i]]->id
        }
}

proof fn lemma_exclusions(
    requested: Seq<Seq<u8>>,
    statuses: Seq<ExclusionStatusModel>,
) -> (at: Seq<int>)
    requires
        requested.len() == statuses.len(),
    ensures
        exclusions_are(requested, statuses, at, scan::exclusions(requested, statuses)),
        forall|p: int|
            0 <= p < statuses.len() && #[trigger] statuses[p] is Found ==> scan::excludes_id(
                scan::exclusions(requested, statuses),
                statuses[p]->id,
            ),
    decreases requested.len(),
{
    let list = scan::exclusions(requested, statuses);
    if requested.len() == 0 {
        positions::lemma_no_position(new_exclusion_at(statuses));
        Seq::empty()
    } else {
        let n = requested.len() - 1;
        let front = requested.drop_last();
        let earlier = statuses.drop_last();
        let kept = scan::exclusions(front, earlier);
        let before = lemma_exclusions(front, earlier);
        assert(forall|i: int| 0 <= i < n ==> earlier[i] == statuses[i]);
        let old_condition = new_exclusion_at(earlier);
        let condition = new_exclusion_at(statuses);
        assert forall|p: int| 0 <= p < n implies old_condition(p) == #[trigger] condition(p) by {
            assert(earlier[p] == statuses[p]);
            if old_condition(p) {
                assert forall|q: int| 0 <= q < p && #[trigger] statuses[q] is Found implies
                    statuses[q]->id != statuses[p]->id by {
                    assert(earlier[q] is Found);
                }
            }
            if condition(p) {
                assert forall|q: int| 0 <= q < p && #[trigger] earlier[q] is Found implies
                    earlier[q]->id != earlier[p]->id by {
                    assert(statuses[q] is Found);
                }
            }
        }
        if let ExclusionStatusModel::Found { canonical, id, .. } = statuses[n] {
            if scan::excludes_id(kept, id) {
                let k = choose|k: int| 0 <= k < kept.len() && (#[trigger] kept[k]).id == id;
                let q = before[k];
                assert(old_condition(q));
                assert(earlier[q] is Found);
                assert(statuses[q] is Found && statuses[q]->id == id);
                assert(!condition(n));
            } else {
                assert forall|q: int| 0 <= q < n && #[trigger] statuses[q] is Found implies
                    statuses[q]->id != id by {
                    assert(earlier[q] is Found);
                }
                assert(condition(n));
            }
        }
        let at = positions::lemma_one_more(before, n, old_condition, condition);
        assert forall|i: int| 0 <= i < at.len() implies {
            &&& (#[trigger] list[i]).requested == requested[at[i]]
            &&& list[i].canonical == statuses[at[i]]->Found_canonical
            &&& list[i].id == statuses[at[i]]->id
        } by {
            if i < before.len() {
                assert(at[i] == before[i]);
                assert(list[i] == kept[i]);
                assert(front[before[i]] == requested[at[i]]);
                assert(earlier[before[i]] == statuses[at[i]]);
            }
        }
        assert forall|p: int| 0 <= p < statuses.len() && #[trigger] statuses[p] is Found implies
            scan::excludes_id(list, statuses[p]->id) by {
            if p < n {
                assert(earlier[p] is Found);
                let k = choose|k: int|
                    0 <= k < kept.len() && (#[trigger] kept[k]).id == earlier[p]->id;
                assert(list[k] == kept[k]);
            } else if !scan::excludes_id(kept, statuses[n]->id) {
                assert(list[kept.len() as int].id == statuses[n]->id);
            }
        }
        at
    }
}

/// Every path to exclude must be a file, and the first that is not decides;
/// then each file is excluded once, at its first place.
pub proof fn law_exclusions(requested: Seq<Seq<u8>>, statuses: Seq<ExclusionStatusModel>)
    requires
        requested.len() == statuses.len(),
    ensures
        match scan::canonical_exclusions(requested, statuses) {
            Ok(list) => {
                &&& forall|i: int| 0 <= i < statuses.len() ==> good_exclusion(#[trigger] statuses[i])
                &&& exists|at: Seq<int>| #[trigger] exclusions_are(requested, statuses, at, list)
            },
            Err(error) => exists|i: int| #[trigger]
                bad_exclusion_at(requested, statuses, i, error),
        },
{
    lemma_exclusion_errors(requested, statuses);
    let at = lemma_exclusions(requested, statuses);
    let result = scan::canonical_exclusions(requested, statuses);
    match scan::first_exclusion_error(requested, statuses) {
        Some(error) => {
            assert(result == Err::<Seq<ExclusionModel>, _>(error));
        },
        None => {
            assert(exclusions_are(requested, statuses, at, result->Ok_0));
            assert forall|i: int| 0 <= i < statuses.len() implies good_exclusion(
                #[trigger] statuses[i],
            ) by {}
        },
    }
}

// ---------------------------------------------------------------------------
// Entries
// ---------------------------------------------------------------------------

/// The entry is a regular file that somebody may execute.
pub open spec fn runnable(entry: EntryModel) -> bool {
    entry is Found && entry->facts.is_file && inspection_laws::has_execute_bit(entry->facts.mode)
}

/// The entry is excluded by name.
pub open spec fn named_out(excluded: Seq<ExclusionModel>, entry: EntryModel) -> bool {
    exists|k: int|
        0 <= k < excluded.len() && paths::same_path(
            (#[trigger] excluded[k]).canonical,
            entry->canonical,
        )
}

/// The entry is an excluded file, whatever its name.
pub open spec fn known_out(excluded: Seq<ExclusionModel>, entry: EntryModel) -> bool {
    exists|k: int|
        0 <= k < excluded.len() && (#[trigger] excluded[k]).id.dev == entry->facts.dev
            && excluded[k].id.ino == entry->facts.ino
}

/// The entry can be executed and is not excluded.
pub open spec fn clean(excluded: Seq<ExclusionModel>, entry: EntryModel) -> bool {
    runnable(entry) && !named_out(excluded, entry) && !known_out(excluded, entry)
}

/// The same file on the same device.
pub open spec fn same_entry(a: EntryModel, b: EntryModel) -> bool {
    a->facts.dev == b->facts.dev && a->facts.ino == b->facts.ino
}

/// An earlier entry that can be executed and is not excluded is the same file.
pub open spec fn seen_before(
    excluded: Seq<ExclusionModel>,
    entries: Seq<EntryModel>,
    p: int,
) -> bool {
    exists|q: int|
        0 <= q < p && clean(excluded, #[trigger] entries[q]) && same_entry(entries[q], entries[p])
}

/// What becomes of the entry at a position.
pub open spec fn fate(
    excluded: Seq<ExclusionModel>,
    entries: Seq<EntryModel>,
    p: int,
) -> EntryClass {
    if entries[p] is Unreadable {
        EntryClass::Unreadable
    } else if !runnable(entries[p]) {
        EntryClass::NotExecutable
    } else if named_out(excluded, entries[p]) {
        EntryClass::ExcludedByPath
    } else if known_out(excluded, entries[p]) {
        EntryClass::ExcludedByInode
    } else if seen_before(excluded, entries, p) {
        EntryClass::Duplicate
    } else {
        EntryClass::Allowed
    }
}

/// The entry at a position comes to a certain end.
pub open spec fn fate_at(
    excluded: Seq<ExclusionModel>,
    entries: Seq<EntryModel>,
    class: EntryClass,
) -> spec_fn(int) -> bool {
    |p: int| fate(excluded, entries, p) == class
}

/// The entry at a position can be executed.
pub open spec fn runnable_at(entries: Seq<EntryModel>) -> spec_fn(int) -> bool {
    |p: int| runnable(entries[p])
}

/// The kept files are the allowed entries, in their order.
pub open spec fn kept_are(
    excluded: Seq<ExclusionModel>,
    entries: Seq<EntryModel>,
    at: Seq<int>,
    kept: Seq<KeptModel>,
) -> bool {
    &&& positions::lists_positions(
        at,
        entries.len() as int,
        fate_at(excluded, entries, EntryClass::Allowed),
    )
    &&& kept.len() == at.len()
    &&& forall|i: int|
        0 <= i < at.len() ==> {
            &&& (#[trigger] kept[i]).path == entries[at[i]]->canonical
            &&& kept[i].id.dev == entries[at[i]]->facts.dev
            &&& kept[i].id.ino == entries[at[i]]->facts.ino
        }
}

proof fn lemma_fate_of_front(excluded: Seq<ExclusionModel>, entries: Seq<EntryModel>, p: int)
    requires
        0 <= p < entries.len() - 1,
    ensures
        fate(excluded, entries.drop_last(), p) == fate(excluded, entries, p),
{
    let front = entries.drop_last();
    assert(front[p] == entries[p]);
    if seen_before(excluded, front, p) {
        let q = choose|q: int|
            0 <= q < p && clean(excluded, #[trigger] front[q]) && same_entry(front[q], front[p]);
        assert(clean(excluded, entries[q]));
    }
    if seen_before(excluded, entries, p) {
        let q = choose|q: int|
            0 <= q < p && clean(excluded, #[trigger] entries[q]) && same_entry(
                entries[q],
                entries[p],
            );
        assert(clean(excluded, front[q]));
    }
}

proof fn lemma_runnable(entry: EntryModel)
    requires
        entry is Found,
    ensures
        inspect::executable_file(entry->facts) <==> runnable(entry),
{
    let mode = entry->facts.mode;
    assert((mode & 0o111 != 0) == (mode & 64 != 0 || mode & 8 != 0 || mode & 1 != 0))
        by (bit_vector);
}

proof fn lemma_known_out(excluded: Seq<ExclusionModel>, entry: EntryModel)
    ensures
        scan::excludes_id(excluded, collect::id_of(entry->facts)) <==> known_out(excluded, entry),
        scan::excludes_path(excluded, entry->canonical) <==> named_out(excluded, entry),
{
    let id = collect::id_of(entry->facts);
    if known_out(excluded, entry) {
        let k = choose|k: int|
            0 <= k < excluded.len() && (#[trigger] excluded[k]).id.dev == entry->facts.dev
                && excluded[k].id.ino == entry->facts.ino;
        assert(excluded[k].id == id);
    }
    if scan::excludes_id(excluded, id) {
        let k = choose|k: int| 0 <= k < excluded.len() && (#[trigger] excluded[k]).id == id;
        assert(excluded[k].id.dev == entry->facts.dev);
    }
}

proof fn lemma_kept(excluded: Seq<ExclusionModel>, entries: Seq<EntryModel>) -> (at: Seq<int>)
    ensures
        kept_are(excluded, entries, at, collect::kept(excluded, entries)),
        forall|p: int|
            0 <= p < entries.len() && clean(excluded, #[trigger] entries[p]) ==> collect::keeps_id(
                collect::kept(excluded, entries),
                collect::id_of(entries[p]->facts),
            ),
        entries.len() > 0 ==> collect::last_class(excluded, entries) == fate(
            excluded,
            entries,
            entries.len() - 1,
        ),
    decreases entries.len(),
{
    let kept = collect::kept(excluded, entries);
    if entries.len() == 0 {
        positions::lemma_no_position(fate_at(excluded, entries, EntryClass::Allowed));
        Seq::empty()
    } else {
        let n = entries.len() - 1;
        let front = entries.drop_last();
        let earlier = collect::kept(excluded, front);
        let before = lemma_kept(excluded, front);
        assert(forall|i: int| 0 <= i < n ==> front[i] == entries[i]);
        let entry = entries[n];
        let old_condition = fate_at(excluded, front, EntryClass::Allowed);
        let condition = fate_at(excluded, entries, EntryClass::Allowed);
        assert forall|p: int| 0 <= p < n implies old_condition(p) == #[trigger] condition(p) by {
            lemma_fate_of_front(excluded, entries, p);
        }
        if entry is Found {
            lemma_runnable(entry);
            lemma_known_out(excluded, entry);
            let id = collect::id_of(entry->facts);
            if collect::keeps_id(earlier, id) {
                let k = choose|k: int| 0 <= k < earlier.len() && (#[trigger] earlier[k]).id == id;
                let q = before[k];
                assert(old_condition(q));
                assert(clean(excluded, front[q]));
                assert(clean(excluded, entries[q]) && same_entry(entries[q], entry));
                assert(seen_before(excluded, entries, n));
            }
            if seen_before(excluded, entries, n) {
                let q = choose|q: int|
                    0 <= q < n && clean(excluded, #[trigger] entries[q]) && same_entry(
                        entries[q],
                        entry,
                    );
                assert(clean(excluded, front[q]));
                assert(collect::id_of(front[q]->facts) == id);
            }
        }
        assert(collect::last_class(excluded, entries) == fate(excluded, entries, n));
        let at = positions::lemma_one_more(before, n, old_condition, condition);
        assert forall|i: int| 0 <= i < at.len() implies {
            &&& (#[trigger] kept[i]).path == entries[at[i]]->canonical
            &&& kept[i].id.dev == entries[at[i]]->facts.dev
            &&& kept[i].id.ino == entries[at[i]]->facts.ino
        } by {
            if i < before.len() {
                assert(at[i] == before[i]);
                assert(kept[i] == earlier[i]);
                assert(front[before[i]] == entries[at[i]]);
            }
        }
        assert forall|p: int| 0 <= p < entries.len() && clean(
            excluded,
            #[trigger] entries[p],
        ) implies collect::keeps_id(kept, collect::id_of(entries[p]->facts)) by {
            let id = collect::id_of(entries[p]->facts);
            if p < n {
                assert(clean(excluded, front[p]));
                let k = choose|k: int| 0 <= k < earlier.len() && (#[trigger] earlier[k]).id == id;
                assert(kept[k] == earlier[k]);
            } else if collect::keeps_id(earlier, id) {
                let k = choose|k: int| 0 <= k < earlier.len() && (#[trigger] earlier[k]).id == id;
                assert(kept[k] == earlier[k]);
            } else {
                assert(kept[earlier.len() as int].id == id);
            }
        }
        at
    }
}

/// There are `n` positions that satisfy the condition.
pub open spec fn counts(entries: Seq<EntryModel>, condition: spec_fn(int) -> bool, n: nat) -> bool {
    exists|at: Seq<int>| #[trigger]
        positions::lists_positions(at, entries.len() as int, condition) && at.len() == n
}

proof fn lemma_tally(
    excluded: Seq<ExclusionModel>,
    entries: Seq<EntryModel>,
    class: EntryClass,
) -> (at: Seq<int>)
    ensures
        positions::lists_positions(at, entries.len() as int, fate_at(excluded, entries, class)),
        at.len() == collect::tally(excluded, entries, class),
    decreases entries.len(),
{
    let condition = fate_at(excluded, entries, class);
    if entries.len() == 0 {
        positions::lemma_no_position(condition);
        Seq::empty()
    } else {
        let n = entries.len() - 1;
        let front = entries.drop_last();
        let old_condition = fate_at(excluded, front, class);
        let before = lemma_tally(excluded, front, class);
        assert forall|p: int| 0 <= p < n implies old_condition(p) == #[trigger] condition(p) by {
            lemma_fate_of_front(excluded, entries, p);
        }
        let kept = lemma_kept(excluded, entries);
        positions::lemma_one_more(before, n, old_condition, condition)
    }
}

proof fn lemma_candidates(excluded: Seq<ExclusionModel>, entries: Seq<EntryModel>) -> (at: Seq<
    int,
>)
    ensures
        positions::lists_positions(at, entries.len() as int, runnable_at(entries)),
        at.len() == collect::candidates(excluded, entries),
    decreases entries.len(),
{
    let condition = runnable_at(entries);
    if entries.len() == 0 {
        positions::lemma_no_position(condition);
        Seq::empty()
    } else {
        let n = entries.len() - 1;
        let front = entries.drop_last();
        let old_condition = runnable_at(front);
        let before = lemma_candidates(excluded, front);
        assert forall|p: int| 0 <= p < n implies old_condition(p) == #[trigger] condition(p) by {
            assert(front[p] == entries[p]);
        }
        let kept = lemma_kept(excluded, entries);
        positions::lemma_one_more(before, n, old_condition, condition)
    }
}

/// Of the entries, in their order, those are kept that can be executed, are not
/// excluded by name or as files, and are not an earlier one under another name.
pub proof fn law_allowed_entries_are_kept(
    excluded: Seq<ExclusionModel>,
    entries: Seq<EntryModel>,
)
    ensures
        exists|at: Seq<int>| #[trigger]
            kept_are(excluded, entries, at, collect::kept(excluded, entries)),
{
    let at = lemma_kept(excluded, entries);
}

// ---------------------------------------------------------------------------
// Listings
// ---------------------------------------------------------------------------

/// The entries of two lists of directories are those of the first, then those
/// of the second; a directory that cannot be read has none.
pub proof fn law_entries_are_joined(
    a: Seq<ListingModel>,
    b: Seq<ListingModel>,
    listing: ListingModel,
)
    ensures
        collect::all_entries(a + b) == collect::all_entries(a) + collect::all_entries(b),
        listing is Entries ==> collect::all_entries(seq![listing]) == listing->Entries_0,
        listing is Unreadable ==> collect::all_entries(seq![listing]).len() == 0,
    decreases b.len(),
{
    let one = seq![listing];
    assert(one.drop_last() =~= Seq::empty());
    assert(collect::all_entries(one.drop_last()) =~= Seq::empty());
    if listing is Entries {
        assert(collect::all_entries(one) =~= listing->Entries_0);
    }
    if b.len() == 0 {
        assert(a + b =~= a);
        assert(collect::all_entries(a) + collect::all_entries(b) =~= collect::all_entries(a));
    } else {
        law_entries_are_joined(a, b.drop_last(), listing);
        assert((a + b).drop_last() =~= a + b.drop_last());
        assert((a + b).last() == b.last());
        assert(collect::all_entries(a + b) =~= collect::all_entries(a) + collect::all_entries(b));
    }
}

/// The first directory that cannot be read, and why.
pub open spec fn unreadable_at(
    dirs: Seq<Seq<u8>>,
    listings: Seq<ListingModel>,
    i: int,
    error: ErrorModel,
) -> bool {
    &&& 0 <= i < dirs.len()
    &&& listings[i] is Unreadable
    &&& forall|j: int| 0 <= j < i ==> (#[trigger] listings[j]) is Entries
    &&& error == (ErrorModel::ConfigRead { path: dirs[i], source: listings[i]->Unreadable_0 })
}

proof fn lemma_listing_errors(dirs: Seq<Seq<u8>>, listings: Seq<ListingModel>)
    requires
        dirs.len() == listings.len(),
    ensures
        match collect::listing_error(dirs, listings) {
            None => forall|i: int| 0 <= i < listings.len() ==> (#[trigger] listings[i]) is Entries,
            Some(error) => exists|i: int| #[trigger] unreadable_at(dirs, listings, i, error),
        },
    decreases dirs.len(),
{
    if dirs.len() > 0 {
        let more = dirs.skip(1);
        let rest = listings.skip(1);
        lemma_listing_errors(more, rest);
        if listings[0] is Unreadable {
            let error = collect::listing_error(dirs, listings)->0;
            assert(unreadable_at(dirs, listings, 0, error));
        } else if let Some(error) = collect::listing_error(more, rest) {
            let i = choose|i: int| #[trigger] unreadable_at(more, rest, i, error);
            assert(more[i] == dirs[i + 1] && rest[i] == listings[i + 1]);
            assert forall|j: int| 0 <= j < i + 1 implies (#[trigger] listings[j]) is Entries by {
                if j > 0 {
                    assert(rest[j - 1] == listings[j]);
                }
            }
            assert(unreadable_at(dirs, listings, i + 1, error));
        } else {
            assert forall|i: int| 0 <= i < listings.len() implies (
            #[trigger] listings[i]) is Entries by {
                if i > 0 {
                    assert(rest[i - 1] == listings[i]);
                }
            }
        }
    }
}

/// The number, unless it is too great to be kept: then the greatest there is.
pub open spec fn sticks(stat: usize, n: nat) -> bool {
    stat == n || n > usize::MAX && stat == usize::MAX
}

/// The statistic is the number of positions that satisfy the condition.
pub open spec fn stat_counts(
    entries: Seq<EntryModel>,
    condition: spec_fn(int) -> bool,
    stat: usize,
) -> bool {
    exists|n: nat| #[trigger] counts(entries, condition, n) && sticks(stat, n)
}

/// The executables are the canonical paths of the allowed entries, in order.
pub open spec fn executables_are(
    excluded: Seq<ExclusionModel>,
    entries: Seq<EntryModel>,
    at: Seq<int>,
    files: Seq<Seq<u8>>,
) -> bool {
    &&& positions::lists_positions(
        at,
        entries.len() as int,
        fate_at(excluded, entries, EntryClass::Allowed),
    )
    &&& files.to_multiset() == Seq::new(at.len(), |i: int| entries[at[i]]->canonical).to_multiset()
    &&& path_list::in_order(files)
}

/// What a scan says of itself.
pub open spec fn stats_fit(
    dirs: Seq<Seq<u8>>,
    entries: Seq<EntryModel>,
    excluded: Seq<ExclusionModel>,
    scan: ScanModel,
) -> bool {
    let stats = scan.stats;
    &&& stats.exec_dirs_requested == dirs.len()
    &&& stats.exec_dirs_scanned == dirs.len()
    &&& sticks(stats.exec_entries_seen, entries.len())
    &&& stat_counts(entries, runnable_at(entries), stats.executable_candidates)
    &&& stats.allowed_executable_files == scan.executable_files.len()
    &&& stat_counts(
        entries,
        fate_at(excluded, entries, EntryClass::ExcludedByPath),
        stats.excluded_by_path,
    )
    &&& stat_counts(
        entries,
        fate_at(excluded, entries, EntryClass::ExcludedByInode),
        stats.excluded_by_inode,
    )
    &&& stat_counts(
        entries,
        fate_at(excluded, entries, EntryClass::Duplicate),
        stats.duplicate_inode_skips,
    )
    &&& stat_counts(
        entries,
        fate_at(excluded, entries, EntryClass::NotExecutable),
        stats.non_file_skips,
    )
    &&& stat_counts(
        entries,
        fate_at(excluded, entries, EntryClass::Unreadable),
        stats.metadata_errors,
    )
    &&& stats.support_dirs_allowed == scan.support_dirs.len()
    &&& stats.support_files_allowed == scan.support_files.len()
}

proof fn lemma_capped(n: nat)
    ensures
        sticks(collect::capped(n), n),
{
}

proof fn lemma_stat(
    excluded: Seq<ExclusionModel>,
    entries: Seq<EntryModel>,
    class: EntryClass,
)
    ensures
        stat_counts(
            entries,
            fate_at(excluded, entries, class),
            collect::capped(collect::tally(excluded, entries, class)),
        ),
{
    let at = lemma_tally(excluded, entries, class);
    let n = collect::tally(excluded, entries, class);
    lemma_capped(n);
    assert(counts(entries, fate_at(excluded, entries, class), n));
}

/// A scan allows exactly the executables of the directories that are neither
/// excluded nor there twice, in the order of their paths, keeps what it was
/// given, and counts what became of the entries. It fails exactly if a directory
/// cannot be read, and the first such decides.
pub proof fn law_scan(
    dirs: Seq<Seq<u8>>,
    listings: Seq<ListingModel>,
    excluded: Seq<ExclusionModel>,
    support_dirs: Seq<Seq<u8>>,
    support_files: Seq<Seq<u8>>,
)
    requires
        dirs.len() == listings.len(),
        dirs.len() <= usize::MAX,
        support_dirs.len() <= usize::MAX,
        support_files.len() <= usize::MAX,
        collect::all_entries(listings).len() <= usize::MAX,
    ensures
        ({
            let entries = collect::all_entries(listings);
            match collect::scanned(dirs, listings, excluded, support_dirs, support_files) {
                Ok(scan) => {
                    &&& forall|i: int|
                        0 <= i < listings.len() ==> (#[trigger] listings[i]) is Entries
                    &&& exists|at: Seq<int>| #[trigger]
                        executables_are(excluded, entries, at, scan.executable_files)
                    &&& scan.support_dirs == support_dirs
                    &&& scan.support_files == support_files
                    &&& scan.excluded == excluded
                    &&& stats_fit(dirs, entries, excluded, scan)
                },
                Err(error) => exists|i: int| #[trigger] unreadable_at(dirs, listings, i, error),
            }
        }),
{
    lemma_listing_errors(dirs, listings);
    let entries = collect::all_entries(listings);
    let kept = collect::kept(excluded, entries);
    let files = collect::kept_paths(kept);
    let at = lemma_kept(excluded, entries);
    path_list::law_sorted(files);
    path_list::lemma_sorted_members(files);
    assert(files =~= Seq::new(at.len(), |i: int| entries[at[i]]->canonical));
    collect::law_entries_are_accounted_for(excluded, entries);
    if let Ok(scan) = collect::scanned(dirs, listings, excluded, support_dirs, support_files) {
        assert(executables_are(excluded, entries, at, scan.executable_files));
        let some = lemma_candidates(excluded, entries);
        lemma_capped(collect::candidates(excluded, entries));
        lemma_capped(entries.len());
        assert(counts(entries, runnable_at(entries), collect::candidates(excluded, entries)));
        lemma_stat(excluded, entries, EntryClass::ExcludedByPath);
        lemma_stat(excluded, entries, EntryClass::ExcludedByInode);
        lemma_stat(excluded, entries, EntryClass::Duplicate);
        lemma_stat(excluded, entries, EntryClass::NotExecutable);
        lemma_stat(excluded, entries, EntryClass::Unreadable);
    }
}

/// The sandbox of a single command needs its executable and what supports it.
pub proof fn law_command_scan(
    policy: Seq<u8>,
    support_dirs: Seq<Seq<u8>>,
    support_files: Seq<Seq<u8>>,
)
    requires
        support_dirs.len() <= usize::MAX,
        support_files.len() <= usize::MAX,
    ensures
        ({
            let scan = collect::command_scan(policy, support_dirs, support_files);
            &&& scan.executable_files == seq![policy]
            &&& scan.support_dirs == support_dirs
            &&& scan.support_files == support_files
            &&& scan.excluded.len() == 0
            &&& scan.stats.executable_candidates == 1
            &&& scan.stats.allowed_executable_files == 1
            &&& scan.stats.support_dirs_allowed == support_dirs.len()
            &&& scan.stats.support_files_allowed == support_files.len()
            &&& scan.stats.exec_dirs_requested == 0 && scan.stats.exec_dirs_scanned == 0
            &&& scan.stats.exec_entries_seen == 0 && scan.stats.excluded_by_path == 0
            &&& scan.stats.excluded_by_inode == 0 && scan.stats.duplicate_inode_skips == 0
            &&& scan.stats.non_file_skips == 0 && scan.stats.metadata_errors == 0
        }),
{
}

} // verus!
