//! Ordered lists of paths.
use vstd::prelude::*;

use crate::paths;
use crate::paths::FilePath;
use crate::text;

verus! {

/// The list with one more path, put behind every path that does not come after
/// it.
pub open spec fn with_path(list: Seq<Seq<u8>>, path: Seq<u8>) -> Seq<Seq<u8>>
    decreases list.len(),
{
    if list.len() > 0 && paths::path_precedes(path, list.last()) {
        with_path(list.drop_last(), path).push(list.last())
    } else {
        list.push(path)
    }
}

/// The paths in their order; those that name the same file keep theirs.
pub open spec fn sorted(list: Seq<Seq<u8>>) -> Seq<Seq<u8>>
    decreases list.len(),
{
    if list.len() == 0 {
        list
    } else {
        with_path(sorted(list.drop_last()), list.last())
    }
}

/// Some path of the list names the same file as `path`.
pub open spec fn lists_file(list: Seq<Seq<u8>>, path: Seq<u8>) -> bool {
    exists|i: int| 0 <= i < list.len() && #[trigger] paths::same_path(list[i], path)
}

/// The paths in their order, and of those that name the same file the first.
pub open spec fn path_set(list: Seq<Seq<u8>>) -> Seq<Seq<u8>>
    decreases list.len(),
{
    if list.len() == 0 {
        list
    } else {
        let before = path_set(list.drop_last());
        if lists_file(before, list.last()) {
            before
        } else {
            with_path(before, list.last())
        }
    }
}

/// No path comes before an earlier one.
pub open spec fn in_order(list: Seq<Seq<u8>>) -> bool {
    forall|i: int, j: int| 0 <= i < j < list.len() ==> !#[trigger] paths::path_precedes(
        list[j],
        list[i],
    )
}

/// Every path comes before the later ones.
pub open spec fn ascending(list: Seq<Seq<u8>>) -> bool {
    forall|i: int, j: int| 0 <= i < j < list.len() ==> #[trigger] paths::path_precedes(
        list[i],
        list[j],
    )
}

proof fn lemma_with_path_at(list: Seq<Seq<u8>>, path: Seq<u8>, at: int)
    requires
        0 <= at <= list.len(),
        forall|i: int| at <= i < list.len() ==> paths::path_precedes(path, #[trigger] list[i]),
        at == 0 || !paths::path_precedes(path, list[at - 1]),
    ensures
        with_path(list, path) == list.insert(at, path),
    decreases list.len(),
{
    if list.len() > 0 && paths::path_precedes(path, list.last()) {
        assert(at < list.len());
        lemma_with_path_at(list.drop_last(), path, at);
        assert(list.drop_last().insert(at, path).push(list.last()) =~= list.insert(at, path));
    } else {
        if at < list.len() {
            assert(paths::path_precedes(path, list[list.len() - 1]));
        }
        assert(list.push(path) =~= list.insert(at, path));
    }
}

proof fn lemma_with_path(list: Seq<Seq<u8>>, path: Seq<u8>)
    ensures
        with_path(list, path).len() == list.len() + 1,
        with_path(list, path).to_multiset() == list.to_multiset().insert(path),
        forall|p: Seq<u8>| #[trigger]
            with_path(list, path).contains(p) <==> p == path || list.contains(p),
        in_order(list) ==> in_order(with_path(list, path)),
        ascending(list) && !lists_file(list, path) ==> ascending(with_path(list, path)),
    decreases list.len(),
{
    if list.len() > 0 && paths::path_precedes(path, list.last()) {
        let front = list.drop_last();
        let last = list.last();
        let inner = with_path(front, path);
        lemma_with_path(front, path);
        assert(list =~= front.push(last));
        front.to_multiset_ensures();
        inner.to_multiset_ensures();
        assert(inner.push(last).to_multiset() =~= list.to_multiset().insert(path)) by {
            assert(inner.push(last).to_multiset() =~= inner.to_multiset().insert(last));
            assert(front.push(last).to_multiset() =~= front.to_multiset().insert(last));
        }
        assert forall|p: Seq<u8>| #[trigger]
            inner.push(last).contains(p) <==> p == path || list.contains(p) by {
            vstd::seq_lib::lemma_seq_contains_after_push(inner, last, p);
            vstd::seq_lib::lemma_seq_contains_after_push(front, last, p);
            assert(inner.contains(p) <==> p == path || front.contains(p));
        }
        if in_order(list) {
            assert(in_order(front)) by {
                assert forall|i: int, j: int| 0 <= i < j < front.len() implies !#[trigger] paths::path_precedes(
                    front[j],
                    front[i],
                ) by {
                    assert(front[i] == list[i] && front[j] == list[j]);
                }
            }
            assert forall|i: int, j: int| 0 <= i < j < inner.push(last).len() implies !#[trigger] paths::path_precedes(
                inner.push(last)[j],
                inner.push(last)[i],
            ) by {
                if j == inner.len() {
                    assert(inner.contains(inner[i]));
                    if inner[i] == path {
                        paths::law_path_order(last, path, last);
                    } else {
                        let m = front.index_of(inner[i]);
                        assert(front.contains(inner[i]));
                        assert(list[m] == inner[i]);
                        assert(!paths::path_precedes(list[list.len() - 1], list[m]));
                    }
                }
            }
        }
        if ascending(list) && !lists_file(list, path) {
            assert(ascending(front)) by {
                assert forall|i: int, j: int| 0 <= i < j < front.len() implies #[trigger] paths::path_precedes(
                    front[i],
                    front[j],
                ) by {
                    assert(front[i] == list[i] && front[j] == list[j]);
                }
            }
            assert(!lists_file(front, path)) by {
                if lists_file(front, path) {
                    let i = choose|i: int|
                        0 <= i < front.len() && #[trigger] paths::same_path(front[i], path);
                    assert(paths::same_path(list[i], path));
                }
            }
            assert forall|i: int, j: int| 0 <= i < j < inner.push(last).len() implies #[trigger] paths::path_precedes(
                inner.push(last)[i],
                inner.push(last)[j],
            ) by {
                if j == inner.len() {
                    assert(inner.contains(inner[i]));
                    if inner[i] != path {
                        let m = front.index_of(inner[i]);
                        assert(front.contains(inner[i]));
                        assert(list[m] == inner[i]);
                        assert(paths::path_precedes(list[m], list[list.len() - 1]));
                    }
                }
            }
        }
    } else {
        list.to_multiset_ensures();
        assert forall|p: Seq<u8>| #[trigger]
            list.push(path).contains(p) <==> p == path || list.contains(p) by {
            vstd::seq_lib::lemma_seq_contains_after_push(list, path, p);
        }
        if in_order(list) {
            assert forall|i: int, j: int| 0 <= i < j < list.push(path).len() implies !#[trigger] paths::path_precedes(
                list.push(path)[j],
                list.push(path)[i],
            ) by {
                if j == list.len() {
                    let last = list[list.len() - 1];
                    if i < list.len() - 1 {
                        assert(!paths::path_precedes(last, list[i]));
                        paths::law_path_order(path, list[i], last);
                        paths::law_path_order(list[i], last, path);
                        if paths::path_precedes(path, list[i]) {
                            if paths::path_precedes(list[i], last) {
                            } else {
                                assert(paths::same_path(list[i], last));
                                assert(paths::path_precedes(path, last));
                            }
                        }
                    }
                }
            }
        }
        if ascending(list) && !lists_file(list, path) {
            assert forall|i: int, j: int| 0 <= i < j < list.push(path).len() implies #[trigger] paths::path_precedes(
                list.push(path)[i],
                list.push(path)[j],
            ) by {
                if j == list.len() {
                    let last = list[list.len() - 1];
                    assert(!paths::same_path(last, path));
                    paths::law_path_order(last, path, last);
                    assert(paths::path_precedes(last, path));
                    if i < list.len() - 1 {
                        assert(paths::path_precedes(list[i], last));
                        paths::law_path_order(list[i], last, path);
                    }
                }
            }
        }
    }
}

/// Sorting keeps every path, as often as it occurs, and puts them in order.
pub proof fn law_sorted(list: Seq<Seq<u8>>)
    ensures
        sorted(list).to_multiset() == list.to_multiset(),
        in_order(sorted(list)),
    decreases list.len(),
{
    if list.len() > 0 {
        let front = list.drop_last();
        law_sorted(front);
        lemma_with_path(sorted(front), list.last());
        front.to_multiset_ensures();
        assert(list =~= front.push(list.last()));
    }
}

/// A set of paths is strictly ascending, holds nothing else than the listed
/// paths, and holds for each of them one that names the same file.
pub proof fn law_path_set(list: Seq<Seq<u8>>)
    ensures
        ascending(path_set(list)),
        forall|p: Seq<u8>| #[trigger] path_set(list).contains(p) ==> list.contains(p),
        forall|p: Seq<u8>| #[trigger] list.contains(p) ==> lists_file(path_set(list), p),
    decreases list.len(),
{
    if list.len() > 0 {
        let front = list.drop_last();
        let last = list.last();
        let before = path_set(front);
        law_path_set(front);
        lemma_with_path(before, last);
        assert(list =~= front.push(last));
        assert forall|p: Seq<u8>| #[trigger] path_set(list).contains(p) implies list.contains(
            p,
        ) by {
            vstd::seq_lib::lemma_seq_contains_after_push(front, last, p);
        }
        assert forall|p: Seq<u8>| #[trigger] list.contains(p) implies lists_file(
            path_set(list),
            p,
        ) by {
            vstd::seq_lib::lemma_seq_contains_after_push(front, last, p);
            if front.contains(p) {
                let i = choose|i: int|
                    0 <= i < before.len() && #[trigger] paths::same_path(before[i], p);
                assert(before.contains(before[i]));
                if !lists_file(before, last) {
                    assert(with_path(before, last).contains(before[i]));
                    let j = with_path(before, last).index_of(before[i]);
                    assert(paths::same_path(with_path(before, last)[j], p));
                }
            } else if !lists_file(before, last) {
                assert(with_path(before, last).contains(last));
                let j = with_path(before, last).index_of(last);
                assert(paths::same_path(with_path(before, last)[j], p));
            }
        }
    }
}

spec fn named_files(list: Seq<Seq<u8>>) -> Seq<Seq<paths::ComponentModel>> {
    list.map_values(|path: Seq<u8>| paths::components(path))
}

proof fn lemma_set_names(list: Seq<Seq<u8>>)
    ensures
        named_files(path_set(list)).no_duplicates(),
        forall|x: Seq<paths::ComponentModel>| #[trigger]
            named_files(path_set(list)).contains(x) <==> exists|p: Seq<u8>| #[trigger]
                list.contains(p) && paths::components(p) == x,
{
    let set = path_set(list);
    let names = named_files(set);
    law_path_set(list);
    assert forall|i: int, j: int| 0 <= i < names.len() && 0 <= j < names.len() && i
        != j implies names[i] != names[j] by {
        if i < j {
            assert(paths::path_precedes(set[i], set[j]));
            paths::law_path_order(set[i], set[j], set[i]);
        } else {
            assert(paths::path_precedes(set[j], set[i]));
            paths::law_path_order(set[j], set[i], set[j]);
        }
    }
    assert forall|x: Seq<paths::ComponentModel>| #[trigger]
        names.contains(x) <==> exists|p: Seq<u8>| #[trigger]
            list.contains(p) && paths::components(p) == x by {
        if names.contains(x) {
            let i = names.index_of(x);
            assert(set.contains(set[i]));
            assert(list.contains(set[i]));
        }
        if exists|p: Seq<u8>| #[trigger] list.contains(p) && paths::components(p) == x {
            let p = choose|p: Seq<u8>| #[trigger] list.contains(p) && paths::components(p) == x;
            let i = choose|i: int| 0 <= i < set.len() && #[trigger] paths::same_path(set[i], p);
            assert(names[i] == x);
        }
    }
}

/// How many files a list names does not depend on its order or repetitions.
pub proof fn law_set_size(a: Seq<Seq<u8>>, b: Seq<Seq<u8>>)
    requires
        forall|p: Seq<u8>| #[trigger] a.contains(p) <==> #[trigger] b.contains(p),
    ensures
        path_set(a).len() == path_set(b).len(),
{
    lemma_set_names(a);
    lemma_set_names(b);
    let x = named_files(path_set(a));
    let y = named_files(path_set(b));
    assert forall|n: Seq<paths::ComponentModel>| x.to_set().contains(n) == y.to_set().contains(
        n,
    ) by {
        if x.contains(n) {
            let p = choose|p: Seq<u8>| #[trigger] a.contains(p) && paths::components(p) == n;
            assert(b.contains(p));
        }
        if y.contains(n) {
            let p = choose|p: Seq<u8>| #[trigger] b.contains(p) && paths::components(p) == n;
            assert(a.contains(p));
        }
    }
    assert(x.to_set() =~= y.to_set());
    x.unique_seq_to_set();
    y.unique_seq_to_set();
}

/// Sorting keeps the length and the members.
pub proof fn lemma_sorted_members(list: Seq<Seq<u8>>)
    ensures
        sorted(list).len() == list.len(),
        forall|p: Seq<u8>| #[trigger] sorted(list).contains(p) <==> list.contains(p),
    decreases list.len(),
{
    if list.len() > 0 {
        let front = list.drop_last();
        lemma_sorted_members(front);
        lemma_with_path(sorted(front), list.last());
        assert(list =~= front.push(list.last()));
        assert forall|p: Seq<u8>| #[trigger] sorted(list).contains(p) <==> list.contains(p) by {
            vstd::seq_lib::lemma_seq_contains_after_push(front, list.last(), p);
            assert(sorted(front).contains(p) <==> front.contains(p));
        }
    }
}

/// A copy of a list of paths.
pub fn copy_paths(list: &Vec<FilePath>) -> (r: Vec<FilePath>)
    ensures
        text::views(r@) == text::views(list@),
{
    let mut out: Vec<FilePath> = Vec::new();
    for i in 0..list.len()
        invariant
            out@.len() == i,
            forall|j: int| 0 <= j < i ==> (#[trigger] out@[j])@ == list@[j]@,
    {
        out.push(list[i].clone());
    }
    assert(text::views(out@) =~= text::views(list@));
    out
}

/// Tells whether some path of the list names the same file as `path`.
pub fn contains_file(list: &Vec<FilePath>, path: &FilePath) -> (r: bool)
    ensures
        r == lists_file(text::views(list@), path@),
{
    for i in 0..list.len()
        invariant
            forall|j: int| 0 <= j < i ==> !paths::same_path(#[trigger] list@[j]@, path@),
    {
        if list[i].is_same(path) {
            assert(paths::same_path(text::views(list@)[i as int], path@));
            return true;
        }
    }
    assert forall|j: int| 0 <= j < list@.len() implies !#[trigger] paths::same_path(
        text::views(list@)[j],
        path@,
    ) by {
        assert(text::views(list@)[j] == list@[j]@);
    }
    false
}

/// Puts a path behind every path that does not come after it.
pub fn insert_path(list: &mut Vec<FilePath>, path: FilePath)
    ensures
        text::views(final(list)@) == with_path(text::views(old(list)@), path@),
{
    let ghost all = text::views(list@);
    let mut at = list.len();
    while at > 0 && path.comes_before(&list[at - 1])
        invariant
            at <= list@.len(),
            all == text::views(list@),
            forall|i: int|
                at <= i < all.len() ==> paths::path_precedes(path@, #[trigger] all[i]),
        decreases at,
    {
        assert(all[at - 1] == list@[at - 1]@);
        at = at - 1;
    }
    proof {
        if at > 0 {
            assert(all[at - 1] == list@[at - 1]@);
        }
        lemma_with_path_at(all, path@, at as int);
    }
    let ghost value = path@;
    list.insert(at, path);
    assert(text::views(list@) =~= all.insert(at as int, value));
}

/// Sorts a list of paths.
pub fn sort_paths(list: Vec<FilePath>) -> (r: Vec<FilePath>)
    ensures
        text::views(r@) == sorted(text::views(list@)),
{
    let ghost all = text::views(list@);
    let mut out: Vec<FilePath> = Vec::new();
    assert(all.take(0) =~= Seq::empty());
    assert(text::views(out@) =~= sorted(all.take(0)));
    for i in 0..list.len()
        invariant
            all == text::views(list@),
            text::views(out@) == sorted(all.take(i as int)),
    {
        insert_path(&mut out, list[i].clone());
        assert(all.take(i + 1).drop_last() =~= all.take(i as int));
        assert(all.take(i + 1).last() == list@[i as int]@);
    }
    assert(all.take(all.len() as int) =~= all);
    out
}

/// Adds a path to a set of paths.
pub fn insert_into_set(set: &mut Vec<FilePath>, path: FilePath)
    ensures
        text::views(final(set)@) == (if lists_file(text::views(old(set)@), path@) {
            text::views(old(set)@)
        } else {
            with_path(text::views(old(set)@), path@)
        }),
{
    if !contains_file(set, &path) {
        insert_path(set, path);
    }
}

} // verus!
