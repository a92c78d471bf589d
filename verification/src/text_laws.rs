//! What the functions on texts, bytes and paths are for.
use vstd::prelude::*;

use crate::bytes;
use crate::paths;
use crate::text;

verus! {

// ---------------------------------------------------------------------------
// What values stand for
// ---------------------------------------------------------------------------

/// The list has what each member of the other stands for, at the same place.
pub open spec fn stand_for<A: View>(models: Seq<A::V>, list: Seq<A>) -> bool {
    models.len() == list.len() && forall|i: int|
        0 <= i < list.len() ==> #[trigger] models[i] == list[i]@
}

/// The one is there exactly if the other is, and is what that stands for.
pub open spec fn stands_for<A: View>(model: Option<A::V>, value: Option<A>) -> bool {
    (model is Some <==> value is Some) && (value is Some ==> model->0 == value->0@)
}

// ---------------------------------------------------------------------------
// Order and letters
// ---------------------------------------------------------------------------

/// Where two texts first differ, the smaller character decides; a text that
/// goes on comes behind the one that has ended.
pub proof fn law_first_difference_decides(
    common: Seq<char>,
    x: char,
    y: char,
    s: Seq<char>,
    t: Seq<char>,
)
    ensures
        text::precedes(common.push(x) + s, common.push(y) + t) && !text::precedes(
            common.push(y) + t,
            common.push(x) + s,
        ) <== x < y,
        text::precedes(common, common.push(x) + s),
        !text::precedes(common.push(x) + s, common),
{
    let a = common.push(x) + s;
    let b = common.push(y) + t;
    let k = common.len() as int;
    if x < y {
        assert(text::diverges_at(a, b, k));
        if text::precedes(b, a) {
            text::lemma_precedes_transitive(a, b, a);
            text::lemma_precedes_irreflexive(a);
        }
    }
    assert(text::diverges_at(common, a, k));
    if text::precedes(a, common) {
        text::lemma_precedes_transitive(a, common, a);
        text::lemma_precedes_irreflexive(a);
    }
}

/// Changing the case of a letter moves it between the two runs of the ASCII
/// alphabet, and leaves everything else alone.
pub proof fn law_letter_case(c: char)
    ensures
        65 <= c as int <= 90 ==> text::ascii_lower(c) as int == c as int + 32,
        !(65 <= c as int <= 90) ==> text::ascii_lower(c) == c,
        97 <= c as int <= 122 ==> text::ascii_upper(c) as int == c as int - 32,
        !(97 <= c as int <= 122) ==> text::ascii_upper(c) == c,
{
}

// ---------------------------------------------------------------------------
// Numbers
// ---------------------------------------------------------------------------

/// The number that a row of decimal digits stands for.
pub open spec fn number_of(digits: Seq<char>) -> int
    decreases digits.len(),
{
    if digits.len() == 0 {
        0
    } else {
        10 * number_of(digits.drop_last()) + (digits.last() as int - 48)
    }
}

/// A number is written with decimal digits alone, without a leading zero, and
/// reads back as itself.
pub proof fn law_decimal_reads_back(n: nat)
    ensures
        text::decimal(n).len() > 0,
        forall|i: int| 0 <= i < text::decimal(n).len() ==> '0' <= #[trigger] text::decimal(n)[i] <= '9',
        text::decimal(n)[0] == '0' ==> n == 0,
        number_of(text::decimal(n)) == n,
    decreases n,
{
    if n < 10 {
        let d = text::decimal(n);
        assert(d.drop_last() =~= Seq::empty());
        assert(d.last() as int == 48 + n);
        assert(number_of(d.drop_last()) == 0);
    } else {
        law_decimal_reads_back(n / 10);
        let d = text::decimal(n);
        assert(d.drop_last() =~= text::decimal(n / 10));
        assert(d.last() as int == 48 + n % 10);
        assert(d[0] == text::decimal(n / 10)[0]);
    }
}

/// A negative number is written as a minus and its size.
pub proof fn law_signed_decimal_reads_back(n: int)
    ensures
        n >= 0 ==> number_of(text::signed_decimal(n)) == n && text::signed_decimal(n)[0] != '-',
        n < 0 ==> text::signed_decimal(n)[0] == '-' && number_of(text::signed_decimal(n).skip(1))
            == -n,
{
    reveal_strlit("-");
    if n < 0 {
        law_decimal_reads_back((-n) as nat);
        assert(text::signed_decimal(n).skip(1) =~= text::decimal((-n) as nat));
    } else {
        law_decimal_reads_back(n as nat);
    }
}

// ---------------------------------------------------------------------------
// Pieces
// ---------------------------------------------------------------------------

/// Joining two lists of pieces puts one separator between the two; a single
/// piece needs none.
pub proof fn law_joining(a: Seq<Seq<char>>, b: Seq<Seq<char>>, piece: Seq<char>, separator: Seq<char>)
    ensures
        text::joined(Seq::empty(), separator).len() == 0,
        text::joined(seq![piece], separator) == piece,
        a.len() > 0 && b.len() > 0 ==> text::joined(a + b, separator) == text::joined(a, separator)
            + separator + text::joined(b, separator),
    decreases b.len(),
{
    if a.len() > 0 && b.len() > 0 {
        let all = a + b;
        assert(all.last() == b.last());
        assert(all.drop_last() =~= a + b.drop_last());
        if b.len() == 1 {
            assert(all.drop_last() =~= a);
        } else {
            law_joining(a, b.drop_last(), piece, separator);
            assert(text::joined(all, separator) =~= text::joined(a, separator) + separator
                + text::joined(b, separator));
        }
    }
}

/// The parts put together again, with the separator between neighbours.
pub open spec fn stitched<A>(parts: Seq<Seq<A>>, separator: A) -> Seq<A>
    decreases parts.len(),
{
    if parts.len() == 0 {
        Seq::empty()
    } else if parts.len() == 1 {
        parts[0]
    } else {
        parts[0].push(separator) + stitched(parts.skip(1), separator)
    }
}

proof fn lemma_stitched_push<A>(parts: Seq<Seq<A>>, part: Seq<A>, separator: A)
    requires
        parts.len() > 0,
    ensures
        stitched(parts.push(part), separator) == stitched(parts, separator).push(separator) + part,
    decreases parts.len(),
{
    let all = parts.push(part);
    assert(all.skip(1) =~= parts.skip(1).push(part));
    if parts.len() == 1 {
        assert(all.skip(1) =~= seq![part]);
        assert(stitched(seq![part], separator) == part);
    } else {
        lemma_stitched_push(parts.skip(1), part, separator);
        assert(stitched(all, separator) =~= stitched(parts, separator).push(separator) + part);
    }
}

/// Splitting cuts at every separator: no part holds one, and the parts with the
/// separators between them are the whole.
pub proof fn law_splitting<A>(b: Seq<A>, separator: A)
    ensures
        bytes::split(b, separator).len() > 0,
        stitched(bytes::split(b, separator), separator) == b,
        forall|i: int|
            0 <= i < bytes::split(b, separator).len() ==> !(#[trigger] bytes::split(
                b,
                separator,
            )[i]).contains(separator),
    decreases b.len(),
{
    bytes::lemma_last_start(b, separator);
    let start = bytes::last_start(b, separator);
    let parts = bytes::split(b, separator);
    if start == 0 {
        assert(parts =~= seq![b]);
        assert(!b.contains(separator));
        assert(stitched(parts, separator) == parts[0]);
    } else {
        let before = bytes::before_last(b, separator);
        let part = bytes::last_part(b, separator);
        law_splitting(before, separator);
        lemma_stitched_push(bytes::split(before, separator), part, separator);
        assert(before.push(separator) + part =~= b);
        assert(!part.contains(separator)) by {
            if part.contains(separator) {
                let i = part.index_of(separator);
                assert(b[start + i] == separator);
            }
        }
        assert(parts == bytes::split(before, separator).push(part));
    }
}

/// The first position is that of the wanted byte, and none stands before it;
/// where there is none, it is the end.
pub proof fn law_first_position(b: Seq<u8>, wanted: u8)
    ensures
        0 <= bytes::first_position(b, wanted) <= b.len(),
        forall|i: int| 0 <= i < bytes::first_position(b, wanted) ==> b[i] != wanted,
        bytes::first_position(b, wanted) < b.len() ==> b[bytes::first_position(b, wanted)]
            == wanted,
    decreases b.len(),
{
    if b.len() > 0 && b[0] != wanted {
        law_first_position(b.skip(1), wanted);
        let p = bytes::first_position(b.skip(1), wanted);
        assert forall|i: int| 0 <= i < p + 1 implies b[i] != wanted by {
            if i > 0 {
                assert(b[i] == b.skip(1)[i - 1]);
            }
        }
        if p < b.skip(1).len() {
            assert(b[p + 1] == b.skip(1)[p]);
        }
    }
}

/// A text occurs in another exactly if that is it with something before and
/// behind.
pub proof fn law_occurrence(before: Seq<char>, needle: Seq<char>, behind: Seq<char>)
    ensures
        text::occurs(before + needle + behind, needle),
{
    let all = before + needle + behind;
    let at = before.len() as int;
    assert(all.subrange(at, at + needle.len()) =~= needle);
    assert(text::occurs_at(all, needle, at));
}

/// What occurs in a text has a place there.
pub proof fn law_occurrence_has_a_place(haystack: Seq<char>, needle: Seq<char>)
    requires
        text::occurs(haystack, needle),
    ensures
        exists|before: Seq<char>, behind: Seq<char>| #[trigger] (before + needle + behind) == haystack,
{
    let at = choose|at: int| #[trigger] text::occurs_at(haystack, needle, at);
    let before = haystack.take(at);
    let behind = haystack.skip(at + needle.len());
    assert(before + needle + behind =~= haystack) by {
        assert forall|i: int| at <= i < at + needle.len() implies haystack[i] == needle[i - at] by {
            assert(haystack.subrange(at, at + needle.len())[i - at] == haystack[i]);
        }
    }
}

/// Bytes occur in others exactly if those are them with something before and
/// behind.
pub proof fn law_byte_occurrence(before: Seq<u8>, needle: Seq<u8>, behind: Seq<u8>)
    ensures
        bytes::occurs(before + needle + behind, needle),
{
    let all = before + needle + behind;
    let at = before.len() as int;
    assert(all.subrange(at, at + needle.len()) =~= needle);
    assert(bytes::occurs_at(all, needle, at));
}

/// Bytes that occur in others have a place there.
pub proof fn law_byte_occurrence_has_a_place(haystack: Seq<u8>, needle: Seq<u8>)
    requires
        bytes::occurs(haystack, needle),
    ensures
        exists|before: Seq<u8>, behind: Seq<u8>| #[trigger] (before + needle + behind) == haystack,
{
    let at = choose|at: int| #[trigger] bytes::occurs_at(haystack, needle, at);
    let before = haystack.take(at);
    let behind = haystack.skip(at + needle.len());
    assert(before + needle + behind =~= haystack) by {
        assert forall|i: int| at <= i < at + needle.len() implies haystack[i] == needle[i - at] by {
            assert(haystack.subrange(at, at + needle.len())[i - at] == haystack[i]);
        }
    }
}

// ---------------------------------------------------------------------------
// Words
// ---------------------------------------------------------------------------

/// Among the ASCII characters only the blank and the five controls from the tab
/// to the carriage return separate words.
pub proof fn law_ascii_white_space(c: char)
    requires
        c as int <= 127,
    ensures
        text::white_space(c) <==> c as int == 32 || 9 <= c as int <= 13,
{
}

/// A text without white space is one word; white space parts the words before
/// it from those behind.
pub proof fn law_words_are_parted_by_white_space(a: Seq<char>, gap: char, b: Seq<char>)
    ensures
        text::words(Seq::empty()).len() == 0,
        a.len() > 0 && (forall|i: int| 0 <= i < a.len() ==> !text::white_space(#[trigger] a[i]))
            ==> text::words(a) == seq![a],
        text::white_space(gap) ==> text::words(a.push(gap) + b) == text::words(a) + text::words(b),
    decreases a.len() + b.len(),
{
    if a.len() > 0 && (forall|i: int| 0 <= i < a.len() ==> !text::white_space(#[trigger] a[i])) {
        let front = a.drop_last();
        assert forall|i: int| 0 <= i < front.len() implies !text::white_space(
            #[trigger] front[i],
        ) by {
            assert(front[i] == a[i]);
        }
        assert(!text::white_space(a[a.len() - 1]));
        if front.len() == 0 {
            assert(text::words(front) =~= Seq::empty());
            assert(text::words(a) =~= seq![seq![a.last()]]);
            assert(a =~= seq![a.last()]);
        } else {
            law_words_are_parted_by_white_space(front, gap, Seq::empty());
            assert(!text::white_space(front[front.len() - 1]));
            assert(text::words(a) =~= seq![front.push(a.last())]);
            assert(front.push(a.last()) =~= a);
        }
    }
    if text::white_space(gap) {
        lemma_words_parted(a, gap, b);
    }
}

proof fn lemma_words_parted(a: Seq<char>, gap: char, b: Seq<char>)
    requires
        text::white_space(gap),
    ensures
        text::words(a.push(gap) + b) == text::words(a) + text::words(b),
        b.len() > 0 && !text::white_space(b.last()) ==> text::words(b).len() > 0,
    decreases b.len(),
{
    let all = a.push(gap) + b;
    if b.len() == 0 {
        assert(all =~= a.push(gap));
        assert(all.drop_last() =~= a);
        assert(text::words(all) =~= text::words(a) + text::words(b));
    } else {
        let front = b.drop_last();
        lemma_words_parted(a, gap, front);
        assert(all.drop_last() =~= a.push(gap) + front);
        assert(all.last() == b.last());
        let found = text::words(a.push(gap) + front);
        if !text::white_space(b.last()) {
            if front.len() == 0 {
                assert((a.push(gap) + front).last() == gap);
                assert(text::words(front) =~= Seq::empty());
                assert(text::words(b) =~= seq![seq![b.last()]]);
                assert(text::words(all) =~= text::words(a) + text::words(b));
            } else {
                assert((a.push(gap) + front).last() == front.last());
                if text::white_space(front.last()) {
                    assert(text::words(all) =~= text::words(a) + text::words(b));
                } else {
                    assert(found.last() == text::words(front).last());
                    assert(text::words(all) =~= text::words(a) + text::words(b));
                }
            }
        } else {
            assert(text::words(all) =~= text::words(a) + text::words(b));
        }
    }
}

/// Every character of the text is white space.
pub open spec fn all_white(text: Seq<char>) -> bool {
    forall|i: int| 0 <= i < text.len() ==> text::white_space(#[trigger] text[i])
}

proof fn lemma_trimmed_start(text: Seq<char>) -> (before: Seq<char>)
    ensures
        text == before + text::trimmed_start(text),
        all_white(before),
        text::trimmed_start(text).len() > 0 ==> !text::white_space(text::trimmed_start(text)[0]),
    decreases text.len(),
{
    if text.len() > 0 && text::white_space(text[0]) {
        let rest = lemma_trimmed_start(text.skip(1));
        let before = seq![text[0]] + rest;
        assert(text =~= seq![text[0]] + text.skip(1));
        assert(before + text::trimmed_start(text) =~= seq![text[0]] + (rest
            + text::trimmed_start(text.skip(1))));
        assert forall|i: int| 0 <= i < before.len() implies text::white_space(
            #[trigger] before[i],
        ) by {
            if i > 0 {
                assert(before[i] == rest[i - 1]);
            }
        }
        before
    } else {
        assert(text =~= Seq::<char>::empty() + text);
        Seq::empty()
    }
}

proof fn lemma_trimmed_end(text: Seq<char>) -> (behind: Seq<char>)
    ensures
        text == text::trimmed_end(text) + behind,
        all_white(behind),
        text::trimmed_end(text).len() > 0 ==> !text::white_space(text::trimmed_end(text).last()),
    decreases text.len(),
{
    if text.len() > 0 && text::white_space(text.last()) {
        let rest = lemma_trimmed_end(text.drop_last());
        let behind = rest.push(text.last());
        assert(text =~= text.drop_last().push(text.last()));
        assert(text::trimmed_end(text) + behind =~= (text::trimmed_end(text.drop_last())
            + rest).push(text.last()));
        assert forall|i: int| 0 <= i < behind.len() implies text::white_space(
            #[trigger] behind[i],
        ) by {
            if i < rest.len() {
                assert(behind[i] == rest[i]);
            }
        }
        behind
    } else {
        assert(text =~= text + Seq::<char>::empty());
        Seq::empty()
    }
}

/// Trimming takes white space from both ends, all of it and nothing else.
pub proof fn law_trimming(text: Seq<char>)
    ensures
        exists|before: Seq<char>, behind: Seq<char>|
            all_white(before) && all_white(behind) && text == #[trigger] (before + text::trimmed(
                text,
            ) + behind),
        text::trimmed(text).len() > 0 ==> !text::white_space(text::trimmed(text)[0])
            && !text::white_space(text::trimmed(text).last()),
{
    let before = lemma_trimmed_start(text);
    let middle = text::trimmed_start(text);
    let behind = lemma_trimmed_end(middle);
    assert(text =~= before + text::trimmed(text) + behind);
    if text::trimmed(text).len() > 0 {
        assert(text::trimmed(text)[0] == middle[0]);
    }
}

// ---------------------------------------------------------------------------
// Paths
// ---------------------------------------------------------------------------

/// A path is seen from a directory as the directory, a slash unless it has one
/// at its end or is empty, and the path; one that starts at the root is itself.
pub proof fn law_joined_path(dir: Seq<u8>, name: Seq<u8>)
    ensures
        name.len() > 0 && name[0] == 47 ==> paths::joined_path(dir, name) == name,
        !(name.len() > 0 && name[0] == 47) ==> ({
            let path = paths::joined_path(dir, name);
            let n = path.len() - name.len();
            &&& n >= dir.len()
            &&& path.take(dir.len() as int) == dir
            &&& path.skip(n) == name
            &&& dir.len() == 0 || dir.last() == 47 ==> n == dir.len()
            &&& dir.len() > 0 && dir.last() != 47 ==> n == dir.len() + 1 && path[n - 1] == 47
        }),
{
    let path = paths::joined_path(dir, name);
    if !(name.len() > 0 && name[0] == 47) {
        assert(path.take(dir.len() as int) =~= dir);
        assert(path.skip(path.len() - name.len()) =~= name);
    }
}

/// What remains of a name without its extension is the name up to its last dot;
/// a dot at the start begins no extension.
pub proof fn law_stem(name: Seq<u8>)
    ensures
        paths::stem(name) == name ==> forall|i: int| 1 <= i < name.len() ==> #[trigger] name[i] != 46,
        paths::stem(name) != name ==> ({
            let n = paths::stem(name).len() as int;
            &&& 0 < n < name.len()
            &&& paths::stem(name) == name.take(n)
            &&& name[n] == 46
            &&& forall|i: int| n < i < name.len() ==> #[trigger] name[i] != 46
        }),
{
    bytes::lemma_last_start(name, 46);
    let start = bytes::last_start(name, 46);
    if start > 1 {
        assert(name.take(start - 1).len() == start - 1);
    } else {
        assert(bytes::before_last(name, 46).len() == 0);
    }
}

} // verus!
