//! Operations on byte strings.
use vstd::prelude::*;

use crate::text;

verus! {

/// The bytes of `b` between two positions.
pub fn byte_range(b: &[u8], from: usize, to: usize) -> (r: Vec<u8>)
    requires
        from <= to <= b@.len(),
    ensures
        r@ == b@.subrange(from as int, to as int),
{
    let mut out: Vec<u8> = Vec::new();
    for i in from..to
        invariant
            to <= b@.len(),
            out@ == b@.subrange(from as int, i as int),
    {
        out.push(b[i]);
        assert(b@.subrange(from as int, i + 1) =~= b@.subrange(from as int, i as int).push(
            b@[i as int],
        ));
    }
    out
}

/// A copy of `b`.
pub fn copy_bytes(b: &[u8]) -> (r: Vec<u8>)
    ensures
        r@ == b@,
{
    let r = byte_range(b, 0, b.len());
    assert(r@ =~= b@);
    r
}

/// Appends the bytes of `tail` to `out`.
pub fn append_bytes(out: &mut Vec<u8>, tail: &[u8])
    ensures
        final(out)@ == old(out)@ + tail@,
{
    let ghost before = out@;
    for i in 0..tail.len()
        invariant
            out@ == before + tail@.take(i as int),
    {
        out.push(tail[i]);
        assert(tail@.take(i + 1) =~= tail@.take(i as int).push(tail@[i as int]));
    }
    assert(tail@.take(tail@.len() as int) =~= tail@);
}

/// Tells whether two byte strings are the same.
pub fn bytes_eq(a: &[u8], b: &[u8]) -> (r: bool)
    ensures
        r == (a@ == b@),
{
    if a.len() != b.len() {
        return false;
    }
    for i in 0..a.len()
        invariant
            a@.len() == b@.len(),
            a@.take(i as int) == b@.take(i as int),
    {
        if a[i] != b[i] {
            assert(a@[i as int] != b@[i as int]);
            return false;
        }
        assert(a@.take(i + 1) =~= a@.take(i as int).push(a@[i as int]));
        assert(b@.take(i + 1) =~= b@.take(i as int).push(b@[i as int]));
    }
    assert(a@.take(a@.len() as int) =~= a@);
    assert(b@.take(b@.len() as int) =~= b@);
    true
}

/// `needle` occurs in `haystack` at position `at`.
pub open spec fn occurs_at(haystack: Seq<u8>, needle: Seq<u8>, at: int) -> bool {
    0 <= at && at + needle.len() <= haystack.len() && haystack.subrange(at, at + needle.len())
        == needle
}

/// `needle` occurs somewhere in `haystack`.
pub open spec fn occurs(haystack: Seq<u8>, needle: Seq<u8>) -> bool {
    exists|at: int| #[trigger] occurs_at(haystack, needle, at)
}

/// Tells whether `needle` occurs in `haystack`.
pub fn contains_subslice(haystack: &[u8], needle: &[u8]) -> (r: bool)
    ensures
        r == occurs(haystack@, needle@),
{
    if needle.len() == 0 {
        assert(haystack@.subrange(0, 0) =~= needle@);
        assert(occurs_at(haystack@, needle@, 0));
        return true;
    }
    if needle.len() > haystack.len() {
        return false;
    }
    let last = haystack.len() - needle.len();
    for at in 0..last + 1
        invariant
            needle@.len() <= haystack@.len(),
            last == haystack@.len() - needle@.len(),
            forall|k: int| 0 <= k < at ==> !occurs_at(haystack@, needle@, k),
    {
        let end = haystack.len() - (last - at);
        let window = byte_range(haystack, at, end);
        if bytes_eq(window.as_slice(), needle) {
            assert(occurs_at(haystack@, needle@, at as int));
            return true;
        }
    }
    false
}

/// Where the part behind the last `separator` begins.
pub open spec fn last_start<A>(b: Seq<A>, separator: A) -> int
    decreases b.len(),
{
    if b.len() == 0 || b.last() == separator {
        b.len() as int
    } else {
        last_start(b.drop_last(), separator)
    }
}

/// The last part lies within the string, holds no separator, and one stands
/// before it unless it is the whole.
pub proof fn lemma_last_start<A>(b: Seq<A>, separator: A)
    ensures
        0 <= last_start(b, separator) <= b.len(),
        last_start(b, separator) > 0 ==> b[last_start(b, separator) - 1] == separator,
        forall|i: int| last_start(b, separator) <= i < b.len() ==> b[i] != separator,
    decreases b.len(),
{
    if b.len() == 0 || b.last() == separator {
    } else {
        lemma_last_start(b.drop_last(), separator);
        assert forall|i: int| last_start(b, separator) <= i < b.len() implies b[i]
            != separator by {
            if i < b.len() - 1 {
                assert(b.drop_last()[i] == b[i]);
            }
        }
    }
}

/// Finds where the part behind the last `separator` begins.
pub fn find_last_start(b: &[u8], separator: u8) -> (r: usize)
    ensures
        r == last_start(b@, separator),
        r <= b@.len(),
{
    let mut end = b.len();
    assert(b@.take(b@.len() as int) =~= b@);
    while end > 0 && b[end - 1] != separator
        invariant
            end <= b@.len(),
            last_start(b@.take(end as int), separator) == last_start(b@, separator),
        decreases end,
    {
        assert(b@.take(end as int).drop_last() =~= b@.take(end - 1));
        end = end - 1;
    }
    end
}

/// What stands before the last separator.
pub open spec fn before_last<A>(b: Seq<A>, separator: A) -> Seq<A> {
    if last_start(b, separator) > 0 {
        b.take(last_start(b, separator) - 1)
    } else {
        Seq::empty()
    }
}

/// What stands behind the last separator.
pub open spec fn last_part<A>(b: Seq<A>, separator: A) -> Seq<A> {
    b.skip(last_start(b, separator))
}

/// The parts between separators.
pub open spec fn split<A>(b: Seq<A>, separator: A) -> Seq<Seq<A>>
    decreases b.len(),
{
    if last_start(b, separator) == 0 {
        seq![b]
    } else {
        proof {
            lemma_last_start(b, separator);
        }
        split(before_last(b, separator), separator).push(last_part(b, separator))
    }
}

/// One more element ends the last part, or belongs to it.
pub proof fn lemma_split_step<A>(b: Seq<A>, next: A, separator: A)
    ensures
        split(b, separator).len() > 0,
        split(b.push(next), separator) == (if next == separator {
            split(b, separator).push(Seq::empty())
        } else {
            split(b, separator).drop_last().push(split(b, separator).last().push(next))
        }),
{
    let longer = b.push(next);
    lemma_last_start(b, separator);
    assert(longer.drop_last() =~= b);
    if next == separator {
        assert(before_last(longer, separator) =~= b);
        assert(last_part(longer, separator) =~= Seq::empty());
    } else {
        assert(last_start(longer, separator) == last_start(b, separator));
        if last_start(b, separator) == 0 {
            assert(split(b, separator) =~= seq![b]);
            assert(split(longer, separator) =~= seq![longer]);
            assert(seq![b].drop_last() =~= Seq::empty());
        } else {
            assert(before_last(longer, separator) =~= before_last(b, separator));
            assert(last_part(longer, separator) =~= last_part(b, separator).push(next));
            assert(split(b, separator).drop_last() =~= split(
                before_last(b, separator),
                separator,
            ));
        }
    }
    assert(split(longer, separator) =~= (if next == separator {
        split(b, separator).push(Seq::empty())
    } else {
        split(b, separator).drop_last().push(split(b, separator).last().push(next))
    }));
}

/// Splits a byte string at every separator.
pub fn split_bytes(b: &[u8], separator: u8) -> (r: Vec<Vec<u8>>)
    ensures
        text::views(r@) == split(b@, separator),
{
    let mut done: Vec<Vec<u8>> = Vec::new();
    let mut part: Vec<u8> = Vec::new();
    assert(b@.take(0) =~= Seq::empty());
    assert(split(b@.take(0), separator) =~= text::views(done@).push(part@));
    for i in 0..b.len()
        invariant
            split(b@.take(i as int), separator) == text::views(done@).push(part@),
    {
        let ghost head = b@.take(i as int);
        let ghost before = text::views(done@);
        proof {
            lemma_split_step(head, b@[i as int], separator);
            assert(b@.take(i + 1) =~= head.push(b@[i as int]));
            assert(split(head, separator).drop_last() =~= before);
        }
        if b[i] == separator {
            let mut finished: Vec<u8> = Vec::new();
            std::mem::swap(&mut finished, &mut part);
            let ghost ended = finished@;
            done.push(finished);
            assert(text::views(done@) =~= before.push(ended));
            assert(part@ =~= Seq::empty());
        } else {
            part.push(b[i]);
        }
    }
    assert(b@.take(b@.len() as int) =~= b@);
    let ghost before = text::views(done@);
    let ghost ended = part@;
    done.push(part);
    assert(text::views(done@) =~= before.push(ended));
    done
}

/// Where the first `wanted` byte stands, else the length.
pub open spec fn first_position(b: Seq<u8>, wanted: u8) -> int
    decreases b.len(),
{
    if b.len() == 0 || b[0] == wanted {
        0
    } else {
        1 + first_position(b.skip(1), wanted)
    }
}

/// Finds the first `wanted` byte.
pub fn find_first(b: &[u8], wanted: u8) -> (r: usize)
    ensures
        r == first_position(b@, wanted),
        r <= b@.len(),
{
    assert(b@.skip(0) =~= b@);
    for i in 0..b.len()
        invariant
            first_position(b@, wanted) == i + first_position(b@.skip(i as int), wanted),
    {
        if b[i] == wanted {
            return i;
        }
        assert(b@.skip(i as int).skip(1) =~= b@.skip(i + 1));
    }
    b.len()
}

/// What `str::from_utf8` says is wrong with bytes that are not UTF-8.
pub uninterp spec fn utf8_complaint(b: Seq<u8>) -> Seq<char>;

/// The text that `String::from_utf8_lossy` makes of bytes of any kind.
pub uninterp spec fn lossy_utf8(b: Seq<u8>) -> Seq<char>;

/// Bytes as text, whatever they hold.
pub open spec fn lossy(b: Seq<u8>) -> Seq<char> {
    if vstd::utf8::valid_utf8(b) {
        vstd::utf8::decode_utf8(b)
    } else {
        lossy_utf8(b)
    }
}

/// `str::from_utf8`: succeeds exactly on valid UTF-8 and gives its text; the
/// text of its error depends on the bytes alone.
#[verifier::external_body]
pub(crate) fn utf8_text(b: &[u8]) -> (r: Result<String, String>)
    ensures
        r is Ok <==> vstd::utf8::valid_utf8(b@),
        r matches Ok(text) ==> text@ == vstd::utf8::decode_utf8(b@),
        r matches Err(complaint) ==> complaint@ == utf8_complaint(b@),
{
    match std::str::from_utf8(b) {
        Ok(text) => Ok(text.to_owned()),
        Err(err) => Err(err.to_string()),
    }
}

/// `String::from_utf8_lossy`: valid UTF-8 gives its text; other bytes give a
/// text that depends on them alone.
#[verifier::external_body]
pub(crate) fn lossy_text(b: &[u8]) -> (r: String)
    ensures
        r@ == lossy_utf8(b@),
        vstd::utf8::valid_utf8(b@) ==> r@ == vstd::utf8::decode_utf8(b@),
{
    String::from_utf8_lossy(b).into_owned()
}

} // verus!
