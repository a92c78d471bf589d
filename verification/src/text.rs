//! Text primitives: comparison, ASCII case folding, decimal rendering and
//! concatenation of the pieces of a message.
use vstd::prelude::*;

use crate::bytes;
use vstd::string::*;
use vstd::utf8::*;

verus! {

/// `String::push` appends the given character to the end of the string.
pub assume_specification[ String::push ](s: &mut String, c: char)
    ensures
        final(s)@ == old(s)@.push(c),
;

/// What the members of a list stand for.
pub open spec fn views<A: View>(list: Seq<A>) -> Seq<A::V> {
    list.map_values(|a: A| a@)
}

/// The texts of a list of strings.
pub open spec fn texts(list: Seq<String>) -> Seq<Seq<char>> {
    views(list)
}

/// `a` and `b` agree before position `k`, and at `k` either `a` has ended or
/// holds the smaller character.
pub open spec fn diverges_at(a: Seq<char>, b: Seq<char>, k: int) -> bool {
    &&& 0 <= k < b.len()
    &&& k <= a.len()
    &&& forall|i: int| 0 <= i < k ==> a[i] == b[i]
    &&& k == a.len() || a[k] < b[k]
}

/// Strict lexicographic order on text, by code point.
pub open spec fn precedes(a: Seq<char>, b: Seq<char>) -> bool {
    exists|k: int| diverges_at(a, b, k)
}

pub proof fn lemma_precedes_irreflexive(a: Seq<char>)
    ensures
        !precedes(a, a),
{
}

pub proof fn lemma_precedes_transitive(a: Seq<char>, b: Seq<char>, c: Seq<char>)
    requires
        precedes(a, b),
        precedes(b, c),
    ensures
        precedes(a, c),
{
    let k = choose|k: int| diverges_at(a, b, k);
    let m = choose|m: int| diverges_at(b, c, m);
    if k <= m {
        assert(diverges_at(a, c, k));
    } else {
        assert(diverges_at(a, c, m));
    }
}

pub proof fn lemma_precedes_total(a: Seq<char>, b: Seq<char>)
    ensures
        a == b || precedes(a, b) || precedes(b, a),
{
    lemma_precedes_total_from(a, b, 0);
}

proof fn lemma_precedes_total_from(a: Seq<char>, b: Seq<char>, k: int)
    requires
        0 <= k <= a.len(),
        k <= b.len(),
        forall|i: int| 0 <= i < k ==> a[i] == b[i],
    ensures
        a == b || precedes(a, b) || precedes(b, a),
    decreases a.len() - k,
{
    if k == a.len() {
        if k == b.len() {
            assert(a =~= b);
        } else {
            assert(diverges_at(a, b, k));
        }
    } else if k == b.len() {
        assert(diverges_at(b, a, k));
    } else if a[k] < b[k] {
        assert(diverges_at(a, b, k));
    } else if b[k] < a[k] {
        assert(diverges_at(b, a, k));
    } else {
        lemma_precedes_total_from(a, b, k + 1);
    }
}

/// Tells whether two texts are equal.
pub fn text_eq(a: &str, b: &str) -> (r: bool)
    ensures
        r == (a@ == b@),
{
    let x = a.as_bytes();
    let y = b.as_bytes();
    proof {
        encode_utf8_decode_utf8(a@);
        encode_utf8_decode_utf8(b@);
    }
    if x.len() != y.len() {
        return false;
    }
    let mut i: usize = 0;
    while i < x.len()
        invariant
            x@.len() == y@.len(),
            x@ == encode_utf8(a@),
            y@ == encode_utf8(b@),
            0 <= i <= x@.len(),
            forall|j: int| 0 <= j < i ==> x@[j] == y@[j],
        decreases x@.len() - i,
    {
        if x[i] != y[i] {
            return false;
        }
        i += 1;
    }
    assert(x@ =~= y@);
    true
}

/// Tells whether `a` comes strictly before `b` in lexicographic order.
pub fn text_precedes(a: &str, b: &str) -> (r: bool)
    ensures
        r == precedes(a@, b@),
{
    let mut x = a.chars();
    let mut y = b.chars();
    let ghost mut k: int = 0;
    loop
        invariant
            0 <= k <= a@.len(),
            k <= b@.len(),
            vstd::std_specs::iter::IteratorSpec::remaining(&x) =~= a@.skip(k),
            vstd::std_specs::iter::IteratorSpec::remaining(&y) =~= b@.skip(k),
            forall|i: int| 0 <= i < k ==> a@[i] == b@[i],
        decreases a@.len() - k,
    {
        let next_x = x.next();
        let next_y = y.next();
        match (next_x, next_y) {
            (_, None) => {
                proof {
                    assert forall|j: int| !diverges_at(a@, b@, j) by {
                        if diverges_at(a@, b@, j) {
                            assert(j < k);
                        }
                    }
                }
                return false;
            },
            (None, Some(_)) => {
                assert(diverges_at(a@, b@, k));
                return true;
            },
            (Some(c), Some(d)) => {
                assert(c == a@[k] && d == b@[k]);
                if c < d {
                    assert(diverges_at(a@, b@, k));
                    return true;
                }
                if d < c {
                    proof {
                        assert forall|j: int| !diverges_at(a@, b@, j) by {
                            if diverges_at(a@, b@, j) {
                                assert(j < k || j == k || j > k);
                            }
                        }
                    }
                    return false;
                }
                proof {
                    k = k + 1;
                }
            },
        }
    }
}

/// Tells whether `wanted` occurs in `text`.
pub fn contains_char(text: &str, wanted: char) -> (r: bool)
    ensures
        r == text@.contains(wanted),
{
    for c in it: text.chars()
        invariant
            it.seq() == text@,
            forall|i: int| 0 <= i < it.index() ==> text@[i] != wanted,
    {
        if c == wanted {
            assert(text@[it.index() as int] == wanted);
            return true;
        }
    }
    false
}

/// `wanted` occurs at two different positions of `text`.
pub open spec fn repeats(text: Seq<char>, wanted: char) -> bool {
    exists|i: int, j: int|
        0 <= i < j < text.len() && #[trigger] text[i] == wanted && #[trigger] text[j] == wanted
}

/// Tells whether `wanted` occurs more than once in `text`.
pub fn occurs_repeatedly(text: &str, wanted: char) -> (r: bool)
    ensures
        r == repeats(text@, wanted),
{
    let mut seen: bool = false;
    let ghost mut first: int = 0;
    for c in it: text.chars()
        invariant
            it.seq() == text@,
            seen ==> 0 <= first < it.index() && text@[first] == wanted,
            forall|i: int|
                0 <= i < it.index() && text@[i] == wanted ==> seen && i == first,
    {
        if c == wanted {
            assert(text@[it.index() as int] == wanted);
            if seen {
                return true;
            }
            seen = true;
            proof {
                first = it.index() as int;
            }
        }
    }
    false
}

/// Tells whether `text` begins with `prefix`.
pub fn starts_with(text: &str, prefix: &str) -> (r: bool)
    ensures
        r == prefix@.is_prefix_of(text@),
{
    let mut x = text.chars();
    let mut y = prefix.chars();
    let ghost mut k: int = 0;
    loop
        invariant
            0 <= k <= text@.len(),
            k <= prefix@.len(),
            vstd::std_specs::iter::IteratorSpec::remaining(&x) =~= text@.skip(k),
            vstd::std_specs::iter::IteratorSpec::remaining(&y) =~= prefix@.skip(k),
            forall|i: int| 0 <= i < k ==> text@[i] == prefix@[i],
        decreases prefix@.len() - k,
    {
        match y.next() {
            None => {
                assert(prefix@ =~= text@.subrange(0, prefix@.len() as int));
                return true;
            },
            Some(d) => {
                assert(d == prefix@[k]);
                match x.next() {
                    None => {
                        return false;
                    },
                    Some(c) => {
                        assert(c == text@[k]);
                        if c != d {
                            assert(prefix@.is_prefix_of(text@) ==> text@.subrange(
                                0,
                                prefix@.len() as int,
                            )[k] == prefix@[k]);
                            return false;
                        }
                        proof {
                            k = k + 1;
                        }
                    },
                }
            },
        }
    }
}

/// The lower-case form of an ASCII letter; any other character is unchanged.
pub open spec fn ascii_lower(c: char) -> char {
    if 'A' <= c <= 'Z' {
        (c as u8 + 32) as char
    } else {
        c
    }
}

/// The upper-case form of an ASCII letter; any other character is unchanged.
pub open spec fn ascii_upper(c: char) -> char {
    if 'a' <= c <= 'z' {
        (c as u8 - 32) as char
    } else {
        c
    }
}

/// `text` with every ASCII letter in lower case.
pub open spec fn ascii_folded(text: Seq<char>) -> Seq<char> {
    text.map_values(|c: char| ascii_lower(c))
}

/// Copies `text` with every ASCII letter in lower case.
pub fn to_ascii_lowercase(text: &str) -> (r: String)
    ensures
        r@ == ascii_folded(text@),
{
    let mut out = String::new();
    for c in it: text.chars()
        invariant
            it.seq() == text@,
            out@ =~= ascii_folded(text@.take(it.index() as int)),
    {
        let lower: char = if 'A' <= c && c <= 'Z' {
            ((c as u8) + 32) as char
        } else {
            c
        };
        out.push(lower);
    }
    assert(text@.take(text@.len() as int) =~= text@);
    out
}

/// Tells whether two texts are equal up to the case of ASCII letters.
pub fn eq_ignore_ascii_case(a: &str, b: &str) -> (r: bool)
    ensures
        r == (ascii_folded(a@) == ascii_folded(b@)),
{
    text_eq(to_ascii_lowercase(a).as_str(), to_ascii_lowercase(b).as_str())
}

/// The decimal digit for `d`.
pub open spec fn digit(d: nat) -> char {
    ('0' as u8 + d) as char
}

/// The decimal rendering of `n`, without leading zeros.
pub open spec fn decimal(n: nat) -> Seq<char>
    decreases n,
{
    if n < 10 {
        seq![digit(n)]
    } else {
        decimal(n / 10).push(digit(n % 10))
    }
}

/// Renders `n` in decimal.
pub fn decimal_text(n: u128) -> (r: String)
    ensures
        r@ == decimal(n as nat),
    decreases n,
{
    let last: char = (('0' as u8) + (n % 10) as u8) as char;
    let mut out = if n < 10 {
        String::new()
    } else {
        decimal_text(n / 10)
    };
    out.push(last);
    assert(n < 10 ==> out@ =~= seq![digit(n as nat)]);
    out
}

/// The decimal rendering of an integer, with a sign when it is negative.
pub open spec fn signed_decimal(n: int) -> Seq<char> {
    if n < 0 {
        "-"@ + decimal((-n) as nat)
    } else {
        decimal(n as nat)
    }
}

/// Renders a signed integer in decimal.
pub fn signed_decimal_text(n: i32) -> (r: String)
    ensures
        r@ == signed_decimal(n as int),
{
    if n < 0 {
        let magnitude: u128 = (-(n as i64)) as u128;
        cat2("-", decimal_text(magnitude).as_str())
    } else {
        decimal_text(n as u128)
    }
}

/// Concatenates two pieces of text.
pub fn cat2(a: &str, b: &str) -> (r: String)
    ensures
        r@ == a@ + b@,
{
    let mut out = a.to_owned();
    out.append(b);
    out
}

/// Concatenates three pieces of text.
pub fn cat3(a: &str, b: &str, c: &str) -> (r: String)
    ensures
        r@ == a@ + b@ + c@,
{
    let mut out = cat2(a, b);
    out.append(c);
    out
}

/// Concatenates four pieces of text.
pub fn cat4(a: &str, b: &str, c: &str, d: &str) -> (r: String)
    ensures
        r@ == a@ + b@ + c@ + d@,
{
    let mut out = cat3(a, b, c);
    out.append(d);
    out
}

/// Concatenates five pieces of text.
pub fn cat5(a: &str, b: &str, c: &str, d: &str, e: &str) -> (r: String)
    ensures
        r@ == a@ + b@ + c@ + d@ + e@,
{
    let mut out = cat4(a, b, c, d);
    out.append(e);
    out
}

/// Concatenates six pieces of text.
pub fn cat6(a: &str, b: &str, c: &str, d: &str, e: &str, f: &str) -> (r: String)
    ensures
        r@ == a@ + b@ + c@ + d@ + e@ + f@,
{
    let mut out = cat5(a, b, c, d, e);
    out.append(f);
    out
}

/// Concatenates seven pieces of text.
pub fn cat7(a: &str, b: &str, c: &str, d: &str, e: &str, f: &str, g: &str) -> (r: String)
    ensures
        r@ == a@ + b@ + c@ + d@ + e@ + f@ + g@,
{
    let mut out = cat6(a, b, c, d, e, f);
    out.append(g);
    out
}

/// Concatenates eight pieces of text.
pub fn cat8(a: &str, b: &str, c: &str, d: &str, e: &str, f: &str, g: &str, h: &str) -> (r: String)
    ensures
        r@ == a@ + b@ + c@ + d@ + e@ + f@ + g@ + h@,
{
    let mut out = cat7(a, b, c, d, e, f, g);
    out.append(h);
    out
}

/// The pieces one after another, with `separator` between neighbours.
pub open spec fn joined(pieces: Seq<Seq<char>>, separator: Seq<char>) -> Seq<char>
    decreases pieces.len(),
{
    if pieces.len() == 0 {
        Seq::empty()
    } else if pieces.len() == 1 {
        pieces[0]
    } else {
        joined(pieces.drop_last(), separator) + separator + pieces.last()
    }
}

/// Joins the pieces with `separator` between neighbours.
pub fn join_texts(pieces: &Vec<String>, separator: &str) -> (r: String)
    ensures
        r@ == joined(texts(pieces@), separator@),
{
    let mut out = String::new();
    for i in 0..pieces.len()
        invariant
            out@ == joined(texts(pieces@).take(i as int), separator@),
    {
        proof {
            let prefix = texts(pieces@).take(i + 1);
            assert(prefix.drop_last() =~= texts(pieces@).take(i as int));
            assert(prefix.last() == pieces@[i as int]@);
        }
        if i > 0 {
            out.append(separator);
        }
        out.append(pieces[i].as_str());
        assert(i == 0 ==> out@ =~= pieces@[0]@);
    }
    assert(texts(pieces@).take(pieces@.len() as int) =~= texts(pieces@));
    out
}

/// Copies a list of strings.
pub fn copy_texts(list: &Vec<String>) -> (r: Vec<String>)
    ensures
        texts(r@) == texts(list@),
{
    let mut out: Vec<String> = Vec::new();
    for i in 0..list.len()
        invariant
            out@.len() == i,
            forall|j: int| 0 <= j < i ==> out@[j]@ == list@[j]@,
    {
        out.push(list[i].clone());
    }
    assert(texts(out@) =~= texts(list@));
    out
}

/// Appends a string to a list.
pub fn push_text(list: &mut Vec<String>, text: String)
    ensures
        texts(final(list)@) == texts(old(list)@).push(text@),
{
    let ghost before = texts(list@);
    let ghost value = text@;
    list.push(text);
    assert(texts(list@) =~= before.push(value));
}

/// Tells whether `wanted` is one of the strings of `list`.
pub fn contains_text(list: &Vec<String>, wanted: &str) -> (r: bool)
    ensures
        r == texts(list@).contains(wanted@),
{
    for i in 0..list.len()
        invariant
            forall|j: int| 0 <= j < i ==> texts(list@)[j] != wanted@,
    {
        assert(texts(list@)[i as int] == list@[i as int]@);
        if text_eq(list[i].as_str(), wanted) {
            return true;
        }
    }
    false
}

/// The optional text, if there is one.
pub open spec fn opt_text(value: Option<String>) -> Option<Seq<char>> {
    match value {
        Some(s) => Some(s@),
        None => None,
    }
}

/// Copies an optional string.
pub fn copy_opt_text(value: &Option<String>) -> (r: Option<String>)
    ensures
        opt_text(r) == opt_text(*value),
{
    match value {
        Some(s) => Some(s.clone()),
        None => None,
    }
}

/// The characters that separate words, after Unicode's `White_Space`.
pub open spec fn white_space(c: char) -> bool {
    ||| '\u{9}' <= c <= '\u{D}'
    ||| c == ' '
    ||| c == '\u{85}'
    ||| c == '\u{A0}'
    ||| c == '\u{1680}'
    ||| '\u{2000}' <= c <= '\u{200A}'
    ||| c == '\u{2028}'
    ||| c == '\u{2029}'
    ||| c == '\u{202F}'
    ||| c == '\u{205F}'
    ||| c == '\u{3000}'
}

/// Tells whether a character separates words.
pub fn is_white_space(c: char) -> (r: bool)
    ensures
        r == white_space(c),
{
    ('\u{9}' <= c && c <= '\u{D}') || c == ' ' || c == '\u{85}' || c == '\u{A0}' || c
        == '\u{1680}' || ('\u{2000}' <= c && c <= '\u{200A}') || c == '\u{2028}' || c
        == '\u{2029}' || c == '\u{202F}' || c == '\u{205F}' || c == '\u{3000}'
}

/// The words of a text: its longest pieces without white space.
pub open spec fn words(text: Seq<char>) -> Seq<Seq<char>>
    decreases text.len(),
{
    if text.len() == 0 {
        Seq::empty()
    } else {
        let before = text.drop_last();
        let found = words(before);
        if white_space(text.last()) {
            found
        } else if before.len() == 0 || white_space(before.last()) {
            found.push(seq![text.last()])
        } else {
            found.drop_last().push(found.last().push(text.last()))
        }
    }
}

/// Words are not empty and hold no white space; a text that ends within a word
/// has one.
pub proof fn law_words(text: Seq<char>)
    ensures
        forall|i: int| 0 <= i < words(text).len() ==> (#[trigger] words(text)[i]).len() > 0,
        forall|i: int, j: int|
            0 <= i < words(text).len() && 0 <= j < words(text)[i].len() ==> !white_space(
                #[trigger] words(text)[i][j],
            ),
        text.len() > 0 && !white_space(text.last()) ==> words(text).len() > 0,
    decreases text.len(),
{
    if text.len() > 0 {
        let before = text.drop_last();
        let found = words(before);
        law_words(before);
        assert forall|i: int| 0 <= i < words(text).len() implies (
        #[trigger] words(text)[i]).len() > 0 by {
            if i < found.len() {
                assert(found[i].len() > 0);
            }
        }
        assert forall|i: int, j: int|
            0 <= i < words(text).len() && 0 <= j < words(text)[i].len() implies !white_space(
            #[trigger] words(text)[i][j],
        ) by {
            if i < found.len() && j < found[i].len() {
                assert(!white_space(found[i][j]));
            }
        }
    }
}

/// Splits a text into its words.
pub fn split_whitespace(text: &str) -> (r: Vec<String>)
    ensures
        texts(r@) == words(text@),
{
    let mut done: Vec<String> = Vec::new();
    let mut word = String::new();
    let mut within: bool = false;
    for c in it: text.chars()
        invariant
            it.seq() == text@,
            within == (it.index() > 0 && !white_space(text@[it.index() - 1])),
            !within ==> word@.len() == 0,
            words(text@.take(it.index() as int)) == (if within {
                texts(done@).push(word@)
            } else {
                texts(done@)
            }),
    {
        let ghost i = it.index() as int;
        let ghost head = text@.take(i);
        let ghost before = texts(done@);
        assert(text@.take(i + 1).drop_last() =~= head);
        assert(text@.take(i + 1).last() == c);
        assert(i > 0 ==> head.last() == text@[i - 1]);
        if is_white_space(c) {
            if within {
                let mut finished = String::new();
                std::mem::swap(&mut finished, &mut word);
                let ghost ended = finished@;
                done.push(finished);
                assert(texts(done@) =~= before.push(ended));
            }
            within = false;
        } else {
            let ghost shorter = word@;
            word.push(c);
            proof {
                if within {
                    let found = words(head);
                    assert(found.last() == shorter);
                    assert(found.drop_last() =~= before);
                } else {
                    assert(word@ =~= seq![c]);
                }
            }
            within = true;
        }
    }
    assert(text@.take(text@.len() as int) =~= text@);
    if within {
        let ghost before = texts(done@);
        let ghost ended = word@;
        done.push(word);
        assert(texts(done@) =~= before.push(ended));
    }
    done
}

/// `needle` occurs in `haystack` at position `at`.
pub open spec fn occurs_at(haystack: Seq<char>, needle: Seq<char>, at: int) -> bool {
    0 <= at && at + needle.len() <= haystack.len() && haystack.subrange(at, at + needle.len())
        == needle
}

/// `needle` occurs somewhere in `haystack`.
pub open spec fn occurs(haystack: Seq<char>, needle: Seq<char>) -> bool {
    exists|at: int| #[trigger] occurs_at(haystack, needle, at)
}

fn chars_of(text: &str) -> (r: Vec<char>)
    ensures
        r@ == text@,
{
    let mut out: Vec<char> = Vec::new();
    for c in it: text.chars()
        invariant
            it.seq() == text@,
            out@ == text@.take(it.index() as int),
    {
        out.push(c);
        assert(text@.take(it.index() + 1) =~= text@.take(it.index() as int).push(c));
    }
    assert(text@.take(text@.len() as int) =~= text@);
    out
}

/// Tells whether `needle` occurs in `haystack`.
pub fn contains(haystack: &str, needle: &str) -> (r: bool)
    ensures
        r == occurs(haystack@, needle@),
{
    let h = chars_of(haystack);
    let n = chars_of(needle);
    if n.len() == 0 {
        assert(haystack@.subrange(0, 0) =~= needle@);
        assert(occurs_at(haystack@, needle@, 0));
        return true;
    }
    if n.len() > h.len() {
        return false;
    }
    let last = h.len() - n.len();
    for at in 0..last + 1
        invariant
            h@ == haystack@,
            n@ == needle@,
            n@.len() <= h@.len(),
            last == h@.len() - n@.len(),
            forall|k: int| 0 <= k < at ==> !occurs_at(haystack@, needle@, k),
    {
        let mut same: bool = true;
        for j in 0..n.len()
            invariant
                at <= last,
                h@ == haystack@,
                n@ == needle@,
                n@.len() <= h@.len(),
                last == h@.len() - n@.len(),
                same == (forall|k: int| 0 <= k < j ==> #[trigger] n@[k] == h@[at + k]),
        {
            let i = h.len() - (last - at) - (n.len() - j);
            assert(i == at + j);
            if n[j] != h[i] {
                assert(n@[j as int] != h@[at + j as int]);
                same = false;
            }
        }
        if same {
            assert(haystack@.subrange(at as int, at + n@.len()) =~= needle@);
            assert(occurs_at(haystack@, needle@, at as int));
            return true;
        }
        proof {
            if occurs_at(haystack@, needle@, at as int) {
                let window = haystack@.subrange(at as int, at + n@.len());
                assert forall|k: int| 0 <= k < n@.len() implies #[trigger] n@[k] == h@[at + k] by {
                    assert(window[k] == h@[at + k]);
                }
            }
        }
    }
    false
}

/// How the standard library writes a text for debugging.
pub uninterp spec fn debug_text(text: Seq<char>) -> Seq<char>;

/// `Debug` for `str`: a text in quotes, with what cannot be printed escaped; it
/// depends on the text alone.
#[verifier::external_body]
pub(crate) fn quoted(text: &str) -> (r: String)
    ensures
        r@ == debug_text(text@),
{
    format!("{text:?}")
}

/// Splits a text at every separator.
pub fn split_text(text: &str, separator: char) -> (r: Vec<String>)
    ensures
        texts(r@) == bytes::split(text@, separator),
{
    let mut done: Vec<String> = Vec::new();
    let mut part = String::new();
    assert(text@.take(0) =~= Seq::empty());
    assert(bytes::split(text@.take(0), separator) =~= texts(done@).push(part@));
    for c in it: text.chars()
        invariant
            it.seq() == text@,
            bytes::split(text@.take(it.index() as int), separator) == texts(done@).push(part@),
    {
        let ghost head = text@.take(it.index() as int);
        let ghost before = texts(done@);
        proof {
            bytes::lemma_split_step(head, c, separator);
            assert(text@.take(it.index() + 1) =~= head.push(c));
            assert(bytes::split(head, separator).drop_last() =~= before);
        }
        if c == separator {
            let mut finished = String::new();
            std::mem::swap(&mut finished, &mut part);
            let ghost ended = finished@;
            done.push(finished);
            assert(texts(done@) =~= before.push(ended));
            assert(part@ =~= Seq::empty());
        } else {
            part.push(c);
        }
    }
    assert(text@.take(text@.len() as int) =~= text@);
    push_text(&mut done, part);
    done
}

/// A text without white space at its start.
pub open spec fn trimmed_start(text: Seq<char>) -> Seq<char>
    decreases text.len(),
{
    if text.len() > 0 && white_space(text[0]) {
        trimmed_start(text.skip(1))
    } else {
        text
    }
}

/// A text without white space at its end.
pub open spec fn trimmed_end(text: Seq<char>) -> Seq<char>
    decreases text.len(),
{
    if text.len() > 0 && white_space(text.last()) {
        trimmed_end(text.drop_last())
    } else {
        text
    }
}

/// A text without white space at either end.
pub open spec fn trimmed(text: Seq<char>) -> Seq<char> {
    trimmed_end(trimmed_start(text))
}

fn text_of(chars: &Vec<char>, from: usize, to: usize) -> (r: String)
    requires
        from <= to <= chars@.len(),
    ensures
        r@ == chars@.subrange(from as int, to as int),
{
    let mut out = String::new();
    for i in from..to
        invariant
            to <= chars@.len(),
            out@ == chars@.subrange(from as int, i as int),
    {
        out.push(chars[i]);
        assert(chars@.subrange(from as int, i + 1) =~= chars@.subrange(
            from as int,
            i as int,
        ).push(chars@[i as int]));
    }
    out
}

/// Removes white space at the end of a text.
pub fn trim_end(text: &str) -> (r: String)
    ensures
        r@ == trimmed_end(text@),
{
    let chars = chars_of(text);
    let mut end = chars.len();
    assert(chars@.take(end as int) =~= text@);
    while end > 0 && is_white_space(chars[end - 1])
        invariant
            chars@ == text@,
            end <= chars@.len(),
            trimmed_end(chars@.take(end as int)) == trimmed_end(text@),
        decreases end,
    {
        assert(chars@.take(end as int).drop_last() =~= chars@.take(end - 1));
        end = end - 1;
    }
    assert(chars@.subrange(0, end as int) =~= chars@.take(end as int));
    text_of(&chars, 0, end)
}

/// Removes white space at both ends of a text.
pub fn trim(text: &str) -> (r: String)
    ensures
        r@ == trimmed(text@),
{
    let chars = chars_of(text);
    let mut start: usize = 0;
    assert(chars@.skip(0) =~= text@);
    while start < chars.len() && is_white_space(chars[start])
        invariant
            chars@ == text@,
            start <= chars@.len(),
            trimmed_start(chars@.skip(start as int)) == trimmed_start(text@),
        decreases chars@.len() - start,
    {
        assert(chars@.skip(start as int).skip(1) =~= chars@.skip(start + 1));
        start = start + 1;
    }
    assert(chars@.subrange(start as int, chars@.len() as int) =~= chars@.skip(start as int));
    let rest = text_of(&chars, start, chars.len());
    trim_end(rest.as_str())
}

/// Removes `prefix` from the start of a text, if it begins with it.
pub fn strip_prefix(text: &str, prefix: &str) -> (r: Option<String>)
    ensures
        match r {
            Some(rest) => prefix@.is_prefix_of(text@) && rest@ == text@.skip(prefix@.len() as int),
            None => !prefix@.is_prefix_of(text@),
        },
{
    if !starts_with(text, prefix) {
        return None;
    }
    let chars = chars_of(text);
    let skipped = chars_of(prefix);
    assert(chars@.subrange(skipped@.len() as int, chars@.len() as int) =~= text@.skip(
        prefix@.len() as int,
    ));
    Some(text_of(&chars, skipped.len(), chars.len()))
}

} // verus!
