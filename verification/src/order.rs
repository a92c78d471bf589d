//! Lexicographic order of sequences.
use vstd::prelude::*;

verus! {

/// `less` is irreflexive, transitive, and relates any two different values.
pub open spec fn strict_total<A>(less: spec_fn(A, A) -> bool) -> bool {
    &&& forall|x: A| !#[trigger] less(x, x)
    &&& forall|x: A, y: A, z: A| #[trigger] less(x, y) && #[trigger] less(y, z) ==> less(x, z)
    &&& forall|x: A, y: A| x != y ==> #[trigger] less(x, y) || less(y, x)
}

/// The sequences agree up to position `k`, where `a` ends or has the lesser
/// element.
pub open spec fn diverges_at<A>(
    less: spec_fn(A, A) -> bool,
    a: Seq<A>,
    b: Seq<A>,
    k: int,
) -> bool {
    &&& 0 <= k <= a.len()
    &&& k < b.len()
    &&& forall|i: int| 0 <= i < k ==> a[i] == b[i]
    &&& k == a.len() || less(a[k], b[k])
}

/// `a` comes before `b` in the lexicographic order over `less`.
pub open spec fn lex_less<A>(less: spec_fn(A, A) -> bool, a: Seq<A>, b: Seq<A>) -> bool {
    exists|k: int| #[trigger] diverges_at(less, a, b, k)
}

/// The lexicographic order over a strict total order, as a relation.
pub open spec fn lexicographic<A>(less: spec_fn(A, A) -> bool) -> spec_fn(
    Seq<A>,
    Seq<A>,
) -> bool {
    |a: Seq<A>, b: Seq<A>| lex_less(less, a, b)
}

proof fn lemma_lex_transitive<A>(less: spec_fn(A, A) -> bool, a: Seq<A>, b: Seq<A>, c: Seq<A>)
    requires
        strict_total(less),
        lex_less(less, a, b),
        lex_less(less, b, c),
    ensures
        lex_less(less, a, c),
{
    let i = choose|k: int| #[trigger] diverges_at(less, a, b, k);
    let j = choose|k: int| #[trigger] diverges_at(less, b, c, k);
    if i <= j {
        if i == j && i < a.len() {
            assert(less(a[i], b[i]) && less(b[i], c[i]));
        }
        assert(diverges_at(less, a, c, i));
    } else {
        assert(a[j] == b[j]);
        assert(diverges_at(less, a, c, j));
    }
}

/// The first position up to `n` at which the sequences differ, else `n`.
spec fn agreement<A>(a: Seq<A>, b: Seq<A>, n: nat) -> nat
    decreases n,
{
    if n == 0 {
        0
    } else {
        let m = agreement(a, b, (n - 1) as nat);
        if m == n - 1 && a[m as int] == b[m as int] {
            n
        } else {
            m
        }
    }
}

proof fn lemma_agreement<A>(a: Seq<A>, b: Seq<A>, n: nat)
    ensures
        agreement(a, b, n) <= n,
        forall|i: int| 0 <= i < agreement(a, b, n) ==> a[i] == b[i],
        agreement(a, b, n) < n ==> a[agreement(a, b, n) as int] != b[agreement(a, b, n) as int],
    decreases n,
{
    if n > 0 {
        lemma_agreement(a, b, (n - 1) as nat);
    }
}

proof fn lemma_lex_total<A>(less: spec_fn(A, A) -> bool, a: Seq<A>, b: Seq<A>)
    requires
        strict_total(less),
        a != b,
    ensures
        lex_less(less, a, b) || lex_less(less, b, a),
{
    let n = if a.len() <= b.len() { a.len() } else { b.len() };
    lemma_agreement(a, b, n);
    let k = agreement(a, b, n) as int;
    if k < n {
        assert(less(a[k], b[k]) || less(b[k], a[k]));
        assert(diverges_at(less, a, b, k) || diverges_at(less, b, a, k));
    } else if a.len() < b.len() {
        assert(diverges_at(less, a, b, k));
    } else if b.len() < a.len() {
        assert(diverges_at(less, b, a, k));
    } else {
        assert(a =~= b);
    }
}

/// The lexicographic order over a strict total order is itself one.
pub proof fn lemma_lexicographic<A>(less: spec_fn(A, A) -> bool)
    requires
        strict_total(less),
    ensures
        strict_total(lexicographic(less)),
{
    let lex = lexicographic(less);
    assert forall|x: Seq<A>| !#[trigger] lex(x, x) by {
        if lex_less(less, x, x) {
            let k = choose|k: int| #[trigger] diverges_at(less, x, x, k);
            assert(less(x[k], x[k]));
        }
    }
    assert forall|x: Seq<A>, y: Seq<A>, z: Seq<A>| #[trigger] lex(x, y) && #[trigger] lex(
        y,
        z,
    ) implies lex(x, z) by {
        lemma_lex_transitive(less, x, y, z);
    }
    assert forall|x: Seq<A>, y: Seq<A>| x != y implies #[trigger] lex(x, y) || lex(y, x) by {
        lemma_lex_total(less, x, y);
    }
}

} // verus!
