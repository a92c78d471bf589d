//! Lists of positions.
use vstd::prelude::*;

verus! {

/// `positions` lists, in ascending order, the positions below `n` that satisfy
/// the condition, and no other.
pub open spec fn lists_positions(
    positions: Seq<int>,
    n: int,
    condition: spec_fn(int) -> bool,
) -> bool {
    &&& forall|i: int, j: int|
        0 <= i < j < positions.len() ==> #[trigger] positions[i] < #[trigger] positions[j]
    &&& forall|i: int|
        0 <= i < positions.len() ==> 0 <= #[trigger] positions[i] < n && condition(positions[i])
    &&& forall|p: int| 0 <= p < n && #[trigger] condition(p) ==> positions.contains(p)
}

/// One more position is listed exactly if it satisfies the condition.
pub proof fn lemma_one_more(
    positions: Seq<int>,
    n: int,
    before: spec_fn(int) -> bool,
    condition: spec_fn(int) -> bool,
) -> (r: Seq<int>)
    requires
        n >= 0,
        lists_positions(positions, n, before),
        forall|p: int| 0 <= p < n ==> before(p) == #[trigger] condition(p),
    ensures
        lists_positions(r, n + 1, condition),
        r == (if condition(n) {
            positions.push(n)
        } else {
            positions
        }),
{
    let r = if condition(n) {
        positions.push(n)
    } else {
        positions
    };
    assert forall|i: int| 0 <= i < r.len() implies 0 <= #[trigger] r[i] < n + 1 && condition(
        r[i],
    ) by {
        if i < positions.len() {
            assert(positions[i] == r[i]);
            assert(before(positions[i]));
        }
    }
    assert forall|p: int| 0 <= p < n + 1 && #[trigger] condition(p) implies r.contains(p) by {
        if p < n {
            assert(before(p));
            let i = positions.index_of(p);
            assert(r[i] == p);
        } else {
            assert(r[positions.len() as int] == p);
        }
    }
    assert forall|i: int, j: int| 0 <= i < j < r.len() implies #[trigger] r[i] < #[trigger] r[j] by {
        assert(positions[i] == r[i]);
        if j < positions.len() {
            assert(positions[j] == r[j]);
        }
    }
    r
}

pub proof fn lemma_no_position(condition: spec_fn(int) -> bool)
    ensures
        lists_positions(Seq::empty(), 0, condition),
{
}

} // verus!
