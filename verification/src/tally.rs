//! Sums over all holdings.
use vstd::prelude::*;

use crate::address::{Address, Holding};
use crate::env::Position;

verus! {

/// The sum of what `weight` gives each holding.
pub open spec fn tally(
    m: Map<Holding, Position>,
    weight: spec_fn(Holding, Position) -> int,
) -> int
    decreases m.dom().len(),
    when m.dom().finite()
{
    if m.dom().is_empty() {
        0
    } else {
        let h = m.dom().choose();
        weight(h, m[h]) + tally(m.remove(h), weight)
    }
}

/// A holding counts as much as its weight.
pub proof fn lemma_tally_remove(
    m: Map<Holding, Position>,
    weight: spec_fn(Holding, Position) -> int,
    h: Holding,
)
    requires
        m.dom().finite(),
        m.contains_key(h),
    ensures
        tally(m, weight) == weight(h, m[h]) + tally(m.remove(h), weight),
    decreases m.dom().len(),
{
    let c = m.dom().choose();
    assert(m.dom().contains(c));
    if c != h {
        lemma_tally_remove(m.remove(c), weight, h);
        lemma_tally_remove(m.remove(h), weight, c);
        assert(m.remove(c).remove(h) =~= m.remove(h).remove(c));
    }
}

/// A holding that is not there counts for nothing.
pub proof fn lemma_tally_absent(
    m: Map<Holding, Position>,
    weight: spec_fn(Holding, Position) -> int,
    h: Holding,
)
    requires
        m.dom().finite(),
    ensures
        tally(m, weight) == tally(m.remove(h), weight) + if m.contains_key(h) {
            weight(h, m[h])
        } else {
            0
        },
{
    if m.contains_key(h) {
        lemma_tally_remove(m, weight, h);
    } else {
        assert(m.remove(h) =~= m);
    }
}

/// Smaller weights make a smaller sum.
pub proof fn lemma_tally_order(
    m: Map<Holding, Position>,
    light: spec_fn(Holding, Position) -> int,
    heavy: spec_fn(Holding, Position) -> int,
)
    requires
        m.dom().finite(),
        forall|h: Holding| #[trigger] m.contains_key(h) ==> light(h, m[h]) <= heavy(h, m[h]),
    ensures
        tally(m, light) <= tally(m, heavy),
    decreases m.dom().len(),
{
    if !m.dom().is_empty() {
        let c = m.dom().choose();
        assert(m.dom().contains(c));
        assert(m.contains_key(c));
        assert forall|h: Holding| #[trigger] m.remove(c).contains_key(h) implies light(
            h,
            m.remove(c)[h],
        ) <= heavy(h, m.remove(c)[h]) by {
            assert(m.contains_key(h));
        }
        lemma_tally_order(m.remove(c), light, heavy);
    }
}

/// A sum of weights that are none of them negative is not negative, and no less than any of them.
pub proof fn lemma_tally_bounds(
    m: Map<Holding, Position>,
    weight: spec_fn(Holding, Position) -> int,
)
    requires
        m.dom().finite(),
        forall|h: Holding| #[trigger] m.contains_key(h) ==> weight(h, m[h]) >= 0,
    ensures
        tally(m, weight) >= 0,
        forall|h: Holding| #[trigger] m.contains_key(h) ==> weight(h, m[h]) <= tally(m, weight),
{
    let nothing = |h: Holding, p: Position| 0int;
    lemma_tally_nothing(m, nothing);
    lemma_tally_order(m, nothing, weight);
    assert forall|h: Holding| #[trigger] m.contains_key(h) implies weight(h, m[h]) <= tally(
        m,
        weight,
    ) by {
        lemma_tally_remove(m, weight, h);
        assert forall|k: Holding| #[trigger] m.remove(h).contains_key(k) implies nothing(
            k,
            m.remove(h)[k],
        ) <= weight(k, m.remove(h)[k]) by {
            assert(m.contains_key(k));
        }
        lemma_tally_nothing(m.remove(h), nothing);
        lemma_tally_order(m.remove(h), nothing, weight);
    }
}

/// The sum of nothing is nothing.
pub proof fn lemma_tally_nothing(
    m: Map<Holding, Position>,
    weight: spec_fn(Holding, Position) -> int,
)
    requires
        m.dom().finite(),
        forall|h: Holding| #[trigger] m.contains_key(h) ==> weight(h, m[h]) == 0,
    ensures
        tally(m, weight) == 0,
    decreases m.dom().len(),
{
    if !m.dom().is_empty() {
        let c = m.dom().choose();
        assert(m.dom().contains(c));
        assert(m.contains_key(c));
        assert forall|h: Holding| #[trigger] m.remove(c).contains_key(h) implies weight(
            h,
            m.remove(c)[h],
        ) == 0 by {
            assert(m.contains_key(h));
        }
        lemma_tally_nothing(m.remove(c), weight);
    }
}

/// Counts the shares of `token`.
pub open spec fn shares_of(token: Address) -> spec_fn(Holding, Position) -> int {
    |h: Holding, p: Position|
        if h.token == token {
            p.shares as int
        } else {
            0
        }
}

/// Counts the holders of `token`.
pub open spec fn holders_of(token: Address) -> spec_fn(Holding, Position) -> int {
    |h: Holding, p: Position|
        if h.token == token {
            1
        } else {
            0
        }
}

} // verus!
