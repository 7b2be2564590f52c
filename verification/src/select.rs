//! Weighted target selection: one uniformly drawn number in `[0, total
//! weight)` picks a target with probability proportional to its weight, by
//! walking the target list and discounting each weight in turn.

use vstd::prelude::*;
use vstd::set_lib::set_int_range;
use crate::config::{Target, TargetModel, total_weight_of};
use rand::RngExt;

verus! {

/// The weights of a target sequence, in order.
pub open spec fn weights_of(ts: Seq<TargetModel>) -> Seq<int> {
    ts.map_values(|t: TargetModel| t.weight)
}

/// Sum of the first `i` weights.
pub open spec fn weight_prefix_sum(ws: Seq<int>, i: int) -> int
    decreases i,
{
    if i <= 0 {
        0
    } else {
        weight_prefix_sum(ws, i - 1) + ws[i - 1]
    }
}

/// Sum of all weights.
pub open spec fn sum_weights(ws: Seq<int>) -> int {
    weight_prefix_sum(ws, ws.len() as int)
}

/// The index the selection walk lands on for draw `r`: the first index whose
/// weight exceeds what is left of `r` after discounting all earlier weights.
pub open spec fn selected_index(ws: Seq<int>, r: int) -> int
    decreases ws.len(),
{
    if ws.len() == 0 {
        0
    } else if r < ws[0] {
        0
    } else {
        1 + selected_index(ws.drop_first(), r - ws[0])
    }
}

/// Prefix sums ignore everything at or past `i`.
proof fn lemma_prefix_agree(ws1: Seq<int>, ws2: Seq<int>, i: int)
    requires
        forall|j: int| 0 <= j < i ==> ws1[j] == ws2[j],
    ensures
        weight_prefix_sum(ws1, i) == weight_prefix_sum(ws2, i),
    decreases i,
{
    if i > 0 {
        lemma_prefix_agree(ws1, ws2, i - 1);
    }
}

/// Dropping the first weight shifts prefix sums by that weight.
proof fn lemma_prefix_shift(ws: Seq<int>, i: int)
    requires
        ws.len() > 0,
        0 <= i <= ws.len() - 1,
    ensures
        weight_prefix_sum(ws.drop_first(), i) == weight_prefix_sum(ws, i + 1) - ws[0],
    decreases i,
{
    if i == 0 {
        assert(weight_prefix_sum(ws.drop_first(), 0) == 0);
        assert(weight_prefix_sum(ws, 0) == 0);
        assert(weight_prefix_sum(ws, 1) == weight_prefix_sum(ws, 0) + ws[0]);
    } else {
        lemma_prefix_shift(ws, i - 1);
        assert(ws.drop_first()[i - 1] == ws[i]);
    }
}

/// Prefix sums of nonnegative weights are monotone.
pub proof fn lemma_prefix_monotone(ws: Seq<int>, i: int, j: int)
    requires
        forall|k: int| 0 <= k < ws.len() ==> ws[k] >= 0,
        0 <= i <= j <= ws.len(),
    ensures
        weight_prefix_sum(ws, i) <= weight_prefix_sum(ws, j),
    decreases j - i,
{
    if i < j {
        lemma_prefix_monotone(ws, i, j - 1);
    }
}

/// The landing index of a draw below the total weight is in range, covers the
/// draw by its own interval of the prefix sums, and never has weight zero.
pub proof fn lemma_selected_props(ws: Seq<int>, r: int)
    requires
        forall|k: int| 0 <= k < ws.len() ==> ws[k] >= 0,
        0 <= r < sum_weights(ws),
    ensures
        0 <= selected_index(ws, r) < ws.len(),
        weight_prefix_sum(ws, selected_index(ws, r)) <= r,
        r < weight_prefix_sum(ws, selected_index(ws, r)) + ws[selected_index(ws, r)],
        ws[selected_index(ws, r)] > 0,
    decreases ws.len(),
{
    assert(ws.len() > 0) by {
        if ws.len() == 0 {
            assert(sum_weights(ws) == 0);
        }
    }
    if r < ws[0] {
        assert(weight_prefix_sum(ws, 0) == 0);
    } else {
        let tail = ws.drop_first();
        assert(forall|k: int| 0 <= k < tail.len() ==> tail[k] >= 0);
        lemma_prefix_shift(ws, ws.len() - 1);
        lemma_selected_props(tail, r - ws[0]);
        let s = selected_index(tail, r - ws[0]);
        lemma_prefix_shift(ws, s);
        assert(tail[s] == ws[s + 1]);
    }
}

/// Every draw inside index `i`'s interval of the prefix sums lands on `i`.
pub proof fn lemma_sel_of_interval(ws: Seq<int>, i: int, r: int)
    requires
        forall|k: int| 0 <= k < ws.len() ==> ws[k] >= 0,
        0 <= i < ws.len(),
        weight_prefix_sum(ws, i) <= r,
        r < weight_prefix_sum(ws, i) + ws[i],
    ensures
        selected_index(ws, r) == i,
    decreases ws.len(),
{
    lemma_prefix_monotone(ws, 0, i);
    if i == 0 {
        assert(weight_prefix_sum(ws, 0) == 0);
    } else {
        assert(weight_prefix_sum(ws, 1) == ws[0]);
        lemma_prefix_monotone(ws, 1, i);
        let tail = ws.drop_first();
        assert(forall|k: int| 0 <= k < tail.len() ==> tail[k] >= 0);
        lemma_prefix_shift(ws, i - 1);
        lemma_prefix_shift(ws, i);
        assert(tail[i - 1] == ws[i]);
        lemma_sel_of_interval(tail, i - 1, r - ws[0]);
    }
}

/// Law: the draws landing on index `i` are exactly the interval of the prefix
/// sums belonging to `i`, so their number equals `i`'s weight: selection
/// probability under a uniform draw is proportional to weight, and a
/// zero-weight target is never selected.
pub proof fn lemma_selection_share(ws: Seq<int>, i: int)
    requires
        forall|k: int| 0 <= k < ws.len() ==> ws[k] >= 0,
        0 <= i < ws.len(),
    ensures
        Set::new(|r: int| 0 <= r < sum_weights(ws) && selected_index(ws, r) == i)
            =~= set_int_range(weight_prefix_sum(ws, i), weight_prefix_sum(ws, i) + ws[i]),
        Set::new(|r: int| 0 <= r < sum_weights(ws) && selected_index(ws, r) == i).len()
            == ws[i],
{
    let lo = weight_prefix_sum(ws, i);
    let hi = lo + ws[i];
    let s = Set::new(|r: int| 0 <= r < sum_weights(ws) && selected_index(ws, r) == i);
    assert(weight_prefix_sum(ws, i + 1) == hi);
    lemma_prefix_monotone(ws, 0, i);
    lemma_prefix_monotone(ws, i + 1, ws.len() as int);
    assert forall|r: int| s.contains(r) implies set_int_range(lo, hi).contains(r) by {
        lemma_selected_props(ws, r);
    }
    assert forall|r: int| set_int_range(lo, hi).contains(r) implies s.contains(r) by {
        lemma_sel_of_interval(ws, i, r);
    }
    vstd::set_lib::lemma_int_range(lo, hi);
}

/// Walk the target list, discounting each weight from the draw `r`, and
/// return the index of the first target whose weight exceeds what is left.
pub fn pick_index(targets: &Vec<Target>, r: u64) -> (i: usize)
    requires
        (r as int) < sum_weights(weights_of(targets@.map_values(|t: Target| t@))),
    ensures
        i < targets@.len(),
        i as int == selected_index(weights_of(targets@.map_values(|t: Target| t@)), r as int),
{
    let ghost ws = weights_of(targets@.map_values(|t: Target| t@));
    let n = targets.len();
    let mut rem = r;
    let mut i: usize = 0;
    proof {
        assert(ws.skip(0) =~= ws);
    }
    while i < n
        invariant
            0 <= i <= n,
            n == targets@.len(),
            ws == weights_of(targets@.map_values(|t: Target| t@)),
            (r as int) < sum_weights(ws),
            rem as int == r as int - weight_prefix_sum(ws, i as int),
            selected_index(ws, r as int) == i + selected_index(ws.skip(i as int), rem as int),
        decreases n - i,
    {
        let w = targets[i].weight;
        assert(ws[i as int] == w as int);
        let ghost tail = ws.skip(i as int);
        assert(tail[0] == ws[i as int]);
        if rem < w as u64 {
            assert(selected_index(tail, rem as int) == 0);
            return i;
        }
        assert(tail.drop_first() =~= ws.skip(i + 1));
        rem = rem - w as u64;
        i = i + 1;
    }
    proof {
        assert(weight_prefix_sum(ws, n as int) == sum_weights(ws));
        assert(false);
    }
    0
}

/// Relies on rand's `random_range` over `rand::rng()`: the result of a draw
/// from the half-open range `0..bound` lies below `bound`. Nothing further is
/// assumed of the randomly drawn value.
#[verifier::external_body]
fn draw_below(bound: u64) -> (r: u64)
    requires
        bound > 0,
    ensures
        r < bound,
{
    rand::rng().random_range(0..bound)
}

/// Pick one target at random, each with probability proportional to its
/// weight. A zero-weight target is never returned.
pub fn select_target(targets: &Vec<Target>, total_weight: u64) -> (i: usize)
    requires
        total_weight > 0,
        total_weight as int == total_weight_of(targets@.map_values(|t: Target| t@)),
    ensures
        i < targets@.len(),
        targets@[i as int]@.weight > 0,
{
    proof {
        lemma_total_weight_as_sum(targets@.map_values(|t: Target| t@));
    }
    let r = draw_below(total_weight);
    let i = pick_index(targets, r);
    proof {
        let ws = weights_of(targets@.map_values(|t: Target| t@));
        assert(forall|k: int| 0 <= k < ws.len() ==> ws[k] >= 0);
        lemma_selected_props(ws, r as int);
    }
    i
}

/// The running total of the configuration module agrees with the prefix-sum
/// total used by selection.
pub proof fn lemma_total_weight_as_sum(ts: Seq<TargetModel>)
    ensures
        total_weight_of(ts) == sum_weights(weights_of(ts)),
    decreases ts.len(),
{
    if ts.len() > 0 {
        lemma_total_weight_as_sum(ts.drop_last());
        let ws = weights_of(ts);
        let wsp = weights_of(ts.drop_last());
        assert(wsp =~= ws.subrange(0, ws.len() - 1));
        lemma_prefix_agree(wsp, ws, ws.len() - 1);
    }
}

} // verus!
