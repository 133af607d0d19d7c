//! Laws relating the engine's rules across several calls.
use crate::config::Style;
use crate::engine::{
    boundary_char, filled_width, inc_step, percent, rounded_div, scaled, throttle_fires, Bar,
};
use vstd::arithmetic::div_mod::{
    lemma_div_by_multiple, lemma_div_is_ordered, lemma_fundamental_div_mod,
};
use vstd::arithmetic::mul::lemma_mul_inequality;
use vstd::prelude::*;
use vstd::seq_lib::{to_multiset_build, to_multiset_contains, to_multiset_len, to_multiset_remove};

verus! {

/// The sum of a sequence of increments.
pub open spec fn total_of(deltas: Seq<u64>) -> nat
    decreases deltas.len(),
{
    if deltas.len() == 0 {
        0
    } else {
        total_of(deltas.drop_last()) + deltas.last() as nat
    }
}

/// How many throttled redraws fire for increments arriving at `times`, in
/// order, when the last redraw was at `last`: each one that fires moves `last`.
pub open spec fn redraws(last: nat, throttle: nat, times: Seq<nat>) -> nat
    decreases times.len(),
{
    if times.len() == 0 {
        0
    } else if throttle_fires(last, throttle, times[0]) {
        1 + redraws(times[0], throttle, times.drop_first())
    } else {
        redraws(last, throttle, times.drop_first())
    }
}

proof fn lemma_scaled_full(len: nat, scale: nat)
    ensures
        scaled(len, len, scale) == scale,
{
    if len > 0 {
        assert(len * scale == scale * len) by (nonlinear_arith);
        lemma_div_by_multiple(scale as int, len as int);
        lemma_fundamental_div_mod((scale * len) as int, len as int);
        assert(len * ((scale * len) / len) == scale * len) by (nonlinear_arith)
            requires
                (scale * len) / len == scale,
        ;
        assert(rounded_div(len * scale, len) == scale);
    }
}

/// Once increments summing to the total have been counted, a frame shows
/// 100%, a full fill, and the fill character at the boundary.
pub proof fn lemma_complete_at_total(deltas: Seq<u64>, len: nat, bar_width: nat, style: Style)
    requires
        total_of(deltas) == len,
    ensures
        percent(total_of(deltas), len) == 100,
        filled_width(total_of(deltas), len, bar_width) == bar_width,
        boundary_char(style, total_of(deltas), len) == style.spec_bar_char(),
{
    lemma_scaled_full(len, 100);
    lemma_scaled_full(len, bar_width);
}

/// The position after a prefix of a sequence of increments never exceeds the
/// position after a longer prefix: the positions that frames show never go back.
pub proof fn lemma_positions_monotone(deltas: Seq<u64>, i: int, j: int)
    requires
        0 <= i <= j <= deltas.len(),
    ensures
        total_of(deltas.take(i)) <= total_of(deltas.take(j)),
    decreases j - i,
{
    if i < j {
        lemma_positions_monotone(deltas, i, j - 1);
        assert(deltas.take(j).drop_last() =~= deltas.take(j - 1));
    }
}

/// Increments arriving no later than `window` milliseconds after the last
/// redraw fire at most `window / (throttle + 1)` redraws, whatever their
/// number; a burst with no gap in time fires none.
pub proof fn lemma_throttle_bound(last: nat, throttle: nat, times: Seq<nat>, window: nat)
    requires
        forall|i: int| 0 <= i < times.len() ==> times[i] <= last + window,
    ensures
        redraws(last, throttle, times) * (throttle + 1) <= window,
    decreases times.len(),
{
    if times.len() > 0 {
        let rest = times.drop_first();
        assert forall|i: int| 0 <= i < rest.len() implies rest[i] <= last + window by {
            assert(rest[i] == times[i + 1]);
        }
        assert(times[0] <= last + window);
        if throttle_fires(last, throttle, times[0]) {
            let w2: nat = (last + window - times[0]) as nat;
            lemma_throttle_bound(times[0], throttle, rest, w2);
            let c = redraws(times[0], throttle, rest);
            let r = redraws(last, throttle, times);
            assert(r == 1 + c);
            assert(r * (throttle + 1) <= window) by (nonlinear_arith)
                requires
                    r == 1 + c,
                    c * (throttle + 1) <= w2,
                    w2 + throttle + 1 <= window,
            ;
        } else {
            lemma_throttle_bound(last, throttle, rest, window);
            assert(redraws(last, throttle, times) == redraws(last, throttle, rest));
        }
    } else {
        assert(redraws(last, throttle, times) == 0);
    }
}

proof fn lemma_total_of_remove(s: Seq<u64>, i: int)
    requires
        0 <= i < s.len(),
    ensures
        total_of(s) == total_of(s.remove(i)) + s[i],
    decreases s.len(),
{
    if i == s.len() - 1 {
        assert(s.remove(i) =~= s.drop_last());
    } else {
        lemma_total_of_remove(s.drop_last(), i);
        assert(s.remove(i).drop_last() =~= s.drop_last().remove(i));
        assert(s.remove(i).last() == s.last());
    }
}

/// Increments counted in any order reach the same position: no increment is
/// lost or counted twice, whoever issues it and whenever.
pub proof fn lemma_total_of_reordered(a: Seq<u64>, b: Seq<u64>)
    requires
        a.to_multiset() == b.to_multiset(),
    ensures
        total_of(a) == total_of(b),
    decreases a.len(),
{
    broadcast use vstd::multiset::group_multiset_axioms;

    to_multiset_len(a);
    to_multiset_len(b);
    if a.len() > 0 {
        let x = a.last();
        let a2 = a.drop_last();
        assert(a =~= a2.push(x));
        to_multiset_build(a2, x);
        to_multiset_contains(b, x);
        let i = choose|i: int| 0 <= i < b.len() && b[i] == x;
        to_multiset_remove(b, i);
        assert(a2.to_multiset() =~= a.to_multiset().remove(x));
        lemma_total_of_reordered(a2, b.remove(i));
        lemma_total_of_remove(b, i);
    }
}

proof fn lemma_rounded_div_monotone(a1: nat, a2: nat, b: nat)
    requires
        a1 <= a2,
        b > 0,
    ensures
        rounded_div(a1, b) <= rounded_div(a2, b),
{
    lemma_div_is_ordered(a1 as int, a2 as int, b as int);
    lemma_fundamental_div_mod(a1 as int, b as int);
    lemma_fundamental_div_mod(a2 as int, b as int);
    if a1 / b == a2 / b {
        assert(b * (a1 / b) == b * (a2 / b));
    }
}

/// The percentage and the fill that frames show never go back as the position
/// grows: a frame drawn later, at a position no smaller, shows no less.
pub proof fn lemma_frame_progress_monotone(pos1: nat, pos2: nat, len: nat, bar_width: nat)
    requires
        pos1 <= pos2 <= len,
    ensures
        percent(pos1, len) <= percent(pos2, len),
        filled_width(pos1, len, bar_width) <= filled_width(pos2, len, bar_width),
{
    if len > 0 {
        lemma_mul_inequality(pos1 as int, pos2 as int, 100);
        lemma_rounded_div_monotone(pos1 * 100, pos2 * 100, len);
        lemma_mul_inequality(pos1 as int, pos2 as int, bar_width as int);
        lemma_rounded_div_monotone(pos1 * bar_width, pos2 * bar_width, len);
    }
}

/// How many of a run of steps drew a frame.
pub open spec fn count_drawn(drew: Seq<bool>) -> nat
    decreases drew.len(),
{
    if drew.len() == 0 {
        0
    } else {
        (if drew[0] {
            1nat
        } else {
            0nat
        }) + count_drawn(drew.drop_first())
    }
}

proof fn lemma_drawn_is_redraws<'a>(bars: Seq<Bar<'a>>, times: Seq<nat>, drew: Seq<bool>)
    requires
        bars.len() == times.len() + 1,
        drew.len() == times.len(),
        forall|i: int|
            0 <= i < times.len() ==> inc_step(#[trigger] bars[i], bars[i + 1], times[i], drew[i]),
    ensures
        count_drawn(drew) == redraws(
            bars[0].spec_last_update(),
            bars[0].spec_config().throttle_millis as nat,
            times,
        ),
    decreases times.len(),
{
    if times.len() > 0 {
        let bars2 = bars.drop_first();
        let times2 = times.drop_first();
        let drew2 = drew.drop_first();
        assert(inc_step(bars[0], bars[1], times[0], drew[0]));
        assert forall|i: int| 0 <= i < times2.len() implies inc_step(
            #[trigger] bars2[i],
            bars2[i + 1],
            times2[i],
            drew2[i],
        ) by {
            assert(inc_step(bars[i + 1], bars[i + 2], times[i + 1], drew[i + 1]));
        }
        lemma_drawn_is_redraws(bars2, times2, drew2);
    }
}

/// A bar taken through increments at `times`, each no later than `window`
/// milliseconds after its last redraw before them, draws at most
/// `window / (throttle + 1)` frames on the way, however many increments
/// there are; with the final frame, one more.
pub proof fn lemma_bar_redraw_bound<'a>(
    bars: Seq<Bar<'a>>,
    times: Seq<nat>,
    drew: Seq<bool>,
    window: nat,
)
    requires
        bars.len() == times.len() + 1,
        drew.len() == times.len(),
        forall|i: int|
            0 <= i < times.len() ==> inc_step(#[trigger] bars[i], bars[i + 1], times[i], drew[i]),
        forall|i: int| 0 <= i < times.len() ==> #[trigger] times[i] <= bars[0].spec_last_update() + window,
    ensures
        count_drawn(drew) * (bars[0].spec_config().throttle_millis + 1) <= window,
{
    lemma_drawn_is_redraws(bars, times, drew);
    lemma_throttle_bound(
        bars[0].spec_last_update(),
        bars[0].spec_config().throttle_millis as nat,
        times,
        window,
    );
}

} // verus!
