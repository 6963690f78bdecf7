use vstd::prelude::*;

use crate::history::{
    entry_day, history_wf, lemma_merge_name_seq_contains, lookback_matches, lookback_range_end,
    lookback_range_start, names_contain, names_of, spec_groups, view_of_groups, window_end_from,
    window_start_from, DayGroupView, DaySkills, HistoryEntry,
};
use crate::skills::PracticeSkill;

verus! {

/// A skill name appears in some group of a lookback result.
pub open spec fn seen_in_groups(gs: Seq<DayGroupView>, nm: Seq<char>) -> bool {
    exists|a: int| 0 <= a < gs.len() && (#[trigger] gs[a]).names.contains(nm)
}

/// The integer share of the maximum weight that one day of the repeat
/// window is worth.
pub open spec fn spec_bandwidth(repeat_days: usize) -> int {
    100int / repeat_days as int
}

/// The selection weight of a skill, given the lookback groups: the
/// maximum, 100, when the skill was practiced on no day of the window;
/// otherwise the bandwidth scaled by the index of the window's last day,
/// capped at `u32::MAX`.
pub open spec fn spec_weight(gs: Seq<DayGroupView>, repeat_days: usize, nm: Seq<char>) -> int {
    if !seen_in_groups(gs, nm) {
        100
    } else {
        let w = spec_bandwidth(repeat_days) * (gs.len() - 1);
        if w > u32::MAX as int {
            u32::MAX as int
        } else {
            w
        }
    }
}

/// Decides whether a skill name appears anywhere in a lookback result.
pub fn seen_in_lookback(past: &Vec<DaySkills>, name: &String) -> (b: bool)
    ensures
        b == seen_in_groups(view_of_groups(past@), name@),
{
    let ghost gs = view_of_groups(past@);
    let mut a: usize = 0;
    while a < past.len()
        invariant
            gs == view_of_groups(past@),
            a <= past@.len(),
            forall|t: int| 0 <= t < a ==> !(#[trigger] gs[t]).names.contains(name@),
        decreases past@.len() - a,
    {
        if names_contain(&past[a].skill_names, name) {
            assert(gs[a as int].names == names_of(past@[a as int].skill_names@));
            assert(gs[a as int].names.contains(name@));
            return true;
        }
        assert(gs[a as int].names == names_of(past@[a as int].skill_names@));
        a = a + 1;
    }
    proof {
        if seen_in_groups(gs, name@) {
            let w = choose|w: int| 0 <= w < gs.len() && (#[trigger] gs[w]).names.contains(name@);
            assert(!gs[w].names.contains(name@));
        }
    }
    false
}

/// Computes every configured skill's selection weight from the lookback
/// result, exactly as `spec_weight` states it.
pub fn compute_weights(
    skills: &Vec<PracticeSkill>,
    past: &Vec<DaySkills>,
    repeat_days: usize,
) -> (w: Vec<u32>)
    requires
        repeat_days >= 1,
    ensures
        w@.len() == skills@.len(),
        forall|i: int|
            0 <= i < skills@.len() ==> (#[trigger] w@[i]) as int == spec_weight(
                view_of_groups(past@),
                repeat_days,
                skills@[i]@.name,
            ),
{
    let ghost gs = view_of_groups(past@);
    let bandwidth: usize = 100 / repeat_days;
    assert(bandwidth as int == spec_bandwidth(repeat_days));
    proof {
        vstd::arithmetic::div_mod::lemma_div_is_ordered_by_denominator(100, 1, repeat_days as int);
    }
    assert(bandwidth <= 100);
    let mut w: Vec<u32> = Vec::new();
    let mut i: usize = 0;
    while i < skills.len()
        invariant
            gs == view_of_groups(past@),
            i <= skills@.len(),
            w@.len() == i,
            bandwidth as int == spec_bandwidth(repeat_days),
            bandwidth <= 100,
            repeat_days >= 1,
            forall|t: int|
                0 <= t < i ==> (#[trigger] w@[t]) as int == spec_weight(
                    gs,
                    repeat_days,
                    skills@[t]@.name,
                ),
        decreases skills@.len() - i,
    {
        let seen = seen_in_lookback(past, &skills[i].skill_name);
        assert(skills@[i as int]@.name == skills@[i as int].skill_name@);
        let wi: u32 = if !seen {
            100u32
        } else {
            proof {
                assert(seen_in_groups(gs, skills@[i as int].skill_name@));
                let a = choose|a: int| 0 <= a < gs.len() && (#[trigger] gs[a]).names.contains(
                    skills@[i as int].skill_name@,
                );
                assert(gs.len() > 0);
                assert(gs.len() == past@.len());
            }
            assert(past@.len() >= 1);
            let nd: usize = past.len();
            let bw128: u128 = bandwidth as u128;
            let nd128: u128 = (nd - 1) as u128;
            assert((bw128 as int) * (nd128 as int) <= u128::MAX as int) by (nonlinear_arith)
                requires
                    0 <= bw128 <= 100,
                    0 <= nd128 <= 0xFFFF_FFFF_FFFF_FFFFu128,
            ;
            let prod: u128 = bw128 * nd128;
            if prod > (u32::MAX as u128) {
                u32::MAX
            } else {
                prod as u32
            }
        };
        w.push(wi);
        i = i + 1;
    }
    w
}

/// No group of the canonical grouping of entries `[s, i)` holds a name
/// that none of those entries holds.
pub proof fn lemma_absent_not_grouped(h: Seq<HistoryEntry>, s: int, i: int, nm: Seq<char>)
    requires
        0 <= s <= i <= h.len(),
        forall|k: int| s <= k < i ==> !names_of((#[trigger] h[k]).skill_names@).contains(nm),
    ensures
        !seen_in_groups(spec_groups(h, s, i), nm),
    decreases i - s,
{
    if i > s {
        lemma_absent_not_grouped(h, s, i - 1, nm);
        let prev = spec_groups(h, s, i - 1);
        let gs = spec_groups(h, s, i);
        let nms = names_of(h[i - 1].skill_names@);
        assert(!nms.contains(nm));
        if prev.len() > 0 && prev.last().day == entry_day(h[i - 1]) {
            lemma_merge_name_seq_contains(prev.last().names, nms, nm);
            assert forall|a: int| 0 <= a < gs.len() implies !(#[trigger] gs[a]).names.contains(
                nm,
            ) by {
                if a < gs.len() - 1 {
                    assert(gs[a] == prev[a]);
                    assert(!prev[a].names.contains(nm));
                } else {
                    assert(!prev[a].names.contains(nm));
                }
            }
            if seen_in_groups(gs, nm) {
                let a = choose|a: int| 0 <= a < gs.len() && (#[trigger] gs[a]).names.contains(nm);
                assert(false);
            }
        } else {
            lemma_merge_name_seq_contains(Seq::empty(), nms, nm);
            assert forall|a: int| 0 <= a < gs.len() implies !(#[trigger] gs[a]).names.contains(
                nm,
            ) by {
                if a < gs.len() - 1 {
                    assert(gs[a] == prev[a]);
                    assert(!prev[a].names.contains(nm));
                }
            }
            if seen_in_groups(gs, nm) {
                let a = choose|a: int| 0 <= a < gs.len() && (#[trigger] gs[a]).names.contains(nm);
                assert(false);
            }
        }
    }
}

/// Every entry at or past the window's start index lies inside the
/// window.
pub proof fn lemma_window_start_in_window(h: Seq<HistoryEntry>, lo: int, i: int)
    requires
        0 <= i <= h.len(),
    ensures
        0 <= window_start_from(h, lo, i) <= i,
        forall|k: int|
            window_start_from(h, lo, i) <= k < i ==> (#[trigger] h[k]).completed_at > lo,
    decreases i,
{
    if i > 0 && h[i - 1].completed_at > lo {
        lemma_window_start_in_window(h, lo, i - 1);
    }
}

/// Every entry past the window's end index lies beyond its upper bound,
/// and the entry just before it, if any, lies at or below it.
pub proof fn lemma_window_end_bounds(h: Seq<HistoryEntry>, hi: int, i: int)
    requires
        0 <= i <= h.len(),
    ensures
        0 <= window_end_from(h, hi, i) <= i,
        forall|k: int| window_end_from(h, hi, i) <= k < i ==> (#[trigger] h[k]).completed_at > hi,
        window_end_from(h, hi, i) > 0 ==> h[window_end_from(h, hi, i) - 1].completed_at <= hi,
    decreases i,
{
    if i > 0 && h[i - 1].completed_at > hi {
        lemma_window_end_bounds(h, hi, i - 1);
    }
}

/// Law: a skill that no history entry inside the lookback window
/// `(lo, as_of]` names always receives the maximum selection weight of
/// 100, whatever the repeat threshold.
pub proof fn lemma_absent_skill_max_weight(
    h: Seq<HistoryEntry>,
    lo: int,
    as_of: int,
    r: Seq<DaySkills>,
    repeat_days: usize,
    nm: Seq<char>,
)
    requires
        repeat_days >= 1,
        history_wf(h),
        lookback_matches(h, lo, as_of, r),
        forall|k: int|
            0 <= k < h.len() && lo < (#[trigger] h[k]).completed_at <= as_of ==> !names_of(
                h[k].skill_names@,
            ).contains(nm),
    ensures
        spec_weight(view_of_groups(r), repeat_days, nm) == 100,
{
    let e = lookback_range_end(h, as_of);
    let s = lookback_range_start(h, lo, as_of);
    lemma_window_end_bounds(h, as_of, h.len() as int);
    lemma_window_start_in_window(h, lo, e);
    assert forall|k: int| s <= k < e implies !names_of(
        (#[trigger] h[k]).skill_names@,
    ).contains(nm) by {
        assert(h[k].completed_at > lo);
        assert(h[k].completed_at <= h[e - 1].completed_at);
        assert(h[e - 1].completed_at <= as_of);
    }
    lemma_absent_not_grouped(h, s, e, nm);
}

} // verus!
