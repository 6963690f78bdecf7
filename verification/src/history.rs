use vstd::prelude::*;

use vstd::arithmetic::div_mod::lemma_div_is_ordered;

use crate::errors::SchedulerError;
use crate::{spec_day_of, valid_time, SECS_PER_DAY};

verus! {

/// One completed daily practice session: the moment it finished and the
/// names of the skills practiced.
#[derive(Debug)]
pub struct HistoryEntry {
    pub completed_at: i64,
    pub skill_names: Vec<String>,
}

/// The distinct skills practiced on one calendar day of the lookback
/// window.
#[derive(Debug)]
pub struct DaySkills {
    pub day: i64,
    pub skill_names: Vec<String>,
}

/// History entries are kept in nondecreasing time order.
pub open spec fn history_sorted(h: Seq<HistoryEntry>) -> bool {
    forall|i: int, j: int|
        0 <= i < j < h.len() ==> #[trigger] h[i].completed_at <= #[trigger] h[j].completed_at
}

/// Every entry carries a representable timestamp.
pub open spec fn history_times_valid(h: Seq<HistoryEntry>) -> bool {
    forall|i: int| 0 <= i < h.len() ==> valid_time(#[trigger] h[i].completed_at)
}

/// A well-formed history: time-ordered entries with representable
/// timestamps.
pub open spec fn history_wf(h: Seq<HistoryEntry>) -> bool {
    history_sorted(h) && history_times_valid(h)
}

/// The calendar day an entry falls on.
pub open spec fn entry_day(e: HistoryEntry) -> int {
    spec_day_of(e.completed_at)
}

/// Calendar days never decrease along nondecreasing timestamps.
pub proof fn lemma_day_monotonic(a: i64, b: i64)
    requires
        a <= b,
    ensures
        spec_day_of(a) <= spec_day_of(b),
{
    lemma_div_is_ordered(a as int, b as int, SECS_PER_DAY as int);
}

/// The remaining streak contribution of the first `i` history entries,
/// scanned from the most recent backward: an entry on `today` counts once;
/// an entry on exactly the next expected earlier day counts and moves the
/// expectation one day back; any other day ends the streak.
pub open spec fn streak_rec(
    h: Seq<HistoryEntry>,
    i: int,
    today: int,
    next_expected: int,
    counted_today: bool,
) -> int
    decreases i,
{
    if i <= 0 {
        0
    } else {
        let d = spec_day_of(h[i - 1].completed_at);
        if d == today {
            (if counted_today {
                0int
            } else {
                1int
            }) + streak_rec(h, i - 1, today, next_expected, true)
        } else if d != next_expected {
            0
        } else {
            1 + streak_rec(h, i - 1, today, next_expected - 1, counted_today)
        }
    }
}

/// The consecutive-day practice streak as of the day `today`: today counts
/// if present but is not required to be, and each earlier day must be
/// exactly one calendar day before the previous counted day.
pub open spec fn spec_streak(h: Seq<HistoryEntry>, today: int) -> int {
    streak_rec(h, h.len() as int, today, today - 1, false)
}

/// The streak contribution never exceeds the number of entries scanned.
pub proof fn lemma_streak_rec_bounds(
    h: Seq<HistoryEntry>,
    i: int,
    today: int,
    next_expected: int,
    counted_today: bool,
)
    requires
        0 <= i <= h.len(),
    ensures
        0 <= streak_rec(h, i, today, next_expected, counted_today) <= i,
    decreases i,
{
    if i > 0 {
        let d = spec_day_of(h[i - 1].completed_at);
        if d == today {
            lemma_streak_rec_bounds(h, i - 1, today, next_expected, true);
        } else if d == next_expected {
            lemma_streak_rec_bounds(h, i - 1, today, next_expected - 1, counted_today);
        }
    }
}

/// Counts the consecutive calendar days of practice ending at `as_of`'s
/// day, scanning the history backward from the most recent entry.
pub fn streak_count(h: &Vec<HistoryEntry>, as_of: i64) -> (n: usize)
    requires
        history_wf(h@),
        valid_time(as_of),
    ensures
        n as int == spec_streak(h@, spec_day_of(as_of)),
{
    let today: i64 = as_of / SECS_PER_DAY;
    let mut count: usize = 0;
    let mut next_expected: i64 = today - 1;
    let mut counted_today: bool = false;
    let mut done: bool = false;
    let hlen: usize = h.len();
    let mut i: usize = hlen;
    while i > 0 && !done
        invariant
            history_wf(h@),
            valid_time(as_of),
            today == spec_day_of(as_of),
            hlen == h@.len(),
            i <= hlen,
            count <= hlen - i,
            done ==> count as int == spec_streak(h@, today as int),
            !done ==> count as int + streak_rec(
                h@,
                i as int,
                today as int,
                next_expected as int,
                counted_today,
            ) == spec_streak(h@, today as int),
            next_expected >= -1,
            next_expected <= today,
        decreases i + (if done { 0int } else { 1int }),
    {
        let d = h[i - 1].completed_at / SECS_PER_DAY;
        assert(d == spec_day_of(h@[i - 1].completed_at));
        assert(d >= 0) by {
            assert(valid_time(h@[i - 1].completed_at));
        }
        if d == today {
            if !counted_today {
                count = count + 1;
                counted_today = true;
            }
            i = i - 1;
        } else if d != next_expected {
            done = true;
            proof {
                lemma_streak_rec_bounds(
                    h@,
                    i as int,
                    today as int,
                    next_expected as int,
                    counted_today,
                );
            }
        } else {
            count = count + 1;
            next_expected = next_expected - 1;
            i = i - 1;
        }
    }
    count
}

/// Inserts one entry into a time-ordered history, after any entries that
/// share its timestamp; the history stays time-ordered and nothing else
/// moves.
pub fn record_entry(h: &mut Vec<HistoryEntry>, entry: HistoryEntry)
    requires
        history_wf(old(h)@),
        valid_time(entry.completed_at),
    ensures
        history_wf(final(h)@),
        final(h)@.len() == old(h)@.len() + 1,
        exists|p: int|
            {
                &&& 0 <= p <= old(h)@.len()
                &&& final(h)@ == old(h)@.insert(p, entry)
                &&& (forall|k: int|
                    0 <= k < p ==> (#[trigger] old(h)@[k]).completed_at <= entry.completed_at)
                &&& (forall|k: int|
                    p <= k < old(h)@.len() ==> (#[trigger] old(h)@[k]).completed_at
                        > entry.completed_at)
            },
{
    let ghost h0 = h@;
    let mut p: usize = h.len();
    while p > 0 && h[p - 1].completed_at > entry.completed_at
        invariant
            h@ == h0,
            p <= h@.len(),
            forall|k: int| p <= k < h@.len() ==> (#[trigger] h@[k]).completed_at
                > entry.completed_at,
            history_wf(h@),
        decreases p,
    {
        p = p - 1;
    }
    proof {
        assert forall|k: int| 0 <= k < p implies (#[trigger] h@[k]).completed_at
            <= entry.completed_at by {
            assert(h@[p - 1].completed_at <= entry.completed_at);
            if k < p - 1 {
                assert(h@[k].completed_at <= h@[p - 1].completed_at);
            }
        }
    }
    let ghost pp = p as int;
    h.insert(p, entry);
    proof {
        assert(h@ == h0.insert(pp, entry));
        assert forall|i: int, j: int| 0 <= i < j < h@.len() implies (
        #[trigger] h@[i]).completed_at <= (#[trigger] h@[j]).completed_at by {
            if i < pp && j < pp {
            } else if i < pp && j == pp {
            } else if i == pp {
            } else if j > pp && i > pp {
            } else {
            }
        }
    }
}

/// The number of calendar-day changes along the first `i` entries of a
/// history; on a time-ordered history, where equal days are adjacent, this
/// is the number of distinct days with at least one entry.
pub open spec fn spec_distinct_days(h: Seq<HistoryEntry>, i: int) -> int
    decreases i,
{
    if i <= 0 {
        0
    } else if i == 1 {
        1
    } else if entry_day(h[i - 1]) == entry_day(h[i - 2]) {
        spec_distinct_days(h, i - 1)
    } else {
        1 + spec_distinct_days(h, i - 1)
    }
}

/// Counts the distinct calendar days on which at least one practice
/// session was recorded.
pub fn distinct_day_count(h: &Vec<HistoryEntry>) -> (n: usize)
    requires
        history_wf(h@),
    ensures
        n as int == spec_distinct_days(h@, h@.len() as int),
{
    let hlen: usize = h.len();
    let mut n: usize = 0;
    let mut i: usize = 0;
    while i < hlen
        invariant
            history_wf(h@),
            hlen == h@.len(),
            i <= hlen,
            n <= i,
            n as int == spec_distinct_days(h@, i as int),
        decreases hlen - i,
    {
        assert(valid_time(h@[i as int].completed_at));
        let d = h[i].completed_at / SECS_PER_DAY;
        assert(d == entry_day(h@[i as int]));
        if i == 0 {
            n = n + 1;
        } else {
            assert(valid_time(h@[i as int - 1].completed_at));
            let dprev = h[i - 1].completed_at / SECS_PER_DAY;
            assert(dprev == entry_day(h@[i as int - 1]));
            if d != dprev {
                n = n + 1;
            }
        }
        i = i + 1;
    }
    n
}

/// Mathematical view of one lookback group: a calendar day and the
/// distinct skill names practiced on it.
pub ghost struct DayGroupView {
    pub day: int,
    pub names: Seq<Seq<char>>,
}

/// The views of a list of skill names.
pub open spec fn names_of(v: Seq<String>) -> Seq<Seq<char>> {
    Seq::new(v.len(), |j: int| v[j]@)
}

/// The view of a lookback result, group by group.
pub open spec fn view_of_groups(r: Seq<DaySkills>) -> Seq<DayGroupView> {
    Seq::new(
        r.len(),
        |a: int| DayGroupView { day: r[a].day as int, names: names_of(r[a].skill_names@) },
    )
}

/// Appends to `dst` each name of `src`, in order, that `dst` does not
/// already hold.
pub open spec fn merge_name_seq(dst: Seq<Seq<char>>, src: Seq<Seq<char>>) -> Seq<Seq<char>>
    decreases src.len(),
{
    if src.len() == 0 {
        dst
    } else {
        let d1 = if dst.contains(src[0]) {
            dst
        } else {
            dst.push(src[0])
        };
        merge_name_seq(d1, src.drop_first())
    }
}

/// Merging one more trailing name behaves like merging it alone into the
/// merged prefix.
pub proof fn lemma_merge_name_seq_snoc(dst: Seq<Seq<char>>, src: Seq<Seq<char>>, x: Seq<char>)
    ensures
        merge_name_seq(dst, src.push(x)) == (if merge_name_seq(dst, src).contains(x) {
            merge_name_seq(dst, src)
        } else {
            merge_name_seq(dst, src).push(x)
        }),
    decreases src.len(),
{
    if src.len() == 0 {
        let d1x = if dst.contains(x) {
            dst
        } else {
            dst.push(x)
        };
        assert(src.push(x)[0] == x);
        assert(src.push(x).drop_first() =~= Seq::<Seq<char>>::empty());
        assert(merge_name_seq(dst, src.push(x)) == merge_name_seq(d1x, Seq::empty()));
        assert(merge_name_seq(d1x, Seq::empty()) == d1x);
        assert(merge_name_seq(dst, src) == dst);
    } else {
        let d1 = if dst.contains(src[0]) {
            dst
        } else {
            dst.push(src[0])
        };
        assert(src.push(x)[0] == src[0]);
        assert(src.push(x).drop_first() =~= src.drop_first().push(x));
        lemma_merge_name_seq_snoc(d1, src.drop_first(), x);
        assert(merge_name_seq(dst, src.push(x)) == merge_name_seq(d1, src.drop_first().push(x)));
        assert(merge_name_seq(dst, src) == merge_name_seq(d1, src.drop_first()));
    }
}

/// A merged name list holds exactly the names of its two sources.
pub proof fn lemma_merge_name_seq_contains(dst: Seq<Seq<char>>, src: Seq<Seq<char>>, x: Seq<char>)
    ensures
        merge_name_seq(dst, src).contains(x) <==> dst.contains(x) || src.contains(x),
    decreases src.len(),
{
    if src.len() > 0 {
        let d1 = if dst.contains(src[0]) {
            dst
        } else {
            dst.push(src[0])
        };
        lemma_merge_name_seq_contains(d1, src.drop_first(), x);
        if x == src[0] {
            assert(src.contains(x)) by {
                assert(src[0] == x);
            }
            assert(d1.contains(x)) by {
                if dst.contains(x) {
                } else {
                    assert(d1[dst.len() as int] == x);
                }
            }
        } else {
            assert(src.drop_first().contains(x) <==> src.contains(x)) by {
                if src.contains(x) {
                    let w = choose|w: int| 0 <= w < src.len() && src[w] == x;
                    assert(src.drop_first()[w - 1] == x);
                }
                if src.drop_first().contains(x) {
                    let w = choose|w: int| 0 <= w < src.drop_first().len() && src.drop_first()[w]
                        == x;
                    assert(src[w + 1] == x);
                }
            }
            assert(d1.contains(x) <==> dst.contains(x)) by {
                if dst.contains(x) {
                    let w = choose|w: int| 0 <= w < dst.len() && dst[w] == x;
                    assert(d1[w] == x);
                }
                if d1.contains(x) {
                    let w = choose|w: int| 0 <= w < d1.len() && d1[w] == x;
                    if w < dst.len() {
                        assert(dst[w] == x);
                    }
                }
            }
        }
    }
}

/// Merging keeps a duplicate-free list duplicate-free.
pub proof fn lemma_merge_name_seq_distinct(dst: Seq<Seq<char>>, src: Seq<Seq<char>>)
    requires
        forall|a: int, b: int| 0 <= a < b < dst.len() ==> dst[a] != dst[b],
    ensures
        forall|a: int, b: int|
            0 <= a < b < merge_name_seq(dst, src).len() ==> merge_name_seq(dst, src)[a]
                != merge_name_seq(dst, src)[b],
    decreases src.len(),
{
    if src.len() > 0 {
        let d1 = if dst.contains(src[0]) {
            dst
        } else {
            dst.push(src[0])
        };
        assert forall|a: int, b: int| 0 <= a < b < d1.len() implies d1[a] != d1[b] by {
            if b == dst.len() {
                assert(!dst.contains(src[0]));
                assert(d1[a] == dst[a]);
                if d1[a] == d1[b] {
                    assert(dst.contains(src[0])) by {
                        assert(dst[a] == src[0]);
                    }
                }
            }
        }
        lemma_merge_name_seq_distinct(d1, src.drop_first());
        assert(merge_name_seq(dst, src) == merge_name_seq(d1, src.drop_first()));
    }
}

/// A list of names holds no name twice.
pub open spec fn name_seq_distinct(names: Seq<Seq<char>>) -> bool {
    forall|a: int, b: int| 0 <= a < b < names.len() ==> names[a] != names[b]
}

/// The canonical day grouping of the history entries with indices in
/// `[s, i)`: entries are folded in order; an entry on the same calendar
/// day as the latest group merges its names into it, any other entry
/// starts a new group.
pub open spec fn spec_groups(h: Seq<HistoryEntry>, s: int, i: int) -> Seq<DayGroupView>
    decreases i - s,
{
    if i <= s {
        Seq::empty()
    } else {
        let prev = spec_groups(h, s, i - 1);
        let d = entry_day(h[i - 1]);
        let nms = names_of(h[i - 1].skill_names@);
        if prev.len() > 0 && prev.last().day == d {
            prev.update(
                prev.len() - 1,
                DayGroupView { day: d, names: merge_name_seq(prev.last().names, nms) },
            )
        } else {
            prev.push(DayGroupView { day: d, names: merge_name_seq(Seq::empty(), nms) })
        }
    }
}

/// Law: every group of the canonical day grouping lists each skill name
/// at most once, however often a skill recurs in the entries.
pub proof fn lemma_groups_names_distinct(h: Seq<HistoryEntry>, s: int, i: int)
    requires
        0 <= s <= i <= h.len(),
    ensures
        forall|a: int|
            0 <= a < spec_groups(h, s, i).len() ==> name_seq_distinct(
                (#[trigger] spec_groups(h, s, i)[a]).names,
            ),
    decreases i - s,
{
    if i > s {
        lemma_groups_names_distinct(h, s, i - 1);
        let prev = spec_groups(h, s, i - 1);
        let gs = spec_groups(h, s, i);
        let nms = names_of(h[i - 1].skill_names@);
        if prev.len() > 0 && prev.last().day == entry_day(h[i - 1]) {
            assert(name_seq_distinct(prev.last().names));
            lemma_merge_name_seq_distinct(prev.last().names, nms);
            assert forall|a: int| 0 <= a < gs.len() implies name_seq_distinct(
                (#[trigger] gs[a]).names,
            ) by {
                if a < gs.len() - 1 {
                    assert(gs[a] == prev[a]);
                }
            }
        } else {
            lemma_merge_name_seq_distinct(Seq::empty(), nms);
            assert forall|a: int| 0 <= a < gs.len() implies name_seq_distinct(
                (#[trigger] gs[a]).names,
            ) by {
                if a < gs.len() - 1 {
                    assert(gs[a] == prev[a]);
                }
            }
        }
    }
}

/// The index of the first history entry strictly inside the window
/// `(lo, +infinity)`, among the first `i` entries of a time-ordered
/// history: every entry from it on is in the window.
pub open spec fn window_start_from(h: Seq<HistoryEntry>, lo: int, i: int) -> int
    decreases i,
{
    if i <= 0 {
        0
    } else if h[i - 1].completed_at <= lo {
        i
    } else {
        window_start_from(h, lo, i - 1)
    }
}

/// The index just past the last of the first `i` entries with timestamp
/// at or before `hi`: in a time-ordered history, the entries from it on
/// lie beyond the window's upper bound.
pub open spec fn window_end_from(h: Seq<HistoryEntry>, hi: int, i: int) -> int
    decreases i,
{
    if i <= 0 {
        0
    } else if h[i - 1].completed_at <= hi {
        i
    } else {
        window_end_from(h, hi, i - 1)
    }
}

/// The index just past the last entry of the window `(lo, as_of]`.
pub open spec fn lookback_range_end(h: Seq<HistoryEntry>, as_of: int) -> int {
    window_end_from(h, as_of, h.len() as int)
}

/// The index of the first entry of the window `(lo, as_of]`.
pub open spec fn lookback_range_start(h: Seq<HistoryEntry>, lo: int, as_of: int) -> int {
    window_start_from(h, lo, lookback_range_end(h, as_of))
}

/// What a successful lookback over a well-formed history returns: exactly
/// the canonical day grouping of the entries inside the window
/// `(lo, as_of]`.
pub open spec fn lookback_matches(h: Seq<HistoryEntry>, lo: int, as_of: int, r: Seq<
    DaySkills,
>) -> bool {
    view_of_groups(r) == spec_groups(
        h,
        lookback_range_start(h, lo, as_of),
        lookback_range_end(h, as_of),
    )
}

/// The lookback window length, in days, can be turned into a duration of
/// seconds without overflowing the library's time representation.
pub open spec fn lookback_representable(n_days: usize) -> bool {
    n_days as int * (SECS_PER_DAY as int) <= i64::MAX as int
}

/// The window's lower bound: `n_days` days of seconds before `as_of`.
pub open spec fn window_lo(as_of: i64, n_days: usize) -> int {
    as_of as int - n_days as int * (SECS_PER_DAY as int)
}

/// Decides whether a name already occurs in a list of skill names.
pub fn names_contain(v: &Vec<String>, name: &String) -> (b: bool)
    ensures
        b == names_of(v@).contains(name@),
{
    let mut k: usize = 0;
    while k < v.len()
        invariant
            k <= v@.len(),
            forall|t: int| 0 <= t < k ==> #[trigger] v@[t]@ != name@,
        decreases v@.len() - k,
    {
        if v[k] == *name {
            assert(names_of(v@)[k as int] == name@);
            return true;
        }
        k = k + 1;
    }
    proof {
        if names_of(v@).contains(name@) {
            let w = choose|w: int| 0 <= w < names_of(v@).len() && names_of(v@)[w] == name@;
            assert(v@[w]@ == name@);
        }
    }
    false
}

/// Adds to `dst` every name of `src` that it does not already hold, in
/// order.
pub fn merge_names(dst: &mut Vec<String>, src: &Vec<String>)
    ensures
        names_of(final(dst)@) == merge_name_seq(names_of(old(dst)@), names_of(src@)),
{
    let ghost dst0 = names_of(dst@);
    let mut j: usize = 0;
    while j < src.len()
        invariant
            j <= src@.len(),
            names_of(dst@) == merge_name_seq(dst0, names_of(src@).take(j as int)),
        decreases src@.len() - j,
    {
        let ghost dprev = names_of(dst@);
        let contained = names_contain(dst, &src[j]);
        if !contained {
            let nm = src[j].clone();
            dst.push(nm);
            proof {
                assert(names_of(dst@) =~= dprev.push(src@[j as int]@));
            }
        }
        proof {
            lemma_merge_name_seq_snoc(dst0, names_of(src@).take(j as int), src@[j as int]@);
            assert(names_of(src@).take(j as int).push(src@[j as int]@) =~= names_of(src@).take(
                j as int + 1,
            ));
        }
        j = j + 1;
    }
    proof {
        assert(names_of(src@).take(src@.len() as int) =~= names_of(src@));
    }
}

/// Returns, for each calendar day within the half-open window
/// `(as_of - n_days days, as_of]`, the distinct skill names practiced
/// that day, in ascending day order; errs when the window length is not
/// representable as a duration of seconds.
pub fn lookback(h: &Vec<HistoryEntry>, n_days: usize, as_of: i64) -> (r: Result<
    Vec<DaySkills>,
    SchedulerError,
>)
    requires
        history_wf(h@),
        valid_time(as_of),
    ensures
        match r {
            Ok(days) => lookback_representable(n_days) && lookback_matches(
                h@,
                window_lo(as_of, n_days),
                as_of as int,
                days@,
            ),
            Err(e) => e == SchedulerError::InvalidLookback && !lookback_representable(n_days),
        },
{
    if (n_days as u64) > 106751991167300u64 {
        assert(!lookback_representable(n_days));
        return Err(SchedulerError::InvalidLookback);
    }
    assert(lookback_representable(n_days));
    let lo: i64 = as_of - (n_days as i64) * SECS_PER_DAY;
    assert(lo as int == window_lo(as_of, n_days));
    let ghost glo = lo as int;
    let hlen: usize = h.len();

    // Scan backward past any entries beyond the window's upper bound;
    // the history is time-ordered, so they form a suffix.
    let mut e: usize = hlen;
    while e > 0 && h[e - 1].completed_at > as_of
        invariant
            hlen == h@.len(),
            e <= hlen,
            window_end_from(h@, as_of as int, hlen as int) == window_end_from(
                h@,
                as_of as int,
                e as int,
            ),
        decreases e,
    {
        e = e - 1;
    }
    assert(e as int == lookback_range_end(h@, as_of as int));

    // Scan further back to the first in-window entry; everything in
    // front of it is at or below the window's lower bound.
    let mut s: usize = e;
    while s > 0 && h[s - 1].completed_at > lo
        invariant
            hlen == h@.len(),
            s <= e <= hlen,
            glo == lo,
            window_start_from(h@, glo, e as int) == window_start_from(h@, glo, s as int),
        decreases s,
    {
        s = s - 1;
    }
    assert(s as int == lookback_range_start(h@, glo, as_of as int));

    // Group the in-window suffix by calendar day, merging each entry's
    // names into its day's group; equal days are adjacent because the
    // history is time-ordered.
    let mut days: Vec<DaySkills> = Vec::new();
    let mut i: usize = s;
    assert(view_of_groups(days@) =~= spec_groups(h@, s as int, s as int));
    while i < e
        invariant
            history_wf(h@),
            hlen == h@.len(),
            s <= i <= e <= hlen,
            view_of_groups(days@) == spec_groups(h@, s as int, i as int),
        decreases e - i,
    {
        let ghost r_old = days@;
        let ghost prev = spec_groups(h@, s as int, i as int);
        assert(valid_time(h@[i as int].completed_at));
        let day_i: i64 = h[i].completed_at / SECS_PER_DAY;
        assert(day_i == entry_day(h@[i as int]));
        let is_new_day: bool = if days.len() == 0 {
            true
        } else {
            days[days.len() - 1].day != day_i
        };
        proof {
            assert(prev.len() == r_old.len());
            if r_old.len() > 0 {
                assert(prev.last() == view_of_groups(r_old)[r_old.len() - 1]);
                assert(prev.last().day == r_old[r_old.len() - 1].day as int);
            }
        }
        if is_new_day {
            let mut names: Vec<String> = Vec::new();
            assert(names_of(names@) =~= Seq::<Seq<char>>::empty());
            merge_names(&mut names, &h[i].skill_names);
            let grp_new = DaySkills { day: day_i, skill_names: names };
            let ghost gsnap = grp_new;
            days.push(grp_new);
            proof {
                assert(days@ == r_old.push(gsnap));
                assert(view_of_groups(days@) =~= prev.push(
                    DayGroupView {
                        day: day_i as int,
                        names: merge_name_seq(
                            Seq::empty(),
                            names_of(h@[i as int].skill_names@),
                        ),
                    },
                ));
            }
        } else {
            assert(days@.len() > 0);
            let mut grp = days.pop().unwrap();
            assert(grp.day == day_i);
            let ghost gnames0 = names_of(grp.skill_names@);
            proof {
                assert(gnames0 == prev.last().names);
            }
            merge_names(&mut grp.skill_names, &h[i].skill_names);
            let ghost gsnap = grp;
            days.push(grp);
            proof {
                assert(days@ == r_old.subrange(0, r_old.len() - 1).push(gsnap));
                assert(view_of_groups(days@) =~= prev.update(
                    prev.len() - 1,
                    DayGroupView {
                        day: day_i as int,
                        names: merge_name_seq(
                            prev.last().names,
                            names_of(h@[i as int].skill_names@),
                        ),
                    },
                ));
            }
        }
        i = i + 1;
    }
    Ok(days)
}

} // verus!
