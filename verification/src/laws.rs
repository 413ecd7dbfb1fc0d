use vstd::prelude::*;

use crate::dates::{weekday_of, SECS_PER_DAY, SECS_PER_WEEK, SUNDAY_ANCHOR};
use crate::merge::{
    cell_count, cell_matches, covers, day_at, first_day, lemma_cell_count_first_day, opt_count,
    row_matches, total_weeks,
};
use crate::processor::{
    apply_in_window_event, day_secs, empty_calendar, fold_events, resolved_secs, sat_add_i64,
    weeks_between, weight_of, EventModel,
};
use crate::types::{calendar_wf, CalendarModel, CollectionModel, DayModel};

verus! {

/// Calendar coverage: a calendar over a non-empty window `[start, end)` has
/// at least one week; its weeks of seven consecutive days cover the whole
/// window without reaching a full week past `end`, so its last day falls no
/// earlier than the day before `end` and within a week after `end`.
pub proof fn lemma_calendar_coverage(start: int, end: int)
    requires
        start < end,
    ensures
        weeks_between(start, end) >= 1,
        end <= start + weeks_between(start, end) * (SECS_PER_WEEK as int),
        start + (weeks_between(start, end) - 1) * (SECS_PER_WEEK as int) < end,
        day_secs(start, weeks_between(start, end) - 1, 6) >= end - SECS_PER_DAY,
        day_secs(start, weeks_between(start, end) - 1, 6) < end + SECS_PER_WEEK,
{
    let week = SECS_PER_WEEK as int;
    let x = end - start + week - 1;
    vstd::arithmetic::div_mod::lemma_fundamental_div_mod(x, week);
    vstd::arithmetic::div_mod::lemma_mod_bound(x, week);
}

/// Weekday correctness: the day-of-week of an instant is always one of the
/// seven values counted from Sunday, and moving one whole day forward
/// advances it by exactly one, wrapping after Saturday. Together with the
/// Sunday anchor this pins `weekday_of` to the actual civil day-of-week.
pub proof fn lemma_weekday_advances(ts: int)
    ensures
        0 <= weekday_of(ts) < 7,
        weekday_of(ts + SECS_PER_DAY) == if weekday_of(ts) == 6 {
            0int
        } else {
            weekday_of(ts) + 1
        },
{
    let day = SECS_PER_DAY as int;
    let x = ts - SUNDAY_ANCHOR;
    let q = x / day;
    vstd::arithmetic::div_mod::lemma_mod_bound(q, 7);
    vstd::arithmetic::div_mod::lemma_div_plus_one(x, day);
    assert((x + day) / day == q + 1);
    vstd::arithmetic::div_mod::lemma_fundamental_div_mod(q, 7);
    let a = q / 7;
    let b = q % 7;
    if b == 6 {
        assert(q + 1 == 7 * (a + 1) + 0);
        vstd::arithmetic::div_mod::lemma_fundamental_div_mod_converse_mod(q + 1, 7, a + 1, 0);
    } else {
        assert(q + 1 == 7 * a + (b + 1));
        vstd::arithmetic::div_mod::lemma_fundamental_div_mod_converse_mod(q + 1, 7, a, b + 1);
    }
}

/// Fold out-of-window no-op: an event whose resolved instant falls before
/// `start` or at or after `end` leaves the calendar and the running maximum
/// exactly as folding the remaining events alone would.
pub proof fn lemma_fold_out_of_window_noop(
    e: EventModel,
    rest: Seq<EventModel>,
    cal: CalendarModel,
    max_count: int,
    start: int,
    end: int,
)
    requires
        resolved_secs(e) matches Some(t) && !(start <= t < end),
    ensures
        fold_events(seq![e] + rest, cal, max_count, start, end) == fold_events(
            rest,
            cal,
            max_count,
            start,
            end,
        ),
{
    let s = seq![e] + rest;
    assert(s[0] == e);
    assert(s.drop_first() =~= rest);
}

/// Merge tolerates absence: merging only absent providers yields a grid with
/// no weeks and no populated cell.
pub proof fn lemma_merge_all_absent(cs: Seq<Option<CollectionModel>>, d: int, w: int)
    requires
        forall|k: int| 0 <= k < cs.len() ==> (#[trigger] cs[k]) is None,
    ensures
        total_weeks(cs) == 0,
        cell_count(cs, d, w) is None,
    decreases cs.len(),
{
    if cs.len() > 0 {
        assert(forall|k: int| 0 <= k < cs.len() - 1 ==> cs.drop_last()[k] == cs[k]);
        lemma_merge_all_absent(cs.drop_last(), d, w);
    }
}

/// Merge of a single present provider: the merged grid is that provider's
/// calendar reshaped into row-major form — its width is the provider's week
/// count, each covered cell holds exactly the provider's day (count, date and
/// position alike), and no other cell is populated.
pub proof fn lemma_merge_single(
    cs: Seq<Option<CollectionModel>>,
    j: int,
    c: CollectionModel,
    d: int,
    w: int,
)
    requires
        0 <= j < cs.len(),
        cs[j] == Some(c),
        forall|k: int| 0 <= k < cs.len() && k != j ==> (#[trigger] cs[k]) is None,
    ensures
        total_weeks(cs) == c.contributions.len(),
        0 <= w < c.contributions.len() ==> cell_count(cs, d, w) == Some(
            c.contributions[w].1[d].contribution_count,
        ) && first_day(cs, d, w) == Some(c.contributions[w].1[d]),
        !(0 <= w < c.contributions.len()) ==> cell_count(cs, d, w) is None,
    decreases cs.len(),
{
    if j == cs.len() - 1 {
        assert(forall|k: int| 0 <= k < cs.len() - 1 ==> cs.drop_last()[k] == cs[k]);
        lemma_merge_all_absent(cs.drop_last(), d, w);
        lemma_cell_count_first_day(cs.drop_last(), d, w);
    } else {
        assert(cs.last() is None);
        assert(forall|k: int| 0 <= k < cs.len() - 1 ==> cs.drop_last()[k] == cs[k]);
        lemma_merge_single(cs.drop_last(), j, c, d, w);
    }
}

/// Every day count in a calendar is zero.
pub open spec fn calendar_zeroed(cal: CalendarModel) -> bool {
    forall|w: int, i: int|
        0 <= w < cal.len() && 0 <= i < cal[w].1.len()
            ==> (#[trigger] cal[w].1[i]).contribution_count == 0
}

/// The largest day count in one week.
pub open spec fn week_cells_max(days: Seq<DayModel>) -> int
    decreases days.len(),
{
    if days.len() == 0 {
        0
    } else {
        let rest = week_cells_max(days.drop_last());
        if days.last().contribution_count > rest {
            days.last().contribution_count
        } else {
            rest
        }
    }
}

/// The largest day count anywhere in a calendar.
pub open spec fn calendar_max(cal: CalendarModel) -> int
    decreases cal.len(),
{
    if cal.len() == 0 {
        0
    } else {
        let rest = calendar_max(cal.drop_last());
        if week_cells_max(cal.last().1) > rest {
            week_cells_max(cal.last().1)
        } else {
            rest
        }
    }
}

proof fn lemma_week_max_zero(days: Seq<DayModel>)
    requires
        forall|i: int| 0 <= i < days.len() ==> (#[trigger] days[i]).contribution_count == 0,
    ensures
        week_cells_max(days) == 0,
    decreases days.len(),
{
    if days.len() > 0 {
        lemma_week_max_zero(days.drop_last());
    }
}

proof fn lemma_week_max_single(days: Seq<DayModel>, i: int, day: DayModel)
    requires
        forall|jj: int| 0 <= jj < days.len() ==> (#[trigger] days[jj]).contribution_count == 0,
        0 <= i < days.len(),
        day.contribution_count >= 0,
    ensures
        week_cells_max(days.update(i, day)) == day.contribution_count,
    decreases days.len(),
{
    let d2 = days.update(i, day);
    if i == days.len() - 1 {
        assert(d2.drop_last() =~= days.drop_last());
        lemma_week_max_zero(days.drop_last());
    } else {
        assert(d2.drop_last() =~= days.drop_last().update(i, day));
        assert(d2.last() == days.last());
        lemma_week_max_single(days.drop_last(), i, day);
    }
}

proof fn lemma_calendar_max_single(cal: CalendarModel, wk: int, pair: (int, Seq<DayModel>))
    requires
        calendar_zeroed(cal),
        0 <= wk < cal.len(),
        week_cells_max(pair.1) >= 0,
    ensures
        calendar_max(cal.update(wk, pair)) == week_cells_max(pair.1),
    decreases cal.len(),
{
    let c2 = cal.update(wk, pair);
    if wk == cal.len() - 1 {
        assert(c2.drop_last() =~= cal.drop_last());
        assert(calendar_max(cal.drop_last()) == 0) by {
            lemma_calendar_max_zeroed(cal.drop_last());
        }
    } else {
        assert(c2.drop_last() =~= cal.drop_last().update(wk, pair));
        assert(c2.last() == cal.last());
        lemma_calendar_max_single(cal.drop_last(), wk, pair);
        lemma_week_max_zero(cal.last().1);
    }
}

proof fn lemma_calendar_max_zeroed(cal: CalendarModel)
    requires
        calendar_zeroed(cal),
    ensures
        calendar_max(cal) == 0,
    decreases cal.len(),
{
    if cal.len() > 0 {
        lemma_calendar_max_zeroed(cal.drop_last());
        lemma_week_max_zero(cal.last().1);
    }
}

/// Fold accumulation: folding two in-window events that land on the same
/// calendar day of an all-zero calendar sums their weights into that one
/// cell, and the returned maximum is that sum — which is also the true
/// largest count anywhere in the folded calendar.
pub proof fn lemma_fold_accumulates_same_day(
    e1: EventModel,
    e2: EventModel,
    t1: int,
    t2: int,
    cal: CalendarModel,
    start: int,
    end: int,
)
    requires
        forall|w: int| 0 <= w < cal.len() ==> (#[trigger] cal[w]).1.len() == 7,
        calendar_zeroed(cal),
        resolved_secs(e1) == Some(t1),
        resolved_secs(e2) == Some(t2),
        start <= t1 < end,
        start <= t2 < end,
        (t1 - start) / (SECS_PER_DAY as int) == (t2 - start) / (SECS_PER_DAY as int),
        ((t1 - start) / (SECS_PER_DAY as int)) / 7 < cal.len(),
        0 <= weight_of(e1),
        0 <= weight_of(e2),
        weight_of(e1) + weight_of(e2) <= i64::MAX,
    ensures
        ({
            let ds = (t1 - start) / (SECS_PER_DAY as int);
            let wk = ds / 7;
            let dy = ds % 7;
            let r = fold_events(seq![e1, e2], cal, 0, start, end);
            r matches Some(p) && p.0[wk].1[dy].contribution_count == weight_of(e1) + weight_of(e2)
                && p.1 == weight_of(e1) + weight_of(e2) && p.1 == calendar_max(p.0)
        }),
{
    let day = SECS_PER_DAY as int;
    let ds = (t1 - start) / day;
    let wk = ds / 7;
    let dy = ds % 7;
    let w1 = weight_of(e1);
    let w2 = weight_of(e2);
    assert(ds >= 0) by {
        vstd::arithmetic::div_mod::lemma_div_is_ordered(0, t1 - start, day);
    }
    assert(wk >= 0) by {
        vstd::arithmetic::div_mod::lemma_div_is_ordered(0, ds, 7);
    }
    vstd::arithmetic::div_mod::lemma_mod_bound(ds, 7);

    let s = seq![e1, e2];
    assert(s[0] == e1);
    let st1 = apply_in_window_event(cal, 0, start, t1, w1);
    let cal1 = st1.0;
    let day1 = cal1[wk].1[dy];
    assert(day1.contribution_count == w1);
    assert(st1.1 == w1);
    assert(s.drop_first() =~= seq![e2]);
    assert(seq![e2][0] == e2);
    let st2 = apply_in_window_event(cal1, w1, start, t2, w2);
    let cal2 = st2.0;
    assert(cal1.len() == cal.len() && cal1[wk].1.len() == 7);
    assert(cal2[wk].1[dy].contribution_count == w1 + w2);
    assert(st2.1 == w1 + w2);
    assert(seq![e2].drop_first() =~= Seq::<EventModel>::empty());
    assert(fold_events(s, cal, 0, start, end) == fold_events(seq![e2], cal1, st1.1, start, end));
    assert(fold_events(seq![e2], cal1, w1, start, end) == fold_events(
        Seq::<EventModel>::empty(),
        cal2,
        st2.1,
        start,
        end,
    ));
    assert(fold_events(Seq::<EventModel>::empty(), cal2, w1 + w2, start, end) == Some(
        (cal2, w1 + w2),
    ));
    assert(fold_events(s, cal, 0, start, end) == Some((cal2, w1 + w2)));

    let final_week = cal[wk].1.update(dy, cal2[wk].1[dy]);
    assert(cal2 =~~= cal.update(wk, (cal[wk].0, final_week)));
    lemma_week_max_single(cal[wk].1, dy, cal2[wk].1[dy]);
    lemma_calendar_max_single(cal, wk, (cal[wk].0, final_week));
    assert(calendar_max(cal.update(wk, (cal[wk].0, final_week))) == w1 + w2);
}

/// A freshly initialized calendar is well-formed and all-zero: its weeks are
/// numbered by position with seven days each, and every count is zero.
pub proof fn lemma_empty_calendar_wf(start: int, end: int)
    ensures
        calendar_wf(empty_calendar(start, end)),
        calendar_zeroed(empty_calendar(start, end)),
{
}

proof fn lemma_week_max_nonneg(days: Seq<DayModel>)
    ensures
        week_cells_max(days) >= 0,
    decreases days.len(),
{
    if days.len() > 0 {
        lemma_week_max_nonneg(days.drop_last());
    }
}

proof fn lemma_calendar_max_nonneg(cal: CalendarModel)
    ensures
        calendar_max(cal) >= 0,
    decreases cal.len(),
{
    if cal.len() > 0 {
        lemma_calendar_max_nonneg(cal.drop_last());
        lemma_week_max_nonneg(cal.last().1);
    }
}

proof fn lemma_week_max_update(days: Seq<DayModel>, i: int, day: DayModel)
    requires
        0 <= i < days.len(),
        day.contribution_count >= days[i].contribution_count,
        day.contribution_count >= 0,
    ensures
        week_cells_max(days.update(i, day)) == if day.contribution_count > week_cells_max(days) {
            day.contribution_count
        } else {
            week_cells_max(days)
        },
    decreases days.len(),
{
    let d2 = days.update(i, day);
    if i == days.len() - 1 {
        assert(d2.drop_last() =~= days.drop_last());
        assert(d2.last() == day);
        lemma_week_max_nonneg(days.drop_last());
    } else {
        assert(d2.drop_last() =~= days.drop_last().update(i, day));
        assert(d2.last() == days.last());
        lemma_week_max_update(days.drop_last(), i, day);
    }
}

proof fn lemma_calendar_max_update(cal: CalendarModel, wk: int, pair: (int, Seq<DayModel>), v: int)
    requires
        0 <= wk < cal.len(),
        v >= 0,
        week_cells_max(pair.1) == if v > week_cells_max(cal[wk].1) {
            v
        } else {
            week_cells_max(cal[wk].1)
        },
    ensures
        calendar_max(cal.update(wk, pair)) == if v > calendar_max(cal) {
            v
        } else {
            calendar_max(cal)
        },
    decreases cal.len(),
{
    let c2 = cal.update(wk, pair);
    if wk == cal.len() - 1 {
        assert(c2.drop_last() =~= cal.drop_last());
        assert(c2.last() == pair);
        lemma_calendar_max_nonneg(cal.drop_last());
        lemma_week_max_nonneg(cal[wk].1);
    } else {
        assert(c2.drop_last() =~= cal.drop_last().update(wk, pair));
        assert(c2.last() == cal.last());
        lemma_calendar_max_update(cal.drop_last(), wk, pair, v);
        lemma_week_max_nonneg(cal.last().1);
    }
}

/// A calendar's weeks all hold seven days whose counts are non-negative and
/// fit the machine integer the cells carry.
pub open spec fn calendar_shaped(cal: CalendarModel) -> bool {
    &&& forall|w: int| 0 <= w < cal.len() ==> (#[trigger] cal[w]).1.len() == 7
    &&& forall|w: int, i: int|
        0 <= w < cal.len() && 0 <= i < 7
            ==> 0 <= (#[trigger] cal[w].1[i]).contribution_count <= i64::MAX
}

/// Fold accumulation, in full: folding any events with non-negative weights
/// keeps every count non-negative, and whenever the running maximum entered
/// as the calendar's true largest count, it leaves as the folded calendar's
/// true largest count. In particular a fold that starts from a freshly
/// initialized calendar and zero returns the exact maximum over all cells.
pub proof fn lemma_fold_max_is_calendar_max(
    events: Seq<EventModel>,
    cal: CalendarModel,
    m0: int,
    start: int,
    end: int,
)
    requires
        calendar_shaped(cal),
        forall|j: int| 0 <= j < events.len() ==> weight_of(#[trigger] events[j]) >= 0,
        m0 == calendar_max(cal),
    ensures
        fold_events(events, cal, m0, start, end) matches Some(p) ==> p.1 == calendar_max(p.0)
            && calendar_shaped(p.0) && p.0.len() == cal.len(),
    decreases events.len(),
{
    if events.len() > 0 {
        match resolved_secs(events[0]) {
            None => {},
            Some(t) => {
                let rest = events.drop_first();
                assert(forall|j: int| 0 <= j < rest.len()
                    ==> weight_of(#[trigger] rest[j]) >= 0) by {
                    assert(forall|j: int| 0 <= j < rest.len() ==> rest[j] == events[j + 1]);
                }
                if start <= t < end {
                    let s2 = apply_in_window_event(cal, m0, start, t, weight_of(events[0]));
                    let ds = (t - start) / (SECS_PER_DAY as int);
                    let wk = ds / 7;
                    let dy = ds % 7;
                    if wk < cal.len() && dy < cal[wk].1.len() {
                        vstd::arithmetic::div_mod::lemma_div_is_ordered(0, t - start, SECS_PER_DAY as int);
                        vstd::arithmetic::div_mod::lemma_div_is_ordered(0, ds, 7);
                        vstd::arithmetic::div_mod::lemma_mod_bound(ds, 7);
                        let old_day = cal[wk].1[dy];
                        let newc = sat_add_i64(old_day.contribution_count, weight_of(events[0]));
                        assert(newc >= old_day.contribution_count && newc >= 0);
                        let new_day = DayModel {
                            contribution_count: newc,
                            date: old_day.date,
                            weeknumber: old_day.weeknumber,
                            weekday: old_day.weekday,
                        };
                        let new_week = cal[wk].1.update(dy, new_day);
                        lemma_week_max_update(cal[wk].1, dy, new_day);
                        lemma_calendar_max_update(cal, wk, (cal[wk].0, new_week), newc);
                        assert(calendar_shaped(s2.0));
                        assert(s2.1 == calendar_max(s2.0));
                        lemma_fold_max_is_calendar_max(rest, s2.0, s2.1, start, end);
                    } else {
                        lemma_fold_max_is_calendar_max(rest, cal, m0, start, end);
                    }
                } else {
                    lemma_fold_max_is_calendar_max(rest, cal, m0, start, end);
                }
            },
        }
    }
}

/// Folding touches nothing but counts: the folded calendar has the same
/// weeks, the same week numbers, and in every cell the same date, week number
/// and weekday as the calendar it started from.
pub proof fn lemma_fold_keeps_structure(
    events: Seq<EventModel>,
    cal: CalendarModel,
    m0: int,
    start: int,
    end: int,
)
    ensures
        fold_events(events, cal, m0, start, end) matches Some(p) ==> p.0.len() == cal.len()
            && (forall|w: int| 0 <= w < cal.len() ==> (#[trigger] p.0[w]).0 == cal[w].0
                && p.0[w].1.len() == cal[w].1.len())
            && (forall|w: int, i: int|
                0 <= w < cal.len() && 0 <= i < cal[w].1.len() ==> (#[trigger] p.0[w].1[i]).date
                    == cal[w].1[i].date && p.0[w].1[i].weeknumber == cal[w].1[i].weeknumber
                    && p.0[w].1[i].weekday == cal[w].1[i].weekday),
    decreases events.len(),
{
    if events.len() > 0 {
        match resolved_secs(events[0]) {
            None => {},
            Some(t) => {
                let rest = events.drop_first();
                if start <= t < end {
                    let s2 = apply_in_window_event(cal, m0, start, t, weight_of(events[0]));
                    lemma_fold_keeps_structure(rest, s2.0, s2.1, start, end);
                } else {
                    lemma_fold_keeps_structure(rest, cal, m0, start, end);
                }
            },
        }
    }
}

/// A provider collection that came out of a fold over a freshly initialized
/// calendar — with non-negative event weights — is a well-formed merge input.
pub proof fn lemma_folded_collection_wf(
    events: Seq<EventModel>,
    start: int,
    end: int,
    cal: CalendarModel,
)
    requires
        forall|j: int| 0 <= j < events.len() ==> weight_of(#[trigger] events[j]) >= 0,
        fold_events(events, empty_calendar(start, end), 0, start, end) matches Some(p) && p.0
            == cal,
    ensures
        calendar_wf(cal),
{
    let e0 = empty_calendar(start, end);
    lemma_empty_calendar_wf(start, end);
    lemma_calendar_max_zeroed(e0);
    lemma_fold_max_is_calendar_max(events, e0, 0, start, end);
    lemma_fold_keeps_structure(events, e0, 0, start, end);
}

/// Sum of the day counts of a week's first `n` days.
pub open spec fn week_total_upto(days: Seq<DayModel>, n: int) -> int
    decreases n,
{
    if n <= 0 {
        0
    } else {
        week_total_upto(days, n - 1) + days[n - 1].contribution_count
    }
}

/// Sum of all day counts in a calendar's first `n` weeks of seven days.
pub open spec fn calendar_total_upto(cal: CalendarModel, n: int) -> int
    decreases n,
{
    if n <= 0 {
        0
    } else {
        calendar_total_upto(cal, n - 1) + week_total_upto(cal[n - 1].1, 7)
    }
}

/// Sum of all day counts in a calendar.
pub open spec fn calendar_total(cal: CalendarModel) -> int {
    calendar_total_upto(cal, cal.len() as int)
}

/// Sum of the populated cells among a grid row's first `n` columns.
pub open spec fn row_total_upto(row: Seq<Option<DayModel>>, n: int) -> int
    decreases n,
{
    if n <= 0 {
        0
    } else {
        row_total_upto(row, n - 1) + opt_count(row[n - 1])
    }
}

/// Sum of all populated cells among a grid's first `m` rows.
pub open spec fn grid_total_upto(g: Seq<Seq<Option<DayModel>>>, m: int) -> int
    decreases m,
{
    if m <= 0 {
        0
    } else {
        grid_total_upto(g, m - 1) + row_total_upto(g[m - 1], g[m - 1].len() as int)
    }
}

/// Sum of all populated cells in a merged grid.
pub open spec fn grid_total(g: Seq<Seq<Option<DayModel>>>) -> int {
    grid_total_upto(g, g.len() as int)
}

/// The count a collection brings to cell (weekday `d`, week `w`): zero when
/// it does not cover the week.
pub open spec fn contrib_at(c: CollectionModel, d: int, w: int) -> int {
    if 0 <= w < c.contributions.len() {
        c.contributions[w].1[d].contribution_count
    } else {
        0
    }
}

/// Sum of the counts one collection brings to weekday `d` over the first `n`
/// weeks.
pub open spec fn cal_row_total_upto(c: CollectionModel, d: int, n: int) -> int
    decreases n,
{
    if n <= 0 {
        0
    } else {
        cal_row_total_upto(c, d, n - 1) + contrib_at(c, d, n - 1)
    }
}

/// Sum of the counts one collection brings to the first `m` weekdays over the
/// first `n` weeks.
pub open spec fn cal_day_major_upto(c: CollectionModel, m: int, n: int) -> int
    decreases m,
{
    if m <= 0 {
        0
    } else {
        cal_day_major_upto(c, m - 1, n) + cal_row_total_upto(c, m - 1, n)
    }
}

proof fn lemma_cal_row_total_stable(c: CollectionModel, d: int, n: int)
    requires
        n >= c.contributions.len(),
    ensures
        cal_row_total_upto(c, d, n) == cal_row_total_upto(c, d, c.contributions.len() as int),
    decreases n,
{
    if n > c.contributions.len() {
        lemma_cal_row_total_stable(c, d, n - 1);
    }
}

proof fn lemma_cal_day_major_stable(c: CollectionModel, m: int, n: int)
    requires
        n >= c.contributions.len(),
    ensures
        cal_day_major_upto(c, m, n) == cal_day_major_upto(
            c,
            m,
            c.contributions.len() as int,
        ),
    decreases m,
{
    if m > 0 {
        lemma_cal_day_major_stable(c, m - 1, n);
        lemma_cal_row_total_stable(c, m - 1, n);
    }
}

proof fn lemma_cal_day_major_step(c: CollectionModel, m: int, n: int)
    requires
        calendar_wf(c.contributions),
        0 < n <= c.contributions.len(),
        0 <= m <= 7,
    ensures
        cal_day_major_upto(c, m, n) == cal_day_major_upto(c, m, n - 1) + week_total_upto(
            c.contributions[n - 1].1,
            m,
        ),
    decreases m,
{
    if m > 0 {
        lemma_cal_day_major_step(c, m - 1, n);
        assert(contrib_at(c, m - 1, n - 1) == c.contributions[n - 1].1[m - 1].contribution_count);
    }
}

proof fn lemma_cal_day_major_zero(c: CollectionModel, m: int)
    ensures
        cal_day_major_upto(c, m, 0) == 0,
    decreases m,
{
    if m > 0 {
        lemma_cal_day_major_zero(c, m - 1);
    }
}

proof fn lemma_sum_exchange(c: CollectionModel, n: int)
    requires
        calendar_wf(c.contributions),
        0 <= n <= c.contributions.len(),
    ensures
        calendar_total_upto(c.contributions, n) == cal_day_major_upto(c, 7, n),
    decreases n,
{
    if n > 0 {
        lemma_sum_exchange(c, n - 1);
        lemma_cal_day_major_step(c, 7, n);
    } else {
        lemma_cal_day_major_zero(c, 7);
    }
}

/// The merged count of one cell when exactly the providers A and B are
/// present, by which of them cover the cell's week.
proof fn lemma_cell_count_two(a: CollectionModel, b: CollectionModel, d: int, w: int)
    ensures
        covers(Some(a), w) && covers(Some(b), w) ==> cell_count(seq![Some(a), Some(b)], d, w)
            == Some(sat_add_i64(contrib_at(a, d, w), contrib_at(b, d, w))),
        covers(Some(a), w) && !covers(Some(b), w) ==> cell_count(seq![Some(a), Some(b)], d, w)
            == Some(contrib_at(a, d, w)),
        !covers(Some(a), w) && covers(Some(b), w) ==> cell_count(seq![Some(a), Some(b)], d, w)
            == Some(contrib_at(b, d, w)),
        !covers(Some(a), w) && !covers(Some(b), w) ==> cell_count(
            seq![Some(a), Some(b)],
            d,
            w,
        ) is None,
{
    let cs = seq![Some(a), Some(b)];
    assert(cs.last() == Some(b));
    assert(cs.drop_last() =~= seq![Some(a)]);
    assert(seq![Some(a)].last() == Some(a));
    assert(seq![Some(a)].drop_last() =~= Seq::<Option<CollectionModel>>::empty());
    assert(cell_count(Seq::<Option<CollectionModel>>::empty(), d, w) is None);
    assert(cell_count(seq![Some(a)], d, w) == (if covers(Some(a), w) {
        Some(day_at(Some(a), d, w).contribution_count)
    } else {
        None::<int>
    }));
}

proof fn lemma_row_total_split(
    a: CollectionModel,
    b: CollectionModel,
    row: Seq<Option<DayModel>>,
    d: int,
    n: int,
)
    requires
        calendar_wf(a.contributions),
        calendar_wf(b.contributions),
        0 <= d < 7,
        forall|w: int|
            0 <= w < a.contributions.len() && w < b.contributions.len() ==> contrib_at(a, d, w)
                + #[trigger] contrib_at(b, d, w) <= i64::MAX,
        forall|w: int| 0 <= w < row.len() ==> cell_matches(
            seq![Some(a), Some(b)],
            #[trigger] row[w],
            d,
            w,
        ),
        0 <= n <= row.len(),
    ensures
        row_total_upto(row, n) == cal_row_total_upto(a, d, n) + cal_row_total_upto(b, d, n),
    decreases n,
{
    let cs = seq![Some(a), Some(b)];
    if n > 0 {
        lemma_row_total_split(a, b, row, d, n - 1);
        let w = n - 1;
        assert(cell_matches(cs, row[w], d, w));
        lemma_cell_count_two(a, b, d, w);
        if covers(Some(a), w) && covers(Some(b), w) {
            assert(a.contributions[w].1[d].contribution_count >= 0);
            assert(b.contributions[w].1[d].contribution_count >= 0);
            assert(sat_add_i64(contrib_at(a, d, w), contrib_at(b, d, w)) == contrib_at(a, d, w)
                + contrib_at(b, d, w));
            assert(opt_count(row[w]) == contrib_at(a, d, w) + contrib_at(b, d, w));
        } else if covers(Some(a), w) {
            assert(opt_count(row[w]) == contrib_at(a, d, w));
        } else if covers(Some(b), w) {
            assert(opt_count(row[w]) == contrib_at(b, d, w));
        } else {
            assert(cell_count(cs, d, w) is None);
            assert(opt_count(row[w]) == 0);
        }
    }
}

/// Merge preserves the total count: merging providers A and B and summing
/// every populated cell of the merged grid gives exactly A's total plus B's
/// total — nothing is double-counted and nothing is lost — provided no cell's
/// combined count overflows (saturation would otherwise lose the excess).
pub proof fn lemma_merge_total_two(
    a: CollectionModel,
    b: CollectionModel,
    g: Seq<Seq<Option<DayModel>>>,
)
    requires
        calendar_wf(a.contributions),
        calendar_wf(b.contributions),
        forall|d: int, w: int|
            0 <= d < 7 && 0 <= w < a.contributions.len() && w < b.contributions.len()
                ==> contrib_at(a, d, w) + #[trigger] contrib_at(b, d, w) <= i64::MAX,
        g.len() == 7,
        forall|d: int| 0 <= d < 7 ==> row_matches(seq![Some(a), Some(b)], #[trigger] g[d], d),
    ensures
        grid_total(g) == calendar_total(a.contributions) + calendar_total(b.contributions),
{
    let cs = seq![Some(a), Some(b)];
    let la = a.contributions.len() as int;
    let lb = b.contributions.len() as int;
    assert(cs.last() == Some(b));
    assert(cs.drop_last() =~= seq![Some(a)]);
    assert(seq![Some(a)].last() == Some(a));
    assert(seq![Some(a)].drop_last() =~= Seq::<Option<CollectionModel>>::empty());
    assert(total_weeks(Seq::<Option<CollectionModel>>::empty()) == 0);
    assert(total_weeks(seq![Some(a)]) == la);
    let bigw = total_weeks(cs);
    assert(bigw == if la > lb {
        la
    } else {
        lb
    });
    assert forall|m: int| 0 <= m <= 7 implies grid_total_upto(g, m) == cal_day_major_upto(
        a,
        m,
        bigw,
    ) + cal_day_major_upto(b, m, bigw) by {
        lemma_grid_total_split(a, b, g, m);
    }
    lemma_cal_day_major_stable(a, 7, bigw);
    lemma_cal_day_major_stable(b, 7, bigw);
    lemma_sum_exchange(a, la);
    lemma_sum_exchange(b, lb);
}

proof fn lemma_grid_total_split(
    a: CollectionModel,
    b: CollectionModel,
    g: Seq<Seq<Option<DayModel>>>,
    m: int,
)
    requires
        calendar_wf(a.contributions),
        calendar_wf(b.contributions),
        forall|d: int, w: int|
            0 <= d < 7 && 0 <= w < a.contributions.len() && w < b.contributions.len()
                ==> contrib_at(a, d, w) + #[trigger] contrib_at(b, d, w) <= i64::MAX,
        g.len() == 7,
        forall|d: int| 0 <= d < 7 ==> row_matches(seq![Some(a), Some(b)], #[trigger] g[d], d),
        0 <= m <= 7,
    ensures
        grid_total_upto(g, m) == cal_day_major_upto(a, m, total_weeks(seq![Some(a), Some(b)]))
            + cal_day_major_upto(b, m, total_weeks(seq![Some(a), Some(b)])),
    decreases m,
{
    let cs = seq![Some(a), Some(b)];
    let bigw = total_weeks(cs);
    if m > 0 {
        lemma_grid_total_split(a, b, g, m - 1);
        let d = m - 1;
        assert(row_matches(cs, g[d], d));
        assert(g[d].len() == bigw);
        lemma_row_total_split(a, b, g[d], d, bigw);
    }
}

} // verus!
