use vstd::prelude::*;

use crate::processor::{sat_add, sat_add_i64};
use crate::types::{
    calendar_wf, week_model, CollectionModel, ContributionCollection, ContributionDay, DayModel,
};

verus! {

/// The mathematical value of one optional provider result.
pub open spec fn opt_collection_model(o: Option<ContributionCollection>) -> Option<CollectionModel> {
    match o {
        Some(c) => Some(c@),
        None => None,
    }
}

/// The mathematical value of a list of optional provider results.
pub open spec fn collections_model(s: Seq<Option<ContributionCollection>>) -> Seq<
    Option<CollectionModel>,
> {
    s.map_values(|o: Option<ContributionCollection>| opt_collection_model(o))
}

/// The mathematical value of one optional merged-grid cell.
pub open spec fn opt_day_model(o: Option<ContributionDay>) -> Option<DayModel> {
    match o {
        Some(d) => Some(d@),
        None => None,
    }
}

/// The mathematical value of the merged row-major grid.
pub open spec fn grid_model(g: Seq<Vec<Option<ContributionDay>>>) -> Seq<Seq<Option<DayModel>>> {
    g.map_values(|r: Vec<Option<ContributionDay>>| r@.map_values(|o: Option<ContributionDay>| opt_day_model(o)))
}

/// How many weeks a collection contributes; an absent provider contributes
/// none.
pub open spec fn weeks_of(c: Option<CollectionModel>) -> int {
    match c {
        Some(cc) => cc.contributions.len() as int,
        None => 0,
    }
}

/// The merged grid's width: the largest week count any present collection
/// brings.
pub open spec fn total_weeks(cs: Seq<Option<CollectionModel>>) -> int
    decreases cs.len(),
{
    if cs.len() == 0 {
        0
    } else {
        let rest = total_weeks(cs.drop_last());
        if weeks_of(cs.last()) > rest {
            weeks_of(cs.last())
        } else {
            rest
        }
    }
}

/// Whether a collection has data for week `w`.
pub open spec fn covers(c: Option<CollectionModel>, w: int) -> bool {
    match c {
        Some(cc) => 0 <= w < cc.contributions.len(),
        None => false,
    }
}

/// The day a collection holds at weekday `d` of week `w` (meaningful only
/// when the collection covers `w`).
pub open spec fn day_at(c: Option<CollectionModel>, d: int, w: int) -> DayModel {
    match c {
        Some(cc) => cc.contributions[w].1[d],
        None => DayModel { contribution_count: 0, date: Seq::empty(), weeknumber: 0, weekday: 0 },
    }
}

/// The merged count at cell (weekday `d`, week `w`): the counts of every
/// present collection that covers week `w`, summed left to right with
/// saturation, or nothing when no collection covers the week.
pub open spec fn cell_count(cs: Seq<Option<CollectionModel>>, d: int, w: int) -> Option<int>
    decreases cs.len(),
{
    if cs.len() == 0 {
        None
    } else {
        let prev = cell_count(cs.drop_last(), d, w);
        if covers(cs.last(), w) {
            let v = day_at(cs.last(), d, w).contribution_count;
            match prev {
                None => Some(v),
                Some(p) => Some(sat_add_i64(p, v)),
            }
        } else {
            prev
        }
    }
}

/// The day whose date and position fields a merged cell carries: the one from
/// the first present collection that covers the cell's week.
pub open spec fn first_day(cs: Seq<Option<CollectionModel>>, d: int, w: int) -> Option<DayModel>
    decreases cs.len(),
{
    if cs.len() == 0 {
        None
    } else {
        match first_day(cs.drop_last(), d, w) {
            Some(x) => Some(x),
            None => if covers(cs.last(), w) {
                Some(day_at(cs.last(), d, w))
            } else {
                None
            },
        }
    }
}

/// What one merged cell must hold: nothing when no collection covers its
/// week; otherwise the summed count together with the date and position
/// fields of the first collection that covered it.
pub open spec fn cell_matches(
    cs: Seq<Option<CollectionModel>>,
    cell: Option<DayModel>,
    d: int,
    w: int,
) -> bool {
    match cell {
        None => cell_count(cs, d, w) is None,
        Some(day) => {
            &&& cell_count(cs, d, w) == Some(day.contribution_count)
            &&& first_day(cs, d, w) matches Some(f) && day.date == f.date
                && day.weeknumber == f.weeknumber && day.weekday == f.weekday
        },
    }
}

/// What one merged row must hold: one cell per merged week, each as
/// `cell_matches` says.
pub open spec fn row_matches(
    cs: Seq<Option<CollectionModel>>,
    row: Seq<Option<DayModel>>,
    d: int,
) -> bool {
    &&& row.len() == total_weeks(cs)
    &&& forall|w: int| 0 <= w < row.len() ==> cell_matches(cs, #[trigger] row[w], d, w)
}

/// The count a grid cell shows: zero for an empty cell.
pub open spec fn opt_count(cell: Option<DayModel>) -> int {
    match cell {
        Some(day) => day.contribution_count,
        None => 0,
    }
}

/// The largest count in one row of the merged grid (zero for an empty row).
pub open spec fn row_cells_max(row: Seq<Option<DayModel>>) -> int
    decreases row.len(),
{
    if row.len() == 0 {
        0
    } else {
        let rest = row_cells_max(row.drop_last());
        if opt_count(row.last()) > rest {
            opt_count(row.last())
        } else {
            rest
        }
    }
}

/// The largest count anywhere in the merged grid (zero for an empty grid).
pub open spec fn grid_cells_max(g: Seq<Seq<Option<DayModel>>>) -> int
    decreases g.len(),
{
    if g.len() == 0 {
        0
    } else {
        let rest = grid_cells_max(g.drop_last());
        if row_cells_max(g.last()) > rest {
            row_cells_max(g.last())
        } else {
            rest
        }
    }
}

/// A well-formed merge input: every present collection holds a well-formed
/// calendar.
pub open spec fn collections_wf(cs: Seq<Option<CollectionModel>>) -> bool {
    forall|k: int| 0 <= k < cs.len()
        ==> ((#[trigger] cs[k]) matches Some(c) ==> calendar_wf(c.contributions))
}

/// The merged grid's width never goes negative.
pub proof fn lemma_total_weeks_nonneg(cs: Seq<Option<CollectionModel>>)
    ensures
        total_weeks(cs) >= 0,
    decreases cs.len(),
{
    if cs.len() > 0 {
        lemma_total_weeks_nonneg(cs.drop_last());
    }
}

/// Beyond the merged width there is no data for any cell.
pub proof fn lemma_cell_count_none_beyond(cs: Seq<Option<CollectionModel>>, d: int, w: int)
    requires
        w >= total_weeks(cs),
    ensures
        cell_count(cs, d, w) is None,
    decreases cs.len(),
{
    if cs.len() > 0 {
        lemma_cell_count_none_beyond(cs.drop_last(), d, w);
    }
}

/// A cell has a count exactly when some collection covers its week, which is
/// also exactly when it has a first covering day.
pub proof fn lemma_cell_count_first_day(cs: Seq<Option<CollectionModel>>, d: int, w: int)
    ensures
        cell_count(cs, d, w) is Some <==> first_day(cs, d, w) is Some,
    decreases cs.len(),
{
    if cs.len() > 0 {
        lemma_cell_count_first_day(cs.drop_last(), d, w);
    }
}

/// Appending a collection with no weeks (or an absent one) changes no merged
/// quantity.
pub proof fn lemma_push_inert(cs: Seq<Option<CollectionModel>>, oc: Option<CollectionModel>)
    requires
        weeks_of(oc) == 0,
    ensures
        total_weeks(cs.push(oc)) == total_weeks(cs),
        forall|d: int, w: int| #![trigger cell_count(cs.push(oc), d, w)]
            cell_count(cs.push(oc), d, w) == cell_count(cs, d, w),
        forall|d: int, w: int| #![trigger first_day(cs.push(oc), d, w)]
            first_day(cs.push(oc), d, w) == first_day(cs, d, w),
{
    assert(cs.push(oc).drop_last() =~= cs);
    assert(cs.push(oc).last() == oc);
    lemma_total_weeks_nonneg(cs);
}

/// Replacing one cell of a row with a day whose count is at least the cell's
/// old count (and at least zero) raises the row maximum to exactly that count
/// if it exceeds it.
pub proof fn lemma_row_max_update(row: Seq<Option<DayModel>>, w: int, day: DayModel)
    requires
        0 <= w < row.len(),
        day.contribution_count >= opt_count(row[w]),
        day.contribution_count >= 0,
    ensures
        row_cells_max(row.update(w, Some(day))) == if day.contribution_count > row_cells_max(row) {
            day.contribution_count
        } else {
            row_cells_max(row)
        },
    decreases row.len(),
{
    let row2 = row.update(w, Some(day));
    if w == row.len() - 1 {
        assert(row2.drop_last() =~= row.drop_last());
        assert(row2.last() == Some(day));
    } else {
        assert(row2.drop_last() =~= row.drop_last().update(w, Some(day)));
        assert(row2.last() == row.last());
        lemma_row_max_update(row.drop_last(), w, day);
    }
}

/// Extending a row with an empty cell leaves the row maximum unchanged.
pub proof fn lemma_row_max_push_none(row: Seq<Option<DayModel>>)
    ensures
        row_cells_max(row.push(None)) == row_cells_max(row),
        row_cells_max(row) >= 0,
    decreases row.len(),
{
    assert(row.push(None).drop_last() =~= row);
    if row.len() > 0 {
        lemma_row_max_push_none(row.drop_last());
    }
}

/// The row maximum never goes negative.
pub proof fn lemma_row_max_nonneg(row: Seq<Option<DayModel>>)
    ensures
        row_cells_max(row) >= 0,
    decreases row.len(),
{
    if row.len() > 0 {
        lemma_row_max_nonneg(row.drop_last());
    }
}

/// Replacing one row of a grid with a row whose maximum is the old row's
/// maximum possibly raised to `v` raises the grid maximum to exactly `v` if
/// `v` exceeds it.
pub proof fn lemma_grid_max_update(
    g: Seq<Seq<Option<DayModel>>>,
    d: int,
    row: Seq<Option<DayModel>>,
    v: int,
)
    requires
        0 <= d < g.len(),
        v >= 0,
        row_cells_max(row) == if v > row_cells_max(g[d]) {
            v
        } else {
            row_cells_max(g[d])
        },
    ensures
        grid_cells_max(g.update(d, row)) == if v > grid_cells_max(g) {
            v
        } else {
            grid_cells_max(g)
        },
    decreases g.len(),
{
    let g2 = g.update(d, row);
    if d == g.len() - 1 {
        assert(g2.drop_last() =~= g.drop_last());
        assert(g2.last() == row);
        lemma_grid_max_nonneg(g.drop_last());
        lemma_row_max_nonneg(g[d]);
    } else {
        assert(g2.drop_last() =~= g.drop_last().update(d, row));
        assert(g2.last() == g.last());
        lemma_grid_max_update(g.drop_last(), d, row, v);
        lemma_row_max_nonneg(g.last());
    }
}

/// The grid maximum never goes negative.
pub proof fn lemma_grid_max_nonneg(g: Seq<Seq<Option<DayModel>>>)
    ensures
        grid_cells_max(g) >= 0,
    decreases g.len(),
{
    if g.len() > 0 {
        lemma_grid_max_nonneg(g.drop_last());
        lemma_row_max_nonneg(g.last());
    }
}

/// In a well-formed merge input every cell's count is non-negative.
pub proof fn lemma_cell_count_nonneg(cs: Seq<Option<CollectionModel>>, d: int, w: int)
    requires
        collections_wf(cs),
        0 <= d < 7,
    ensures
        cell_count(cs, d, w) matches Some(p) ==> p >= 0,
    decreases cs.len(),
{
    if cs.len() > 0 {
        assert(collections_wf(cs.drop_last())) by {
            assert(forall|j: int| 0 <= j < cs.len() - 1 ==> cs.drop_last()[j] == cs[j]);
        }
        lemma_cell_count_nonneg(cs.drop_last(), d, w);
    }
}

/// A row that matches one merge input also matches another whose width and
/// cells agree with it.
proof fn lemma_row_matches_transfer(
    cs1: Seq<Option<CollectionModel>>,
    cs2: Seq<Option<CollectionModel>>,
    row: Seq<Option<DayModel>>,
    d: int,
)
    requires
        row_matches(cs1, row, d),
        total_weeks(cs2) == total_weeks(cs1),
        forall|w: int| 0 <= w < row.len()
            ==> #[trigger] cell_count(cs2, d, w) == cell_count(cs1, d, w)
                && first_day(cs2, d, w) == first_day(cs1, d, w),
    ensures
        row_matches(cs2, row, d),
{
    assert forall|w: int| 0 <= w < row.len() implies cell_matches(cs2, #[trigger] row[w], d, w) by {
        assert(cell_matches(cs1, row[w], d, w));
    }
}

/// A collection truncated to its first `n` weeks, as the merge sees it after
/// folding in those weeks alone.
pub open spec fn truncated(c: CollectionModel, n: int) -> CollectionModel {
    CollectionModel {
        provider: c.provider,
        contributions: c.contributions.take(n),
        max_contributions: c.max_contributions,
    }
}

/// Combine the optional per-provider calendars into one row-major grid: row
/// `d` holds weekday `d` of every merged week, a cell sums (saturating) the
/// counts every present provider reports for that day, and absent providers
/// are skipped entirely. Returns the grid and the largest count in it.
pub fn process_contributions(collections: Vec<Option<ContributionCollection>>) -> (r: (
    Vec<Vec<Option<ContributionDay>>>,
    i64,
))
    requires
        collections_wf(collections_model(collections@)),
    ensures
        r.0@.len() == 7,
        forall|d: int| 0 <= d < 7
            ==> row_matches(collections_model(collections@), #[trigger] grid_model(r.0@)[d], d),
        r.1 as int == grid_cells_max(grid_model(r.0@)),
{
    let ghost cs = collections_model(collections@);
    let mut rows: Vec<Vec<Option<ContributionDay>>> = Vec::new();
    let mut setup: usize = 0;
    while setup < 7
        invariant
            setup <= 7,
            rows@.len() == setup,
            grid_cells_max(grid_model(rows@)) == 0,
            forall|d: int| 0 <= d < setup ==> (#[trigger] grid_model(rows@)[d]).len() == 0,
        decreases 7 - setup,
    {
        let ghost g0 = grid_model(rows@);
        rows.push(Vec::new());
        proof {
            assert(grid_model(rows@) =~~= g0.push(Seq::empty()));
            assert(g0.push(Seq::empty()).drop_last() =~= g0);
            assert(row_cells_max(Seq::empty()) == 0);
            assert(grid_cells_max(g0.push(Seq::empty())) == 0);
        }
        setup = setup + 1;
    }

    let mut max_contributions: i64 = 0;
    let mut k: usize = 0;

    proof {
        assert(cs.take(0) =~= Seq::<Option<CollectionModel>>::empty());
        assert forall|d: int| 0 <= d < 7 implies row_matches(
            cs.take(0),
            #[trigger] grid_model(rows@)[d],
            d,
        ) by {
            assert(total_weeks(cs.take(0)) == 0);
        }
    }

    while k < collections.len()
        invariant
            cs == collections_model(collections@),
            collections_wf(cs),
            k <= collections@.len(),
            rows@.len() == 7,
            max_contributions as int == grid_cells_max(grid_model(rows@)),
            forall|d: int| 0 <= d < 7
                ==> row_matches(cs.take(k as int), #[trigger] grid_model(rows@)[d], d),
        decreases collections@.len() - k,
    {
        let ghost csk = cs.take(k as int);
        proof {
            assert(cs.take(k as int + 1) =~= csk.push(cs[k as int]));
        }
        match &collections[k] {
            None => {
                proof {
                    assert(cs[k as int] is None);
                    lemma_push_inert(csk, cs[k as int]);
                    assert forall|d: int| 0 <= d < 7 implies row_matches(
                        cs.take(k as int + 1),
                        #[trigger] grid_model(rows@)[d],
                        d,
                    ) by {
                        lemma_row_matches_transfer(
                            csk,
                            csk.push(cs[k as int]),
                            grid_model(rows@)[d],
                            d,
                        );
                    }
                }
                k = k + 1;
            },
            Some(collection) => {
                let ghost cm = collection@;
                proof {
                    assert(cs[k as int] == Some(cm));
                    assert(calendar_wf(cm.contributions));
                    let c0 = truncated(cm, 0);
                    assert(c0.contributions.len() == 0);
                    lemma_push_inert(csk, Some(c0));
                    assert forall|d: int| 0 <= d < 7 implies row_matches(
                        csk.push(Some(truncated(cm, 0))),
                        #[trigger] grid_model(rows@)[d],
                        d,
                    ) by {
                        lemma_row_matches_transfer(
                            csk,
                            csk.push(Some(c0)),
                            grid_model(rows@)[d],
                            d,
                        );
                    }
                }

                let weeks_len: usize = collection.contributions.len();
                let mut wi: usize = 0;
                while wi < weeks_len
                    invariant
                        cs == collections_model(collections@),
                        collections_wf(cs),
                        0 <= k < collections@.len(),
                        csk == cs.take(k as int),
                        collection@ == cm,
                        cs[k as int] == Some(cm),
                        calendar_wf(cm.contributions),
                        weeks_len == cm.contributions.len(),
                        wi <= weeks_len,
                        rows@.len() == 7,
                        max_contributions as int == grid_cells_max(grid_model(rows@)),
                        forall|d: int| 0 <= d < 7
                            ==> row_matches(
                                csk.push(Some(truncated(cm, wi as int))),
                                #[trigger] grid_model(rows@)[d],
                                d,
                            ),
                    decreases weeks_len - wi,
                {
                    let ghost csb = csk.push(Some(truncated(cm, wi as int)));
                    let ghost csa = csk.push(Some(truncated(cm, wi as int + 1)));
                    let weeknumber: i64 = collection.contributions[wi].0;
                    proof {
                        assert(cm.contributions[wi as int]
                            == week_model(collection.contributions@[wi as int]));
                        assert(weeknumber == wi as int);
                        assert(cm.contributions[wi as int].1.len() == 7);
                        lemma_total_weeks_nonneg(csk);
                        assert(csb.drop_last() =~= csk);
                        assert(csa.drop_last() =~= csk);
                        assert(collections_wf(csb)) by {
                            assert(forall|j: int| 0 <= j < csk.len() ==> csb[j] == cs[j]);
                            assert(calendar_wf(truncated(cm, wi as int).contributions));
                        }
                    }
                    let wvn: usize = weeknumber as usize;
                    let mut d: usize = 0;
                    while d < 7
                        invariant
                            cs == collections_model(collections@),
                            collections_wf(cs),
                            0 <= k < collections@.len(),
                            csk == cs.take(k as int),
                            collection@ == cm,
                            cs[k as int] == Some(cm),
                            calendar_wf(cm.contributions),
                            weeks_len == cm.contributions.len(),
                            wi < weeks_len,
                            wvn == wi,
                            csb == csk.push(Some(truncated(cm, wi as int))),
                            csa == csk.push(Some(truncated(cm, wi as int + 1))),
                            collections_wf(csb),
                            d <= 7,
                            rows@.len() == 7,
                            max_contributions as int == grid_cells_max(grid_model(rows@)),
                            forall|dd: int| 0 <= dd < d
                                ==> row_matches(csa, #[trigger] grid_model(rows@)[dd], dd),
                            forall|dd: int| d <= dd < 7
                                ==> row_matches(csb, #[trigger] grid_model(rows@)[dd], dd),
                        decreases 7 - d,
                    {
                        let ghost trb = truncated(cm, wi as int);
                        let ghost tra = truncated(cm, wi as int + 1);
                        proof {
                            lemma_total_weeks_nonneg(csk);
                            assert(csb.drop_last() =~= csk);
                            assert(csa.drop_last() =~= csk);
                            assert(weeks_of(Some(trb)) == wi as int);
                            assert(weeks_of(Some(tra)) == wi + 1);
                            assert(row_matches(csb, grid_model(rows@)[d as int], d as int));
                        }
                        // Grow row `d` with empty cells until week `wvn` has a
                        // column for it.
                        while rows[d].len() <= wvn
                            invariant
                                0 <= d < 7,
                                rows@.len() == 7,
                                wvn == wi,
                                csb == csk.push(Some(truncated(cm, wi as int))),
                                csa == csk.push(Some(truncated(cm, wi as int + 1))),
                                max_contributions as int == grid_cells_max(grid_model(rows@)),
                                total_weeks(csb) <= grid_model(rows@)[d as int].len(),
                                grid_model(rows@)[d as int].len() <= if total_weeks(csb) > wvn + 1 {
                                    total_weeks(csb)
                                } else {
                                    wvn as int + 1
                                },
                                forall|w: int| 0 <= w < grid_model(rows@)[d as int].len()
                                    ==> cell_matches(
                                        csb,
                                        #[trigger] grid_model(rows@)[d as int][w],
                                        d as int,
                                        w,
                                    ),
                                forall|dd: int| 0 <= dd < d
                                    ==> row_matches(csa, #[trigger] grid_model(rows@)[dd], dd),
                                forall|dd: int| d < dd < 7
                                    ==> row_matches(csb, #[trigger] grid_model(rows@)[dd], dd),
                            decreases wvn + 1 - rows@[d as int]@.len(),
                        {
                            let ghost g0 = grid_model(rows@);
                            rows[d].push(None);
                            proof {
                                assert(grid_model(rows@) =~~= g0.update(
                                    d as int,
                                    g0[d as int].push(None),
                                ));
                                lemma_cell_count_none_beyond(
                                    csb,
                                    d as int,
                                    g0[d as int].len() as int,
                                );
                                lemma_row_max_push_none(g0[d as int]);
                                lemma_grid_max_update(g0, d as int, g0[d as int].push(None), 0);
                                lemma_grid_max_nonneg(g0);
                                assert forall|dd: int| 0 <= dd < 7 && dd != d implies
                                    grid_model(rows@)[dd] == g0[dd] by {}
                            }
                        }

                        proof {
                            // The grown row is exactly as wide as the merge of
                            // this collection's first `wi + 1` weeks.
                            assert(total_weeks(csa) == if total_weeks(csk) > wi + 1 {
                                total_weeks(csk)
                            } else {
                                wi + 1
                            });
                            assert(total_weeks(csb) == if total_weeks(csk) > wi as int {
                                total_weeks(csk)
                            } else {
                                wi as int
                            });
                            assert(grid_model(rows@)[d as int].len() == total_weeks(csa));
                        }

                        let ghost gpre = grid_model(rows@);
                        let ghost oldcell = gpre[d as int][wvn as int];
                        proof {
                            assert(cm.contributions[wi as int]
                                == week_model(collection.contributions@[wi as int]));
                            assert(collection.contributions@[wi as int].1@.len() == 7);
                        }
                        let src = &collection.contributions[wi].1[d];
                        proof {
                            assert(cm.contributions[wi as int].1[d as int] == src@);
                            assert(calendar_wf(cm.contributions));
                            assert(src@.contribution_count >= 0);
                            lemma_cell_count_nonneg(csb, d as int, wvn as int);
                        }
                        let updated: ContributionDay = match &rows[d][wvn] {
                            Some(existing) => ContributionDay {
                                contribution_count: sat_add(
                                    existing.contribution_count,
                                    src.contribution_count,
                                ),
                                date: existing.date.clone(),
                                weeknumber: existing.weeknumber,
                                weekday: existing.weekday,
                            },
                            None => ContributionDay {
                                contribution_count: src.contribution_count,
                                date: src.date.clone(),
                                weeknumber: src.weeknumber,
                                weekday: src.weekday,
                            },
                        };
                        let newc: i64 = updated.contribution_count;
                        let ghost newday = updated@;
                        rows[d][wvn] = Some(updated);
                        if newc > max_contributions {
                            max_contributions = newc;
                        }

                        proof {
                            let di = d as int;
                            let wv = wvn as int;
                            assert(grid_model(rows@) =~~= gpre.update(
                                di,
                                gpre[di].update(wv, Some(newday)),
                            ));
                            let v = day_at(Some(tra), di, wv).contribution_count;
                            assert(v == src@.contribution_count);
                            // The spec count of the touched cell.
                            lemma_cell_count_first_day(csk, di, wv);
                            assert(!covers(Some(trb), wv));
                            assert(cell_count(csb, di, wv) == cell_count(csk, di, wv));
                            assert(first_day(csb, di, wv) == first_day(csk, di, wv));
                            assert(covers(Some(tra), wv));
                            match oldcell {
                                None => {
                                    assert(cell_count(csk, di, wv) is None);
                                    assert(cell_count(csa, di, wv) == Some(v));
                                    assert(first_day(csa, di, wv) == Some(day_at(Some(tra), di, wv)));
                                },
                                Some(ex) => {
                                    assert(cell_count(csk, di, wv) == Some(ex.contribution_count));
                                    assert(cell_count(csa, di, wv)
                                        == Some(sat_add_i64(ex.contribution_count, v)));
                                    assert(first_day(csa, di, wv) == first_day(csk, di, wv));
                                    assert(first_day(csk, di, wv) is Some);
                                },
                            }
                            assert(cell_matches(csa, Some(newday), di, wv));
                            // Cells of other weeks are untouched by this week.
                            assert forall|w: int| 0 <= w < gpre[di].len() && w != wv implies
                                #[trigger] cell_count(csa, di, w) == cell_count(csb, di, w)
                                    && first_day(csa, di, w) == first_day(csb, di, w) by {
                                if w < wi as int {
                                    assert(covers(Some(tra), w) && covers(Some(trb), w));
                                    assert(day_at(Some(tra), di, w) == day_at(Some(trb), di, w));
                                } else {
                                    assert(!covers(Some(tra), w) && !covers(Some(trb), w));
                                }
                            }
                            let newrow = gpre[di].update(wv, Some(newday));
                            assert(row_matches(csa, newrow, di)) by {
                                assert forall|w: int| 0 <= w < newrow.len() implies cell_matches(
                                    csa,
                                    #[trigger] newrow[w],
                                    di,
                                    w,
                                ) by {
                                    if w == wv {
                                    } else {
                                        assert(cell_matches(csb, gpre[di][w], di, w));
                                    }
                                }
                            }
                            // The running maximum tracks the grid maximum.
                            assert(newc >= opt_count(oldcell) && newc >= 0) by {
                                match oldcell {
                                    None => {},
                                    Some(ex) => {
                                        assert(ex.contribution_count >= 0);
                                    },
                                }
                            }
                            lemma_row_max_update(gpre[di], wv, newday);
                            lemma_grid_max_update(gpre, di, newrow, newc as int);
                        }
                        d = d + 1;
                    }
                    wi = wi + 1;
                }
                proof {
                    assert(truncated(cm, weeks_len as int) == cm) by {
                        assert(cm.contributions.take(weeks_len as int) =~= cm.contributions);
                    }
                    assert(csk.push(Some(cm)) == cs.take(k as int + 1));
                }
                k = k + 1;
            },
        }
    }
    proof {
        assert(cs.take(collections@.len() as int) =~= cs);
    }
    (rows, max_contributions)
}

} // verus!
