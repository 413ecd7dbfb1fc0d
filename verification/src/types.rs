use vstd::prelude::*;

verus! {

/// One cell of the weekly calendar grid: the accumulated contribution count
/// for a single calendar day, together with the day's date (as `YYYY-MM-DD`),
/// its 0-based week number relative to the calendar's start date, and its
/// weekday (0 = Sunday .. 6 = Saturday).
#[derive(Debug, Clone)]
pub struct ContributionDay {
    pub contribution_count: i64,
    pub date: String,
    pub weeknumber: i64,
    pub weekday: i64,
}

/// The mathematical value of a `ContributionDay`.
pub ghost struct DayModel {
    pub contribution_count: int,
    pub date: Seq<char>,
    pub weeknumber: int,
    pub weekday: int,
}

impl View for ContributionDay {
    type V = DayModel;

    open spec fn view(&self) -> DayModel {
        DayModel {
            contribution_count: self.contribution_count as int,
            date: self.date@,
            weeknumber: self.weeknumber as int,
            weekday: self.weekday as int,
        }
    }
}

/// The mathematical value of a weekly calendar: a sequence of
/// (week number, seven days) pairs.
pub type CalendarModel = Seq<(int, Seq<DayModel>)>;

/// The mathematical value of one `(week number, days)` entry.
pub open spec fn week_model(w: (i64, Vec<ContributionDay>)) -> (int, Seq<DayModel>) {
    (w.0 as int, w.1@.map_values(|d: ContributionDay| d@))
}

/// The mathematical value of a whole weekly calendar.
pub open spec fn calendar_model(c: Seq<(i64, Vec<ContributionDay>)>) -> CalendarModel {
    c.map_values(|w: (i64, Vec<ContributionDay>)| week_model(w))
}

/// A well-formed weekly calendar: weeks are numbered by their position, every
/// week holds exactly seven days, and no day's count is negative.
pub open spec fn calendar_wf(cal: CalendarModel) -> bool {
    &&& forall|w: int| 0 <= w < cal.len() ==> (#[trigger] cal[w]).0 == w && cal[w].1.len() == 7
    &&& forall|w: int, i: int|
        0 <= w < cal.len() && 0 <= i < 7
            ==> (#[trigger] cal[w].1[i]).contribution_count >= 0
}

/// One provider's completed pipeline result: the provider's name, its filled
/// weekly calendar, and the largest single-day count seen while folding.
#[derive(Debug)]
pub struct ContributionCollection {
    pub provider: String,
    pub contributions: Vec<(i64, Vec<ContributionDay>)>,
    pub max_contributions: i64,
}

/// The mathematical value of a `ContributionCollection`.
pub ghost struct CollectionModel {
    pub provider: Seq<char>,
    pub contributions: CalendarModel,
    pub max_contributions: int,
}

impl View for ContributionCollection {
    type V = CollectionModel;

    open spec fn view(&self) -> CollectionModel {
        CollectionModel {
            provider: self.provider@,
            contributions: calendar_model(self.contributions@),
            max_contributions: self.max_contributions as int,
        }
    }
}

} // verus!
