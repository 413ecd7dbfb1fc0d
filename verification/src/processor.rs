use vstd::prelude::*;

use crate::dates::{
    check_unix_timestamp, civil_date_string, format_civil_date, iso_date_secs, parse_iso_date_secs,
    parse_rfc3339_secs, rfc3339_secs, weekday_from_sunday, weekday_of, MAX_TIMESTAMP,
    MIN_TIMESTAMP, SECS_PER_DAY, SECS_PER_WEEK,
};
use crate::errors::ProviderError;
use crate::types::{
    calendar_model, week_model, CalendarModel, ContributionCollection, ContributionDay, DayModel,
};

verus! {

/// A normalized contribution event from any provider: a raw timestamp in the
/// form that provider reports, and a contribution weight. Some providers
/// report seconds since the Unix epoch, some an RFC 3339 instant, and some a
/// bare calendar date that stands for that day's midnight UTC.
pub enum Event {
    Unix { timestamp: i64, contributions: i64 },
    Rfc3339 { created_at: String, contributions: i64 },
    CalendarDate { date: String, contributions: i64 },
}

/// The mathematical value of an `Event`.
pub ghost enum EventModel {
    Unix { timestamp: int, contributions: int },
    Rfc3339 { created_at: Seq<char>, contributions: int },
    CalendarDate { date: Seq<char>, contributions: int },
}

impl View for Event {
    type V = EventModel;

    open spec fn view(&self) -> EventModel {
        match self {
            Event::Unix { timestamp, contributions } => EventModel::Unix {
                timestamp: *timestamp as int,
                contributions: *contributions as int,
            },
            Event::Rfc3339 { created_at, contributions } => EventModel::Rfc3339 {
                created_at: created_at@,
                contributions: *contributions as int,
            },
            Event::CalendarDate { date, contributions } => EventModel::CalendarDate {
                date: date@,
                contributions: *contributions as int,
            },
        }
    }
}

/// The mathematical value of a list of events.
pub open spec fn events_model(events: Seq<Event>) -> Seq<EventModel> {
    events.map_values(|e: Event| e@)
}

/// The instant an event's timestamp denotes, in seconds since the Unix epoch,
/// or nothing when the timestamp cannot be interpreted as a valid date.
pub open spec fn resolved_secs(e: EventModel) -> Option<int> {
    match e {
        EventModel::Unix { timestamp, .. } => if MIN_TIMESTAMP <= timestamp <= MAX_TIMESTAMP {
            Some(timestamp)
        } else {
            None
        },
        EventModel::Rfc3339 { created_at, .. } => rfc3339_secs(created_at),
        EventModel::CalendarDate { date, .. } => iso_date_secs(date),
    }
}

/// An event's contribution weight.
pub open spec fn weight_of(e: EventModel) -> int {
    match e {
        EventModel::Unix { contributions, .. } => contributions,
        EventModel::Rfc3339 { contributions, .. } => contributions,
        EventModel::CalendarDate { contributions, .. } => contributions,
    }
}

impl Event {
    /// Resolve this event's timestamp to seconds since the Unix epoch, or
    /// report a date error when it does not denote a valid instant.
    pub fn timestamp(&self) -> (r: Result<i64, ProviderError>)
        ensures
            r is Ok <==> resolved_secs(self@) is Some,
            r matches Ok(t) ==> resolved_secs(self@) == Some(t as int)
                && MIN_TIMESTAMP - 2 * SECS_PER_DAY <= t <= MAX_TIMESTAMP + 2 * SECS_PER_DAY,
            r matches Err(e) ==> e is DateError,
    {
        match self {
            Event::Unix { timestamp, .. } => match check_unix_timestamp(*timestamp) {
                Some(t) => Ok(t),
                None => Err(
                    ProviderError::DateError("timestamp outside the representable date range".to_owned()),
                ),
            },
            Event::Rfc3339 { created_at, .. } => match parse_rfc3339_secs(created_at.as_str()) {
                Some(t) => Ok(t),
                None => Err(ProviderError::DateError("invalid RFC 3339 timestamp".to_owned())),
            },
            Event::CalendarDate { date, .. } => match parse_iso_date_secs(date.as_str()) {
                Some(t) => Ok(t),
                None => Err(ProviderError::DateError("invalid calendar date".to_owned())),
            },
        }
    }

    /// This event's contribution weight.
    pub fn contributions(&self) -> (r: i64)
        ensures
            r == weight_of(self@),
    {
        match self {
            Event::Unix { contributions, .. } => *contributions,
            Event::Rfc3339 { contributions, .. } => *contributions,
            Event::CalendarDate { contributions, .. } => *contributions,
        }
    }
}

/// Builds the empty weekly calendar for a date window and folds normalized
/// events into it.
pub struct ContributionProcessor {
    start_date: i64,
    end_date: i64,
}

/// The timestamp of day `i` of week `w` of a calendar that starts at `start`.
pub open spec fn day_secs(start: int, w: int, i: int) -> int {
    start + (7 * w + i) * (SECS_PER_DAY as int)
}

/// The freshly initialized cell for day `i` of week `w`: no contributions,
/// the day's civil date, its week number and its day-of-week.
pub open spec fn empty_day(start: int, w: int, i: int) -> DayModel {
    DayModel {
        contribution_count: 0,
        date: civil_date_string(day_secs(start, w, i)),
        weeknumber: w,
        weekday: weekday_of(day_secs(start, w, i)),
    }
}

/// How many weeks a calendar over `[start, end)` holds: the days between the
/// dates, rounded up to whole weeks.
pub open spec fn weeks_between(start: int, end: int) -> int {
    (end - start + (SECS_PER_WEEK - 1)) / (SECS_PER_WEEK as int)
}

/// The empty calendar over `[start, end)` as a value: one entry per week,
/// numbered from 0, each holding that week's seven freshly initialized days.
pub open spec fn empty_calendar(start: int, end: int) -> CalendarModel {
    Seq::new(
        weeks_between(start, end) as nat,
        |w: int| (w, Seq::new(7, |i: int| empty_day(start, w, i))),
    )
}

/// An empty calendar over `[start, end)`: one entry per week, numbered from 0,
/// each holding exactly the seven freshly initialized days of that week.
pub open spec fn is_empty_calendar(cal: CalendarModel, start: int, end: int) -> bool {
    &&& cal.len() == weeks_between(start, end)
    &&& forall|w: int| 0 <= w < cal.len() ==> (#[trigger] cal[w]).0 == w && cal[w].1.len() == 7
    &&& forall|w: int, i: int|
        0 <= w < cal.len() && 0 <= i < 7 ==> #[trigger] cal[w].1[i] == empty_day(start, w, i)
}

impl ContributionProcessor {
    /// The start of the date window, in seconds since the Unix epoch.
    pub closed spec fn start(&self) -> int {
        self.start_date as int
    }

    /// The end of the date window (exclusive), in seconds since the Unix epoch.
    pub closed spec fn end(&self) -> int {
        self.end_date as int
    }

    /// The date window is non-empty and far enough from the representable
    /// range's ends that a calendar over it can be built: every generated day
    /// (the last week may run up to a week past `end`) has a formattable date.
    pub open spec fn date_range_valid(&self) -> bool {
        &&& MIN_TIMESTAMP <= self.start()
        &&& self.start() < self.end()
        &&& self.end() <= MAX_TIMESTAMP - SECS_PER_WEEK
    }

    pub fn new(start_date: i64, end_date: i64) -> (p: Self)
        ensures
            p.start() == start_date,
            p.end() == end_date,
    {
        Self { start_date, end_date }
    }

    /// Build the empty calendar covering `[start, end)`: weeks of exactly
    /// seven consecutive days, starting at `start`, until the whole window is
    /// covered. The last week may extend past `end`.
    pub fn initialize_contribution_calendar(&self) -> (cal: Vec<(i64, Vec<ContributionDay>)>)
        requires
            self.date_range_valid(),
        ensures
            is_empty_calendar(calendar_model(cal@), self.start(), self.end()),
            calendar_model(cal@) == empty_calendar(self.start(), self.end()),
    {
        let mut contributions: Vec<(i64, Vec<ContributionDay>)> = Vec::new();
        let mut current_date: i64 = self.start_date;
        let mut week_number: i64 = 0;

        while current_date < self.end_date
            invariant
                self.date_range_valid(),
                0 <= week_number,
                week_number == contributions@.len(),
                current_date == self.start() + week_number * SECS_PER_WEEK,
                week_number > 0 ==> current_date - SECS_PER_WEEK < self.end(),
                forall|w: int| 0 <= w < contributions@.len()
                    ==> (#[trigger] contributions@[w]).0 == w && contributions@[w].1@.len() == 7,
                forall|w: int, i: int|
                    0 <= w < contributions@.len() && 0 <= i < 7
                        ==> (#[trigger] contributions@[w].1@[i])@ == empty_day(self.start(), w, i),
            decreases self.end() + SECS_PER_WEEK - current_date,
        {
            let ghost w = week_number as int;
            let week_start: i64 = current_date;
            let mut week_days: Vec<ContributionDay> = Vec::new();
            let mut d: usize = 0;

            while d < 7
                invariant
                    self.date_range_valid(),
                    0 <= w,
                    week_start == self.start() + w * SECS_PER_WEEK,
                    week_start < self.end(),
                    week_number == w,
                    d <= 7,
                    week_days@.len() == d,
                    current_date == week_start + d * SECS_PER_DAY,
                    forall|i: int| 0 <= i < d
                        ==> (#[trigger] week_days@[i])@ == empty_day(self.start(), w, i),
                decreases 7 - d,
            {
                let day = ContributionDay {
                    contribution_count: 0,
                    weeknumber: week_number,
                    date: format_civil_date(current_date),
                    weekday: weekday_from_sunday(current_date),
                };
                week_days.push(day);
                current_date = current_date + SECS_PER_DAY;
                d = d + 1;
            }

            contributions.push((week_number, week_days));
            week_number = week_number + 1;
        }

        proof {
            let n = week_number as int;
            let start = self.start();
            let end = self.end();
            let week = SECS_PER_WEEK as int;
            assert(n >= 1);
            assert(end - start <= n * week);
            assert((n - 1) * week < end - start);
            let x = end - start + week - 1;
            let r = x - n * week;
            assert(x == n * week + r);
            vstd::arithmetic::div_mod::lemma_fundamental_div_mod_converse(x, week, n, r);
            assert(weeks_between(start, end) == n);
            let cal = calendar_model(contributions@);
            assert forall|w: int| 0 <= w < cal.len() implies (#[trigger] cal[w]).0 == w
                && cal[w].1.len() == 7 by {
                assert(cal[w] == week_model(contributions@[w]));
            }
            assert forall|w: int, i: int| 0 <= w < cal.len() && 0 <= i < 7 implies #[trigger] cal[w]
                .1[i] == empty_day(start, w, i) by {
                assert(cal[w] == week_model(contributions@[w]));
                assert(cal[w].1[i] == contributions@[w].1@[i]@);
            }
            assert(cal =~~= empty_calendar(start, end));
        }

        contributions
    }

    /// Fold a provider's events into a calendar: resolve each event's
    /// timestamp (failing fast on an unresolvable one), skip events outside
    /// `[start, end)` or outside the calendar's actual dimensions, and add
    /// each remaining event's weight into its day cell, tracking the largest
    /// count reached. Accumulation saturates at the integer limits.
    pub fn process_events(&self, events: Vec<Event>, calendar: Vec<(i64, Vec<ContributionDay>)>)
        -> (r: Result<(Vec<(i64, Vec<ContributionDay>)>, i64), ProviderError>)
        requires
            self.date_range_valid(),
        ensures
            r matches Ok(p) ==> fold_events(
                events_model(events@),
                calendar_model(calendar@),
                0,
                self.start(),
                self.end(),
            ) == Some((calendar_model(p.0@), p.1 as int)),
            r matches Err(e) ==> fold_events(
                events_model(events@),
                calendar_model(calendar@),
                0,
                self.start(),
                self.end(),
            ) is None && e is DateError,
    {
        let ghost all = events_model(events@);
        let ghost cal0 = calendar_model(calendar@);
        let mut cal = calendar;
        let mut max_contributions: i64 = 0;
        let mut idx: usize = 0;
        proof {
            assert(all.skip(0) =~= all);
        }

        while idx < events.len()
            invariant
                self.date_range_valid(),
                idx <= events.len(),
                all == events_model(events@),
                cal0 == calendar_model(calendar@),
                fold_events(
                    all.skip(idx as int),
                    calendar_model(cal@),
                    max_contributions as int,
                    self.start(),
                    self.end(),
                ) == fold_events(all, cal0, 0, self.start(), self.end()),
            decreases events.len() - idx,
        {
            let ghost rest = all.skip(idx as int);
            proof {
                assert(all[idx as int] == events@[idx as int]@);
                assert(rest[0] == all[idx as int]);
                assert(rest.drop_first() =~= all.skip(idx as int + 1));
            }
            let event = &events[idx];
            let event_date: i64 = match event.timestamp() {
                Ok(t) => t,
                Err(e) => {
                    return Err(e);
                },
            };

            if event_date < self.start_date || event_date >= self.end_date {
                idx = idx + 1;
                continue;
            }

            let days_since_start: u64 = ((event_date - self.start_date) as u64) / 86400;
            let week_number: usize = (days_since_start / 7) as usize;
            let day_number: usize = (days_since_start % 7) as usize;
            let ghost applied = apply_in_window_event(
                calendar_model(cal@),
                max_contributions as int,
                self.start(),
                event_date as int,
                weight_of(all[idx as int]),
            );

            if week_number >= cal.len() || day_number >= cal[week_number].1.len() {
                // The event window and the calendar's dimensions disagree for
                // this event: skip it rather than fail the whole batch.
                proof {
                    assert(applied == (calendar_model(cal@), max_contributions as int));
                }
                idx = idx + 1;
                continue;
            }

            let current: i64 = cal[week_number].1[day_number].contribution_count;
            let updated: i64 = sat_add(current, event.contributions());
            cal[week_number].1[day_number].contribution_count = updated;
            if updated > max_contributions {
                max_contributions = updated;
            }
            proof {
                assert(calendar_model(cal@) =~~= applied.0);
            }
            idx = idx + 1;
        }

        proof {
            assert(all.skip(events@.len() as int) =~= Seq::<EventModel>::empty());
        }
        Ok((cal, max_contributions))
    }
}

/// The calendar pipeline every provider shares: build the empty calendar for
/// the window, fold the provider's normalized events into it, and package the
/// filled calendar and its maximum under the provider's name.
pub fn build_collection(
    provider: String,
    start_date: i64,
    end_date: i64,
    events: Vec<Event>,
) -> (r: Result<ContributionCollection, ProviderError>)
    requires
        MIN_TIMESTAMP <= start_date,
        start_date < end_date,
        end_date <= MAX_TIMESTAMP - SECS_PER_WEEK,
    ensures
        r matches Ok(c) ==> c@.provider == provider@ && fold_events(
            events_model(events@),
            empty_calendar(start_date as int, end_date as int),
            0,
            start_date as int,
            end_date as int,
        ) == Some((c@.contributions, c@.max_contributions)),
        r matches Err(e) ==> e is DateError && fold_events(
            events_model(events@),
            empty_calendar(start_date as int, end_date as int),
            0,
            start_date as int,
            end_date as int,
        ) is None,
{
    let processor = ContributionProcessor::new(start_date, end_date);
    let calendar = processor.initialize_contribution_calendar();
    match processor.process_events(events, calendar) {
        Ok((contributions, max_contributions)) => Ok(ContributionCollection {
            provider,
            contributions,
            max_contributions,
        }),
        Err(e) => Err(e),
    }
}

/// Addition of a weight into a day count, saturating at the `i64` limits.
pub open spec fn sat_add_i64(a: int, b: int) -> int {
    if a + b > i64::MAX {
        i64::MAX as int
    } else if a + b < i64::MIN {
        i64::MIN as int
    } else {
        a + b
    }
}

pub(crate) fn sat_add(a: i64, b: i64) -> (r: i64)
    ensures
        r == sat_add_i64(a as int, b as int),
{
    if b >= 0 {
        if a > i64::MAX - b {
            i64::MAX
        } else {
            a + b
        }
    } else {
        if a < i64::MIN - b {
            i64::MIN
        } else {
            a + b
        }
    }
}

/// One in-window event applied to a calendar and running maximum: the event's
/// whole days since `start` select a week and day; when both lie within the
/// calendar's dimensions the weight `wt` is added (saturating) into that cell
/// and the running maximum is raised to the new count if it exceeds it;
/// otherwise nothing changes.
pub open spec fn apply_in_window_event(
    cal: CalendarModel,
    max: int,
    start: int,
    t: int,
    wt: int,
) -> (CalendarModel, int) {
    let ds = (t - start) / (SECS_PER_DAY as int);
    let wk = ds / 7;
    let dy = ds % 7;
    if wk < cal.len() && dy < cal[wk].1.len() {
        let old_day = cal[wk].1[dy];
        let newc = sat_add_i64(old_day.contribution_count, wt);
        let new_day = DayModel {
            contribution_count: newc,
            date: old_day.date,
            weeknumber: old_day.weeknumber,
            weekday: old_day.weekday,
        };
        let new_cal = cal.update(wk, (cal[wk].0, cal[wk].1.update(dy, new_day)));
        (new_cal, if newc > max { newc } else { max })
    } else {
        (cal, max)
    }
}

/// The result of folding `events` in order into `cal` with running maximum
/// `max`: `None` when some event's timestamp cannot be resolved (the whole
/// fold fails), otherwise the calendar and maximum after every event whose
/// instant lies in `[start, end)` has been applied. Out-of-window events are
/// skipped.
pub open spec fn fold_events(
    events: Seq<EventModel>,
    cal: CalendarModel,
    max: int,
    start: int,
    end: int,
) -> Option<(CalendarModel, int)>
    decreases events.len(),
{
    if events.len() == 0 {
        Some((cal, max))
    } else {
        match resolved_secs(events[0]) {
            None => None,
            Some(t) => if start <= t < end {
                let s2 = apply_in_window_event(cal, max, start, t, weight_of(events[0]));
                fold_events(events.drop_first(), s2.0, s2.1, start, end)
            } else {
                fold_events(events.drop_first(), cal, max, start, end)
            },
        }
    }
}

} // verus!
