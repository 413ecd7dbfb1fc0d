use contribution_graph::errors::ProviderError;
use contribution_graph::processor::{build_collection, ContributionProcessor, Event};

// 2024-01-07T00:00:00Z, a Sunday.
const START: i64 = 1704585600;
// 2024-01-21T00:00:00Z, two weeks later.
const END: i64 = 1705795200;

#[test]
fn initialize_two_weeks() {
    let processor = ContributionProcessor::new(START, END);
    let calendar = processor.initialize_contribution_calendar();
    assert_eq!(calendar.len(), 2);
    for (w, (weeknumber, days)) in calendar.iter().enumerate() {
        assert_eq!(*weeknumber, w as i64);
        assert_eq!(days.len(), 7);
        for (i, day) in days.iter().enumerate() {
            assert_eq!(day.contribution_count, 0);
            assert_eq!(day.weeknumber, w as i64);
            assert_eq!(day.weekday, i as i64);
        }
    }
    assert_eq!(calendar[0].1[0].date, "2024-01-07");
    assert_eq!(calendar[0].1[3].date, "2024-01-10");
    assert_eq!(calendar[0].1[6].date, "2024-01-13");
    assert_eq!(calendar[1].1[0].date, "2024-01-14");
    assert_eq!(calendar[1].1[6].date, "2024-01-20");
}

#[test]
fn initialize_partial_week_still_covers_window() {
    // A ten-day window needs two weeks; the second runs past the end date.
    let end: i64 = START + 10 * 86400;
    let processor = ContributionProcessor::new(START, end);
    let calendar = processor.initialize_contribution_calendar();
    assert_eq!(calendar.len(), 2);
    assert_eq!(calendar[1].1[6].date, "2024-01-20");
}

#[test]
fn weekday_matches_date_library() {
    // The library computes weekdays arithmetically; the date library computes
    // them from the civil calendar. They must agree, also before 1970.
    let samples: [i64; 6] = [START, START + 86400, 0, -86400, 951782400, -377705116800];
    for ts in samples {
        let processor = ContributionProcessor::new(ts, ts + 86400);
        let calendar = processor.initialize_contribution_calendar();
        let expected = time::OffsetDateTime::from_unix_timestamp(ts)
            .unwrap()
            .weekday()
            .number_days_from_sunday() as i64;
        assert_eq!(calendar[0].1[0].weekday, expected);
    }
}

#[test]
fn fold_concrete_scenario() {
    let processor = ContributionProcessor::new(START, END);
    let calendar = processor.initialize_contribution_calendar();
    let events = vec![
        Event::Rfc3339 { created_at: "2024-01-10T12:00:00Z".to_string(), contributions: 3 },
        Event::Rfc3339 { created_at: "2024-01-10T18:00:00Z".to_string(), contributions: 2 },
        // Exactly the end date: out of window, skipped.
        Event::Rfc3339 { created_at: "2024-01-21T00:00:00Z".to_string(), contributions: 9 },
    ];
    let (folded, max) = processor.process_events(events, calendar).unwrap();
    assert_eq!(folded[0].1[3].contribution_count, 5);
    assert_eq!(folded[0].1[3].date, "2024-01-10");
    assert_eq!(max, 5);
    let total: i64 = folded
        .iter()
        .flat_map(|(_, days)| days.iter())
        .map(|d| d.contribution_count)
        .sum();
    assert_eq!(total, 5);
}

#[test]
fn fold_mixed_timestamp_forms_land_on_same_day() {
    let processor = ContributionProcessor::new(START, END);
    let calendar = processor.initialize_contribution_calendar();
    let midday: i64 = START + 3 * 86400 + 12 * 3600;
    let events = vec![
        Event::Unix { timestamp: midday, contributions: 1 },
        Event::CalendarDate { date: "2024-01-10".to_string(), contributions: 4 },
    ];
    let (folded, max) = processor.process_events(events, calendar).unwrap();
    assert_eq!(folded[0].1[3].contribution_count, 5);
    assert_eq!(max, 5);
}

#[test]
fn fold_out_of_window_is_noop() {
    let processor = ContributionProcessor::new(START, END);
    let calendar = processor.initialize_contribution_calendar();
    let events = vec![
        Event::Unix { timestamp: START - 1, contributions: 7 },
        Event::Unix { timestamp: END, contributions: 7 },
        Event::Unix { timestamp: END + 86400, contributions: 7 },
    ];
    let (folded, max) = processor.process_events(events, calendar).unwrap();
    assert_eq!(max, 0);
    for (_, days) in &folded {
        for day in days {
            assert_eq!(day.contribution_count, 0);
        }
    }
}

#[test]
fn fold_out_of_calendar_bounds_is_skipped() {
    // The window says four weeks but the calendar only has one: an event in
    // the window's third week has no cell and must be skipped, not fail.
    let processor_small = ContributionProcessor::new(START, START + 7 * 86400);
    let calendar = processor_small.initialize_contribution_calendar();
    assert_eq!(calendar.len(), 1);
    let processor = ContributionProcessor::new(START, START + 28 * 86400);
    let events = vec![Event::Unix { timestamp: START + 15 * 86400, contributions: 3 }];
    let (folded, max) = processor.process_events(events, calendar).unwrap();
    assert_eq!(max, 0);
    assert_eq!(folded.len(), 1);
    for day in &folded[0].1 {
        assert_eq!(day.contribution_count, 0);
    }
}

#[test]
fn fold_saturates_instead_of_overflowing() {
    let processor = ContributionProcessor::new(START, END);
    let calendar = processor.initialize_contribution_calendar();
    let events = vec![
        Event::Unix { timestamp: START, contributions: i64::MAX },
        Event::Unix { timestamp: START, contributions: 5 },
    ];
    let (folded, max) = processor.process_events(events, calendar).unwrap();
    assert_eq!(folded[0].1[0].contribution_count, i64::MAX);
    assert_eq!(max, i64::MAX);
}

#[test]
fn fold_bad_rfc3339_fails_with_date_error() {
    let processor = ContributionProcessor::new(START, END);
    let calendar = processor.initialize_contribution_calendar();
    let events = vec![Event::Rfc3339 { created_at: "not a date".to_string(), contributions: 1 }];
    let r = processor.process_events(events, calendar);
    assert!(matches!(r, Err(ProviderError::DateError(_))));
}

#[test]
fn fold_bad_calendar_date_fails_with_date_error() {
    let processor = ContributionProcessor::new(START, END);
    let calendar = processor.initialize_contribution_calendar();
    let events = vec![Event::CalendarDate { date: "2024-13-40".to_string(), contributions: 1 }];
    let r = processor.process_events(events, calendar);
    assert!(matches!(r, Err(ProviderError::DateError(_))));
}

#[test]
fn fold_out_of_range_unix_fails_with_date_error() {
    let processor = ContributionProcessor::new(START, END);
    let calendar = processor.initialize_contribution_calendar();
    let events = vec![Event::Unix { timestamp: i64::MAX, contributions: 1 }];
    let r = processor.process_events(events, calendar);
    assert!(matches!(r, Err(ProviderError::DateError(_))));
}

#[test]
fn event_accessors_resolve_and_report_weight() {
    let e = Event::Unix { timestamp: START, contributions: 11 };
    assert_eq!(e.timestamp().unwrap(), START);
    assert_eq!(e.contributions(), 11);
    let e = Event::Rfc3339 { created_at: "2024-01-10T12:00:00Z".to_string(), contributions: 2 };
    assert_eq!(e.timestamp().unwrap(), 1704888000);
    let e = Event::CalendarDate { date: "2024-01-10".to_string(), contributions: 2 };
    assert_eq!(e.timestamp().unwrap(), START + 3 * 86400);
}

#[test]
fn build_collection_packages_the_fold() {
    let events = vec![Event::Unix { timestamp: START + 86400, contributions: 4 }];
    let c = build_collection("GitHub".to_string(), START, END, events).unwrap();
    assert_eq!(c.provider, "GitHub");
    assert_eq!(c.max_contributions, 4);
    assert_eq!(c.contributions.len(), 2);
    assert_eq!(c.contributions[0].1[1].contribution_count, 4);
}

#[test]
fn build_collection_propagates_date_error() {
    let events = vec![Event::Rfc3339 { created_at: String::new(), contributions: 1 }];
    let r = build_collection("GitLab".to_string(), START, END, events);
    assert!(matches!(r, Err(ProviderError::DateError(_))));
}

#[test]
fn error_variants_exist_per_failure_kind() {
    let errors = vec![
        ProviderError::ConfigError("missing credential".to_string()),
        ProviderError::RequestError("connection refused".to_string()),
        ProviderError::ParseError("unexpected body".to_string()),
        ProviderError::DateError("bad timestamp".to_string()),
    ];
    assert!(matches!(errors[0], ProviderError::ConfigError(_)));
    assert!(matches!(errors[1], ProviderError::RequestError(_)));
    assert!(matches!(errors[2], ProviderError::ParseError(_)));
    assert!(matches!(errors[3], ProviderError::DateError(_)));
}
