use contribution_graph::merge::process_contributions;
use contribution_graph::processor::{build_collection, Event};
use contribution_graph::types::ContributionCollection;

// 2024-01-07T00:00:00Z, a Sunday.
const START: i64 = 1704585600;
// 2024-01-21T00:00:00Z, two weeks later.
const END: i64 = 1705795200;

fn collection(provider: &str, events: Vec<Event>) -> ContributionCollection {
    build_collection(provider.to_string(), START, END, events).unwrap()
}

#[test]
fn merge_of_no_providers_is_empty() {
    let (rows, max) = process_contributions(vec![None, None, None, None]);
    assert_eq!(rows.len(), 7);
    for row in &rows {
        assert!(row.is_empty());
    }
    assert_eq!(max, 0);
}

#[test]
fn merge_of_single_provider_reshapes_it() {
    let c = collection(
        "Gitea",
        vec![
            Event::Unix { timestamp: START, contributions: 2 },
            Event::Unix { timestamp: START + 8 * 86400, contributions: 6 },
        ],
    );
    let reference = c.contributions.clone();
    let (rows, max) = process_contributions(vec![Some(c), None, None, None]);
    assert_eq!(rows.len(), 7);
    for row in &rows {
        assert_eq!(row.len(), 2);
    }
    for (w, (_, days)) in reference.iter().enumerate() {
        for (d, day) in days.iter().enumerate() {
            let cell = rows[d][w].as_ref().unwrap();
            assert_eq!(cell.contribution_count, day.contribution_count);
            assert_eq!(cell.date, day.date);
            assert_eq!(cell.weeknumber, day.weeknumber);
            assert_eq!(cell.weekday, day.weekday);
        }
    }
    assert_eq!(max, 6);
}

#[test]
fn merge_sums_overlapping_cells_and_recomputes_max() {
    let a = collection(
        "GitHub",
        vec![
            Event::Unix { timestamp: START + 86400, contributions: 2 },
            Event::Unix { timestamp: START + 3 * 86400, contributions: 3 },
        ],
    );
    let b = collection(
        "GitLab",
        vec![
            Event::Unix { timestamp: START + 3 * 86400, contributions: 5 },
            Event::Unix { timestamp: START + 8 * 86400, contributions: 7 },
        ],
    );
    let (rows, max) = process_contributions(vec![Some(a), Some(b), None, None]);
    // The shared day (week 0, weekday 3) holds both providers' counts; the
    // merged maximum exceeds either provider's own maximum cell.
    assert_eq!(rows[3][0].as_ref().unwrap().contribution_count, 8);
    assert_eq!(rows[1][0].as_ref().unwrap().contribution_count, 2);
    assert_eq!(rows[1][1].as_ref().unwrap().contribution_count, 7);
    assert_eq!(max, 8);
}

#[test]
fn merge_total_is_sum_of_provider_totals() {
    let a = collection(
        "GitHub",
        vec![
            Event::Unix { timestamp: START, contributions: 2 },
            Event::Unix { timestamp: START + 3 * 86400, contributions: 3 },
        ],
    );
    let b = collection(
        "Codeberg",
        vec![
            Event::Unix { timestamp: START + 3 * 86400, contributions: 5 },
            Event::Unix { timestamp: START + 12 * 86400, contributions: 7 },
        ],
    );
    let total = |c: &ContributionCollection| -> i64 {
        c.contributions.iter().flat_map(|(_, days)| days.iter()).map(
            |d| d.contribution_count,
        ).sum()
    };
    let expected = total(&a) + total(&b);
    let (rows, _) = process_contributions(vec![Some(a), Some(b)]);
    let merged: i64 = rows
        .iter()
        .flatten()
        .filter_map(|cell| cell.as_ref().map(|d| d.contribution_count))
        .sum();
    assert_eq!(merged, expected);
    assert_eq!(merged, 17);
}

#[test]
fn merge_grows_rows_to_the_widest_provider() {
    let a = collection("GitHub", vec![]);
    let longer = build_collection(
        "GitLab".to_string(),
        START,
        END + 2 * 604800,
        vec![Event::Unix { timestamp: END + 604800, contributions: 4 }],
    )
    .unwrap();
    let (rows, max) = process_contributions(vec![Some(a), Some(longer)]);
    for row in &rows {
        assert_eq!(row.len(), 4);
    }
    assert_eq!(rows[0][3].as_ref().unwrap().contribution_count, 4);
    assert_eq!(max, 4);
}
