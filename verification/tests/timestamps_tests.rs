use git_editor::Error;
use git_editor::generate_range_timestamps;
use git_editor::generate_timestamps;
use git_editor::parse_datetime;

const THREE_HOURS: i64 = 10800;

// 2023-01-01 00:00:00
const T_2023_01_01: i64 = 1672531200;
// 2023-01-01 10:00:00
const T_2023_01_01_10H: i64 = 1672567200;
// 2023-01-10 00:00:00
const T_2023_01_10: i64 = 1673308800;

#[test]
fn test_generate_timestamps_monotone_and_in_range() {
    // whatever the random draw did: strictly increasing, starting exactly
    // at the start, never leaving the interval, three hours apart at least
    let start = T_2023_01_01;
    let end = T_2023_01_10;
    let ts = generate_timestamps(start, end, 10).unwrap();
    assert_eq!(ts.len(), 10);
    assert_eq!(ts[0], start);
    for i in 1..ts.len() {
        assert!(ts[i] - ts[i - 1] >= THREE_HOURS);
    }
    for &t in &ts {
        assert!(t >= start && t <= end);
    }
}

#[test]
fn test_generate_timestamps_range_too_small() {
    // ten commits need nine gaps of three hours, more than one day holds
    let start = T_2023_01_01;
    let end = start + 86400;
    let result = generate_timestamps(start, end, 10);
    assert!(result.is_err());
    assert_eq!(result.unwrap_err(), Error::RangeTooSmall);
}

#[test]
fn test_generate_timestamps_single_commit() {
    let ts = generate_timestamps(T_2023_01_01, T_2023_01_10, 1).unwrap();
    assert_eq!(ts, vec![T_2023_01_01]);
}

#[test]
fn test_generate_timestamps_exact_floor_span() {
    // exactly the floor span: every gap must be exactly three hours
    let start = T_2023_01_01;
    let count = 4;
    let end = start + THREE_HOURS * 3;
    let ts = generate_timestamps(start, end, count).unwrap();
    assert_eq!(ts.len(), count);
    for i in 1..ts.len() {
        assert_eq!(ts[i] - ts[i - 1], THREE_HOURS);
    }

    // one second less and the schedule must be refused
    let result = generate_timestamps(start, end - 1, count);
    assert_eq!(result.unwrap_err(), Error::RangeTooSmall);
}

#[test]
fn test_full_rewrite_mode_insufficient_date_range() {
    // five commits inside ten hours: the twelve-hour floor cannot fit
    let start = parse_datetime("2023-01-01 00:00:00").unwrap();
    let end = parse_datetime("2023-01-01 10:00:00").unwrap();
    assert_eq!(start, T_2023_01_01);
    assert_eq!(end, T_2023_01_01_10H);
    let result = generate_timestamps(start, end, 5);
    assert!(result.is_err());
    assert_eq!(result.unwrap_err(), Error::RangeTooSmall);
}

#[test]
fn test_full_rewrite_three_commits_nine_days() {
    // three commits across nine days: an ascending schedule inside range
    let start = parse_datetime("2023-01-01 00:00:00").unwrap();
    let end = parse_datetime("2023-01-10 00:00:00").unwrap();
    let ts = generate_timestamps(start, end, 3).unwrap();
    assert_eq!(ts.len(), 3);
    assert_eq!(ts[0], start);
    assert!(ts[0] < ts[1] && ts[1] < ts[2]);
    // the schedule spends the whole interval
    assert_eq!(ts[2], end);
}

#[test]
fn test_generate_range_timestamps() {
    let start = T_2023_01_01;
    let end = T_2023_01_01_10H;

    let timestamps = generate_range_timestamps(start, end, 5);

    assert_eq!(timestamps.len(), 5);
    assert_eq!(timestamps[0], start);
    assert_eq!(timestamps[4], end);

    // Check that timestamps are evenly distributed
    for i in 1..timestamps.len() {
        assert!(timestamps[i] >= timestamps[i - 1]);
    }
}

#[test]
fn test_generate_range_timestamps_exact_steps() {
    // ten hours split over four gaps: 9000-second steps
    let start = T_2023_01_01;
    let end = T_2023_01_01_10H;
    let timestamps = generate_range_timestamps(start, end, 5);
    assert_eq!(
        timestamps,
        vec![
            start,
            start + 9000,
            start + 18000,
            start + 27000,
            start + 36000
        ]
    );
}

#[test]
fn test_generate_range_timestamps_edge_cases() {
    let start = T_2023_01_01;
    let end = T_2023_01_01_10H;

    // Zero count
    let timestamps = generate_range_timestamps(start, end, 0);
    assert_eq!(timestamps.len(), 0);

    // Single timestamp
    let timestamps = generate_range_timestamps(start, end, 1);
    assert_eq!(timestamps.len(), 1);
    assert_eq!(timestamps[0], start);
}
