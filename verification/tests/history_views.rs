use chrono::{DateTime, Duration, TimeZone, Utc};
use clockwerk::history::{
    build_incidents, build_segments, bucketed_points, format_timestamp, history,
    parse_timestamp, uptime_percent, uptime_stats, HistoryEvent, HistoryRange, HistoryStatus,
    MonitorStatus, PointStatus, ResponseStats,
};

fn nanos(t: DateTime<Utc>) -> i128 {
    t.timestamp() as i128 * 1_000_000_000 + t.timestamp_subsec_nanos() as i128
}

fn event(at: DateTime<Utc>, status: &str) -> HistoryEvent {
    HistoryEvent {
        checked_at: nanos(at),
        status: HistoryStatus::from_db(status).unwrap(),
        response_time_ms: if status != "gap" { Some(100) } else { None },
        failure_reason: if status == "down" {
            Some("timeout".into())
        } else {
            None
        },
    }
}

#[test]
fn uptime_excludes_gap_duration() {
    let start = Utc.with_ymd_and_hms(2026, 8, 10, 0, 0, 0).unwrap();
    let end = start + Duration::hours(24);
    let events = vec![
        event(start, "up"),
        event(start + Duration::hours(12), "down"),
        event(start + Duration::hours(18), "gap"),
    ];

    assert_eq!(
        uptime_percent(&build_segments(&events, nanos(start), nanos(end)))
            .map(|u| u.tenths_of_percent()),
        Some(667)
    );
    assert_eq!(
        uptime_percent(&build_segments(&[], nanos(start), nanos(end))),
        None
    );
}

#[test]
fn bucket_count_stays_bounded_and_marks_mixed_buckets() {
    let start = Utc.with_ymd_and_hms(2026, 8, 1, 0, 0, 0).unwrap();
    let end = start + Duration::days(7);
    let events = vec![
        event(start, "up"),
        event(start + Duration::minutes(5), "down"),
    ];
    let segments = build_segments(&events, nanos(start), nanos(end));
    let points = bucketed_points(&segments, &events, nanos(start), nanos(end), 500);

    assert!(points.len() <= 500);
    assert_eq!(points[0].status, PointStatus::Mixed);
}

#[test]
fn bucket_boundaries_assign_events_to_the_following_bucket() {
    let start = Utc.with_ymd_and_hms(2026, 8, 1, 0, 0, 0).unwrap();
    let end = start + Duration::hours(2);
    let events = vec![
        event(start, "up"),
        event(start + Duration::hours(1), "down"),
    ];

    let points = bucketed_points(
        &build_segments(&events, nanos(start), nanos(end)),
        &events,
        nanos(start),
        nanos(end),
        2,
    );

    assert_eq!(points.len(), 2);
    assert_eq!(points[0].status, PointStatus::Up);
    assert_eq!(points[1].status, PointStatus::Down);
}

#[test]
fn buckets_containing_unknown_time_are_gray_and_break_latency_lines() {
    let start = Utc.with_ymd_and_hms(2026, 8, 1, 0, 0, 0).unwrap();
    let end = start + Duration::hours(2);
    let events = vec![
        event(start, "up"),
        event(start + Duration::minutes(30), "gap"),
        event(start + Duration::hours(1), "up"),
    ];

    let points = bucketed_points(
        &build_segments(&events, nanos(start), nanos(end)),
        &events,
        nanos(start),
        nanos(end),
        2,
    );

    assert_eq!(points[0].status, PointStatus::Gap);
    assert_eq!(points[0].avg_response_time_ms, None);
    assert_eq!(points[1].status, PointStatus::Up);
}

#[test]
fn incidents_cover_multiple_ongoing_and_gap_interrupted_outages() {
    let start = Utc.with_ymd_and_hms(2026, 8, 10, 0, 0, 0).unwrap();
    let events = vec![
        event(start, "down"),
        event(start + Duration::hours(1), "up"),
        event(start + Duration::hours(2), "down"),
        event(start + Duration::hours(3), "gap"),
        event(start + Duration::hours(5), "down"),
    ];

    let incidents = build_incidents(
        &events,
        MonitorStatus::Down,
        nanos(start + Duration::hours(6)),
    );

    assert_eq!(incidents.len(), 2);
    assert_eq!(incidents[0].duration_seconds, 3600);
    assert!(!incidents[0].ongoing);
    assert_eq!(incidents[1].duration_seconds, 7200);
    assert!(incidents[1].ongoing);
    assert!(incidents[1].includes_gap);
}

#[test]
fn down_gap_up_ends_at_the_gap_and_excludes_unknown_time() {
    let start = Utc.with_ymd_and_hms(2026, 8, 10, 0, 0, 0).unwrap();
    let events = vec![
        event(start, "down"),
        event(start + Duration::hours(1), "gap"),
        event(start + Duration::hours(4), "up"),
    ];

    let incidents = build_incidents(&events, MonitorStatus::Up, nanos(start + Duration::hours(5)));

    assert_eq!(incidents[0].duration_seconds, 3600);
    assert_eq!(
        incidents[0].ended_at,
        Some(format_timestamp(nanos(start + Duration::hours(1))))
    );
    assert!(incidents[0].includes_gap);
}

#[test]
fn timestamps_render_with_milliseconds_and_parse_back() {
    let at = Utc.with_ymd_and_hms(2026, 8, 12, 12, 0, 0).unwrap() + Duration::milliseconds(250);
    assert_eq!(format_timestamp(nanos(at)), "2026-08-12T12:00:00.250Z");
    assert_eq!(parse_timestamp("2026-08-12T12:00:00.250Z"), Some(nanos(at)));
    assert_eq!(parse_timestamp("2026-08-12T14:00:00.250+02:00"), Some(nanos(at)));
    assert_eq!(parse_timestamp("not a time"), None);
}

#[test]
fn day_range_has_one_point_per_segment_and_newest_incident_first() {
    let now = Utc.with_ymd_and_hms(2026, 8, 10, 12, 0, 0).unwrap();
    let events = vec![
        event(now - Duration::hours(30), "up"),
        event(now - Duration::hours(10), "down"),
        event(now - Duration::hours(9), "up"),
        event(now - Duration::hours(2), "down"),
    ];
    let response = history(&events, MonitorStatus::Down, HistoryRange::Day, nanos(now));
    assert_eq!(response.points.len(), 4);
    assert_eq!(response.points[0].status, PointStatus::Up);
    assert_eq!(response.points[1].status, PointStatus::Down);
    assert_eq!(response.points[3].status, PointStatus::Down);
    assert_eq!(
        response.points[0].started_at,
        format_timestamp(nanos(now - Duration::hours(24)))
    );
    assert_eq!(response.incidents.len(), 2);
    assert!(response.incidents[0].ongoing);
    assert_eq!(response.incidents[0].duration_seconds, 7200);
    assert!(!response.incidents[1].ongoing);
    assert_eq!(response.incidents[1].duration_seconds, 3600);
}

#[test]
fn stats_cover_three_windows_and_average_the_last_day() {
    let now = Utc.with_ymd_and_hms(2026, 8, 10, 12, 0, 0).unwrap();
    let events = vec![
        event(now - Duration::days(10), "up"),
        event(now - Duration::days(3), "down"),
        event(now - Duration::days(2), "up"),
        event(now - Duration::hours(1), "up"),
    ];
    let stats = uptime_stats(&events, MonitorStatus::Up, None, nanos(now));
    assert_eq!(stats.uptime_24h.map(|u| u.tenths_of_percent()), Some(1000));
    // 7 days: one day down out of seven.
    assert_eq!(stats.uptime_7d.map(|u| u.tenths_of_percent()), Some(857));
    // 30 days: twenty days unknown before the first result, one day down out of ten.
    assert_eq!(stats.uptime_30d.map(|u| u.tenths_of_percent()), Some(900));
    assert_eq!(
        stats.avg_response_time_ms_24h,
        Some(ResponseStats {
            total_ms: 100,
            count: 1
        })
    );
    assert_eq!(stats.current_status, MonitorStatus::Up);
}

#[test]
fn range_lengths_and_bucket_counts() {
    assert_eq!(HistoryRange::Day.duration(), 24 * 3_600_000_000_000);
    assert_eq!(HistoryRange::Week.duration(), 7 * 86_400_000_000_000);
    assert_eq!(HistoryRange::Month.duration(), 30 * 86_400_000_000_000);
    assert_eq!(HistoryRange::Day.bucket_count(), 0);
    assert_eq!(HistoryRange::Week.bucket_count(), 500);
    assert_eq!(HistoryRange::Month.bucket_count(), 500);
    assert_eq!(HistoryStatus::from_db("up"), Some(HistoryStatus::Up));
    assert_eq!(HistoryStatus::from_db("gap"), Some(HistoryStatus::Gap));
    assert_eq!(HistoryStatus::from_db("later"), None);
    assert_eq!(MonitorStatus::from_db("down"), Some(MonitorStatus::Down));
    assert_eq!(
        MonitorStatus::from_db("not_yet_checked"),
        Some(MonitorStatus::NotYetChecked)
    );
}
