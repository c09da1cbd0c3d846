use minusbot::schedule::{parse_duration_str, parse_schedule, ScheduleError, ScheduleKind};

#[test]
fn test_parse_duration() {
    assert_eq!(parse_duration_str("10s").unwrap().as_secs(), 10);
    assert_eq!(parse_duration_str("5m").unwrap().as_secs(), 300);
    assert_eq!(parse_duration_str("2h").unwrap().as_secs(), 7200);
    assert_eq!(parse_duration_str("1d").unwrap().as_secs(), 86400);
}

#[test]
fn test_parse_schedule_delay() {
    let (kind, _) = parse_schedule("delay:30s").unwrap();
    assert!(matches!(kind, ScheduleKind::Delay(_)));
}

#[test]
fn test_parse_schedule_cron() {
    let (kind, _) = parse_schedule("cron:0 0 9 * * * *").unwrap();
    assert!(matches!(kind, ScheduleKind::Cron(_)));
}

#[test]
fn test_parse_schedule_invalid() {
    assert!(parse_schedule("unknown:abc").is_err());
}

#[test]
fn durations_without_unit_are_seconds() {
    assert_eq!(parse_duration_str(" 42 ").unwrap().as_secs(), 42);
    assert_eq!(parse_duration_str("+7").unwrap().as_secs(), 7);
}

#[test]
fn bad_durations_are_refused() {
    assert!(matches!(parse_duration_str("   "), Err(ScheduleError::EmptyDuration)));
    match parse_duration_str("abcm") {
        Err(ScheduleError::InvalidNumber(n)) => assert_eq!(n, "abc"),
        other => panic!("unexpected {:?}", other),
    }
}

#[test]
fn schedule_keeps_the_text_after_the_prefix() {
    let (kind, expr) = parse_schedule("interval:1h").unwrap();
    assert_eq!(expr, "1h");
    match kind {
        ScheduleKind::Interval(d) => assert_eq!(d.as_secs(), 3600),
        other => panic!("unexpected {:?}", other),
    }
    assert!(matches!(parse_schedule("cron:not a cron"), Err(ScheduleError::InvalidCron(_))));
}

#[test]
fn cron_job_first_runs_at_its_next_match() {
    let planned = minusbot::jobs::plan_job_now("cron:0 * * * * *").unwrap().ok().unwrap();
    assert_eq!(planned.0, "cron");
    assert_eq!(planned.1, "0 * * * * *");
    let first = planned.2.unwrap();
    assert_eq!(first.secs % 60, 0);
    assert_eq!(first.nanos, 0);
}
