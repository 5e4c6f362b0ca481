use ai_report_generator::scheduler::{
    calculate_wait_duration, is_within_schedule_tolerance, next_fire_time, parse_schedule_times,
    scheduler_enabled, AutoReportScheduler, DailyTime, FireTime,
};

fn t(h: u32, m: u32) -> DailyTime {
    DailyTime::from_hm(h, m)
}

#[test]
fn next_fire_is_the_earliest_ahead_today() {
    let times = vec![t(7, 30), t(19, 0)];
    let f = next_fire_time(&times, 8 * 3600);
    assert_eq!(f, FireTime { day_offset: 0, seconds: 19 * 3600 });
}

#[test]
fn next_fire_rolls_to_tomorrow() {
    let times = vec![t(7, 30), t(19, 0)];
    let f = next_fire_time(&times, 20 * 3600);
    assert_eq!(f, FireTime { day_offset: 1, seconds: 7 * 3600 + 1800 });
}

#[test]
fn next_fire_is_strictly_later() {
    let times = vec![t(7, 30), t(19, 0)];
    let f = next_fire_time(&times, 7 * 3600 + 1800);
    assert_eq!(f, FireTime { day_offset: 0, seconds: 19 * 3600 });
}

#[test]
fn next_fire_takes_the_earliest_of_an_unordered_list() {
    let times = vec![t(19, 0), t(9, 0), t(12, 0)];
    let f = next_fire_time(&times, 8 * 3600);
    assert_eq!(f, FireTime { day_offset: 0, seconds: 9 * 3600 });
}

#[test]
fn wait_covers_the_gap() {
    let f = FireTime { day_offset: 1, seconds: 7 * 3600 };
    assert_eq!(calculate_wait_duration(23 * 3600, f), 8 * 3600);
    let g = FireTime { day_offset: 0, seconds: 100 };
    assert_eq!(calculate_wait_duration(200, g), 0);
}

#[test]
fn tolerance_is_five_minutes_either_way() {
    let times = vec![t(7, 30)];
    let at = 7 * 3600 + 1800;
    assert!(is_within_schedule_tolerance(&times, at + 300));
    assert!(is_within_schedule_tolerance(&times, at - 300));
    assert!(!is_within_schedule_tolerance(&times, at + 301));
    assert!(!is_within_schedule_tolerance(&times, at - 301));
}

#[test]
fn tolerance_checks_every_time() {
    let times = vec![t(7, 30), t(19, 0)];
    assert!(is_within_schedule_tolerance(&times, 19 * 3600 + 120));
}

#[test]
fn schedule_defaults() {
    let times = parse_schedule_times(None);
    assert_eq!(times, vec![t(7, 30), t(19, 0)]);
}

#[test]
fn schedule_parses_trimmed_pieces_and_skips_bad_ones() {
    let times = parse_schedule_times(Some("06:15, 18:45 ,bad,25:00"));
    assert_eq!(times, vec![t(6, 15), t(18, 45)]);
}

#[test]
fn schedule_of_nonsense_is_empty() {
    let times = parse_schedule_times(Some("never"));
    assert!(times.is_empty());
}

#[test]
fn enabling_flag_ignores_case() {
    assert!(scheduler_enabled(Some("TRUE")));
    assert!(scheduler_enabled(Some("true")));
    assert!(!scheduler_enabled(Some("yes")));
    assert!(!scheduler_enabled(None));
}

#[test]
fn scheduler_needs_key_and_flag() {
    assert!(AutoReportScheduler::new(None, Some("true"), None).is_none());
    assert!(AutoReportScheduler::new(Some("k"), Some("false"), None).is_none());
    let s = AutoReportScheduler::new(Some("k"), Some("True"), Some("10:00")).unwrap();
    assert_eq!(s.schedule_times, vec![t(10, 0)]);
    assert_eq!(s.api_key, "k");
}

#[test]
fn scheduler_reads_the_clock() {
    let s = AutoReportScheduler::new(Some("k"), Some("true"), None).unwrap();
    let (now, f, w) = s.next_wait().unwrap();
    assert!(now < 86400);
    assert!(w > 0);
    assert_eq!(w, (f.day_offset * 86400 + f.seconds - now) as u64);
    let (now2, _) = s.due_now();
    assert!(now2 < 86400);
}

#[test]
fn scheduler_without_times_has_no_plan() {
    let s = AutoReportScheduler::new(Some("k"), Some("true"), Some("x")).unwrap();
    assert!(s.next_wait().is_none());
}

#[test]
fn clock_times_follow_the_hour_minute_format() {
    assert_eq!(parse_schedule_times(Some("7:05")), vec![t(7, 5)]);
    assert_eq!(parse_schedule_times(Some("07: 30")), vec![t(7, 30)]);
    assert!(parse_schedule_times(Some("07 :30")).is_empty());
    assert!(parse_schedule_times(Some("123:00")).is_empty());
    assert!(parse_schedule_times(Some("12:60")).is_empty());
    assert!(parse_schedule_times(Some("12:3x")).is_empty());
    assert_eq!(parse_schedule_times(Some("23:59")), vec![t(23, 59)]);
}
