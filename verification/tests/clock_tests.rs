use chrono::{Datelike, Timelike};
use testing_actions::mock_clock::{
    parse_duration, parse_time, parse_timezone, time_from_reading, timezone_from, ClockError,
    Duration, Instant, MockClock,
};

fn at(text: &str) -> Instant {
    parse_time(text).unwrap()
}

fn calendar(t: Instant) -> chrono::DateTime<chrono::Utc> {
    chrono::DateTime::from_timestamp(t.timestamp(), t.subsec_nanos()).unwrap()
}

#[test]
fn test_parse_duration() {
    assert_eq!(parse_duration("1h").unwrap(), Duration::from_secs(3600));
    assert_eq!(parse_duration("30m").unwrap(), Duration::from_secs(1800));
    assert_eq!(parse_duration("1h30m").unwrap(), Duration::from_secs(5400));
    assert_eq!(parse_duration("500s").unwrap(), Duration::from_secs(500));
    assert_eq!(parse_duration("1d").unwrap(), Duration::from_secs(86400));
}

#[test]
fn test_parse_time() {
    let dt = calendar(parse_time("2024-01-15T10:30:00Z").unwrap());
    assert_eq!(dt.year(), 2024);
    assert_eq!(dt.month(), 1);
    assert_eq!(dt.day(), 15);
    assert_eq!(dt.hour(), 10);
    assert_eq!(dt.minute(), 30);

    let dt = calendar(parse_time("1705315800").unwrap());
    assert!(dt.year() == 2024);
}

#[test]
fn test_mock_clock_set() {
    let wall = at("2030-06-01T00:00:00Z");
    let mut clock = MockClock::new();
    assert!(!clock.is_virtual());
    assert_eq!(clock.now(wall), wall);

    let target = at("2024-01-15T10:30:00Z");
    clock.set(target);

    assert!(clock.is_virtual());
    assert!(clock.is_active());
    assert_eq!(clock.now(wall), target);
}

#[test]
fn test_mock_clock_forward() {
    let wall = at("2030-06-01T00:00:00Z");
    let mut clock = MockClock::new();
    let start = at("2024-01-15T10:00:00Z");
    clock.set(start);

    assert!(clock.forward(Duration::from_secs(3600), wall));

    let expected = at("2024-01-15T11:00:00Z");
    assert_eq!(clock.now(wall), expected);
}

#[test]
fn test_mock_clock_forward_until() {
    let wall = at("2030-06-01T00:00:00Z");
    let mut clock = MockClock::new();
    let start = at("2024-01-15T10:00:00Z");
    clock.set(start);

    let target = at("2024-01-15T15:00:00Z");
    clock.forward_until(target, wall).unwrap();

    assert_eq!(clock.now(wall), target);
}

#[test]
fn test_mock_clock_cannot_go_backwards() {
    let wall = at("2030-06-01T00:00:00Z");
    let mut clock = MockClock::new();
    let start = at("2024-01-15T10:00:00Z");
    clock.set(start);

    let earlier = at("2024-01-15T09:00:00Z");
    let result = clock.forward_until(earlier, wall);
    assert!(result.is_err());
    assert_eq!(clock.now(wall), start);
    assert_eq!(
        result.unwrap_err().message(),
        "Cannot move clock backwards: current time is 2024-01-15 10:00:00 UTC, target is 2024-01-15 09:00:00 UTC"
    );
}

#[test]
fn test_clock_sync_state() {
    let mut clock = MockClock::new();
    let target = at("2024-01-15T10:30:00Z");
    clock.set(target);

    let state = clock.get_sync_state();
    assert!(state.virtual_time_ms.is_some());
    assert!(state.virtual_time_iso.is_some());
    assert!(state.frozen);
    assert_eq!(state.virtual_time_ms, Some(1_705_314_600_000));
    assert_eq!(state.virtual_time_iso.unwrap(), "2024-01-15T10:30:00+00:00");
    assert_eq!(state.timezone_offset_secs, 0);
}

#[test]
fn durations_of_the_grammar() {
    assert_eq!(parse_duration("2d").unwrap(), Duration::from_secs(172_800));
    assert_eq!(parse_duration("2d").unwrap().as_secs(), 172_800);
    assert_eq!(parse_duration("1h30m").unwrap().as_secs(), 5400);
    assert_eq!(parse_duration("500s").unwrap().as_secs(), 500);
    assert_eq!(parse_duration(" 1d2h3m4s ").unwrap().as_secs(), 93_784);
    assert_eq!(parse_duration("90").unwrap(), Duration::from_secs(90));
    assert_eq!(parse_duration("1m30").unwrap(), Duration::from_secs(90));
    assert_eq!(parse_duration("1.5h").unwrap(), Duration::from_secs(5400));
    assert_eq!(parse_duration("0.5s").unwrap(), Duration::from_millis(500));
    assert_eq!(parse_duration(".25s").unwrap(), Duration::from_millis(250));
    assert_eq!(parse_duration("2.s").unwrap(), Duration::from_secs(2));
    assert_eq!(parse_duration("0.0004s").unwrap(), Duration::zero());
    assert_eq!(parse_duration("1.5").unwrap(), Duration::from_millis(1500));
    assert_eq!(parse_duration("0.000000001").unwrap().subsec_nanos(), 1);
    assert_eq!(parse_duration("1s1s").unwrap().as_millis(), 2000);
    assert_eq!(parse_duration("0s").unwrap(), Duration::zero());
}

fn duration_error(text: &str) -> String {
    match parse_duration(text) {
        Err(ClockError::InvalidDurationFormat(message)) => message,
        other => panic!("unexpected: {:?}", other),
    }
}

#[test]
fn durations_that_are_refused() {
    assert_eq!(duration_error(""), "empty string");
    assert_eq!(duration_error("   "), "empty string");
    assert_eq!(duration_error("500ms"), "expected number before unit 's'");
    assert_eq!(duration_error("h"), "expected number before unit 'h'");
    assert_eq!(duration_error("5x"), "unknown unit 'x'");
    assert_eq!(duration_error("5 s"), "unknown unit ' '");
    assert_eq!(duration_error("1.2.3s"), "invalid number: 1.2.3");
    assert_eq!(duration_error("1.2.3x"), "invalid number: 1.2.3");
    assert_eq!(duration_error(".s"), "invalid number: .");
    assert_eq!(duration_error("1.2.3"), "invalid number: 1.2.3");
    assert_eq!(duration_error("-5s"), "expected number before unit '-'");
    assert_eq!(
        duration_error("99999999999999999999999999d"),
        "duration out of range"
    );
    assert_eq!(duration_error("18446744073709551616"), "duration out of range");
    assert_eq!(
        parse_duration("18446744073709551615").unwrap().as_secs(),
        u64::MAX
    );
    assert_eq!(
        ClockError::InvalidDurationFormat("empty string".to_string()).message(),
        "Invalid duration format: empty string"
    );
}

#[test]
fn times_of_the_grammar() {
    let a = parse_time("1705315800").unwrap();
    assert_eq!(a.timestamp(), 1_705_315_800);
    assert_eq!(a, parse_time("2024-01-15T10:50:00Z").unwrap());
    let b = parse_time("2024-01-15T10:30:00Z").unwrap();
    assert_eq!(b.timestamp(), 1_705_314_600);
    assert_eq!(b, parse_time(" 2024-01-15T11:30:00+01:00 ").unwrap());
    assert_eq!(parse_time("1705314600000").unwrap(), b);
    assert_eq!(parse_time("1000000000000").unwrap().timestamp(), 1_000_000_000_000);
    assert_eq!(parse_time("1000000000001").unwrap().timestamp(), 1_000_000_000);
    assert_eq!(parse_time("-1000000000001").unwrap().timestamp(), -1_000_000_001);
    assert_eq!(parse_time("-1000000000001").unwrap().subsec_nanos(), 999_000_000);
    assert_eq!(parse_time("-1").unwrap().timestamp(), -1);
    assert_eq!(parse_time("+5").unwrap().timestamp(), 5);
    assert_eq!(
        parse_time("2024-01-15T10:30:00.25Z").unwrap().subsec_nanos(),
        250_000_000
    );
    assert_eq!(
        parse_time("2016-12-31T23:59:60Z").unwrap(),
        parse_time("2017-01-01T00:00:00Z").unwrap()
    );
    match parse_time("tomorrow") {
        Err(ClockError::InvalidTimeFormat(message)) => assert_eq!(
            message,
            "could not parse 'tomorrow' as ISO 8601 or Unix timestamp"
        ),
        other => panic!("unexpected: {:?}", other),
    }
    assert!(parse_time("").is_err());
    assert!(parse_time("9223372036854775807").is_err());
    assert!(parse_time("12.5").is_err());
}

#[test]
fn the_reading_decides_before_the_integer() {
    let from_reading = time_from_reading("anything", Some((10, 5))).unwrap();
    assert_eq!(from_reading.timestamp(), 10);
    assert_eq!(from_reading.subsec_nanos(), 5);
    let leap = time_from_reading("x", Some((59, 1_500_000_000))).unwrap();
    assert_eq!(leap.timestamp(), 60);
    assert_eq!(leap.subsec_nanos(), 500_000_000);
    assert!(time_from_reading("x", Some((59, 2_000_000_000))).is_err());
    assert!(time_from_reading("x", Some((i64::MAX, 0))).is_err());
    assert_eq!(time_from_reading(" 42 ", None).unwrap().timestamp(), 42);
    assert!(time_from_reading("x", None).is_err());
}

fn timezone_error(text: &str) -> String {
    match parse_timezone(text) {
        Err(ClockError::InvalidTimezone(message)) => message,
        other => panic!("unexpected: {:?}", other),
    }
}

#[test]
fn timezones() {
    assert_eq!(parse_timezone("UTC").unwrap(), 0);
    assert_eq!(parse_timezone("utc").unwrap(), 0);
    assert_eq!(parse_timezone("Z").unwrap(), 0);
    assert_eq!(parse_timezone(" GMT ").unwrap(), 0);
    assert_eq!(parse_timezone("+05:30").unwrap(), 19_800);
    assert_eq!(parse_timezone("-08:00").unwrap(), -28_800);
    assert_eq!(parse_timezone("+5").unwrap(), 18_000);
    assert_eq!(parse_timezone("-8").unwrap(), -28_800);
    assert_eq!(parse_timezone("EST").unwrap(), -18_000);
    assert_eq!(parse_timezone("edt").unwrap(), -14_400);
    assert_eq!(parse_timezone("CST").unwrap(), -21_600);
    assert_eq!(parse_timezone("CDT").unwrap(), -18_000);
    assert_eq!(parse_timezone("MST").unwrap(), -25_200);
    assert_eq!(parse_timezone("MDT").unwrap(), -21_600);
    assert_eq!(parse_timezone("Pst").unwrap(), -28_800);
    assert_eq!(parse_timezone("PDT").unwrap(), -25_200);
    assert_eq!(parse_timezone("CET").unwrap(), 3_600);
    assert_eq!(parse_timezone("CEST").unwrap(), 7_200);
    assert_eq!(parse_timezone("EET").unwrap(), 7_200);
    assert_eq!(parse_timezone("EEST").unwrap(), 10_800);
    assert_eq!(parse_timezone("IST").unwrap(), 18_000);
    assert_eq!(parse_timezone("JST").unwrap(), 32_400);
    assert_eq!(parse_timezone("KST").unwrap(), 32_400);
    assert_eq!(parse_timezone("SGT").unwrap(), 28_800);
    assert_eq!(parse_timezone("HKT").unwrap(), 28_800);
    assert_eq!(parse_timezone("AEST").unwrap(), 36_000);
    assert_eq!(parse_timezone("ACST").unwrap(), 32_400);
    assert_eq!(parse_timezone("AWST").unwrap(), 28_800);
    assert_eq!(parse_timezone("AEDT").unwrap(), 39_600);
    assert_eq!(parse_timezone("ACDT").unwrap(), 36_000);

    assert_eq!(
        timezone_error("Mars/Olympus"),
        "unknown timezone 'Mars/Olympus'. Use UTC, numeric offset (+05:30), or common abbreviations (EST, PST, etc.)"
    );
    assert_eq!(timezone_error("+x:30"), "invalid hours in '+x:30'");
    assert_eq!(timezone_error("+05:"), "invalid minutes in '+05:'");
    assert_eq!(timezone_error("+05:30:00"), "invalid minutes in '+05:30:00'");
    assert_eq!(timezone_error("+"), "invalid offset '+'");
    assert_eq!(timezone_error("+five"), "invalid offset '+five'");
    assert_eq!(timezone_error("+9999999"), "offset out of range in '+9999999'");
    assert_eq!(timezone_error("z"), timezone_error("z"));
    assert!(parse_timezone("").is_err());
}

#[test]
fn the_clock_by_its_operations() {
    let wall = at("2030-06-01T00:00:00Z");
    let later = at("2030-06-01T00:00:10Z");
    let mut clock = MockClock::new();
    assert!(clock.is_auto_advance_enabled());
    assert_eq!(clock.timezone_offset_secs(), 0);

    // still on real time: forward starts from the wall clock
    assert!(clock.forward(Duration::from_secs(60), wall));
    assert_eq!(clock.now(later), at("2030-06-01T00:01:00Z"));
    assert!(clock.get_sync_state().frozen);

    clock.reset();
    assert!(!clock.is_virtual());
    assert_eq!(clock.now(later), later);
    let state = clock.get_sync_state();
    assert_eq!(state.virtual_time_ms, None);
    assert_eq!(state.virtual_time_iso, None);
    assert!(!state.frozen);

    // auto advance seeds from the wall clock and adds three seconds
    assert!(clock.auto_advance_step(wall));
    assert_eq!(clock.now(later), at("2030-06-01T00:00:03Z"));
    assert!(!clock.get_sync_state().frozen);
    clock.set_step_duration(Duration::from_millis(1500));
    assert!(clock.auto_advance_step(later));
    assert_eq!(clock.now(later).timestamp_millis(), at("2030-06-01T00:00:04Z").timestamp_millis() + 500);
    clock.set_auto_advance(false);
    assert!(!clock.is_auto_advance_enabled());
    let before = clock.now(later);
    assert!(clock.auto_advance_step(later));
    assert_eq!(clock.now(later), before);

    clock.set_timezone(19_800);
    assert_eq!(clock.timezone_offset_secs(), 19_800);
    assert_eq!(clock.get_sync_state().timezone_offset_secs, 19_800);
    assert_eq!(clock.now_local(later), (before, 19_800));
    clock.set_timezone(90_000);
    assert_eq!(clock.now_local(later), (before, 0));
    clock.set_timezone_name("PST").unwrap();
    assert_eq!(clock.timezone_offset_secs(), -28_800);
    assert!(clock.set_timezone_name("nowhere").is_err());
    assert_eq!(clock.timezone_offset_secs(), -28_800);

    // forward_until to the present time is no move backwards
    clock.forward_until(before, wall).unwrap();
    assert_eq!(clock.now(wall), before);

    // what cannot be held is refused and changes nothing
    assert!(!clock.forward(Duration::from_secs(u64::MAX), wall));
    assert_eq!(clock.now(wall), before);
}

#[test]
fn time_does_not_run_backwards() {
    let mut wall = at("2024-01-01T00:00:00Z");
    let mut clock = MockClock::new();
    let mut last = clock.now(wall);
    for round in 0..20u64 {
        wall = wall.checked_add(&Duration::from_secs(round)).unwrap();
        match round % 5 {
            0 => {
                clock.auto_advance_step(wall);
            }
            1 => {
                clock.forward(Duration::from_millis(250 * round), wall);
            }
            2 => {
                let _ = clock.forward_until(at("2024-01-01T00:00:30Z"), wall);
            }
            3 => clock.set_timezone(3600),
            _ => {
                let target = clock.now(wall).checked_add(&Duration::from_secs(1)).unwrap();
                clock.set(target);
            }
        }
        let now = clock.now(wall);
        assert!(!now.is_before(&last));
        last = now;
    }
}

#[test]
fn instants_and_spans() {
    assert!(Instant::new(0, 1_000_000_000).is_none());
    assert!(Instant::new(i64::MAX, 0).is_none());
    let t = Instant::new(-1, 999_999_999).unwrap();
    assert_eq!(t.timestamp_millis(), -1);
    assert_eq!(Instant::from_millis(-1).unwrap().subsec_nanos(), 999_000_000);
    assert_eq!(Instant::from_millis(-1000).unwrap().timestamp(), -1);
    assert_eq!(Instant::from_millis(1500).unwrap().timestamp(), 1);
    let sum = t.checked_add(&Duration::from_nanos(2).unwrap()).unwrap();
    assert_eq!(sum.timestamp(), 0);
    assert_eq!(sum.subsec_nanos(), 1);
    assert!(t.is_before(&sum));
    assert!(!sum.is_before(&sum));
    assert_eq!(Duration::from_millis(1500).as_secs(), 1);
    assert_eq!(Duration::from_millis(1500).subsec_nanos(), 500_000_000);
    assert!(Duration::from_nanos(u128::MAX).is_none());
}

#[test]
fn abbreviations_go_by_the_upper_case_of_unicode() {
    assert_eq!(parse_timezone("est").unwrap(), -5 * 3600);
    assert_eq!(parse_timezone(" Pst ").unwrap(), -8 * 3600);
    // the long s is an S in upper case, the dotless i an I
    assert_eq!(parse_timezone("e\u{17f}t").unwrap(), -5 * 3600);
    assert_eq!(parse_timezone("\u{131}st").unwrap(), parse_timezone("IST").unwrap());
    // but `UTC` is `UTC` in the letters of ASCII alone
    assert_eq!(parse_timezone("utc").unwrap(), 0);
    assert_eq!(parse_timezone("uTc").unwrap(), 0);
    assert!(parse_timezone("u\u{167}c").is_err());
    // what is handed in as the upper case decides
    assert_eq!(timezone_from("est", "EST").unwrap(), -5 * 3600);
    assert!(timezone_from("est", "est").is_err());
    assert_eq!(timezone_from("anything", "JST").unwrap(), 9 * 3600);
    assert_eq!(timezone_from("+02:00", "whatever").unwrap(), 7200);
}
