use kindle_dash::tides::{
    get_two_tides, parse_line, parse_table, two_tides_from_table, LineError, Tide, TideEntry,
    TideError, TimeOfDay,
};

fn at(h: u32, m: u32) -> TimeOfDay {
    TimeOfDay::from_hms(h, m, 0).unwrap()
}

const TABLE: &str = "08:10\t0.52\tbajamar\n14:30\t2.41\tpleamar\n20:45\t0.61\tbajamar\n";

#[test]
fn window_between_events() {
    let r = two_tides_from_table(TABLE, at(10, 0)).unwrap();
    assert_eq!(r, (Tide::Low("08:10".to_string()), Tide::High("14:30".to_string())));
}

#[test]
fn window_before_first_event() {
    let r = two_tides_from_table(TABLE, at(7, 0)).unwrap();
    assert_eq!(r, (Tide::Low("08:10".to_string()), Tide::High("14:30".to_string())));
}

#[test]
fn window_after_last_event_falls_back_to_last_two() {
    let r = two_tides_from_table(TABLE, at(23, 0)).unwrap();
    assert_eq!(r, (Tide::High("14:30".to_string()), Tide::Low("20:45".to_string())));
}

#[test]
fn window_at_exact_event_time() {
    let r = two_tides_from_table(TABLE, at(14, 30)).unwrap();
    assert_eq!(r, (Tide::High("14:30".to_string()), Tide::Low("20:45".to_string())));
}

#[test]
fn too_few_events_is_not_enough_data() {
    assert_eq!(get_two_tides(&[], at(10, 0)), Err(TideError::NotEnoughData));
    let one = vec![TideEntry { time: at(8, 10), tide: Tide::Low("08:10".to_string()) }];
    assert_eq!(get_two_tides(&one, at(10, 0)), Err(TideError::NotEnoughData));
    assert_eq!(
        two_tides_from_table("08:10\tx\tbajamar\nnonsense\n", at(10, 0)),
        Err(TideError::NotEnoughData)
    );
}

#[test]
fn window_does_not_require_alternation() {
    let v = vec![
        TideEntry { time: at(1, 0), tide: Tide::High("01:00".to_string()) },
        TideEntry { time: at(2, 0), tide: Tide::High("02:00".to_string()) },
        TideEntry { time: at(3, 0), tide: Tide::High("03:00".to_string()) },
    ];
    let r = get_two_tides(&v, at(2, 30)).unwrap();
    assert_eq!(r, (Tide::High("02:00".to_string()), Tide::High("03:00".to_string())));
}

#[test]
fn parse_line_reads_time_and_kind() {
    let e = parse_line("08:10\t0.52\tbajamar").unwrap();
    assert_eq!(e.time, TimeOfDay { secs: 8 * 3600 + 10 * 60, frac: 0 });
    assert_eq!(e.tide, Tide::Low("08:10".to_string()));
    let e = parse_line("14:30:15\t2.41\t pleamar \r").unwrap();
    assert_eq!(e.time, TimeOfDay { secs: 14 * 3600 + 30 * 60 + 15, frac: 0 });
    assert_eq!(e.tide, Tide::High("14:30:15".to_string()));
}

#[test]
fn parse_line_skips_malformed_lines() {
    assert_eq!(parse_line("08:10\t0.52"), None);
    assert_eq!(parse_line(""), None);
    assert_eq!(parse_line("noon\t0.52\tbajamar"), None);
    assert_eq!(parse_line("08:10\t0.52\tmarea"), None);
    assert_eq!(parse_line("25:10\t0.52\tbajamar"), None);
}

#[test]
fn parse_table_keeps_order_and_drops_other_lines() {
    let t = parse_table("header line\n08:10\t0.5\tbajamar\r\n\n14:30\t2.4\tpleamar");
    assert_eq!(t.len(), 2);
    assert_eq!(t[0].tide, Tide::Low("08:10".to_string()));
    assert_eq!(t[1].tide, Tide::High("14:30".to_string()));
}

#[test]
fn tide_try_from_line() {
    assert_eq!(Tide::try_from("later\tx\tpleamar"), Ok(Tide::High("later".to_string())));
    assert_eq!(Tide::try_from("a\tb"), Err(LineError::TooFewFields));
    assert_eq!(Tide::try_from("a\tb\tc"), Err(LineError::UnknownKind));
}

#[test]
fn time_of_day_bounds() {
    assert_eq!(TimeOfDay::from_hms(24, 0, 0), None);
    assert_eq!(TimeOfDay::from_hms(23, 59, 59), Some(TimeOfDay { secs: 86399, frac: 0 }));
    assert!(at(8, 10).is_at_or_before(&at(8, 10)));
    assert!(!at(8, 11).is_at_or_before(&at(8, 10)));
}
