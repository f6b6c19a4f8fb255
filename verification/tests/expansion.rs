use htwk_calendar::config::SEMESTER_EPOCH_YEAR;
use htwk_calendar::dates::Weekday;
use htwk_calendar::errors::ParseError;
use htwk_calendar::events::{expand_raw_event, RawEvent};
use htwk_calendar::kinds::EventKind;
use htwk_calendar::times::TimeOfDay;
use htwk_calendar::week::Weeks;

fn sample_raw(weeks: Weeks) -> RawEvent {
    RawEvent {
        title: "Mathematik 1".to_string(),
        notes: "Raumänderung".to_string(),
        kind: EventKind::Vorlesung,
        rooms: vec!["LI101".to_string(), "LI102".to_string()],
        staff: vec!["Musterfrau".to_string()],
        weekday: Weekday::Monday,
        weeks,
        start: TimeOfDay { hour: 9, minute: 0, second: 0 },
        end: TimeOfDay { hour: 10, minute: 30, second: 0 },
    }
}

#[test]
fn range_expands_to_one_event_per_week() {
    let raw = sample_raw(Weeks::Range { start: 1, end: 3 });
    let evs = expand_raw_event(&raw, SEMESTER_EPOCH_YEAR).unwrap();
    assert_eq!(evs.len(), 3);
    for e in &evs {
        assert_eq!(e.title, "Mathematik 1");
        assert_eq!(e.notes, "Raumänderung");
        assert_eq!(e.kind, EventKind::Vorlesung);
        assert_eq!(e.kind_display, "Vorlesung");
        assert_eq!(e.color, "#275BB6");
        assert_eq!(e.rooms, vec!["LI101".to_string(), "LI102".to_string()]);
        assert_eq!(e.staff, vec!["Musterfrau".to_string()]);
        assert_eq!(e.start.time, TimeOfDay { hour: 9, minute: 0, second: 0 });
        assert_eq!(e.end.time, TimeOfDay { hour: 10, minute: 30, second: 0 });
        assert_eq!(e.start.date, e.end.date);
    }
    // The three occurrences differ only in their dates, one week apart.
    assert_eq!(evs[0].start.date.year, 2023);
    assert_eq!(evs[0].start.date.month, 1);
    assert_eq!(evs[0].start.date.day, 2); // Monday of ISO week 1 of 2023
    assert_eq!(evs[1].start.date.day, 9);
    assert_eq!(evs[2].start.date.day, 16);
}

#[test]
fn single_week_expands_to_one_event() {
    let raw = sample_raw(Weeks::Single(1));
    let evs = expand_raw_event(&raw, SEMESTER_EPOCH_YEAR).unwrap();
    assert_eq!(evs.len(), 1);
    assert_eq!(evs[0].start.date.year, 2023);
    assert_eq!(evs[0].start.date.month, 1);
    assert_eq!(evs[0].start.date.day, 2);
}

#[test]
fn inverted_range_expands_to_nothing() {
    let raw = sample_raw(Weeks::Range { start: 8, end: 5 });
    let evs = expand_raw_event(&raw, SEMESTER_EPOCH_YEAR).unwrap();
    assert_eq!(evs.len(), 0);
}

#[test]
fn week_53_falls_in_the_next_year() {
    let raw = sample_raw(Weeks::Single(53));
    let evs = expand_raw_event(&raw, SEMESTER_EPOCH_YEAR).unwrap();
    assert_eq!(evs.len(), 1);
    // Week 53 carries: year offset 1, effective week 1 of 2024.
    assert_eq!(evs[0].start.date.year, 2024);
    assert_eq!(evs[0].start.date.month, 1);
    assert_eq!(evs[0].start.date.day, 1); // Monday of ISO week 1 of 2024
}

#[test]
fn week_104_is_week_52_two_years_on() {
    let raw = sample_raw(Weeks::Single(104));
    let evs = expand_raw_event(&raw, SEMESTER_EPOCH_YEAR).unwrap();
    assert_eq!(evs.len(), 1);
    // Week 104 carries twice: year offset 2, effective week 52 of 2025.
    assert_eq!(evs[0].start.date.year, 2025);
    assert_eq!(evs[0].start.date.month, 12);
    assert_eq!(evs[0].start.date.day, 22); // Monday of ISO week 52 of 2025
}

#[test]
fn weekday_is_respected() {
    let mut raw = sample_raw(Weeks::Single(1));
    raw.weekday = Weekday::Friday;
    let evs = expand_raw_event(&raw, SEMESTER_EPOCH_YEAR).unwrap();
    assert_eq!(evs[0].start.date.day, 6); // Friday of ISO week 1 of 2023
}

#[test]
fn week_outside_supported_years_is_an_error() {
    // 52 weeks per year: year 2023 + 500000/52 is far past year 9999.
    let raw = sample_raw(Weeks::Single(500_000));
    assert_eq!(
        expand_raw_event(&raw, SEMESTER_EPOCH_YEAR).unwrap_err(),
        ParseError::Date
    );
}

#[test]
fn week_reaching_the_top_calendar_year_is_an_error() {
    // 2023 + 414752/52 is year 9999, the calendar's last year. Its final
    // ISO week spills past December 31, 9999 (a Friday), so the whole top
    // year is treated as out of range — on every weekday, not only the
    // spilling ones.
    let mut raw = sample_raw(Weeks::Single(414_752));
    raw.weekday = Weekday::Saturday;
    assert_eq!(
        expand_raw_event(&raw, SEMESTER_EPOCH_YEAR).unwrap_err(),
        ParseError::Date
    );
    let raw = sample_raw(Weeks::Single(414_752));
    assert_eq!(
        expand_raw_event(&raw, SEMESTER_EPOCH_YEAR).unwrap_err(),
        ParseError::Date
    );
    // The year below the top one still resolves.
    let raw = sample_raw(Weeks::Single(414_700));
    let evs = expand_raw_event(&raw, SEMESTER_EPOCH_YEAR).unwrap();
    assert_eq!(evs[0].start.date.year, 9998);
}

#[test]
fn multiple_weeks_expand_in_order() {
    let raw = sample_raw(Weeks::Multiple(vec![1, 3]));
    let evs = expand_raw_event(&raw, SEMESTER_EPOCH_YEAR).unwrap();
    assert_eq!(evs.len(), 2);
    assert_eq!(evs[0].start.date.day, 2);
    assert_eq!(evs[1].start.date.day, 16);
}
