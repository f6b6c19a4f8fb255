use htwk_calendar::dates::{Date, DateTime};
use htwk_calendar::errors::ParseError;
use htwk_calendar::events::{filter_events, query_bounds, Event, TimeRange};
use htwk_calendar::kinds::EventKind;
use htwk_calendar::times::TimeOfDay;

fn stamp(hour: u8, minute: u8) -> DateTime {
    DateTime {
        date: Date { year: 2023, month: 5, day: 1 },
        time: TimeOfDay { hour, minute, second: 0 },
    }
}

fn event_at(start: DateTime, end: DateTime) -> Event {
    Event {
        title: "T".to_string(),
        notes: String::new(),
        kind: EventKind::Seminar,
        kind_display: "Seminar".to_string(),
        rooms: vec![],
        staff: vec![],
        color: "#00787D".to_string(),
        start,
        end,
    }
}

#[test]
fn end_bound_excludes_event_ending_after_it() {
    // Event 09:00-10:30 with filter end=09:30: excluded, 10:30 > 09:30.
    let evs = vec![event_at(stamp(9, 0), stamp(10, 30))];
    let kept = filter_events(&evs, None, Some(stamp(9, 30)));
    assert_eq!(kept.len(), 0);
}

#[test]
fn end_bound_keeps_event_ending_by_it() {
    let evs = vec![event_at(stamp(9, 0), stamp(9, 20))];
    let kept = filter_events(&evs, None, Some(stamp(9, 30)));
    assert_eq!(kept.len(), 1);
}

#[test]
fn start_bound_excludes_event_starting_before_it() {
    // Event starting 09:00 with filter start=09:30: excluded, 09:00 < 09:30.
    let evs = vec![event_at(stamp(9, 0), stamp(10, 30))];
    let kept = filter_events(&evs, Some(stamp(9, 30)), None);
    assert_eq!(kept.len(), 0);
}

#[test]
fn start_bound_keeps_event_starting_at_or_after_it() {
    let evs = vec![event_at(stamp(9, 30), stamp(10, 30))];
    let kept = filter_events(&evs, Some(stamp(9, 30)), None);
    assert_eq!(kept.len(), 1);
}

#[test]
fn no_bounds_returns_all_events_unfiltered() {
    let evs = vec![
        event_at(stamp(9, 0), stamp(10, 30)),
        event_at(stamp(11, 0), stamp(12, 30)),
        event_at(stamp(13, 0), stamp(14, 30)),
    ];
    let kept = filter_events(&evs, None, None);
    assert_eq!(kept.len(), 3);
}

#[test]
fn both_bounds_keep_overlapping_events() {
    let evs = vec![
        event_at(stamp(8, 0), stamp(8, 45)),   // ends before the range
        event_at(stamp(9, 0), stamp(10, 30)),  // overlaps it
        event_at(stamp(12, 0), stamp(13, 0)),  // starts after it
    ];
    let kept = filter_events(&evs, Some(stamp(9, 15)), Some(stamp(10, 0)));
    assert_eq!(kept.len(), 1);
    assert_eq!(kept[0].start, stamp(9, 0));
}

#[test]
fn filter_keeps_order() {
    let evs = vec![
        event_at(stamp(9, 0), stamp(9, 30)),
        event_at(stamp(10, 0), stamp(10, 30)),
    ];
    let kept = filter_events(&evs, None, Some(stamp(11, 0)));
    assert_eq!(kept.len(), 2);
    assert!(kept[0].start.time.hour == 9 && kept[1].start.time.hour == 10);
}

#[test]
fn query_bounds_parse_and_fail() {
    let ok = TimeRange {
        start: Some("2023-05-01T09:30:00".to_string()),
        end: None,
    };
    let (s, e) = query_bounds(&ok).unwrap();
    assert_eq!(s.unwrap(), stamp(9, 30));
    assert!(e.is_none());

    let bad = TimeRange { start: Some("not a time".to_string()), end: None };
    assert_eq!(query_bounds(&bad).unwrap_err(), ParseError::Stamp);

    let none = TimeRange { start: None, end: None };
    let (s, e) = query_bounds(&none).unwrap();
    assert!(s.is_none() && e.is_none());
}
