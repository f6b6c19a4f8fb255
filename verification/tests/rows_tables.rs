use htwk_calendar::config::SEMESTER_EPOCH_YEAR;
use htwk_calendar::dates::{parse_query_stamp, Weekday};
use htwk_calendar::faculties::{Faculty, Study};
use htwk_calendar::rows::schedule_from_tables;
use htwk_calendar::errors::ParseError;
use htwk_calendar::kinds::EventKind;
use htwk_calendar::rows::{normalize_row, raw_events_from_tables, table_events, DayTable};
use htwk_calendar::times::TimeOfDay;
use htwk_calendar::week::Weeks;

fn cells(v: &[&str]) -> Vec<String> {
    v.iter().map(|s| s.to_string()).collect()
}

fn sample_cells() -> Vec<String> {
    cells(&[
        "5-8",
        "09:00",
        "10:30",
        " Mathematik &amp; Statistik ",
        "V",
        "Musterfrau| |Mustermann|",
        "LI101 LI102",
        "  beide Gruppen ",
    ])
}

#[test]
fn row_normalizes_all_fields() {
    let e = normalize_row(&sample_cells(), Weekday::Wednesday).unwrap();
    // Title is HTML-unescaped and trimmed: the wrapper may not hand the
    // text back unchanged.
    assert_eq!(e.title, "Mathematik & Statistik");
    assert_eq!(e.notes, "beide Gruppen");
    // The code column is lowercased before the table lookup.
    assert_eq!(e.kind, EventKind::Vorlesung);
    assert_eq!(e.rooms, vec!["LI101".to_string(), "LI102".to_string()]);
    // Staff splits on '|'; truly empty segments are dropped, while
    // whitespace-only ones are kept as given.
    assert_eq!(
        e.staff,
        vec!["Musterfrau".to_string(), " ".to_string(), "Mustermann".to_string()]
    );
    assert_eq!(e.weekday, Weekday::Wednesday);
    match e.weeks {
        Weeks::Range { start, end } => {
            assert_eq!(start, 5);
            assert_eq!(end, 8);
        }
        other => panic!("expected Range 5-8, got {:?}", other),
    }
    assert_eq!(e.start, TimeOfDay { hour: 9, minute: 0, second: 0 });
    assert_eq!(e.end, TimeOfDay { hour: 10, minute: 30, second: 0 });
}

#[test]
fn short_row_is_rejected() {
    let row = cells(&["5", "09:00", "10:30", "T", "v", "x", "y"]);
    assert_eq!(
        normalize_row(&row, Weekday::Monday).unwrap_err(),
        ParseError::Row
    );
}

#[test]
fn unknown_code_never_rejects_a_row() {
    let mut row = sample_cells();
    row[4] = "seltsam".to_string();
    let e = normalize_row(&row, Weekday::Monday).unwrap();
    assert_eq!(e.kind, EventKind::Unknown);
}

#[test]
fn bad_week_cell_fails_the_row() {
    let mut row = sample_cells();
    row[0] = "fünf".to_string();
    assert_eq!(
        normalize_row(&row, Weekday::Monday).unwrap_err(),
        ParseError::Number
    );
}

#[test]
fn bad_time_cell_fails_the_row() {
    let mut row = sample_cells();
    row[1] = "0900".to_string();
    assert_eq!(
        normalize_row(&row, Weekday::Monday).unwrap_err(),
        ParseError::TimeSeparator
    );
}

#[test]
fn empty_rooms_cell_gives_no_rooms() {
    let mut row = sample_cells();
    row[6] = "   ".to_string();
    let e = normalize_row(&row, Weekday::Monday).unwrap();
    assert!(e.rooms.is_empty());
}

#[test]
fn table_skips_header_and_maps_day_label() {
    let t = DayTable {
        label: "Mittwoch".to_string(),
        rows: vec![
            cells(&["Woche", "von", "bis", "Titel", "Art", "Wer", "Wo", "Notiz"]),
            sample_cells(),
        ],
    };
    let evs = table_events(&t).unwrap();
    assert_eq!(evs.len(), 1);
    assert_eq!(evs[0].weekday, Weekday::Wednesday);
}

#[test]
fn unknown_day_label_is_fatal() {
    let t = DayTable { label: "Feiertag".to_string(), rows: vec![sample_cells()] };
    assert_eq!(table_events(&t).unwrap_err(), ParseError::Weekday);
}

#[test]
fn all_seven_day_labels_resolve() {
    let days = [
        ("Montag", Weekday::Monday),
        ("Dienstag", Weekday::Tuesday),
        ("Mittwoch", Weekday::Wednesday),
        ("Donnerstag", Weekday::Thursday),
        ("Freitag", Weekday::Friday),
        ("Samstag", Weekday::Saturday),
        ("Sonntag", Weekday::Sunday),
    ];
    for (label, wd) in days {
        let t = DayTable {
            label: label.to_string(),
            rows: vec![cells(&["h", "h", "h", "h", "h", "h", "h", "h"]), sample_cells()],
        };
        let evs = table_events(&t).unwrap();
        assert_eq!(evs[0].weekday, wd);
    }
}

#[test]
fn tables_concatenate_in_order() {
    let header = cells(&["w", "v", "b", "t", "a", "p", "r", "n"]);
    let monday = DayTable {
        label: "Montag".to_string(),
        rows: vec![header.clone(), sample_cells()],
    };
    let friday = DayTable {
        label: "Freitag".to_string(),
        rows: vec![header, sample_cells(), sample_cells()],
    };
    let evs = raw_events_from_tables(&vec![monday, friday]).unwrap();
    assert_eq!(evs.len(), 3);
    assert_eq!(evs[0].weekday, Weekday::Monday);
    assert_eq!(evs[1].weekday, Weekday::Friday);
    assert_eq!(evs[2].weekday, Weekday::Friday);
}

#[test]
fn empty_table_yields_no_events() {
    let t = DayTable { label: "Montag".to_string(), rows: vec![] };
    assert_eq!(table_events(&t).unwrap().len(), 0);
}

#[test]
fn whole_pipeline_from_tables_to_events() {
    let header = cells(&["w", "v", "b", "t", "a", "p", "r", "n"]);
    let monday = DayTable {
        label: "Montag".to_string(),
        rows: vec![
            header,
            cells(&["1-2", "09:00", "10:30", "Mathe", "v", "Frau X", "LI101", ""]),
        ],
    };
    let evs = schedule_from_tables(&vec![monday], SEMESTER_EPOCH_YEAR).unwrap();
    assert_eq!(evs.len(), 2);
    assert_eq!(evs[0].title, "Mathe");
    assert_eq!(evs[0].kind_display, "Vorlesung");
    assert_eq!(evs[0].color, "#275BB6");
    assert_eq!(evs[0].start.date.year, 2023);
    assert_eq!(evs[0].start.date.month, 1);
    assert_eq!(evs[0].start.date.day, 2);
    assert_eq!(evs[1].start.date.day, 9);
    assert_eq!(evs[0].start.time, TimeOfDay { hour: 9, minute: 0, second: 0 });
    assert_eq!(evs[0].end.time, TimeOfDay { hour: 10, minute: 30, second: 0 });
}

#[test]
fn pipeline_fails_fast_on_a_bad_row() {
    let header = cells(&["w", "v", "b", "t", "a", "p", "r", "n"]);
    let monday = DayTable {
        label: "Montag".to_string(),
        rows: vec![
            header,
            cells(&["eins", "09:00", "10:30", "Mathe", "v", "Frau X", "LI101", ""]),
        ],
    };
    assert_eq!(
        schedule_from_tables(&vec![monday], SEMESTER_EPOCH_YEAR).unwrap_err(),
        ParseError::Number
    );
}

#[test]
fn study_tree_clones_whole() {
    let study = Study {
        faculties: vec![Faculty {
            id: "FIMN".to_string(),
            name: "Informatik".to_string(),
            subjects: vec![],
        }],
    };
    let copy = study.clone();
    assert_eq!(copy.faculties.len(), 1);
    assert_eq!(copy.faculties[0].id, "FIMN");
}

#[test]
fn query_stamp_parses_iso8601() {
    let dt = parse_query_stamp("2023-05-01T09:30:15").unwrap();
    assert_eq!(dt.date.year, 2023);
    assert_eq!(dt.date.month, 5);
    assert_eq!(dt.date.day, 1);
    assert_eq!(dt.time, TimeOfDay { hour: 9, minute: 30, second: 15 });
}

#[test]
fn malformed_query_stamp_is_none() {
    assert!(parse_query_stamp("yesterday").is_none());
}
