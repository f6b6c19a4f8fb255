use htwk_calendar::errors::ParseError;
use htwk_calendar::kinds::EventKind;
use htwk_calendar::times::{parse_time, TimeOfDay};
use htwk_calendar::week::{parse_week_spec, split_week, Weeks};

#[test]
fn week_spec_single() {
    match parse_week_spec("5") {
        Ok(Weeks::Single(n)) => assert_eq!(n, 5),
        other => panic!("expected Single(5), got {:?}", other),
    }
}

#[test]
fn week_spec_range() {
    match parse_week_spec("5-8") {
        Ok(Weeks::Range { start, end }) => {
            assert_eq!(start, 5);
            assert_eq!(end, 8);
        }
        other => panic!("expected Range 5-8, got {:?}", other),
    }
}

#[test]
fn week_spec_list_flattens() {
    match parse_week_spec("5, 7-8") {
        Ok(Weeks::Multiple(ws)) => assert_eq!(ws, vec![5, 7, 8]),
        other => panic!("expected Multiple([5,7,8]), got {:?}", other),
    }
}

#[test]
fn week_spec_list_of_singles() {
    match parse_week_spec("1, 2, 40") {
        Ok(Weeks::Multiple(ws)) => assert_eq!(ws, vec![1, 2, 40]),
        other => panic!("expected Multiple([1,2,40]), got {:?}", other),
    }
}

#[test]
fn week_spec_inverted_range_is_kept() {
    // An inverted range parses; it expands to nothing downstream.
    match parse_week_spec("8-5") {
        Ok(Weeks::Range { start, end }) => {
            assert_eq!(start, 8);
            assert_eq!(end, 5);
        }
        other => panic!("expected Range 8-5, got {:?}", other),
    }
}

#[test]
fn week_spec_plus_sign_accepted() {
    match parse_week_spec("+5") {
        Ok(Weeks::Single(n)) => assert_eq!(n, 5),
        other => panic!("expected Single(5), got {:?}", other),
    }
}

#[test]
fn week_spec_malformed_number() {
    assert_eq!(parse_week_spec("x").unwrap_err(), ParseError::Number);
    assert_eq!(parse_week_spec("").unwrap_err(), ParseError::Number);
    assert_eq!(parse_week_spec("5-x").unwrap_err(), ParseError::Number);
    // Overflowing u32 is rejected, not wrapped.
    assert_eq!(parse_week_spec("4294967296").unwrap_err(), ParseError::Number);
}

#[test]
fn week_spec_bare_comma_token() {
    // After splitting on ", ", a token holding a bare comma is malformed.
    assert_eq!(parse_week_spec("5,6, 7").unwrap_err(), ParseError::WeekToken);
}

#[test]
fn time_parses() {
    assert_eq!(
        parse_time("09:30").unwrap(),
        TimeOfDay { hour: 9, minute: 30, second: 0 }
    );
    assert_eq!(
        parse_time("23:59").unwrap(),
        TimeOfDay { hour: 23, minute: 59, second: 0 }
    );
}

#[test]
fn time_missing_separator() {
    assert_eq!(parse_time("0930").unwrap_err(), ParseError::TimeSeparator);
}

#[test]
fn time_out_of_range() {
    assert_eq!(parse_time("25:00").unwrap_err(), ParseError::TimeRange);
    assert_eq!(parse_time("09:60").unwrap_err(), ParseError::TimeRange);
}

#[test]
fn time_not_numeric() {
    assert_eq!(parse_time("ab:10").unwrap_err(), ParseError::Number);
    assert_eq!(parse_time("10:cd").unwrap_err(), ParseError::Number);
    // A second colon makes the minute part non-numeric.
    assert_eq!(parse_time("10:30:00").unwrap_err(), ParseError::Number);
}

#[test]
fn effective_week_identity_through_52() {
    for w in 1..=52u32 {
        let (_, ew) = split_week(w);
        assert_eq!(ew, w);
    }
    assert_eq!(split_week(52), (1, 52));
}

#[test]
fn effective_week_rollover() {
    assert_eq!(split_week(53), (1, 1));
    assert_eq!(split_week(104), (2, 52));
}

#[test]
fn kind_codes_decode() {
    assert_eq!(EventKind::of_code("v"), EventKind::Vorlesung);
    assert_eq!(EventKind::of_code("vp"), EventKind::VorlesungPflicht);
    assert_eq!(EventKind::of_code("vw"), EventKind::VorlesungWahlpflicht);
    assert_eq!(EventKind::of_code("s"), EventKind::Seminar);
    assert_eq!(EventKind::of_code("sp"), EventKind::SeminarPflicht);
    assert_eq!(EventKind::of_code("sw"), EventKind::SeminarWahlpflicht);
    assert_eq!(EventKind::of_code("p"), EventKind::Praktikum);
    assert_eq!(EventKind::of_code("pp"), EventKind::PraktikumPflicht);
    assert_eq!(EventKind::of_code("pw"), EventKind::PraktikumWahlpflicht);
    assert_eq!(EventKind::of_code("zv"), EventKind::Zusatzveranstaltung);
    assert_eq!(EventKind::of_code("fak"), EventKind::FakultativeVeranstaltung);
    assert_eq!(EventKind::of_code("tut"), EventKind::Tutorium);
    assert_eq!(EventKind::of_code("pf"), EventKind::Pflicht);
    assert_eq!(EventKind::of_code("wpf"), EventKind::Wahlpflicht);
    assert_eq!(EventKind::of_code("gebucht"), EventKind::Gebucht);
    assert_eq!(EventKind::of_code("sperr"), EventKind::Sperr);
}

#[test]
fn unknown_kind_code_is_unknown_not_error() {
    let k = EventKind::of_code("zzz");
    assert_eq!(k, EventKind::Unknown);
    assert_eq!(k.label(), "Unbekannt");
    assert_eq!(k.color(), "#575757");
}

#[test]
fn kind_tables_are_fixed() {
    assert_eq!(EventKind::Vorlesung.color(), "#275BB6");
    assert_eq!(EventKind::Seminar.color(), "#00787D");
    assert_eq!(EventKind::Praktikum.color(), "#FF8863");
    assert_eq!(EventKind::Tutorium.color(), "#E7004F");
    assert_eq!(EventKind::Pflicht.color(), "#FD0049");
    assert_eq!(EventKind::Gebucht.color(), "#575757");
    assert_eq!(EventKind::Vorlesung.label(), "Vorlesung");
    assert_eq!(EventKind::VorlesungPflicht.label(), "Vorlesung (Pflicht)");
    assert_eq!(
        EventKind::FakultativeVeranstaltung.label(),
        "fakultative Veranstaltung"
    );
}

#[test]
fn error_descriptions() {
    assert_eq!(ParseError::Number.describe(), "malformed number");
    assert_eq!(ParseError::Weekday.describe(), "unrecognized day label");
}
