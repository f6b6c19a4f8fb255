//! The closed enumeration of course-type codes, with the fixed mapping
//! tables for display labels and display colors.

use vstd::prelude::*;
use crate::strutil::str_eq;

verus! {

/// Kind of a timetable event. Unrecognized codes map to `Unknown`; they are
/// a data-quality signal, not an error.
#[derive(Clone, Copy, Debug, PartialEq, Eq, Structural)]
pub enum EventKind {
    Vorlesung,
    VorlesungPflicht,
    VorlesungWahlpflicht,
    Seminar,
    SeminarPflicht,
    SeminarWahlpflicht,
    Praktikum,
    PraktikumPflicht,
    PraktikumWahlpflicht,
    Zusatzveranstaltung,
    FakultativeVeranstaltung,
    Tutorium,
    Pflicht,
    Wahlpflicht,
    Gebucht,
    Sperr,
    Unknown,
}

impl EventKind {
    /// The fixed display color of each kind.
    pub open spec fn color_spec(self) -> Seq<char> {
        match self {
            EventKind::Vorlesung => "#275BB6"@,
            EventKind::VorlesungPflicht => "#275BB6"@,
            EventKind::VorlesungWahlpflicht => "#275BB6"@,
            EventKind::Seminar => "#00787D"@,
            EventKind::SeminarPflicht => "#00787D"@,
            EventKind::SeminarWahlpflicht => "#00787D"@,
            EventKind::Praktikum => "#FF8863"@,
            EventKind::PraktikumPflicht => "#FF8863"@,
            EventKind::PraktikumWahlpflicht => "#FF8863"@,
            EventKind::Zusatzveranstaltung => "#E7004F"@,
            EventKind::FakultativeVeranstaltung => "#E7004F"@,
            EventKind::Tutorium => "#E7004F"@,
            EventKind::Pflicht => "#FD0049"@,
            EventKind::Wahlpflicht => "#FD0049"@,
            EventKind::Gebucht => "#575757"@,
            EventKind::Sperr => "#575757"@,
            EventKind::Unknown => "#575757"@,
        }
    }

    /// The fixed display label of each kind.
    pub open spec fn label_spec(self) -> Seq<char> {
        match self {
            EventKind::Vorlesung => "Vorlesung"@,
            EventKind::VorlesungPflicht => "Vorlesung (Pflicht)"@,
            EventKind::VorlesungWahlpflicht => "Vorlesung (Wahlpflicht)"@,
            EventKind::Seminar => "Seminar"@,
            EventKind::SeminarPflicht => "Seminar (Pflicht)"@,
            EventKind::SeminarWahlpflicht => "Seminar (Wahlpflicht)"@,
            EventKind::Praktikum => "Praktikum"@,
            EventKind::PraktikumPflicht => "Praktikum (Pflicht)"@,
            EventKind::PraktikumWahlpflicht => "Praktikum (Wahlpflicht)"@,
            EventKind::Zusatzveranstaltung => "Zusatzveranstaltung"@,
            EventKind::FakultativeVeranstaltung => "fakultative Veranstaltung"@,
            EventKind::Tutorium => "Tutorium"@,
            EventKind::Pflicht => "Pflicht"@,
            EventKind::Wahlpflicht => "Wahlpflicht"@,
            EventKind::Gebucht => "Gebucht"@,
            EventKind::Sperr => "Sperr"@,
            EventKind::Unknown => "Unbekannt"@,
        }
    }

    /// The kind encoded by a (lower-case) course-type code. Codes outside
    /// the table encode `Unknown`.
    pub open spec fn of_code_spec(code: Seq<char>) -> EventKind {
        if code == "v"@ {
            EventKind::Vorlesung
        } else if code == "vp"@ {
            EventKind::VorlesungPflicht
        } else if code == "vw"@ {
            EventKind::VorlesungWahlpflicht
        } else if code == "s"@ {
            EventKind::Seminar
        } else if code == "sp"@ {
            EventKind::SeminarPflicht
        } else if code == "sw"@ {
            EventKind::SeminarWahlpflicht
        } else if code == "p"@ {
            EventKind::Praktikum
        } else if code == "pp"@ {
            EventKind::PraktikumPflicht
        } else if code == "pw"@ {
            EventKind::PraktikumWahlpflicht
        } else if code == "zv"@ {
            EventKind::Zusatzveranstaltung
        } else if code == "fak"@ {
            EventKind::FakultativeVeranstaltung
        } else if code == "tut"@ {
            EventKind::Tutorium
        } else if code == "pf"@ {
            EventKind::Pflicht
        } else if code == "wpf"@ {
            EventKind::Wahlpflicht
        } else if code == "gebucht"@ {
            EventKind::Gebucht
        } else if code == "sperr"@ {
            EventKind::Sperr
        } else {
            EventKind::Unknown
        }
    }

    /// The fixed display color of this kind.
    pub fn color(self) -> (r: &'static str)
        ensures
            r@ == self.color_spec(),
    {
        match self {
            EventKind::Vorlesung => "#275BB6",
            EventKind::VorlesungPflicht => "#275BB6",
            EventKind::VorlesungWahlpflicht => "#275BB6",
            EventKind::Seminar => "#00787D",
            EventKind::SeminarPflicht => "#00787D",
            EventKind::SeminarWahlpflicht => "#00787D",
            EventKind::Praktikum => "#FF8863",
            EventKind::PraktikumPflicht => "#FF8863",
            EventKind::PraktikumWahlpflicht => "#FF8863",
            EventKind::Zusatzveranstaltung => "#E7004F",
            EventKind::FakultativeVeranstaltung => "#E7004F",
            EventKind::Tutorium => "#E7004F",
            EventKind::Pflicht => "#FD0049",
            EventKind::Wahlpflicht => "#FD0049",
            EventKind::Gebucht => "#575757",
            EventKind::Sperr => "#575757",
            EventKind::Unknown => "#575757",
        }
    }

    /// The fixed display label of this kind.
    pub fn label(self) -> (r: &'static str)
        ensures
            r@ == self.label_spec(),
    {
        match self {
            EventKind::Vorlesung => "Vorlesung",
            EventKind::VorlesungPflicht => "Vorlesung (Pflicht)",
            EventKind::VorlesungWahlpflicht => "Vorlesung (Wahlpflicht)",
            EventKind::Seminar => "Seminar",
            EventKind::SeminarPflicht => "Seminar (Pflicht)",
            EventKind::SeminarWahlpflicht => "Seminar (Wahlpflicht)",
            EventKind::Praktikum => "Praktikum",
            EventKind::PraktikumPflicht => "Praktikum (Pflicht)",
            EventKind::PraktikumWahlpflicht => "Praktikum (Wahlpflicht)",
            EventKind::Zusatzveranstaltung => "Zusatzveranstaltung",
            EventKind::FakultativeVeranstaltung => "fakultative Veranstaltung",
            EventKind::Tutorium => "Tutorium",
            EventKind::Pflicht => "Pflicht",
            EventKind::Wahlpflicht => "Wahlpflicht",
            EventKind::Gebucht => "Gebucht",
            EventKind::Sperr => "Sperr",
            EventKind::Unknown => "Unbekannt",
        }
    }

    /// Decode a (lower-case) course-type code. Total: codes outside the
    /// table yield `Unknown`, never an error.
    pub fn of_code(code: &str) -> (r: EventKind)
        ensures
            r == EventKind::of_code_spec(code@),
    {
        if str_eq(code, "v") {
            EventKind::Vorlesung
        } else if str_eq(code, "vp") {
            EventKind::VorlesungPflicht
        } else if str_eq(code, "vw") {
            EventKind::VorlesungWahlpflicht
        } else if str_eq(code, "s") {
            EventKind::Seminar
        } else if str_eq(code, "sp") {
            EventKind::SeminarPflicht
        } else if str_eq(code, "sw") {
            EventKind::SeminarWahlpflicht
        } else if str_eq(code, "p") {
            EventKind::Praktikum
        } else if str_eq(code, "pp") {
            EventKind::PraktikumPflicht
        } else if str_eq(code, "pw") {
            EventKind::PraktikumWahlpflicht
        } else if str_eq(code, "zv") {
            EventKind::Zusatzveranstaltung
        } else if str_eq(code, "fak") {
            EventKind::FakultativeVeranstaltung
        } else if str_eq(code, "tut") {
            EventKind::Tutorium
        } else if str_eq(code, "pf") {
            EventKind::Pflicht
        } else if str_eq(code, "wpf") {
            EventKind::Wahlpflicht
        } else if str_eq(code, "gebucht") {
            EventKind::Gebucht
        } else if str_eq(code, "sperr") {
            EventKind::Sperr
        } else {
            EventKind::Unknown
        }
    }
}

} // verus!
