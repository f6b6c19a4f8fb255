//! The row normalizer and the day tables it reads: one raw table row plus
//! its day label become one typed raw event. HTML entities are expanded by
//! `htmlize` and course codes are case-folded by the standard library, both
//! behind trusted wrappers; everything around them is verified.

use vstd::prelude::*;
use crate::dates::{weekday_of_label, weekday_of_label_spec, Weekday};
use crate::errors::ParseError;
use crate::events::{
    all_expanded, event_views, events_from_raw, raw_views, Event, RawEvent, RawEventView,
};
use crate::kinds::EventKind;
use crate::strutil::{
    chars_of, drop_empty, drop_empty_tokens, split_on, split_on_chars, strings_of_tokens,
    trim_of, trim_str, ws_split_chars, ws_split_of,
};
use crate::times::{parse_time, parse_time_of};
use crate::week::{parse_week_spec, parse_week_spec_of};

verus! {

/// What `htmlize::unescape` yields for a text: every valid HTML entity
/// expanded, a fixed function of the characters alone.
pub uninterp spec fn unescape_of(s: Seq<char>) -> Seq<char>;

/// Relies on `htmlize::unescape`: expanding HTML entities depends on the
/// input text alone.
#[verifier::external_body]
fn unescape_html(s: &str) -> (r: String)
    ensures
        r@ == unescape_of(s@),
{
    htmlize::unescape(s).into_owned()
}

/// What `str::to_lowercase` yields for a text: the Unicode lowercasing, a
/// fixed function of the characters alone.
pub uninterp spec fn lower_of(s: Seq<char>) -> Seq<char>;

/// Relies on `str::to_lowercase`: the result depends on the characters
/// alone.
#[verifier::external_body]
fn lowercase(s: &str) -> (r: String)
    ensures
        r@ == lower_of(s@),
{
    s.to_lowercase()
}

/// The raw event one table row stands for, 0-indexed cells: weeks in cell
/// 0, start and end times in cells 1 and 2, title in cell 3, course code
/// in cell 4, staff in cell 5 (split on `|`, empty names dropped), rooms in
/// cell 6 (split on whitespace), notes in cell 7. Text cells are
/// HTML-unescaped and trimmed; an unknown course code is `Unknown`, never a
/// failure; a row under eight cells, a malformed week list or a malformed
/// time is a failure.
pub open spec fn normalized_row(row: Seq<Seq<char>>, wd: Weekday) -> Result<
    RawEventView,
    ParseError,
> {
    if row.len() < 8 {
        Err(ParseError::Row)
    } else {
        match parse_week_spec_of(row[0]) {
            Err(e) => Err(e),
            Ok(weeks) => match parse_time_of(row[1]) {
                Err(e) => Err(e),
                Ok(start) => match parse_time_of(row[2]) {
                    Err(e) => Err(e),
                    Ok(end) => Ok(
                        RawEventView {
                            title: trim_of(unescape_of(row[3])),
                            notes: trim_of(unescape_of(row[7])),
                            kind: EventKind::of_code_spec(lower_of(row[4])),
                            rooms: ws_split_of(unescape_of(row[6])),
                            staff: drop_empty(split_on(trim_of(unescape_of(row[5])), "|"@)),
                            weekday: wd,
                            weeks,
                            start,
                            end,
                        },
                    ),
                },
            },
        }
    }
}

/// An unknown course code never rejects a row: normalization of a full row
/// fails only on its week list or its times, whatever the code cell holds.
/// Unknown kinds are a data-quality signal, not an error.
pub proof fn lemma_unknown_kind_never_rejects(row: Seq<Seq<char>>, wd: Weekday)
    requires
        row.len() >= 8,
        parse_week_spec_of(row[0]) is Ok,
        parse_time_of(row[1]) is Ok,
        parse_time_of(row[2]) is Ok,
    ensures
        normalized_row(row, wd) is Ok,
{
}

/// Normalize one raw table row, with its day already resolved.
pub fn normalize_row(row: &Vec<String>, weekday: Weekday) -> (r: Result<RawEvent, ParseError>)
    ensures
        (match r {
            Ok(e) => normalized_row(row.deep_view(), weekday) == Ok::<RawEventView, ParseError>(
                e@,
            ),
            Err(e) => normalized_row(row.deep_view(), weekday) == Err::<RawEventView, ParseError>(
                e,
            ),
        }),
{
    proof {
        assert(forall|i: int| 0 <= i < row@.len() ==> row.deep_view()[i] == row@[i]@);
    }
    if row.len() < 8 {
        return Err(ParseError::Row);
    }
    let weeks = match parse_week_spec(row[0].as_str()) {
        Ok(w) => w,
        Err(e) => {
            return Err(e);
        },
    };
    let start = match parse_time(row[1].as_str()) {
        Ok(t) => t,
        Err(e) => {
            return Err(e);
        },
    };
    let end = match parse_time(row[2].as_str()) {
        Ok(t) => t,
        Err(e) => {
            return Err(e);
        },
    };
    let title_u = unescape_html(row[3].as_str());
    let title = trim_str(title_u.as_str());
    let notes_u = unescape_html(row[7].as_str());
    let notes = trim_str(notes_u.as_str());
    let code = lowercase(row[4].as_str());
    let kind = EventKind::of_code(code.as_str());
    let rooms_u = unescape_html(row[6].as_str());
    let rooms_cs = chars_of(rooms_u.as_str());
    let rooms_toks = ws_split_chars(&rooms_cs);
    let rooms = strings_of_tokens(&rooms_toks);
    let staff_u = unescape_html(row[5].as_str());
    let staff_t = trim_str(staff_u.as_str());
    let staff_cs = chars_of(staff_t.as_str());
    let pipe = chars_of("|");
    proof {
        reveal_strlit("|");
    }
    let staff_split = split_on_chars(&staff_cs, &pipe);
    let staff_toks = drop_empty_tokens(&staff_split);
    let staff = strings_of_tokens(&staff_toks);
    let e = RawEvent { title, notes, kind, rooms, staff, weekday, weeks, start, end };
    Ok(e)
}

/// One day's section of the timetable page: the day label and the rows of
/// its table, each row a list of text cells. The first row is a header.
#[derive(Debug)]
pub struct DayTable {
    pub label: String,
    pub rows: Vec<Vec<String>>,
}

/// The mathematical shape of a `DayTable`.
pub struct DayTableView {
    pub label: Seq<char>,
    pub rows: Seq<Seq<Seq<char>>>,
}

impl View for DayTable {
    type V = DayTableView;

    open spec fn view(&self) -> DayTableView {
        DayTableView { label: self.label@, rows: self.rows.deep_view() }
    }
}

/// The normalized rows of one day, in order, or the first failure.
pub open spec fn rows_normalized(rows: Seq<Seq<Seq<char>>>, wd: Weekday) -> Result<
    Seq<RawEventView>,
    ParseError,
>
    decreases rows.len(),
{
    if rows.len() == 0 {
        Ok(Seq::<RawEventView>::empty())
    } else {
        match normalized_row(rows[0], wd) {
            Err(e) => Err(e),
            Ok(h) => match rows_normalized(rows.drop_first(), wd) {
                Err(e) => Err(e),
                Ok(t) => Ok(seq![h] + t),
            },
        }
    }
}

/// The raw events of one day table: the label must name a weekday, the
/// header row is skipped, and every remaining row is normalized.
pub open spec fn table_raw_events(t: DayTableView) -> Result<Seq<RawEventView>, ParseError> {
    match weekday_of_label_spec(t.label) {
        None => Err(ParseError::Weekday),
        Some(wd) => rows_normalized(
            if t.rows.len() == 0 {
                t.rows
            } else {
                t.rows.drop_first()
            },
            wd,
        ),
    }
}

/// Normalize the rows of one day table, skipping its header row.
pub fn table_events(t: &DayTable) -> (r: Result<Vec<RawEvent>, ParseError>)
    ensures
        (match r {
            Ok(v) => table_raw_events(t@) == Ok::<Seq<RawEventView>, ParseError>(raw_views(v@)),
            Err(e) => table_raw_events(t@) == Err::<Seq<RawEventView>, ParseError>(e),
        }),
{
    let wd = match weekday_of_label(t.label.as_str()) {
        Some(wd) => wd,
        None => {
            return Err(ParseError::Weekday);
        },
    };
    let ghost body = if t@.rows.len() == 0 {
        t@.rows
    } else {
        t@.rows.drop_first()
    };
    let mut out: Vec<RawEvent> = Vec::new();
    if t.rows.len() == 0 {
        proof {
            assert(raw_views(out@) =~= Seq::<RawEventView>::empty());
            assert(rows_normalized(body, wd) == Ok::<Seq<RawEventView>, ParseError>(
                Seq::<RawEventView>::empty(),
            ));
        }
        return Ok(out);
    }
    let mut i: usize = 1;
    proof {
        assert(body.skip(0) =~= body);
        assert(raw_views(out@) =~= Seq::<RawEventView>::empty());
        match rows_normalized(body, wd) {
            Ok(all) => {
                assert(raw_views(out@) + all =~= all);
            },
            Err(_) => {},
        }
    }
    while i < t.rows.len()
        invariant
            1 <= i <= t.rows@.len(),
            body == t@.rows.drop_first(),
            t@.rows == t.rows.deep_view(),
            t@.rows.len() == t.rows@.len(),
            t@.rows.len() >= 1,
            weekday_of_label_spec(t@.label) == Some(wd),
            rows_normalized(body, wd) matches Ok(all) ==> rows_normalized(body.skip(i - 1), wd)
                matches Ok(rest) && all == raw_views(out@) + rest,
            rows_normalized(body, wd) matches Err(e) ==> rows_normalized(body.skip(i - 1), wd)
                == Err::<Seq<RawEventView>, ParseError>(e),
        decreases t.rows@.len() - i,
    {
        let ghost rem = body.skip(i - 1);
        proof {
            assert(rem[0] == body[i - 1]);
            assert(body[i - 1] == t@.rows[i as int]);
            assert(t@.rows[i as int] == t.rows@[i as int].deep_view());
            assert(rem.drop_first() =~= body.skip(i as int));
        }
        match normalize_row(&t.rows[i], wd) {
            Ok(e) => {
                let ghost ov = raw_views(out@);
                let ghost evv = e@;
                out.push(e);
                proof {
                    assert(raw_views(out@) =~= ov + seq![evv]);
                    match rows_normalized(body, wd) {
                        Ok(all) => {
                            assert(all =~= raw_views(out@) + rows_normalized(
                                body.skip(i as int),
                                wd,
                            ).unwrap());
                        },
                        Err(_) => {},
                    }
                }
            },
            Err(e) => {
                proof {
                    assert(rows_normalized(rem, wd) == Err::<Seq<RawEventView>, ParseError>(e));
                    assert(rows_normalized(body, wd) == Err::<Seq<RawEventView>, ParseError>(e));
                    assert(table_raw_events(t@) == Err::<Seq<RawEventView>, ParseError>(e));
                }
                return Err(e);
            },
        }
        i += 1;
    }
    proof {
        assert(body.skip(i - 1) =~= Seq::<Seq<Seq<char>>>::empty());
        match rows_normalized(body, wd) {
            Ok(all) => {
                assert(all =~= raw_views(out@));
            },
            Err(_) => {},
        }
    }
    Ok(out)
}

/// The raw events of a whole page: the concatenated events of its day
/// tables, in order, or the first failure.
pub open spec fn tables_raw_events(ts: Seq<DayTableView>) -> Result<Seq<RawEventView>, ParseError>
    decreases ts.len(),
{
    if ts.len() == 0 {
        Ok(Seq::<RawEventView>::empty())
    } else {
        match table_raw_events(ts[0]) {
            Err(e) => Err(e),
            Ok(h) => match tables_raw_events(ts.drop_first()) {
                Err(e) => Err(e),
                Ok(t) => Ok(h + t),
            },
        }
    }
}

/// The views of a sequence of day tables.
pub open spec fn day_views(s: Seq<DayTable>) -> Seq<DayTableView> {
    Seq::new(s.len(), |i: int| s[i]@)
}

/// Normalize a whole page of day tables into raw events, fail-fast on the
/// first malformed label or row.
pub fn raw_events_from_tables(tables: &Vec<DayTable>) -> (r: Result<Vec<RawEvent>, ParseError>)
    ensures
        (match r {
            Ok(v) => tables_raw_events(day_views(tables@)) == Ok::<Seq<RawEventView>, ParseError>(
                raw_views(v@),
            ),
            Err(e) => tables_raw_events(day_views(tables@)) == Err::<
                Seq<RawEventView>,
                ParseError,
            >(e),
        }),
{
    let ghost sv = day_views(tables@);
    let mut out: Vec<RawEvent> = Vec::new();
    let mut i: usize = 0;
    proof {
        assert(sv.skip(0) =~= sv);
    }
    while i < tables.len()
        invariant
            0 <= i <= tables@.len(),
            sv == day_views(tables@),
            tables_raw_events(sv) matches Ok(all) ==> tables_raw_events(sv.skip(i as int))
                matches Ok(rest) && all == raw_views(out@) + rest,
            tables_raw_events(sv) matches Err(e) ==> tables_raw_events(sv.skip(i as int)) == Err::<
                Seq<RawEventView>,
                ParseError,
            >(e),
        decreases tables@.len() - i,
    {
        let ghost rem = sv.skip(i as int);
        proof {
            assert(rem[0] == tables@[i as int]@);
            assert(rem.drop_first() =~= sv.skip(i + 1));
        }
        match table_events(&tables[i]) {
            Ok(evs) => {
                let ghost ov = raw_views(out@);
                let ghost ev = raw_views(evs@);
                let mut k: usize = 0;
                while k < evs.len()
                    invariant
                        0 <= k <= evs@.len(),
                        evs@.len() == ev.len(),
                        ev == raw_views(evs@),
                        raw_views(out@) =~= ov + ev.subrange(0, k as int),
                    decreases evs@.len() - k,
                {
                    let e = evs[k].clone();
                    let ghost before = raw_views(out@);
                    out.push(e);
                    proof {
                        assert(raw_views(out@) =~= before.push(ev[k as int]));
                        assert(before.push(ev[k as int]) =~= ov + ev.subrange(0, k + 1));
                    }
                    k += 1;
                }
                proof {
                    assert(ev.subrange(0, ev.len() as int) =~= ev);
                    assert(raw_views(out@) =~= ov + ev);
                    match tables_raw_events(sv) {
                        Ok(all) => {
                            assert(all =~= raw_views(out@) + tables_raw_events(
                                sv.skip(i + 1),
                            ).unwrap());
                        },
                        Err(_) => {},
                    }
                }
            },
            Err(e) => {
                proof {
                    assert(tables_raw_events(rem) == Err::<Seq<RawEventView>, ParseError>(e));
                    assert(tables_raw_events(sv) == Err::<Seq<RawEventView>, ParseError>(e));
                }
                return Err(e);
            },
        }
        i += 1;
    }
    proof {
        assert(sv.skip(i as int) =~= Seq::<DayTableView>::empty());
        match tables_raw_events(sv) {
            Ok(all) => {
                assert(all =~= raw_views(out@));
            },
            Err(_) => {},
        }
    }
    Ok(out)
}

/// The whole per-group pipeline after the fetch: normalize every day table
/// of the page, then expand every raw event onto the calendar, fail-fast.
pub fn schedule_from_tables(tables: &Vec<DayTable>, epoch: i32) -> (r: Result<
    Vec<Event>,
    ParseError,
>)
    ensures
        (match tables_raw_events(day_views(tables@)) {
            Err(e) => r matches Err(e2) && e2 == e,
            Ok(raws) => match all_expanded(raws, epoch) {
                Err(e) => r matches Err(e2) && e2 == e,
                Ok(evs) => r matches Ok(v) && event_views(v@) == evs,
            },
        }),
{
    let raws = match raw_events_from_tables(tables) {
        Ok(raws) => raws,
        Err(e) => {
            return Err(e);
        },
    };
    events_from_raw(&raws, epoch)
}

} // verus!
