//! Raw and materialized events: week expansion onto the calendar and the
//! time-range filter.

use vstd::prelude::*;
use vstd::string::StringExecFns;
use crate::dates::{
    iso_date_of, iso_stamp_of, resolve_iso_week_date, stamp_datetime, Date, DateTime, Weekday,
    MAX_CALENDAR_YEAR, MIN_CALENDAR_YEAR,
};
use crate::errors::ParseError;
use crate::kinds::EventKind;
use crate::strutil::clone_strings;
use crate::times::TimeOfDay;
use crate::week::{
    effective_week_of, split_week, week_numbers, weeks_items, year_offset_of, Weeks, WeeksView,
};

verus! {

/// An event as the row normalizer yields it: typed fields, with its weeks
/// still compact. Immutable once built.
#[derive(Debug)]
pub struct RawEvent {
    pub title: String,
    pub notes: String,
    pub kind: EventKind,
    pub rooms: Vec<String>,
    pub staff: Vec<String>,
    pub weekday: Weekday,
    pub weeks: Weeks,
    pub start: TimeOfDay,
    pub end: TimeOfDay,
}

/// The mathematical shape of a `RawEvent`.
pub struct RawEventView {
    pub title: Seq<char>,
    pub notes: Seq<char>,
    pub kind: EventKind,
    pub rooms: Seq<Seq<char>>,
    pub staff: Seq<Seq<char>>,
    pub weekday: Weekday,
    pub weeks: WeeksView,
    pub start: TimeOfDay,
    pub end: TimeOfDay,
}

impl View for RawEvent {
    type V = RawEventView;

    open spec fn view(&self) -> RawEventView {
        RawEventView {
            title: self.title@,
            notes: self.notes@,
            kind: self.kind,
            rooms: self.rooms.deep_view(),
            staff: self.staff.deep_view(),
            weekday: self.weekday,
            weeks: self.weeks@,
            start: self.start,
            end: self.end,
        }
    }
}

impl Clone for RawEvent {
    fn clone(&self) -> (r: Self)
        ensures
            r@ == self@,
    {
        RawEvent {
            title: self.title.clone(),
            notes: self.notes.clone(),
            kind: self.kind,
            rooms: clone_strings(&self.rooms),
            staff: clone_strings(&self.staff),
            weekday: self.weekday,
            weeks: self.weeks.clone(),
            start: self.start,
            end: self.end,
        }
    }
}

/// A materialized occurrence: one concrete dated event, with its display
/// label and color derived from its kind.
#[derive(Debug)]
pub struct Event {
    pub title: String,
    pub notes: String,
    pub kind: EventKind,
    pub kind_display: String,
    pub rooms: Vec<String>,
    pub staff: Vec<String>,
    pub color: String,
    pub start: DateTime,
    pub end: DateTime,
}

/// The mathematical shape of an `Event`.
pub struct EventView {
    pub title: Seq<char>,
    pub notes: Seq<char>,
    pub kind: EventKind,
    pub kind_display: Seq<char>,
    pub rooms: Seq<Seq<char>>,
    pub staff: Seq<Seq<char>>,
    pub color: Seq<char>,
    pub start: DateTime,
    pub end: DateTime,
}

impl View for Event {
    type V = EventView;

    open spec fn view(&self) -> EventView {
        EventView {
            title: self.title@,
            notes: self.notes@,
            kind: self.kind,
            kind_display: self.kind_display@,
            rooms: self.rooms.deep_view(),
            staff: self.staff.deep_view(),
            color: self.color@,
            start: self.start,
            end: self.end,
        }
    }
}

impl Clone for Event {
    fn clone(&self) -> (r: Self)
        ensures
            r@ == self@,
    {
        Event {
            title: self.title.clone(),
            notes: self.notes.clone(),
            kind: self.kind,
            kind_display: self.kind_display.clone(),
            rooms: clone_strings(&self.rooms),
            staff: clone_strings(&self.staff),
            color: self.color.clone(),
            start: self.start,
            end: self.end,
        }
    }
}

/// The views of a sequence of events.
pub open spec fn event_views(s: Seq<Event>) -> Seq<EventView> {
    Seq::new(s.len(), |i: int| s[i]@)
}

/// The views of a sequence of raw events.
pub open spec fn raw_views(s: Seq<RawEvent>) -> Seq<RawEventView> {
    Seq::new(s.len(), |i: int| s[i]@)
}

/// Whether a week, counted from the epoch year, lands in a year whose
/// dates the calendar can always give. The top supported year is left out:
/// its last ISO week can spill past its December 31, out of the calendar.
pub open spec fn in_epoch_range(epoch: i32, week: u32) -> bool {
    MIN_CALENDAR_YEAR <= epoch + year_offset_of(week) < MAX_CALENDAR_YEAR
}

/// The event one week number materializes to: the week lands in
/// `epoch + week / 52`, in its effective week, on the raw event's weekday;
/// the kind's fixed label and color are attached. `None` when the week
/// falls outside the supported calendar.
pub open spec fn materialized_event(r: RawEventView, week: u32, epoch: i32) -> Option<EventView> {
    if !in_epoch_range(epoch, week) {
        None
    } else {
        let y = (epoch + year_offset_of(week)) as i32;
        match iso_date_of(y, effective_week_of(week) as u8, r.weekday.number_spec() as u8) {
            None => None,
            Some(p) => Some(
                EventView {
                    title: r.title,
                    notes: r.notes,
                    kind: r.kind,
                    kind_display: r.kind.label_spec(),
                    rooms: r.rooms,
                    staff: r.staff,
                    color: r.kind.color_spec(),
                    start: DateTime {
                        date: Date { year: p.0, month: p.1, day: p.2 },
                        time: r.start,
                    },
                    end: DateTime { date: Date { year: p.0, month: p.1, day: p.2 }, time: r.end },
                },
            ),
        }
    }
}

/// Materialize one occurrence of a raw event.
pub fn materialize_event(raw: &RawEvent, week: u32, epoch: i32) -> (r: Result<Event, ParseError>)
    ensures
        (match r {
            Ok(e) => materialized_event(raw@, week, epoch) == Some(e@),
            Err(e) => materialized_event(raw@, week, epoch) is None && e == ParseError::Date,
        }),
        in_epoch_range(epoch, week) ==> r is Ok,
{
    let (yo, ew) = split_week(week);
    let y: i64 = epoch as i64 + yo as i64;
    if y < MIN_CALENDAR_YEAR as i64 || y >= MAX_CALENDAR_YEAR as i64 {
        return Err(ParseError::Date);
    }
    match resolve_iso_week_date(y as i32, ew as u8, raw.weekday) {
        Some(d) => {
            let e = Event {
                title: raw.title.clone(),
                notes: raw.notes.clone(),
                kind: raw.kind,
                kind_display: String::from_str(raw.kind.label()),
                rooms: clone_strings(&raw.rooms),
                staff: clone_strings(&raw.staff),
                color: String::from_str(raw.kind.color()),
                start: DateTime { date: d, time: raw.start },
                end: DateTime { date: d, time: raw.end },
            };
            Ok(e)
        },
        None => Err(ParseError::Date),
    }
}

/// The full expansion of a raw event: one event per week of its
/// specification, in order, or the first failure.
pub open spec fn expanded_events(r: RawEventView, epoch: i32) -> Result<Seq<EventView>, ParseError> {
    let ws = weeks_items(r.weeks);
    if forall|i: int| 0 <= i < ws.len() ==> materialized_event(r, ws[i], epoch) is Some {
        Ok(Seq::new(ws.len(), |i: int| materialized_event(r, ws[i], epoch).unwrap()))
    } else {
        Err(ParseError::Date)
    }
}

/// Expand a raw event into one concrete event per week of its
/// specification. Succeeds whenever every week lands in a supported year.
pub fn expand_raw_event(raw: &RawEvent, epoch: i32) -> (r: Result<Vec<Event>, ParseError>)
    ensures
        (match r {
            Ok(evs) => expanded_events(raw@, epoch) == Ok::<Seq<EventView>, ParseError>(
                event_views(evs@),
            ),
            Err(e) => expanded_events(raw@, epoch) == Err::<Seq<EventView>, ParseError>(e),
        }),
        (forall|i: int|
            0 <= i < weeks_items(raw@.weeks).len() ==> in_epoch_range(
                epoch,
                weeks_items(raw@.weeks)[i],
            )) ==> r is Ok,
{
    let ws = week_numbers(&raw.weeks);
    let mut evs: Vec<Event> = Vec::new();
    let mut i: usize = 0;
    while i < ws.len()
        invariant
            0 <= i <= ws@.len(),
            ws@ == weeks_items(raw@.weeks),
            evs@.len() == i,
            forall|j: int|
                0 <= j < i ==> materialized_event(raw@, ws@[j], epoch) == Some(evs@[j]@),
        decreases ws@.len() - i,
    {
        match materialize_event(raw, ws[i], epoch) {
            Ok(e) => {
                evs.push(e);
            },
            Err(e) => {
                proof {
                    assert(materialized_event(raw@, weeks_items(raw@.weeks)[i as int], epoch)
                        is None);
                    assert(!in_epoch_range(epoch, weeks_items(raw@.weeks)[i as int]));
                }
                return Err(e);
            },
        }
        i += 1;
    }
    proof {
        let ws_spec = weeks_items(raw@.weeks);
        assert(forall|k: int|
            0 <= k < ws_spec.len() ==> materialized_event(raw@, ws_spec[k], epoch) is Some);
        assert(event_views(evs@) =~= Seq::new(
            ws_spec.len(),
            |k: int| materialized_event(raw@, ws_spec[k], epoch).unwrap(),
        ));
    }
    Ok(evs)
}

/// The concatenated expansions of a list of raw events, or the first
/// failure.
pub open spec fn all_expanded(rs: Seq<RawEventView>, epoch: i32) -> Result<
    Seq<EventView>,
    ParseError,
>
    decreases rs.len(),
{
    if rs.len() == 0 {
        Ok(Seq::<EventView>::empty())
    } else {
        match expanded_events(rs[0], epoch) {
            Err(e) => Err(e),
            Ok(h) => match all_expanded(rs.drop_first(), epoch) {
                Err(e) => Err(e),
                Ok(t) => Ok(h + t),
            },
        }
    }
}

/// Expand every raw event, concatenating the occurrences in order.
pub fn events_from_raw(raws: &Vec<RawEvent>, epoch: i32) -> (r: Result<Vec<Event>, ParseError>)
    ensures
        (match r {
            Ok(evs) => all_expanded(raw_views(raws@), epoch) == Ok::<Seq<EventView>, ParseError>(
                event_views(evs@),
            ),
            Err(e) => all_expanded(raw_views(raws@), epoch) == Err::<Seq<EventView>, ParseError>(
                e,
            ),
        }),
{
    let ghost sv = raw_views(raws@);
    let mut out: Vec<Event> = Vec::new();
    let mut i: usize = 0;
    proof {
        assert(sv.skip(0) =~= sv);
    }
    while i < raws.len()
        invariant
            0 <= i <= raws@.len(),
            sv == raw_views(raws@),
            all_expanded(sv, epoch) matches Ok(all) ==> all_expanded(sv.skip(i as int), epoch)
                matches Ok(rest) && all == event_views(out@) + rest,
            all_expanded(sv, epoch) matches Err(e) ==> all_expanded(sv.skip(i as int), epoch)
                == Err::<Seq<EventView>, ParseError>(e),
        decreases raws@.len() - i,
    {
        let ghost rem = sv.skip(i as int);
        proof {
            assert(rem[0] == raws@[i as int]@);
            assert(rem.drop_first() =~= sv.skip(i + 1));
        }
        match expand_raw_event(&raws[i], epoch) {
            Ok(mut evs) => {
                let ghost ov = event_views(out@);
                let ghost ev = event_views(evs@);
                let mut k: usize = 0;
                while k < evs.len()
                    invariant
                        0 <= k <= evs@.len(),
                        evs@.len() == ev.len(),
                        ev == event_views(evs@),
                        event_views(out@) =~= ov + ev.subrange(0, k as int),
                    decreases evs@.len() - k,
                {
                    let e = evs[k].clone();
                    let ghost before = event_views(out@);
                    out.push(e);
                    proof {
                        assert(event_views(out@) =~= before.push(ev[k as int]));
                        assert(before.push(ev[k as int]) =~= ov + ev.subrange(0, k + 1));
                    }
                    k += 1;
                }
                proof {
                    assert(ev.subrange(0, ev.len() as int) =~= ev);
                    assert(event_views(out@) =~= ov + ev);
                    match all_expanded(sv, epoch) {
                        Ok(all) => {
                            assert(all =~= event_views(out@) + all_expanded(
                                sv.skip(i + 1),
                                epoch,
                            ).unwrap());
                        },
                        Err(_) => {},
                    }
                }
            },
            Err(e) => {
                proof {
                    assert(all_expanded(rem, epoch) == Err::<Seq<EventView>, ParseError>(e));
                    assert(all_expanded(sv, epoch) == Err::<Seq<EventView>, ParseError>(e));
                }
                return Err(e);
            },
        }
        i += 1;
    }
    proof {
        assert(sv.skip(i as int) =~= Seq::<RawEventView>::empty());
        match all_expanded(sv, epoch) {
            Ok(all) => {
                assert(all =~= event_views(out@));
            },
            Err(_) => {},
        }
    }
    Ok(out)
}

/// Expanding a raw event whose weeks are an inclusive range yields one
/// event per week, every one sharing the raw event's title, notes, kind,
/// rooms, staff and times: only the date differs between them.
pub proof fn lemma_range_expansion_shares_fields(
    r: RawEventView,
    epoch: i32,
    start: u32,
    end: u32,
    evs: Seq<EventView>,
)
    requires
        r.weeks == (WeeksView::Range { start, end }),
        start <= end,
        expanded_events(r, epoch) == Ok::<Seq<EventView>, ParseError>(evs),
    ensures
        evs.len() == end - start + 1,
        forall|i: int|
            0 <= i < evs.len() ==> #[trigger] evs[i].title == r.title && evs[i].notes == r.notes
                && evs[i].kind == r.kind && evs[i].rooms == r.rooms && evs[i].staff == r.staff
                && evs[i].start.time == r.start && evs[i].end.time == r.end
                && evs[i].start.date == evs[i].end.date,
{
    let ws = weeks_items(r.weeks);
    assert forall|i: int| 0 <= i < evs.len() implies #[trigger] evs[i].title == r.title
        && evs[i].notes == r.notes && evs[i].kind == r.kind && evs[i].rooms == r.rooms
        && evs[i].staff == r.staff && evs[i].start.time == r.start && evs[i].end.time == r.end
        && evs[i].start.date == evs[i].end.date by {
        assert(materialized_event(r, ws[i], epoch) is Some);
        assert(evs[i] == materialized_event(r, ws[i], epoch).unwrap());
    }
}

/// The optional time range of an events query, as it arrives from the
/// request: ISO-8601 text bounds, either one omittable.
#[derive(Debug)]
pub struct TimeRange {
    pub start: Option<String>,
    pub end: Option<String>,
}

/// The timestamp a query bound parses to: `None` stays `None`, malformed
/// text is a `Stamp` failure.
pub open spec fn query_bound_of(s: Option<Seq<char>>) -> Result<Option<DateTime>, ParseError> {
    match s {
        None => Ok(None),
        Some(t) => match iso_stamp_of(t) {
            Some(p) => Ok(Some(stamp_datetime(p))),
            None => Err(ParseError::Stamp),
        },
    }
}

/// Parse the two optional bounds of a time-range query; a malformed start
/// bound is reported before a malformed end bound.
pub fn query_bounds(tr: &TimeRange) -> (r: Result<
    (Option<DateTime>, Option<DateTime>),
    ParseError,
>)
    ensures
        (match r {
            Ok(b) => query_bound_of(tr.start.deep_view()) == Ok::<Option<DateTime>, ParseError>(
                b.0,
            ) && query_bound_of(tr.end.deep_view()) == Ok::<Option<DateTime>, ParseError>(b.1),
            Err(e) => query_bound_of(tr.start.deep_view()) == Err::<Option<DateTime>, ParseError>(
                e,
            ) || (query_bound_of(tr.start.deep_view()) is Ok && query_bound_of(
                tr.end.deep_view(),
            ) == Err::<Option<DateTime>, ParseError>(e)),
        }),
{
    let start = match &tr.start {
        Some(s) => match crate::dates::parse_query_stamp(s.as_str()) {
            Some(t) => Some(t),
            None => {
                return Err(ParseError::Stamp);
            },
        },
        None => None,
    };
    let end = match &tr.end {
        Some(s) => match crate::dates::parse_query_stamp(s.as_str()) {
            Some(t) => Some(t),
            None => {
                return Err(ParseError::Stamp);
            },
        },
        None => None,
    };
    Ok((start, end))
}

/// Whether an event passes the optional time-range filter: with both
/// bounds, events overlapping the range are kept; with only an end bound,
/// events ending by it; with only a start bound, events starting at or
/// after it; with no bounds, everything.
pub open spec fn keeps(e: EventView, start: Option<DateTime>, end: Option<DateTime>) -> bool {
    match (start, end) {
        (None, None) => true,
        (None, Some(ub)) => DateTime::le_spec(e.end, ub),
        (Some(lb), None) => DateTime::le_spec(lb, e.start),
        (Some(lb), Some(ub)) => DateTime::le_spec(lb, e.end) && DateTime::le_spec(e.start, ub),
    }
}

/// The events that pass the filter, in order.
pub open spec fn filtered(
    evs: Seq<EventView>,
    start: Option<DateTime>,
    end: Option<DateTime>,
) -> Seq<EventView>
    decreases evs.len(),
{
    if evs.len() == 0 {
        Seq::<EventView>::empty()
    } else {
        let rest = filtered(evs.drop_first(), start, end);
        if keeps(evs[0], start, end) {
            seq![evs[0]] + rest
        } else {
            rest
        }
    }
}

/// Keep the events that pass the optional time-range filter, in order.
pub fn filter_events(evs: &Vec<Event>, start: Option<DateTime>, end: Option<DateTime>) -> (r: Vec<
    Event,
>)
    ensures
        event_views(r@) == filtered(event_views(evs@), start, end),
{
    let ghost sv = event_views(evs@);
    let mut out: Vec<Event> = Vec::new();
    let mut i: usize = 0;
    proof {
        assert(sv.skip(0) =~= sv);
        assert(event_views(out@) =~= Seq::<EventView>::empty());
        assert(event_views(out@) + filtered(sv.skip(0), start, end) =~= filtered(
            sv.skip(0),
            start,
            end,
        ));
    }
    while i < evs.len()
        invariant
            0 <= i <= evs@.len(),
            sv == event_views(evs@),
            filtered(sv, start, end) == event_views(out@) + filtered(
                sv.skip(i as int),
                start,
                end,
            ),
        decreases evs@.len() - i,
    {
        let ghost rem = sv.skip(i as int);
        let ghost ov = event_views(out@);
        proof {
            assert(rem[0] == evs@[i as int]@);
            assert(rem.drop_first() =~= sv.skip(i + 1));
        }
        let e = &evs[i];
        let keep = match (start, end) {
            (None, None) => true,
            (None, Some(ub)) => e.end.le(&ub),
            (Some(lb), None) => lb.le(&e.start),
            (Some(lb), Some(ub)) => lb.le(&e.end) && e.start.le(&ub),
        };
        if keep {
            out.push(e.clone());
            proof {
                assert(event_views(out@) =~= ov + seq![rem[0]]);
            }
        }
        i += 1;
    }
    proof {
        assert(sv.skip(i as int) =~= Seq::<EventView>::empty());
        assert(event_views(out@) + Seq::<EventView>::empty() =~= event_views(out@));
    }
    out
}

} // verus!
