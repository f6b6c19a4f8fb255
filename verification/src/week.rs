//! The grammar of compact week specifications: a single week number, an
//! inclusive range, or a comma-separated list whose range tokens are
//! flattened into a plain list of week numbers.

use vstd::prelude::*;
use crate::errors::ParseError;
use crate::strutil::{
    chars_of, parse_u32_chars, parse_u32_of, seq_views, split_on, split_on_chars, split_once_at,
    split_once_char,
};

verus! {

/// A compact encoding of the semester weeks an event occurs in. Week
/// numbers are positive and unbounded; rollover past week 52 is handled at
/// expansion time, not here.
#[derive(Debug)]
pub enum Weeks {
    Single(u32),
    Multiple(Vec<u32>),
    Range { start: u32, end: u32 },
}

impl Clone for Weeks {
    fn clone(&self) -> (r: Self)
        ensures
            r@ == self@,
    {
        match self {
            Weeks::Single(n) => Weeks::Single(*n),
            Weeks::Multiple(ws) => {
                let v = ws.clone();
                proof {
                    assert(v@ =~= ws@);
                }
                Weeks::Multiple(v)
            },
            Weeks::Range { start, end } => Weeks::Range { start: *start, end: *end },
        }
    }
}

/// The mathematical shape of a `Weeks` value.
pub enum WeeksView {
    Single(u32),
    Multiple(Seq<u32>),
    Range { start: u32, end: u32 },
}

impl View for Weeks {
    type V = WeeksView;

    open spec fn view(&self) -> WeeksView {
        match *self {
            Weeks::Single(n) => WeeksView::Single(n),
            Weeks::Multiple(ref ws) => WeeksView::Multiple(ws@),
            Weeks::Range { start, end } => WeeksView::Range { start, end },
        }
    }
}

/// The weeks of an inclusive range, in order; empty when inverted.
pub open spec fn range_items(start: u32, end: u32) -> Seq<u32> {
    if start <= end {
        Seq::new((end - start + 1) as nat, |i: int| (start + i) as u32)
    } else {
        Seq::<u32>::empty()
    }
}

/// The week numbers one token of a comma-separated list stands for: a
/// range token is flattened into its weeks. A token holding a bare comma
/// is malformed.
pub open spec fn week_token_items(t: Seq<char>) -> Result<Seq<u32>, ParseError> {
    if split_once_at(t, ',') is Some {
        Err(ParseError::WeekToken)
    } else {
        match split_once_at(t, '-') {
            Some(p) => match (parse_u32_of(p.0), parse_u32_of(p.1)) {
                (Some(a), Some(b)) => Ok(range_items(a, b)),
                _ => Err(ParseError::Number),
            },
            None => match parse_u32_of(t) {
                Some(n) => Ok(seq![n]),
                None => Err(ParseError::Number),
            },
        }
    }
}

/// The flattened week numbers of a list of tokens, or the first failure.
pub open spec fn flat_items(toks: Seq<Seq<char>>) -> Result<Seq<u32>, ParseError>
    decreases toks.len(),
{
    if toks.len() == 0 {
        Ok(Seq::<u32>::empty())
    } else {
        match week_token_items(toks[0]) {
            Err(e) => Err(e),
            Ok(h) => match flat_items(toks.drop_first()) {
                Err(e) => Err(e),
                Ok(r) => Ok(h + r),
            },
        }
    }
}

/// The week specification a string encodes: a comma means a flattened
/// list, otherwise a dash means an inclusive range, otherwise a single
/// week number.
pub open spec fn parse_week_spec_of(s: Seq<char>) -> Result<WeeksView, ParseError> {
    if split_once_at(s, ',') is Some {
        match flat_items(split_on(s, ", "@)) {
            Ok(items) => Ok(WeeksView::Multiple(items)),
            Err(e) => Err(e),
        }
    } else {
        match split_once_at(s, '-') {
            Some(p) => match (parse_u32_of(p.0), parse_u32_of(p.1)) {
                (Some(a), Some(b)) => Ok(WeeksView::Range { start: a, end: b }),
                _ => Err(ParseError::Number),
            },
            None => match parse_u32_of(s) {
                Some(n) => Ok(WeeksView::Single(n)),
                None => Err(ParseError::Number),
            },
        }
    }
}

/// Appends the weeks of the inclusive range `start..=end` (none when the
/// range is inverted).
fn push_range(items: &mut Vec<u32>, start: u32, end: u32)
    ensures
        final(items)@ == old(items)@ + range_items(start, end),
{
    if start > end {
        proof {
            assert(old(items)@ + range_items(start, end) =~= old(items)@);
        }
        return ;
    }
    let mut w: u64 = start as u64;
    proof {
        assert(items@ =~= old(items)@ + range_items(start, end).subrange(0, 0));
    }
    while w <= end as u64
        invariant
            start <= end,
            start as u64 <= w <= end as u64 + 1,
            items@ == old(items)@ + range_items(start, end).subrange(0, w - start),
        decreases end as u64 + 1 - w,
    {
        items.push(w as u32);
        proof {
            assert(range_items(start, end)[w - start] == w as u32);
            assert(items@ =~= old(items)@ + range_items(start, end).subrange(0, w + 1 - start));
        }
        w = w + 1;
    }
    proof {
        assert(range_items(start, end).subrange(0, w - start) =~= range_items(start, end));
    }
}

/// Parse a compact week specification: `"5"` is a single week, `"5-8"` an
/// inclusive range, and a comma-separated list such as `"5, 7-8"` is
/// flattened into `Multiple`. Malformed numbers and tokens holding a bare
/// comma are rejected.
pub fn parse_week_spec(s: &str) -> (r: Result<Weeks, ParseError>)
    ensures
        (match r {
            Ok(w) => parse_week_spec_of(s@) == Ok::<WeeksView, ParseError>(w@),
            Err(e) => parse_week_spec_of(s@) == Err::<WeeksView, ParseError>(e),
        }),
{
    let cs = chars_of(s);
    if split_once_char(&cs, ',').is_some() {
        let sep = chars_of(", ");
        proof {
            reveal_strlit(", ");
        }
        let toks = split_on_chars(&cs, &sep);
        let ghost sv = seq_views(toks@);
        let mut items: Vec<u32> = Vec::new();
        let mut i: usize = 0;
        proof {
            assert(sv.skip(0) =~= sv);
        }
        while i < toks.len()
            invariant
                0 <= i <= toks@.len(),
                sv == seq_views(toks@),
                split_once_at(s@, ',') is Some,
                sv == split_on(s@, ", "@),
                flat_items(sv) matches Ok(all) ==> flat_items(sv.skip(i as int)) matches Ok(rest)
                    && all == items@ + rest,
                flat_items(sv) matches Err(e) ==> flat_items(sv.skip(i as int)) == Err::<
                    Seq<u32>,
                    ParseError,
                >(e),
            decreases toks@.len() - i,
        {
            let ghost rem = sv.skip(i as int);
            proof {
                assert(rem[0] == toks@[i as int]@);
                assert(rem.drop_first() =~= sv.skip(i + 1));
            }
            let tok = &toks[i];
            if split_once_char(tok, ',').is_some() {
                proof {
                    assert(week_token_items(rem[0]) == Err::<Seq<u32>, ParseError>(
                        ParseError::WeekToken,
                    ));
                    assert(flat_items(sv) == Err::<Seq<u32>, ParseError>(ParseError::WeekToken));
                }
                return Err(ParseError::WeekToken);
            }
            match split_once_char(tok, '-') {
                Some((l, rr)) => {
                    let a = parse_u32_chars(&l);
                    let b = parse_u32_chars(&rr);
                    match (a, b) {
                        (Some(a), Some(b)) => {
                            push_range(&mut items, a, b);
                        },
                        _ => {
                            proof {
                                assert(week_token_items(rem[0]) == Err::<Seq<u32>, ParseError>(
                                    ParseError::Number,
                                ));
                                assert(flat_items(sv) == Err::<Seq<u32>, ParseError>(
                                    ParseError::Number,
                                ));
                            }
                            return Err(ParseError::Number);
                        },
                    }
                },
                None => {
                    match parse_u32_chars(tok) {
                        Some(n) => {
                            items.push(n);
                        },
                        None => {
                            proof {
                                assert(week_token_items(rem[0]) == Err::<Seq<u32>, ParseError>(
                                    ParseError::Number,
                                ));
                                assert(flat_items(sv) == Err::<Seq<u32>, ParseError>(
                                    ParseError::Number,
                                ));
                            }
                            return Err(ParseError::Number);
                        },
                    }
                },
            }
            proof {
                match flat_items(sv) {
                    Ok(all) => {
                        assert(week_token_items(rem[0]) is Ok);
                        assert(all =~= items@ + flat_items(sv.skip(i + 1)).unwrap());
                    },
                    Err(_) => {},
                }
            }
            i = i + 1;
        }
        proof {
            assert(sv.skip(i as int) =~= Seq::<Seq<char>>::empty());
            match flat_items(sv) {
                Ok(all) => {
                    assert(all =~= items@);
                },
                Err(_) => {},
            }
        }
        Ok(Weeks::Multiple(items))
    } else {
        match split_once_char(&cs, '-') {
            Some((l, rr)) => {
                let a = parse_u32_chars(&l);
                let b = parse_u32_chars(&rr);
                match (a, b) {
                    (Some(a), Some(b)) => Ok(Weeks::Range { start: a, end: b }),
                    _ => Err(ParseError::Number),
                }
            },
            None => {
                match parse_u32_chars(&cs) {
                    Some(n) => Ok(Weeks::Single(n)),
                    None => Err(ParseError::Number),
                }
            },
        }
    }
}

/// The individual week numbers a specification expands to.
pub open spec fn weeks_items(w: WeeksView) -> Seq<u32> {
    match w {
        WeeksView::Single(n) => seq![n],
        WeeksView::Multiple(ws) => ws,
        WeeksView::Range { start, end } => range_items(start, end),
    }
}

/// The individual week numbers of this specification, in order.
pub fn week_numbers(w: &Weeks) -> (r: Vec<u32>)
    ensures
        r@ == weeks_items(w@),
{
    match w {
        Weeks::Single(n) => {
            let mut v: Vec<u32> = Vec::new();
            v.push(*n);
            proof {
                assert(v@ =~= seq![*n]);
            }
            v
        },
        Weeks::Multiple(ws) => {
            let v = ws.clone();
            proof {
                assert(v@ =~= ws@);
            }
            v
        },
        Weeks::Range { start, end } => {
            let mut v: Vec<u32> = Vec::new();
            push_range(&mut v, *start, *end);
            proof {
                assert(v@ =~= range_items(*start, *end));
            }
            v
        },
    }
}

/// The year a week number reaches past the epoch year: every 52 weeks
/// carry into the next year.
pub open spec fn year_offset_of(week: u32) -> int {
    week as int / 52
}

/// The week within its year: the remainder by 52, with week 52 carrying
/// rather than becoming week zero.
pub open spec fn effective_week_of(week: u32) -> int {
    if week as int % 52 == 0 {
        52
    } else {
        week as int % 52
    }
}

/// Splits a week number into its year offset and its effective week.
pub fn split_week(week: u32) -> (r: (u32, u32))
    ensures
        r.0 as int == year_offset_of(week),
        r.1 as int == effective_week_of(week),
        week >= 1 ==> 1 <= r.1 <= 52,
{
    let yo = week / 52;
    let ew = week % 52;
    if ew == 0 {
        (yo, 52)
    } else {
        (yo, ew)
    }
}

/// Expansion within the first year never changes the week: for weeks 1
/// through 52 the effective week is the week number itself.
pub proof fn lemma_effective_week_identity(week: u32)
    requires
        1 <= week <= 52,
    ensures
        effective_week_of(week) == week as int,
{
}

} // verus!
