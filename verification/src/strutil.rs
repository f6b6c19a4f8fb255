//! Verified helpers for working with strings as sequences of characters:
//! equality, trimming, splitting, and decimal parsing.

use vstd::prelude::*;
use vstd::string::StrSliceExecFns;

verus! {

/// Character-for-character equality of two string slices.
pub fn str_eq(a: &str, b: &str) -> (r: bool)
    ensures
        r == (a@ == b@),
{
    let alen = a.unicode_len();
    let blen = b.unicode_len();
    if alen != blen {
        return false;
    }
    let mut i: usize = 0;
    while i < alen
        invariant
            0 <= i <= alen,
            alen == a@.len(),
            alen == b@.len(),
            forall|j: int| 0 <= j < i ==> a@[j] == b@[j],
        decreases alen - i,
    {
        if a.get_char(i) != b.get_char(i) {
            return false;
        }
        i += 1;
    }
    proof {
        assert(a@ =~= b@);
    }
    true
}

/// The characters of a string slice, as a vector.
pub fn chars_of(s: &str) -> (r: Vec<char>)
    ensures
        r@ == s@,
{
    let n = s.unicode_len();
    let mut r: Vec<char> = Vec::new();
    let mut i: usize = 0;
    while i < n
        invariant
            0 <= i <= n,
            n == s@.len(),
            r@ == s@.subrange(0, i as int),
        decreases n - i,
    {
        r.push(s.get_char(i));
        proof {
            assert(r@ =~= s@.subrange(0, i + 1 as int));
        }
        i += 1;
    }
    proof {
        assert(s@.subrange(0, n as int) =~= s@);
    }
    r
}

/// Collects characters back into an owned string.
///
/// Relies on `core::iter::Iterator::collect` for `String`: the resulting
/// string holds exactly the characters of the iterator, in order.
#[verifier::external_body]
pub fn string_from_chars(v: &Vec<char>) -> (r: String)
    ensures
        r@ == v@,
{
    v.iter().collect()
}

/// The Unicode `White_Space` property, the class used by `str::trim` and
/// `str::split_whitespace`.
pub open spec fn is_space(c: char) -> bool {
    let u = c as u32;
    u == 0x09 || u == 0x0A || u == 0x0B || u == 0x0C || u == 0x0D || u == 0x20 || u == 0x85
        || u == 0xA0 || u == 0x1680 || (0x2000 <= u && u <= 0x200A) || u == 0x2028 || u == 0x2029
        || u == 0x202F || u == 0x205F || u == 0x3000
}

/// Decides the Unicode `White_Space` property.
pub fn is_space_char(c: char) -> (r: bool)
    ensures
        r == is_space(c),
{
    let u = c as u32;
    u == 0x09 || u == 0x0A || u == 0x0B || u == 0x0C || u == 0x0D || u == 0x20 || u == 0x85
        || u == 0xA0 || u == 0x1680 || (0x2000 <= u && u <= 0x200A) || u == 0x2028 || u == 0x2029
        || u == 0x202F || u == 0x205F || u == 0x3000
}

/// The string without its leading whitespace.
pub open spec fn trim_start_of(s: Seq<char>) -> Seq<char>
    decreases s.len(),
{
    if s.len() == 0 {
        s
    } else if is_space(s[0]) {
        trim_start_of(s.drop_first())
    } else {
        s
    }
}

/// The string without its trailing whitespace.
pub open spec fn trim_end_of(s: Seq<char>) -> Seq<char>
    decreases s.len(),
{
    if s.len() == 0 {
        s
    } else if is_space(s.last()) {
        trim_end_of(s.drop_last())
    } else {
        s
    }
}

/// The string without leading and trailing whitespace, as `str::trim`
/// yields it.
pub open spec fn trim_of(s: Seq<char>) -> Seq<char> {
    trim_end_of(trim_start_of(s))
}

proof fn lemma_trim_start_at(s: Seq<char>, i: int)
    requires
        0 <= i <= s.len(),
        forall|j: int| 0 <= j < i ==> is_space(s[j]),
        i < s.len() ==> !is_space(s[i]),
    ensures
        trim_start_of(s) == s.subrange(i, s.len() as int),
    decreases i,
{
    if i == 0 {
        assert(s.subrange(0, s.len() as int) =~= s);
    } else {
        lemma_trim_start_at(s.drop_first(), i - 1);
        assert(s.drop_first().subrange(i - 1, s.drop_first().len() as int) =~= s.subrange(
            i,
            s.len() as int,
        ));
    }
}

proof fn lemma_trim_end_at(s: Seq<char>, i: int)
    requires
        0 <= i <= s.len(),
        forall|j: int| i <= j < s.len() ==> is_space(s[j]),
        i > 0 ==> !is_space(s[i - 1]),
    ensures
        trim_end_of(s) == s.subrange(0, i),
    decreases s.len() - i,
{
    if i == s.len() {
        assert(s.subrange(0, i) =~= s);
    } else {
        lemma_trim_end_at(s.drop_last(), i);
        assert(s.drop_last().subrange(0, i) =~= s.subrange(0, i));
    }
}

/// `str::trim`, verified against the `White_Space` class.
pub fn trim_str(s: &str) -> (r: String)
    ensures
        r@ == trim_of(s@),
{
    let n = s.unicode_len();
    let mut i: usize = 0;
    while i < n && is_space_char(s.get_char(i))
        invariant
            0 <= i <= n,
            n == s@.len(),
            forall|j: int| 0 <= j < i ==> is_space(s@[j]),
        decreases n - i,
    {
        i += 1;
    }
    proof {
        lemma_trim_start_at(s@, i as int);
    }
    if i == n {
        proof {
            assert(trim_of(s@) =~= Seq::<char>::empty());
        }
        return String::new();
    }
    let mut j: usize = n;
    while j > i && is_space_char(s.get_char(j - 1))
        invariant
            i <= j <= n,
            n == s@.len(),
            i < n,
            !is_space(s@[i as int]),
            forall|k: int| j <= k < n ==> is_space(s@[k]),
        decreases j,
    {
        j -= 1;
    }
    let t = s.substring_char(i, j);
    proof {
        let st = s@.subrange(i as int, s@.len() as int);
        assert(forall|k: int| j - i <= k < st.len() ==> is_space(#[trigger] st[k]));
        assert(st[j - i - 1] == s@[j - 1]);
        lemma_trim_end_at(st, j - i);
        assert(st.subrange(0, j - i) =~= s@.subrange(i as int, j as int));
    }
    t.to_owned()
}

/// The text before and after the first occurrence of a separator
/// character, as `str::split_once` yields it; `None` when the separator
/// does not occur.
pub open spec fn split_once_at(s: Seq<char>, c: char) -> Option<(Seq<char>, Seq<char>)>
    decreases s.len(),
{
    if s.len() == 0 {
        None
    } else if s[0] == c {
        Some((Seq::<char>::empty(), s.drop_first()))
    } else {
        match split_once_at(s.drop_first(), c) {
            None => None,
            Some(p) => Some((seq![s[0]] + p.0, p.1)),
        }
    }
}

proof fn lemma_split_once_at_found(s: Seq<char>, c: char, i: int)
    requires
        0 <= i < s.len(),
        s[i] == c,
        forall|j: int| 0 <= j < i ==> s[j] != c,
    ensures
        split_once_at(s, c) == Some((s.subrange(0, i), s.subrange(i + 1, s.len() as int))),
    decreases i,
{
    if i == 0 {
        assert(s.subrange(0, 0) =~= Seq::<char>::empty());
        assert(s.subrange(1, s.len() as int) =~= s.drop_first());
    } else {
        lemma_split_once_at_found(s.drop_first(), c, i - 1);
        assert(seq![s[0]] + s.drop_first().subrange(0, i - 1) =~= s.subrange(0, i));
        assert(s.drop_first().subrange(i, s.drop_first().len() as int) =~= s.subrange(
            i + 1,
            s.len() as int,
        ));
    }
}

proof fn lemma_split_once_at_none(s: Seq<char>, c: char)
    requires
        forall|j: int| 0 <= j < s.len() ==> s[j] != c,
    ensures
        split_once_at(s, c) is None,
    decreases s.len(),
{
    if s.len() > 0 {
        lemma_split_once_at_none(s.drop_first(), c);
    }
}

/// A copy of the characters at positions `a..b`.
pub fn subvec(t: &Vec<char>, a: usize, b: usize) -> (r: Vec<char>)
    requires
        a <= b <= t@.len(),
    ensures
        r@ == t@.subrange(a as int, b as int),
{
    let mut r: Vec<char> = Vec::new();
    let mut i: usize = a;
    while i < b
        invariant
            a <= i <= b <= t@.len(),
            r@ == t@.subrange(a as int, i as int),
        decreases b - i,
    {
        r.push(t[i]);
        proof {
            assert(r@ =~= t@.subrange(a as int, i + 1 as int));
        }
        i += 1;
    }
    r
}

/// `str::split_once`, on character vectors.
pub fn split_once_char(t: &Vec<char>, c: char) -> (r: Option<(Vec<char>, Vec<char>)>)
    ensures
        match r {
            None => split_once_at(t@, c) is None,
            Some(p) => split_once_at(t@, c) == Some((p.0@, p.1@)),
        },
{
    let mut i: usize = 0;
    while i < t.len()
        invariant
            0 <= i <= t@.len(),
            forall|j: int| 0 <= j < i ==> t@[j] != c,
        decreases t@.len() - i,
    {
        if t[i] == c {
            let left = subvec(t, 0, i);
            let right = subvec(t, i + 1, t.len());
            proof {
                lemma_split_once_at_found(t@, c, i as int);
            }
            return Some((left, right));
        }
        i += 1;
    }
    proof {
        lemma_split_once_at_none(t@, c);
    }
    None
}

/// Splitting on a separator string, token accumulator in hand: the tokens
/// of `cur + s`, where `cur` holds the part of the current token already
/// read. Separators are found leftmost-first, as `str::split` finds them.
pub open spec fn split_on_acc(cur: Seq<char>, s: Seq<char>, pat: Seq<char>) -> Seq<Seq<char>>
    decreases s.len(),
{
    if pat.len() == 0 || s.len() < pat.len() {
        seq![cur + s]
    } else if s.subrange(0, pat.len() as int) == pat {
        seq![cur] + split_on_acc(Seq::<char>::empty(), s.skip(pat.len() as int), pat)
    } else {
        split_on_acc(cur + seq![s[0]], s.drop_first(), pat)
    }
}

/// The tokens of `s` between occurrences of the separator `pat`, as
/// `str::split` yields them.
pub open spec fn split_on(s: Seq<char>, pat: Seq<char>) -> Seq<Seq<char>> {
    split_on_acc(Seq::<char>::empty(), s, pat)
}

/// Whether the pattern occurs at position `pos`.
fn match_at(t: &Vec<char>, pat: &Vec<char>, pos: usize) -> (r: bool)
    requires
        pos <= t@.len(),
    ensures
        r == (pos + pat@.len() <= t@.len() && t@.subrange(pos as int, pos + pat@.len()) == pat@),
{
    let n = t.len();
    let m = pat.len();
    if n - pos < m {
        return false;
    }
    let mut k: usize = 0;
    while k < m
        invariant
            0 <= k <= m,
            m == pat@.len(),
            n == t@.len(),
            pos + m <= n,
            forall|j: int| 0 <= j < k ==> t@[pos + j] == pat@[j],
        decreases m - k,
    {
        if t[pos + k] != pat[k] {
            proof {
                assert(t@.subrange(pos as int, pos + pat@.len())[k as int] != pat@[k as int]);
            }
            return false;
        }
        k += 1;
    }
    proof {
        assert(t@.subrange(pos as int, pos + pat@.len()) =~= pat@);
    }
    true
}

/// The views of a sequence of character vectors.
pub open spec fn seq_views(s: Seq<Vec<char>>) -> Seq<Seq<char>> {
    Seq::new(s.len(), |i: int| s[i]@)
}

/// `str::split` on a separator string, on character vectors.
pub fn split_on_chars(t: &Vec<char>, pat: &Vec<char>) -> (r: Vec<Vec<char>>)
    requires
        pat@.len() >= 1,
    ensures
        seq_views(r@) == split_on(t@, pat@),
{
    let mut done: Vec<Vec<char>> = Vec::new();
    let mut cur: Vec<char> = Vec::new();
    let mut pos: usize = 0;
    proof {
        assert(t@.skip(0) =~= t@);
        assert(seq_views(done@) =~= Seq::<Seq<char>>::empty());
        assert(seq_views(done@) + split_on_acc(cur@, t@.skip(0), pat@) =~= split_on_acc(
            cur@,
            t@.skip(0),
            pat@,
        ));
    }
    while pos < t.len()
        invariant
            0 <= pos <= t@.len(),
            pat@.len() >= 1,
            split_on(t@, pat@) == seq_views(done@) + split_on_acc(cur@, t@.skip(pos as int), pat@),
        decreases t@.len() - pos,
    {
        let ghost rem = t@.skip(pos as int);
        let ghost dv = seq_views(done@);
        let ghost cv = cur@;
        if match_at(t, pat, pos) {
            proof {
                assert(rem.subrange(0, pat@.len() as int) =~= t@.subrange(
                    pos as int,
                    pos + pat@.len(),
                ));
                assert(rem.skip(pat@.len() as int) =~= t@.skip(pos + pat@.len()));
                assert(split_on_acc(cv, rem, pat@) == seq![cv] + split_on_acc(
                    Seq::<char>::empty(),
                    rem.skip(pat@.len() as int),
                    pat@,
                ));
            }
            done.push(cur);
            cur = Vec::new();
            pos = pos + pat.len();
            proof {
                assert(seq_views(done@) =~= dv + seq![cv]);
                assert(split_on(t@, pat@) == seq_views(done@) + split_on_acc(
                    cur@,
                    t@.skip(pos as int),
                    pat@,
                ));
            }
        } else {
            let c = t[pos];
            cur.push(c);
            pos = pos + 1;
            proof {
                assert(rem.drop_first() =~= t@.skip(pos as int));
                assert(rem[0] == t@[pos - 1]);
                if rem.len() >= pat@.len() {
                    assert(rem.subrange(0, pat@.len() as int) =~= t@.subrange(
                        pos - 1,
                        pos - 1 + pat@.len(),
                    ));
                    assert(rem.subrange(0, pat@.len() as int) != pat@);
                    assert(split_on_acc(cv, rem, pat@) == split_on_acc(
                        cv + seq![rem[0]],
                        rem.drop_first(),
                        pat@,
                    ));
                    assert(cur@ =~= cv + seq![rem[0]]);
                } else {
                    assert(split_on_acc(cv, rem, pat@) == seq![cv + rem]);
                    assert(split_on_acc(cur@, t@.skip(pos as int), pat@) == seq![
                        cur@ + t@.skip(pos as int),
                    ]);
                    assert(cur@ + t@.skip(pos as int) =~= cv + rem);
                }
            }
        }
    }
    proof {
        assert(t@.skip(pos as int) =~= Seq::<char>::empty());
        assert(split_on_acc(cur@, t@.skip(pos as int), pat@) == seq![
            cur@ + Seq::<char>::empty(),
        ]);
        assert(cur@ + Seq::<char>::empty() =~= cur@);
    }
    let ghost dv = seq_views(done@);
    let ghost cv = cur@;
    done.push(cur);
    proof {
        assert(seq_views(done@) =~= dv + seq![cv]);
    }
    done
}

/// Whitespace splitting, token accumulator in hand: the tokens of
/// `cur + s`, where `cur` holds the part of the current token already read.
pub open spec fn ws_split_acc(cur: Seq<char>, s: Seq<char>) -> Seq<Seq<char>>
    decreases s.len(),
{
    if s.len() == 0 {
        if cur.len() == 0 {
            Seq::<Seq<char>>::empty()
        } else {
            seq![cur]
        }
    } else if is_space(s[0]) {
        if cur.len() == 0 {
            ws_split_acc(cur, s.drop_first())
        } else {
            seq![cur] + ws_split_acc(Seq::<char>::empty(), s.drop_first())
        }
    } else {
        ws_split_acc(cur + seq![s[0]], s.drop_first())
    }
}

/// The maximal runs of non-whitespace characters, as
/// `str::split_whitespace` yields them: no empty tokens.
pub open spec fn ws_split_of(s: Seq<char>) -> Seq<Seq<char>> {
    ws_split_acc(Seq::<char>::empty(), s)
}

/// `str::split_whitespace`, on character vectors.
pub fn ws_split_chars(t: &Vec<char>) -> (r: Vec<Vec<char>>)
    ensures
        seq_views(r@) == ws_split_of(t@),
{
    let mut done: Vec<Vec<char>> = Vec::new();
    let mut cur: Vec<char> = Vec::new();
    let mut pos: usize = 0;
    proof {
        assert(t@.skip(0) =~= t@);
        assert(seq_views(done@) =~= Seq::<Seq<char>>::empty());
        assert(seq_views(done@) + ws_split_acc(cur@, t@.skip(0)) =~= ws_split_acc(
            cur@,
            t@.skip(0),
        ));
    }
    while pos < t.len()
        invariant
            0 <= pos <= t@.len(),
            ws_split_of(t@) == seq_views(done@) + ws_split_acc(cur@, t@.skip(pos as int)),
        decreases t@.len() - pos,
    {
        let ghost rem = t@.skip(pos as int);
        let ghost dv = seq_views(done@);
        let ghost cv = cur@;
        let c = t[pos];
        if is_space_char(c) {
            if cur.len() > 0 {
                done.push(cur);
                cur = Vec::new();
                proof {
                    assert(seq_views(done@) =~= dv + seq![cv]);
                }
            }
            pos = pos + 1;
            proof {
                assert(rem[0] == c);
                assert(rem.drop_first() =~= t@.skip(pos as int));
            }
        } else {
            cur.push(c);
            pos = pos + 1;
            proof {
                assert(rem[0] == c);
                assert(rem.drop_first() =~= t@.skip(pos as int));
                assert(cur@ =~= cv + seq![rem[0]]);
            }
        }
    }
    proof {
        assert(t@.skip(pos as int) =~= Seq::<char>::empty());
    }
    if cur.len() > 0 {
        let ghost dv = seq_views(done@);
        let ghost cv = cur@;
        done.push(cur);
        proof {
            assert(seq_views(done@) =~= dv + seq![cv]);
        }
    } else {
        proof {
            assert(seq_views(done@) + Seq::<Seq<char>>::empty() =~= seq_views(done@));
        }
    }
    done
}

/// The sequence of tokens with the empty ones removed.
pub open spec fn drop_empty(toks: Seq<Seq<char>>) -> Seq<Seq<char>>
    decreases toks.len(),
{
    if toks.len() == 0 {
        Seq::<Seq<char>>::empty()
    } else {
        let rest = drop_empty(toks.drop_first());
        if toks[0].len() == 0 {
            rest
        } else {
            seq![toks[0]] + rest
        }
    }
}

/// Removes the empty tokens, keeping the order of the rest.
pub fn drop_empty_tokens(toks: &Vec<Vec<char>>) -> (r: Vec<Vec<char>>)
    ensures
        seq_views(r@) == drop_empty(seq_views(toks@)),
{
    let mut done: Vec<Vec<char>> = Vec::new();
    let mut i: usize = 0;
    proof {
        assert(seq_views(toks@).skip(0) =~= seq_views(toks@));
        assert(seq_views(done@) =~= Seq::<Seq<char>>::empty());
        assert(seq_views(done@) + drop_empty(seq_views(toks@).skip(0)) =~= drop_empty(
            seq_views(toks@).skip(0),
        ));
    }
    while i < toks.len()
        invariant
            0 <= i <= toks@.len(),
            drop_empty(seq_views(toks@)) == seq_views(done@) + drop_empty(
                seq_views(toks@).skip(i as int),
            ),
        decreases toks@.len() - i,
    {
        let ghost rem = seq_views(toks@).skip(i as int);
        let ghost dv = seq_views(done@);
        proof {
            assert(rem[0] == toks@[i as int]@);
            assert(rem.drop_first() =~= seq_views(toks@).skip(i + 1));
        }
        if toks[i].len() > 0 {
            let tok = clone_chars(&toks[i]);
            let ghost tv = tok@;
            done.push(tok);
            proof {
                assert(seq_views(done@) =~= dv + seq![tv]);
            }
        }
        i = i + 1;
    }
    proof {
        assert(seq_views(toks@).skip(i as int) =~= Seq::<Seq<char>>::empty());
        assert(seq_views(done@) + Seq::<Seq<char>>::empty() =~= seq_views(done@));
    }
    done
}

/// A copy of a character vector.
pub fn clone_chars(t: &Vec<char>) -> (r: Vec<char>)
    ensures
        r@ == t@,
{
    let r = t.clone();
    proof {
        assert(r@ =~= t@);
    }
    r
}

/// Collects each character-vector token into an owned string.
pub fn strings_of_tokens(toks: &Vec<Vec<char>>) -> (r: Vec<String>)
    ensures
        r.deep_view() == seq_views(toks@),
{
    let mut r: Vec<String> = Vec::new();
    let mut i: usize = 0;
    proof {
        assert(r.deep_view() =~= seq_views(toks@).subrange(0, 0));
    }
    while i < toks.len()
        invariant
            0 <= i <= toks@.len(),
            r.deep_view() == seq_views(toks@).subrange(0, i as int),
        decreases toks@.len() - i,
    {
        let s = string_from_chars(&toks[i]);
        let ghost before = r.deep_view();
        let ghost sv = s@;
        r.push(s);
        proof {
            assert(r.deep_view() =~= before.push(sv));
            assert(before.push(sv) =~= seq_views(toks@).subrange(0, i + 1));
        }
        i += 1;
    }
    proof {
        assert(seq_views(toks@).subrange(0, i as int) =~= seq_views(toks@));
    }
    r
}

/// A copy of a vector of strings.
pub fn clone_strings(v: &Vec<String>) -> (r: Vec<String>)
    ensures
        r.deep_view() == v.deep_view(),
{
    let r = v.clone();
    proof {
        assert(r.deep_view() =~= v.deep_view());
    }
    r
}

/// Whether a character is a decimal digit.
pub open spec fn is_digit(c: char) -> bool {
    48 <= c as u32 <= 57
}

/// The numeric value of a sequence of decimal digits, most significant
/// first.
pub open spec fn digits_val(s: Seq<char>) -> int
    decreases s.len(),
{
    if s.len() == 0 {
        0
    } else {
        digits_val(s.drop_last()) * 10 + (s.last() as u32 - 48)
    }
}

/// The digits of a decimal string: a leading `+` sign, if any, is not part
/// of the value.
pub open spec fn strip_plus(s: Seq<char>) -> Seq<char> {
    if s.len() > 0 && s[0] == '+' {
        s.drop_first()
    } else {
        s
    }
}

/// The value parsed from a decimal string as `str::parse::<u32>` reads it:
/// an optional leading `+`, then one or more digits, rejecting overflow.
pub open spec fn parse_u32_of(s: Seq<char>) -> Option<u32> {
    let d = strip_plus(s);
    if d.len() > 0 && (forall|i: int| 0 <= i < d.len() ==> is_digit(d[i])) && digits_val(d)
        <= u32::MAX {
        Some(digits_val(d) as u32)
    } else {
        None
    }
}

proof fn lemma_digits_val_nonneg(s: Seq<char>)
    requires
        forall|i: int| 0 <= i < s.len() ==> is_digit(s[i]),
    ensures
        digits_val(s) >= 0,
    decreases s.len(),
{
    if s.len() > 0 {
        lemma_digits_val_nonneg(s.drop_last());
    }
}

/// Decimal parsing of a character vector, as `str::parse::<u32>` does it.
pub fn parse_u32_chars(t: &Vec<char>) -> (r: Option<u32>)
    ensures
        r == parse_u32_of(t@),
{
    let mut start: usize = 0;
    if t.len() > 0 && t[0] == '+' {
        start = 1;
    }
    proof {
        assert(strip_plus(t@) =~= t@.subrange(start as int, t@.len() as int));
    }
    if t.len() == start {
        return None;
    }
    let mut val: u64 = 0;
    let mut over: bool = false;
    let mut i: usize = start;
    while i < t.len()
        invariant
            start <= i <= t.len(),
            strip_plus(t@) == t@.subrange(start as int, t@.len() as int),
            forall|j: int| 0 <= j < i - start ==> is_digit(strip_plus(t@)[j]),
            !over ==> val == digits_val(strip_plus(t@).subrange(0, i - start)) && val <= u32::MAX,
            over ==> digits_val(strip_plus(t@).subrange(0, i - start)) > u32::MAX,
        decreases t.len() - i,
    {
        let ghost d = strip_plus(t@);
        let c = t[i];
        let u = c as u32;
        if u < 48 || u > 57 {
            proof {
                assert(!is_digit(strip_plus(t@)[i - start]));
                assert(!(forall|j: int|
                    0 <= j < strip_plus(t@).len() ==> is_digit(strip_plus(t@)[j])));
            }
            return None;
        }
        proof {
            assert(d.subrange(0, i + 1 - start as int).drop_last() =~= d.subrange(
                0,
                i - start as int,
            ));
            assert(d.subrange(0, i + 1 - start as int).last() == d[i - start]);
            if over {
                lemma_digits_val_nonneg(d.subrange(0, i - start as int));
            }
        }
        if !over {
            let step = val * 10 + ((u - 48) as u64);
            if step > u32::MAX as u64 {
                over = true;
            } else {
                val = step;
            }
        } else {
            proof {
                let prev = digits_val(d.subrange(0, i - start as int));
                assert(digits_val(d.subrange(0, i + 1 - start as int)) == prev * 10 + (u - 48));
            }
        }
        i += 1;
    }
    proof {
        assert(strip_plus(t@).subrange(0, t@.len() - start as int) =~= strip_plus(t@));
    }
    if over {
        None
    } else {
        Some(val as u32)
    }
}

} // verus!
