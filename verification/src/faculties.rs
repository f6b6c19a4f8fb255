//! The faculty directory: a three-level tree of faculties, subjects and
//! groups, merged with a locally curated supplement. Identity of subjects
//! and faculties is their id; names are display metadata.

use vstd::prelude::*;
use vstd::string::StringExecFns;
use crate::errors::ParseError;
use crate::strutil::{
    chars_of, drop_empty, drop_empty_tokens, seq_views, split_on, split_on_chars, split_once_at,
    split_once_char, str_eq, string_from_chars,
};

verus! {

/// A student group, identified by its id.
#[derive(Debug)]
pub struct Group {
    pub id: String,
}

/// The mathematical shape of a `Group`.
#[verifier::ext_equal]
pub struct GroupView {
    pub id: Seq<char>,
}

impl View for Group {
    type V = GroupView;

    open spec fn view(&self) -> GroupView {
        GroupView { id: self.id@ }
    }
}

impl Clone for Group {
    fn clone(&self) -> (r: Self)
        ensures
            r@ == self@,
    {
        Group { id: self.id.clone() }
    }
}

/// The views of a sequence of groups.
pub open spec fn group_views(s: Seq<Group>) -> Seq<GroupView> {
    Seq::new(s.len(), |i: int| s[i]@)
}

/// A subject of study, with the groups enrolled in it. Its identity is its
/// id alone.
#[derive(Debug)]
pub struct Subject {
    pub id: String,
    pub name: String,
    pub groups: Vec<Group>,
}

/// The mathematical shape of a `Subject`.
#[verifier::ext_equal]
pub struct SubjectView {
    pub id: Seq<char>,
    pub name: Seq<char>,
    pub groups: Seq<GroupView>,
}

impl View for Subject {
    type V = SubjectView;

    open spec fn view(&self) -> SubjectView {
        SubjectView { id: self.id@, name: self.name@, groups: group_views(self.groups@) }
    }
}

/// The views of a sequence of subjects.
pub open spec fn subject_views(s: Seq<Subject>) -> Seq<SubjectView> {
    Seq::new(s.len(), |i: int| s[i]@)
}

/// A copy of a vector of groups.
pub fn clone_groups(v: &Vec<Group>) -> (r: Vec<Group>)
    ensures
        group_views(r@) == group_views(v@),
{
    let mut r: Vec<Group> = Vec::new();
    let mut i: usize = 0;
    proof {
        assert(group_views(r@) =~= group_views(v@).subrange(0, 0));
    }
    while i < v.len()
        invariant
            0 <= i <= v@.len(),
            group_views(r@) == group_views(v@).subrange(0, i as int),
        decreases v@.len() - i,
    {
        let g = v[i].clone();
        let ghost before = group_views(r@);
        let ghost gv = g@;
        r.push(g);
        proof {
            assert(group_views(r@) =~= before.push(gv));
            assert(before.push(gv) =~= group_views(v@).subrange(0, i + 1));
        }
        i += 1;
    }
    proof {
        assert(group_views(v@).subrange(0, i as int) =~= group_views(v@));
    }
    r
}

impl Clone for Subject {
    fn clone(&self) -> (r: Self)
        ensures
            r@ == self@,
    {
        Subject { id: self.id.clone(), name: self.name.clone(), groups: clone_groups(&self.groups) }
    }
}

impl Subject {
    /// Identity comparison: two subjects are the same subject exactly when
    /// their ids match, whatever their names and groups.
    pub fn same_id(&self, other: &Subject) -> (r: bool)
        ensures
            r == (self@.id == other@.id),
    {
        str_eq(self.id.as_str(), other.id.as_str())
    }
}

/// A faculty, with its subjects. Its identity is its id alone.
#[derive(Debug)]
pub struct Faculty {
    pub id: String,
    pub name: String,
    pub subjects: Vec<Subject>,
}

/// The mathematical shape of a `Faculty`.
#[verifier::ext_equal]
pub struct FacultyView {
    pub id: Seq<char>,
    pub name: Seq<char>,
    pub subjects: Seq<SubjectView>,
}

impl View for Faculty {
    type V = FacultyView;

    open spec fn view(&self) -> FacultyView {
        FacultyView { id: self.id@, name: self.name@, subjects: subject_views(self.subjects@) }
    }
}

/// The views of a sequence of faculties.
pub open spec fn faculty_views(s: Seq<Faculty>) -> Seq<FacultyView> {
    Seq::new(s.len(), |i: int| s[i]@)
}

/// A copy of a vector of subjects.
pub fn clone_subjects(v: &Vec<Subject>) -> (r: Vec<Subject>)
    ensures
        subject_views(r@) == subject_views(v@),
{
    let mut r: Vec<Subject> = Vec::new();
    let mut i: usize = 0;
    proof {
        assert(subject_views(r@) =~= subject_views(v@).subrange(0, 0));
    }
    while i < v.len()
        invariant
            0 <= i <= v@.len(),
            subject_views(r@) == subject_views(v@).subrange(0, i as int),
        decreases v@.len() - i,
    {
        let s = v[i].clone();
        let ghost before = subject_views(r@);
        let ghost sv = s@;
        r.push(s);
        proof {
            assert(subject_views(r@) =~= before.push(sv));
            assert(before.push(sv) =~= subject_views(v@).subrange(0, i + 1));
        }
        i += 1;
    }
    proof {
        assert(subject_views(v@).subrange(0, i as int) =~= subject_views(v@));
    }
    r
}

impl Clone for Faculty {
    fn clone(&self) -> (r: Self)
        ensures
            r@ == self@,
    {
        Faculty {
            id: self.id.clone(),
            name: self.name.clone(),
            subjects: clone_subjects(&self.subjects),
        }
    }
}

impl Faculty {
    /// Identity comparison: two faculties are the same faculty exactly
    /// when their ids match.
    pub fn same_id(&self, other: &Faculty) -> (r: bool)
        ensures
            r == (self@.id == other@.id),
    {
        str_eq(self.id.as_str(), other.id.as_str())
    }
}

/// The whole remote catalog: the list of faculties.
#[derive(Debug)]
pub struct Study {
    pub faculties: Vec<Faculty>,
}

impl View for Study {
    type V = Seq<FacultyView>;

    open spec fn view(&self) -> Seq<FacultyView> {
        faculty_views(self.faculties@)
    }
}

impl Clone for Study {
    fn clone(&self) -> (r: Self)
        ensures
            r@ == self@,
    {
        let mut fs: Vec<Faculty> = Vec::new();
        let mut i: usize = 0;
        proof {
            assert(faculty_views(fs@) =~= faculty_views(self.faculties@).subrange(0, 0));
        }
        while i < self.faculties.len()
            invariant
                0 <= i <= self.faculties@.len(),
                faculty_views(fs@) == faculty_views(self.faculties@).subrange(0, i as int),
            decreases self.faculties@.len() - i,
        {
            let f = self.faculties[i].clone();
            let ghost before = faculty_views(fs@);
            let ghost fv = f@;
            fs.push(f);
            proof {
                assert(faculty_views(fs@) =~= before.push(fv));
                assert(before.push(fv) =~= faculty_views(self.faculties@).subrange(0, i + 1));
            }
            i += 1;
        }
        proof {
            assert(faculty_views(self.faculties@).subrange(0, i as int) =~= faculty_views(
                self.faculties@,
            ));
        }
        Study { faculties: fs }
    }
}

/// The first faculty of the list with the given id.
pub open spec fn first_faculty_with_id(s: Seq<FacultyView>, id: Seq<char>) -> Option<FacultyView>
    decreases s.len(),
{
    if s.len() == 0 {
        None
    } else if s[0].id == id {
        Some(s[0])
    } else {
        first_faculty_with_id(s.drop_first(), id)
    }
}

/// The first subject of the list with the given id.
pub open spec fn first_subject_with_id(s: Seq<SubjectView>, id: Seq<char>) -> Option<SubjectView>
    decreases s.len(),
{
    if s.len() == 0 {
        None
    } else if s[0].id == id {
        Some(s[0])
    } else {
        first_subject_with_id(s.drop_first(), id)
    }
}

proof fn lemma_first_faculty_found(s: Seq<FacultyView>, id: Seq<char>, i: int)
    requires
        0 <= i < s.len(),
        s[i].id == id,
        forall|j: int| 0 <= j < i ==> s[j].id != id,
    ensures
        first_faculty_with_id(s, id) == Some(s[i]),
    decreases i,
{
    if i > 0 {
        lemma_first_faculty_found(s.drop_first(), id, i - 1);
    }
}

proof fn lemma_first_faculty_none(s: Seq<FacultyView>, id: Seq<char>)
    requires
        forall|j: int| 0 <= j < s.len() ==> s[j].id != id,
    ensures
        first_faculty_with_id(s, id) is None,
    decreases s.len(),
{
    if s.len() > 0 {
        lemma_first_faculty_none(s.drop_first(), id);
    }
}

proof fn lemma_first_subject_found(s: Seq<SubjectView>, id: Seq<char>, i: int)
    requires
        0 <= i < s.len(),
        s[i].id == id,
        forall|j: int| 0 <= j < i ==> s[j].id != id,
    ensures
        first_subject_with_id(s, id) == Some(s[i]),
    decreases i,
{
    if i > 0 {
        lemma_first_subject_found(s.drop_first(), id, i - 1);
    }
}

proof fn lemma_first_subject_none(s: Seq<SubjectView>, id: Seq<char>)
    requires
        forall|j: int| 0 <= j < s.len() ==> s[j].id != id,
    ensures
        first_subject_with_id(s, id) is None,
    decreases s.len(),
{
    if s.len() > 0 {
        lemma_first_subject_none(s.drop_first(), id);
    }
}

/// The index of the first faculty with the given id.
pub fn find_faculty(v: &Vec<Faculty>, id: &str) -> (r: Option<usize>)
    ensures
        (match r {
            Some(i) => 0 <= i < v@.len() && first_faculty_with_id(faculty_views(v@), id@) == Some(
                v@[i as int]@,
            ),
            None => first_faculty_with_id(faculty_views(v@), id@) is None,
        }),
{
    let mut i: usize = 0;
    while i < v.len()
        invariant
            0 <= i <= v@.len(),
            forall|j: int| 0 <= j < i ==> faculty_views(v@)[j].id != id@,
        decreases v@.len() - i,
    {
        if str_eq(v[i].id.as_str(), id) {
            proof {
                lemma_first_faculty_found(faculty_views(v@), id@, i as int);
            }
            return Some(i);
        }
        i += 1;
    }
    proof {
        lemma_first_faculty_none(faculty_views(v@), id@);
    }
    None
}

/// The index of the first subject with the given id.
pub fn find_subject(v: &Vec<Subject>, id: &str) -> (r: Option<usize>)
    ensures
        (match r {
            Some(i) => 0 <= i < v@.len() && first_subject_with_id(subject_views(v@), id@) == Some(
                v@[i as int]@,
            ),
            None => first_subject_with_id(subject_views(v@), id@) is None,
        }),
{
    let mut i: usize = 0;
    while i < v.len()
        invariant
            0 <= i <= v@.len(),
            forall|j: int| 0 <= j < i ==> subject_views(v@)[j].id != id@,
        decreases v@.len() - i,
    {
        if str_eq(v[i].id.as_str(), id) {
            proof {
                lemma_first_subject_found(subject_views(v@), id@, i as int);
            }
            return Some(i);
        }
        i += 1;
    }
    proof {
        lemma_first_subject_none(subject_views(v@), id@);
    }
    None
}

/// A subject after the merge: when the matching extension faculty holds a
/// subject with the same id, that subject's groups are appended to the
/// scraped groups; otherwise the subject is unchanged.
pub open spec fn merged_subject(s: SubjectView, ext: FacultyView) -> SubjectView {
    match first_subject_with_id(ext.subjects, s.id) {
        None => s,
        Some(es) => SubjectView { id: s.id, name: s.name, groups: s.groups + es.groups },
    }
}

/// A faculty after the merge: unchanged when no extension faculty has its
/// id; otherwise each subject is merged against the matching extension.
pub open spec fn merged_faculty(f: FacultyView, exts: Seq<FacultyView>) -> FacultyView {
    match first_faculty_with_id(exts, f.id) {
        None => f,
        Some(e) => FacultyView {
            id: f.id,
            name: f.name,
            subjects: Seq::new(f.subjects.len(), |i: int| merged_subject(f.subjects[i], e)),
        },
    }
}

/// The scraped directory with the extension groups merged in, faculty by
/// faculty.
pub open spec fn merged_faculties(fs: Seq<FacultyView>, exts: Seq<FacultyView>) -> Seq<
    FacultyView,
> {
    Seq::new(fs.len(), |i: int| merged_faculty(fs[i], exts))
}

/// Merge one faculty against the extension list.
fn merge_one_faculty(f: &Faculty, extensions: &Vec<Faculty>) -> (r: Faculty)
    ensures
        r@ == merged_faculty(f@, faculty_views(extensions@)),
{
    let ei = match find_faculty(extensions, f.id.as_str()) {
        None => {
            return f.clone();
        },
        Some(ei) => ei,
    };
    let ext = &extensions[ei];
    let ghost ev = ext@;
    let mut subs: Vec<Subject> = Vec::new();
    let mut j: usize = 0;
    proof {
        assert(subject_views(subs@) =~= Seq::new(0, |k: int| merged_subject(f@.subjects[k], ev)));
    }
    while j < f.subjects.len()
        invariant
            0 <= j <= f.subjects@.len(),
            ev == ext@,
            ext@ == extensions@[ei as int]@,
            first_faculty_with_id(faculty_views(extensions@), f@.id) == Some(ev),
            f@.subjects.len() == f.subjects@.len(),
            subject_views(subs@) == Seq::new(j as nat, |k: int| merged_subject(f@.subjects[k], ev)),
        decreases f.subjects@.len() - j,
    {
        let s = &f.subjects[j];
        proof {
            assert(f@.subjects[j as int] == s@);
        }
        let merged = match find_subject(&ext.subjects, s.id.as_str()) {
            None => s.clone(),
            Some(si) => {
                let es = &ext.subjects[si];
                let mut groups = clone_groups(&s.groups);
                let ghost gsv = group_views(s.groups@);
                let ghost egv = group_views(es.groups@);
                let mut k: usize = 0;
                proof {
                    assert(group_views(groups@) =~= gsv + egv.subrange(0, 0));
                }
                while k < es.groups.len()
                    invariant
                        0 <= k <= es.groups@.len(),
                        egv == group_views(es.groups@),
                        egv.len() == es.groups@.len(),
                        group_views(groups@) == gsv + egv.subrange(0, k as int),
                    decreases es.groups@.len() - k,
                {
                    let g = es.groups[k].clone();
                    let ghost before = group_views(groups@);
                    let ghost gv = g@;
                    groups.push(g);
                    proof {
                        assert(group_views(groups@) =~= before.push(gv));
                        assert(before.push(gv) =~= gsv + egv.subrange(0, k + 1));
                    }
                    k += 1;
                }
                proof {
                    assert(egv.subrange(0, egv.len() as int) =~= egv);
                }
                Subject { id: s.id.clone(), name: s.name.clone(), groups }
            },
        };
        let ghost before = subject_views(subs@);
        let ghost mv = merged@;
        subs.push(merged);
        proof {
            assert(subject_views(subs@) =~= before.push(mv));
            assert(mv == merged_subject(f@.subjects[j as int], ev));
            assert(before.push(mv) =~= Seq::new((j + 1) as nat, |k: int| merged_subject(
                f@.subjects[k],
                ev,
            )));
        }
        j += 1;
    }
    let r = Faculty { id: f.id.clone(), name: f.name.clone(), subjects: subs };
    proof {
        assert(r@ =~= merged_faculty(f@, faculty_views(extensions@)));
    }
    r
}

/// Merge the scraped directory with the extension list: additive and
/// id-keyed, applied once per fresh scrape.
pub fn merge_faculties(faculties: &Vec<Faculty>, extensions: &Vec<Faculty>) -> (r: Vec<Faculty>)
    ensures
        faculty_views(r@) == merged_faculties(faculty_views(faculties@), faculty_views(
            extensions@,
        )),
{
    let mut out: Vec<Faculty> = Vec::new();
    let mut i: usize = 0;
    proof {
        assert(faculty_views(out@) =~= merged_faculties(
            faculty_views(faculties@),
            faculty_views(extensions@),
        ).subrange(0, 0));
    }
    while i < faculties.len()
        invariant
            0 <= i <= faculties@.len(),
            faculty_views(out@) == merged_faculties(
                faculty_views(faculties@),
                faculty_views(extensions@),
            ).subrange(0, i as int),
        decreases faculties@.len() - i,
    {
        let m = merge_one_faculty(&faculties[i], extensions);
        let ghost before = faculty_views(out@);
        let ghost mv = m@;
        out.push(m);
        proof {
            assert(faculty_views(out@) =~= before.push(mv));
            assert(before.push(mv) =~= merged_faculties(
                faculty_views(faculties@),
                faculty_views(extensions@),
            ).subrange(0, i + 1));
        }
        i += 1;
    }
    proof {
        assert(merged_faculties(faculty_views(faculties@), faculty_views(extensions@)).subrange(
            0,
            i as int,
        ) =~= merged_faculties(faculty_views(faculties@), faculty_views(extensions@)));
    }
    out
}

/// The directory merge is additive and id-keyed: the merged tree has the
/// same faculties in the same order; a faculty with no matching extension
/// is unchanged; a subject with no matching extension subject is
/// unchanged; and in every merged subject the scraped groups stay, in
/// order, as a prefix — groups are appended, never replaced.
pub proof fn lemma_merge_additive(fs: Seq<FacultyView>, exts: Seq<FacultyView>, i: int, j: int)
    requires
        0 <= i < fs.len(),
        0 <= j < fs[i].subjects.len(),
    ensures
        merged_faculties(fs, exts).len() == fs.len(),
        merged_faculties(fs, exts)[i].id == fs[i].id,
        merged_faculties(fs, exts)[i].name == fs[i].name,
        merged_faculties(fs, exts)[i].subjects.len() == fs[i].subjects.len(),
        first_faculty_with_id(exts, fs[i].id) is None ==> merged_faculties(fs, exts)[i] == fs[i],
        (match first_faculty_with_id(exts, fs[i].id) {
            None => true,
            Some(e) => {
                let ms = merged_faculties(fs, exts)[i].subjects[j];
                let os = fs[i].subjects[j];
                ms.id == os.id && ms.name == os.name && ms.groups.len() >= os.groups.len()
                    && ms.groups.subrange(0, os.groups.len() as int) == os.groups && (
                first_subject_with_id(e.subjects, os.id) is None ==> ms == os)
            },
        }),
{
    match first_faculty_with_id(exts, fs[i].id) {
        None => {},
        Some(e) => {
            let ms = merged_faculties(fs, exts)[i].subjects[j];
            let os = fs[i].subjects[j];
            assert(ms == merged_subject(os, e));
            match first_subject_with_id(e.subjects, os.id) {
                None => {},
                Some(es) => {
                    assert((os.groups + es.groups).subrange(0, os.groups.len() as int)
                        =~= os.groups);
                },
            }
        },
    }
}

/// One record of the locally bundled supplement file: the subject id on
/// the first line, one group id per following line, blank lines dropped.
pub open spec fn supplement_subject_of(rec: Seq<char>) -> Result<SubjectView, ParseError> {
    match split_once_at(rec, '\n') {
        None => Err(ParseError::Supplement),
        Some(p) => Ok(
            SubjectView {
                id: p.0,
                name: Seq::<char>::empty(),
                groups: drop_empty(split_on(p.1, "\n"@)).map_values(|t: Seq<char>| GroupView {
                    id: t,
                }),
            },
        ),
    }
}

/// The subjects of a supplement file: blank-line-separated records, each
/// one subject, or the first failure.
pub open spec fn supplement_subjects_of(recs: Seq<Seq<char>>) -> Result<Seq<SubjectView>, ParseError>
    decreases recs.len(),
{
    if recs.len() == 0 {
        Ok(Seq::<SubjectView>::empty())
    } else {
        match supplement_subject_of(recs[0]) {
            Err(e) => Err(e),
            Ok(h) => match supplement_subjects_of(recs.drop_first()) {
                Err(e) => Err(e),
                Ok(t) => Ok(seq![h] + t),
            },
        }
    }
}

/// Parse the locally bundled supplement text: records separated by blank
/// lines, each with a subject id on its first line and one group id per
/// following line. The parsed subjects carry no display name.
pub fn parse_supplement(text: &str) -> (r: Result<Vec<Subject>, ParseError>)
    ensures
        (match r {
            Ok(v) => supplement_subjects_of(split_on(text@, "\n\n"@)) == Ok::<
                Seq<SubjectView>,
                ParseError,
            >(subject_views(v@)),
            Err(e) => supplement_subjects_of(split_on(text@, "\n\n"@)) == Err::<
                Seq<SubjectView>,
                ParseError,
            >(e),
        }),
{
    let cs = chars_of(text);
    let sep = chars_of("\n\n");
    proof {
        reveal_strlit("\n\n");
    }
    let recs = split_on_chars(&cs, &sep);
    let ghost sv = seq_views(recs@);
    let mut out: Vec<Subject> = Vec::new();
    let mut i: usize = 0;
    proof {
        assert(sv.skip(0) =~= sv);
        match supplement_subjects_of(sv) {
            Ok(all) => {
                assert(subject_views(out@) + all =~= all);
                assert(subject_views(out@) =~= Seq::<SubjectView>::empty());
            },
            Err(_) => {},
        }
    }
    while i < recs.len()
        invariant
            0 <= i <= recs@.len(),
            sv == seq_views(recs@),
            sv == split_on(text@, "\n\n"@),
            supplement_subjects_of(sv) matches Ok(all) ==> supplement_subjects_of(
                sv.skip(i as int),
            ) matches Ok(rest) && all == subject_views(out@) + rest,
            supplement_subjects_of(sv) matches Err(e) ==> supplement_subjects_of(sv.skip(i as int))
                == Err::<Seq<SubjectView>, ParseError>(e),
        decreases recs@.len() - i,
    {
        let ghost rem = sv.skip(i as int);
        proof {
            assert(rem[0] == recs@[i as int]@);
            assert(rem.drop_first() =~= sv.skip(i + 1));
        }
        let rec = &recs[i];
        match split_once_char(rec, '\n') {
            None => {
                proof {
                    assert(supplement_subjects_of(rem) == Err::<Seq<SubjectView>, ParseError>(
                        ParseError::Supplement,
                    ));
                    assert(supplement_subjects_of(sv) == Err::<Seq<SubjectView>, ParseError>(
                        ParseError::Supplement,
                    ));
                }
                return Err(ParseError::Supplement);
            },
            Some((idcs, rest)) => {
                let id = string_from_chars(&idcs);
                let nl = chars_of("\n");
                proof {
                    reveal_strlit("\n");
                }
                let lines = split_on_chars(&rest, &nl);
                let toks = drop_empty_tokens(&lines);
                let mut groups: Vec<Group> = Vec::new();
                let ghost tv = seq_views(toks@);
                let mut k: usize = 0;
                proof {
                    assert(group_views(groups@) =~= tv.map_values(
                        |t: Seq<char>| GroupView { id: t },
                    ).subrange(0, 0));
                }
                while k < toks.len()
                    invariant
                        0 <= k <= toks@.len(),
                        tv == seq_views(toks@),
                        tv.len() == toks@.len(),
                        group_views(groups@) == tv.map_values(
                            |t: Seq<char>| GroupView { id: t },
                        ).subrange(0, k as int),
                    decreases toks@.len() - k,
                {
                    let g = Group { id: string_from_chars(&toks[k]) };
                    let ghost before = group_views(groups@);
                    let ghost gv = g@;
                    groups.push(g);
                    proof {
                        assert(group_views(groups@) =~= before.push(gv));
                        assert(gv == tv.map_values(|t: Seq<char>| GroupView { id: t })[k as int]);
                        assert(before.push(gv) =~= tv.map_values(
                            |t: Seq<char>| GroupView { id: t },
                        ).subrange(0, k + 1));
                    }
                    k += 1;
                }
                proof {
                    let mapped = tv.map_values(|t: Seq<char>| GroupView { id: t });
                    assert(mapped.subrange(0, mapped.len() as int) =~= mapped);
                }
                let subj = Subject { id, name: String::new(), groups };
                let ghost before = subject_views(out@);
                let ghost subv = subj@;
                out.push(subj);
                proof {
                    assert(supplement_subject_of(rem[0]) == Ok::<SubjectView, ParseError>(subv));
                    assert(subject_views(out@) =~= before.push(subv));
                    match supplement_subjects_of(sv) {
                        Ok(all) => {
                            assert(all =~= subject_views(out@) + supplement_subjects_of(
                                sv.skip(i + 1),
                            ).unwrap());
                        },
                        Err(_) => {},
                    }
                }
            },
        }
        i += 1;
    }
    proof {
        assert(sv.skip(i as int) =~= Seq::<Seq<char>>::empty());
        match supplement_subjects_of(sv) {
            Ok(all) => {
                assert(all =~= subject_views(out@));
            },
            Err(_) => {},
        }
    }
    Ok(out)
}

/// The statically configured supplement: the groups the upstream catalog
/// omits although their students must still be queryable, keyed by faculty
/// and subject id.
pub open spec fn extension_directory() -> Seq<FacultyView> {
    seq![
        FacultyView {
            id: "FIMN"@,
            name: "Fakultät Informatik und Medien LFB Informatik"@,
            subjects: seq![
                SubjectView {
                    id: "INB"@,
                    name: "Informatik (Bachelor of Science)"@,
                    groups: seq![
                        GroupView { id: "23INB-1"@ },
                        GroupView { id: "23INB-2"@ },
                        GroupView { id: "23INB-3"@ },
                    ],
                },
                SubjectView {
                    id: "MIB"@,
                    name: "Medieninformatik (Bachelor of Science)"@,
                    groups: seq![GroupView { id: "23MIB-1"@ }, GroupView { id: "23MIB-2"@ }],
                },
            ],
        },
        FacultyView {
            id: "FB"@,
            name: "Fakultät Bauwesen"@,
            subjects: seq![
                SubjectView {
                    id: "BIB"@,
                    name: "Bauingenieurwesen (Bachelor of Engineering)"@,
                    groups: seq![
                        GroupView { id: "23BIB-1a"@ },
                        GroupView { id: "23BIB-1b"@ },
                        GroupView { id: "23BIB-2a"@ },
                        GroupView { id: "23BIB-2b"@ },
                        GroupView { id: "23BIB-3a"@ },
                        GroupView { id: "23BIB-3b"@ },
                        GroupView { id: "23BIB-3a"@ },
                        GroupView { id: "23BIB-3b"@ },
                    ],
                },
            ],
        },
        FacultyView {
            id: "FWW"@,
            name: ""@,
            subjects: seq![
                SubjectView {
                    id: "SMB"@,
                    name: "Wirtschaftsingenieurwesen Maschinenbau (Bachelor of Engineering)"@,
                    groups: seq![GroupView { id: "23SMB"@ }],
                },
                SubjectView {
                    id: "STB"@,
                    name: "Wirtschaftsingenieurwesen Elektrotechnik (Bachelor of Engineering)"@,
                    groups: seq![GroupView { id: "23STB"@ }],
                },
            ],
        },
        FacultyView {
            id: "FME"@,
            name: "Fakultät Ingenieurwissenschaften LFB Maschinenbau und Energietechnik"@,
            subjects: seq![
                SubjectView {
                    id: "MBB"@,
                    name: "Maschinenbau (Bachelor of Engineering)"@,
                    groups: seq![GroupView { id: "23MBB-1"@ }, GroupView { id: "23MBB-2"@ }],
                },
            ],
        },
    ]
}

fn mk_group(id: &str) -> (g: Group)
    ensures
        g@ == (GroupView { id: id@ }),
{
    Group { id: String::from_str(id) }
}

fn mk_subject(id: &str, name: &str, groups: Vec<Group>) -> (s: Subject)
    ensures
        s@ == (SubjectView { id: id@, name: name@, groups: group_views(groups@) }),
{
    Subject { id: String::from_str(id), name: String::from_str(name), groups }
}

fn mk_faculty(id: &str, name: &str, subjects: Vec<Subject>) -> (f: Faculty)
    ensures
        f@ == (FacultyView { id: id@, name: name@, subjects: subject_views(subjects@) }),
{
    Faculty { id: String::from_str(id), name: String::from_str(name), subjects }
}

/// Build the statically configured extension directory.
pub fn extension_faculties() -> (r: Vec<Faculty>)
    ensures
        faculty_views(r@) == extension_directory(),
{
    let inb = mk_subject(
        "INB",
        "Informatik (Bachelor of Science)",
        vec![mk_group("23INB-1"), mk_group("23INB-2"), mk_group("23INB-3")],
    );
    let mib = mk_subject(
        "MIB",
        "Medieninformatik (Bachelor of Science)",
        vec![mk_group("23MIB-1"), mk_group("23MIB-2")],
    );
    let fimn = mk_faculty(
        "FIMN",
        "Fakultät Informatik und Medien LFB Informatik",
        vec![inb, mib],
    );
    let bib = mk_subject(
        "BIB",
        "Bauingenieurwesen (Bachelor of Engineering)",
        vec![
            mk_group("23BIB-1a"),
            mk_group("23BIB-1b"),
            mk_group("23BIB-2a"),
            mk_group("23BIB-2b"),
            mk_group("23BIB-3a"),
            mk_group("23BIB-3b"),
            mk_group("23BIB-3a"),
            mk_group("23BIB-3b"),
        ],
    );
    let fb = mk_faculty("FB", "Fakultät Bauwesen", vec![bib]);
    let smb = mk_subject(
        "SMB",
        "Wirtschaftsingenieurwesen Maschinenbau (Bachelor of Engineering)",
        vec![mk_group("23SMB")],
    );
    let stb = mk_subject(
        "STB",
        "Wirtschaftsingenieurwesen Elektrotechnik (Bachelor of Engineering)",
        vec![mk_group("23STB")],
    );
    let fww = mk_faculty("FWW", "", vec![smb, stb]);
    let mbb = mk_subject(
        "MBB",
        "Maschinenbau (Bachelor of Engineering)",
        vec![mk_group("23MBB-1"), mk_group("23MBB-2")],
    );
    let fme = mk_faculty(
        "FME",
        "Fakultät Ingenieurwissenschaften LFB Maschinenbau und Energietechnik",
        vec![mbb],
    );
    let r = vec![fimn, fb, fww, fme];
    proof {
        assert(faculty_views(r@) =~~= extension_directory());
    }
    r
}

/// Flatten the directory into its subjects, in order.
pub open spec fn all_subjects(fs: Seq<FacultyView>) -> Seq<SubjectView>
    decreases fs.len(),
{
    if fs.len() == 0 {
        Seq::<SubjectView>::empty()
    } else {
        fs[0].subjects + all_subjects(fs.drop_first())
    }
}

/// The subjects of every faculty, in order.
pub fn subjects_of(faculties: &Vec<Faculty>) -> (r: Vec<Subject>)
    ensures
        subject_views(r@) == all_subjects(faculty_views(faculties@)),
{
    let ghost sv = faculty_views(faculties@);
    let mut out: Vec<Subject> = Vec::new();
    let mut i: usize = 0;
    proof {
        assert(sv.skip(0) =~= sv);
        assert(subject_views(out@) =~= Seq::<SubjectView>::empty());
        assert(subject_views(out@) + all_subjects(sv.skip(0)) =~= all_subjects(sv.skip(0)));
    }
    while i < faculties.len()
        invariant
            0 <= i <= faculties@.len(),
            sv == faculty_views(faculties@),
            all_subjects(sv) == subject_views(out@) + all_subjects(sv.skip(i as int)),
        decreases faculties@.len() - i,
    {
        let ghost rem = sv.skip(i as int);
        let ghost ov = subject_views(out@);
        proof {
            assert(rem[0] == faculties@[i as int]@);
            assert(rem.drop_first() =~= sv.skip(i + 1));
        }
        let f = &faculties[i];
        let ghost fsub = subject_views(f.subjects@);
        let mut k: usize = 0;
        proof {
            assert(subject_views(out@) =~= ov + fsub.subrange(0, 0));
        }
        while k < f.subjects.len()
            invariant
                0 <= k <= f.subjects@.len(),
                fsub == subject_views(f.subjects@),
                fsub.len() == f.subjects@.len(),
                subject_views(out@) == ov + fsub.subrange(0, k as int),
            decreases f.subjects@.len() - k,
        {
            let s = f.subjects[k].clone();
            let ghost before = subject_views(out@);
            let ghost sv2 = s@;
            out.push(s);
            proof {
                assert(subject_views(out@) =~= before.push(sv2));
                assert(before.push(sv2) =~= ov + fsub.subrange(0, k + 1));
            }
            k += 1;
        }
        proof {
            assert(fsub.subrange(0, fsub.len() as int) =~= fsub);
            assert(subject_views(out@) =~= ov + rem[0].subjects);
        }
        i += 1;
    }
    proof {
        assert(sv.skip(i as int) =~= Seq::<FacultyView>::empty());
        assert(subject_views(out@) + Seq::<SubjectView>::empty() =~= subject_views(out@));
    }
    out
}

} // verus!
