//! The TTL cache layer: one slot per group's event list, one for the
//! faculty directory and one for the flattened subject list. A read within
//! the TTL returns a copy of the stored value; a read past it reports a
//! miss, and the caller scrapes and stores. Errors are never cached.

use vstd::prelude::*;
use vstd::pervasive::VecAdditionalExecFns;
use vstd::string::StringExecFns;
use crate::events::{event_views, Event, EventView};
use crate::faculties::{faculty_views, subject_views, Faculty, Subject};
use crate::strutil::str_eq;

verus! {

/// The default time-to-live of a group's cached event list, in seconds.
pub const GROUP_EVENTS_TTL_SECS: u64 = 3600;

/// The default time-to-live of the cached faculty directory, in seconds.
pub const FACULTIES_TTL_SECS: u64 = 1800;

/// The default time-to-live of the cached subject list, in seconds.
pub const SUBJECTS_TTL_SECS: u64 = 300;

/// A value stored at a timestamp is fresh while less than the TTL has
/// passed.
pub open spec fn fresh_at(stored: u64, now: u64, ttl: u64) -> bool {
    stored <= now && now - stored < ttl
}

/// One group's cached event list.
pub struct GroupEntry {
    pub group: String,
    pub stored_at: u64,
    pub events: Vec<Event>,
}

/// The cached faculty directory.
pub struct DirectoryEntry {
    pub stored_at: u64,
    pub faculties: Vec<Faculty>,
}

/// The cached flattened subject list.
pub struct SubjectsEntry {
    pub stored_at: u64,
    pub subjects: Vec<Subject>,
}

/// The entry stored for a group id: the first entry of the list that
/// carries it.
pub open spec fn group_entry_of(entries: Seq<GroupEntry>, id: Seq<char>) -> Option<
    (u64, Seq<EventView>),
>
    decreases entries.len(),
{
    if entries.len() == 0 {
        None
    } else if entries[0].group@ == id {
        Some((entries[0].stored_at, event_views(entries[0].events@)))
    } else {
        group_entry_of(entries.drop_first(), id)
    }
}

proof fn lemma_group_entry_update(s: Seq<GroupEntry>, i: int, e: GroupEntry)
    requires
        0 <= i < s.len(),
        s[i].group@ == e.group@,
        forall|j: int| 0 <= j < i ==> s[j].group@ != e.group@,
    ensures
        group_entry_of(s.update(i, e), e.group@) == Some((e.stored_at, event_views(e.events@))),
        forall|id: Seq<char>|
            id != e.group@ ==> group_entry_of(s.update(i, e), id) == group_entry_of(s, id),
    decreases i,
{
    if i == 0 {
        assert(s.update(0, e).drop_first() =~= s.drop_first());
        assert forall|id: Seq<char>| id != e.group@ implies group_entry_of(s.update(0, e), id)
            == group_entry_of(s, id) by {
            assert(s.update(0, e)[0] == e);
            assert(group_entry_of(s.update(0, e), id) == group_entry_of(s.drop_first(), id));
            assert(group_entry_of(s, id) == group_entry_of(s.drop_first(), id));
        }
    } else {
        lemma_group_entry_update(s.drop_first(), i - 1, e);
        assert(s.update(i, e).drop_first() =~= s.drop_first().update(i - 1, e));
        assert(s.update(i, e)[0] == s[0]);
        assert forall|id: Seq<char>| id != e.group@ implies group_entry_of(s.update(i, e), id)
            == group_entry_of(s, id) by {
            if s[0].group@ != id {
                assert(group_entry_of(s.update(i, e), id) == group_entry_of(
                    s.drop_first().update(i - 1, e),
                    id,
                ));
                assert(group_entry_of(s, id) == group_entry_of(s.drop_first(), id));
            }
        }
    }
}

proof fn lemma_group_entry_push(s: Seq<GroupEntry>, e: GroupEntry)
    requires
        forall|j: int| 0 <= j < s.len() ==> s[j].group@ != e.group@,
    ensures
        group_entry_of(s.push(e), e.group@) == Some((e.stored_at, event_views(e.events@))),
        forall|id: Seq<char>|
            id != e.group@ ==> group_entry_of(s.push(e), id) == group_entry_of(s, id),
    decreases s.len(),
{
    if s.len() == 0 {
        assert(s.push(e)[0] == e);
        assert(s.push(e).drop_first() =~= s);
        assert forall|id: Seq<char>| id != e.group@ implies group_entry_of(s.push(e), id)
            == group_entry_of(s, id) by {
            assert(group_entry_of(s.push(e), id) == group_entry_of(s, id));
        }
    } else {
        lemma_group_entry_push(s.drop_first(), e);
        assert(s.push(e).drop_first() =~= s.drop_first().push(e));
        assert(s.push(e)[0] == s[0]);
        assert forall|id: Seq<char>| id != e.group@ implies group_entry_of(s.push(e), id)
            == group_entry_of(s, id) by {
            if s[0].group@ != id {
                assert(group_entry_of(s.push(e), id) == group_entry_of(
                    s.drop_first().push(e),
                    id,
                ));
                assert(group_entry_of(s, id) == group_entry_of(s.drop_first(), id));
            }
        }
    }
}

/// The shared cache: the group-events map, the directory slot and the
/// subjects slot. Callers always receive copies, never references into the
/// cache.
pub struct Cache {
    pub groups: Vec<GroupEntry>,
    pub faculties: Option<DirectoryEntry>,
    pub subjects: Option<SubjectsEntry>,
}

impl Cache {
    /// An empty cache: no entry for any group, none for the directory or
    /// the subjects.
    pub fn new() -> (r: Cache)
        ensures
            forall|id: Seq<char>| group_entry_of(r.groups@, id) is None,
            r.faculties is None,
            r.subjects is None,
    {
        let r = Cache { groups: Vec::new(), faculties: None, subjects: None };
        r
    }

    /// A copy of the events cached for a group, exactly when an entry for
    /// it exists and is still fresh; a miss otherwise, and the caller
    /// scrapes.
    pub fn get_group_events(&self, group: &str, now: u64, ttl: u64) -> (r: Option<Vec<Event>>)
        ensures
            (match r {
                Some(evs) => group_entry_of(self.groups@, group@) matches Some(e) && fresh_at(
                    e.0,
                    now,
                    ttl,
                ) && event_views(evs@) == e.1,
                None => !(group_entry_of(self.groups@, group@) matches Some(e) && fresh_at(
                    e.0,
                    now,
                    ttl,
                )),
            }),
    {
        let mut i: usize = 0;
        proof {
            assert(self.groups@.skip(0) =~= self.groups@);
        }
        while i < self.groups.len()
            invariant
                0 <= i <= self.groups@.len(),
                forall|j: int| 0 <= j < i ==> self.groups@[j].group@ != group@,
                group_entry_of(self.groups@, group@) == group_entry_of(
                    self.groups@.skip(i as int),
                    group@,
                ),
            decreases self.groups@.len() - i,
        {
            let ghost rem = self.groups@.skip(i as int);
            proof {
                assert(rem[0] == self.groups@[i as int]);
                assert(rem.drop_first() =~= self.groups@.skip(i + 1));
            }
            let entry = &self.groups[i];
            if str_eq(entry.group.as_str(), group) {
                if entry.stored_at <= now && now - entry.stored_at < ttl {
                    let mut evs: Vec<Event> = Vec::new();
                    let ghost ev = event_views(entry.events@);
                    let mut k: usize = 0;
                    proof {
                        assert(event_views(evs@) =~= ev.subrange(0, 0));
                    }
                    while k < entry.events.len()
                        invariant
                            0 <= k <= entry.events@.len(),
                            ev == event_views(entry.events@),
                            ev.len() == entry.events@.len(),
                            event_views(evs@) == ev.subrange(0, k as int),
                        decreases entry.events@.len() - k,
                    {
                        let e = entry.events[k].clone();
                        let ghost before = event_views(evs@);
                        let ghost evv = e@;
                        evs.push(e);
                        proof {
                            assert(event_views(evs@) =~= before.push(evv));
                            assert(before.push(evv) =~= ev.subrange(0, k + 1));
                        }
                        k += 1;
                    }
                    proof {
                        assert(ev.subrange(0, ev.len() as int) =~= ev);
                    }
                    return Some(evs);
                } else {
                    return None;
                }
            }
            i += 1;
        }
        proof {
            assert(self.groups@.skip(i as int) =~= Seq::<GroupEntry>::empty());
        }
        None
    }

    /// Store a group's freshly scraped events at the current time,
    /// overwriting any earlier entry for that group and leaving every
    /// other entry and the other slots unchanged.
    pub fn put_group_events(&mut self, group: &str, now: u64, events: Vec<Event>)
        ensures
            group_entry_of(final(self).groups@, group@) == Some((now, event_views(events@))),
            forall|id: Seq<char>|
                id != group@ ==> group_entry_of(final(self).groups@, id) == group_entry_of(
                    old(self).groups@,
                    id,
                ),
            final(self).faculties == old(self).faculties,
            final(self).subjects == old(self).subjects,
    {
        let entry = GroupEntry { group: String::from_str(group), stored_at: now, events };
        let ghost ev = event_views(entry.events@);
        let mut i: usize = 0;
        while i < self.groups.len()
            invariant
                0 <= i <= self.groups@.len(),
                forall|j: int| 0 <= j < i ==> self.groups@[j].group@ != group@,
                entry.group@ == group@,
                entry.stored_at == now,
                ev == event_views(entry.events@),
                ev == event_views(events@),
                self.groups@ == old(self).groups@,
                self.faculties == old(self).faculties,
                self.subjects == old(self).subjects,
            decreases self.groups@.len() - i,
        {
            if str_eq(self.groups[i].group.as_str(), group) {
                proof {
                    lemma_group_entry_update(self.groups@, i as int, entry);
                }
                self.groups.set(i, entry);
                return ;
            }
            i += 1;
        }
        proof {
            lemma_group_entry_push(self.groups@, entry);
        }
        self.groups.push(entry);
    }

    /// A copy of the cached directory, exactly when it exists and is still
    /// fresh.
    pub fn get_faculties(&self, now: u64, ttl: u64) -> (r: Option<Vec<Faculty>>)
        ensures
            (match r {
                Some(fs) => self.faculties matches Some(e) && fresh_at(e.stored_at, now, ttl)
                    && faculty_views(fs@) == faculty_views(e.faculties@),
                None => !(self.faculties matches Some(e) && fresh_at(e.stored_at, now, ttl)),
            }),
    {
        match &self.faculties {
            None => None,
            Some(e) => {
                if e.stored_at <= now && now - e.stored_at < ttl {
                    let mut fs: Vec<Faculty> = Vec::new();
                    let ghost fv = faculty_views(e.faculties@);
                    let mut k: usize = 0;
                    proof {
                        assert(faculty_views(fs@) =~= fv.subrange(0, 0));
                    }
                    while k < e.faculties.len()
                        invariant
                            0 <= k <= e.faculties@.len(),
                            fv == faculty_views(e.faculties@),
                            fv.len() == e.faculties@.len(),
                            faculty_views(fs@) == fv.subrange(0, k as int),
                        decreases e.faculties@.len() - k,
                    {
                        let f = e.faculties[k].clone();
                        let ghost before = faculty_views(fs@);
                        let ghost fvv = f@;
                        fs.push(f);
                        proof {
                            assert(faculty_views(fs@) =~= before.push(fvv));
                            assert(before.push(fvv) =~= fv.subrange(0, k + 1));
                        }
                        k += 1;
                    }
                    proof {
                        assert(fv.subrange(0, fv.len() as int) =~= fv);
                    }
                    Some(fs)
                } else {
                    None
                }
            },
        }
    }

    /// Store the freshly scraped directory at the current time, leaving
    /// the other slots unchanged.
    pub fn put_faculties(&mut self, now: u64, faculties: Vec<Faculty>)
        ensures
            final(self).faculties matches Some(e) && e.stored_at == now && faculty_views(
                e.faculties@,
            ) == faculty_views(faculties@),
            final(self).groups == old(self).groups,
            final(self).subjects == old(self).subjects,
    {
        self.faculties = Some(DirectoryEntry { stored_at: now, faculties });
    }

    /// Whether the subjects slot must be refreshed: it is empty or stale.
    pub fn subjects_need_refresh(&self, now: u64, ttl: u64) -> (r: bool)
        ensures
            r == !(self.subjects matches Some(e) && fresh_at(e.stored_at, now, ttl)),
    {
        match &self.subjects {
            None => true,
            Some(e) => !(e.stored_at <= now && now - e.stored_at < ttl),
        }
    }

    /// A copy of the cached subject list, whenever it exists: the
    /// background refresher keeps it fresh, and a stale copy is still
    /// served rather than failing the request.
    pub fn get_subjects(&self) -> (r: Option<Vec<Subject>>)
        ensures
            (match r {
                Some(ss) => self.subjects matches Some(e) && subject_views(ss@) == subject_views(
                    e.subjects@,
                ),
                None => self.subjects is None,
            }),
    {
        match &self.subjects {
            None => None,
            Some(e) => {
                let mut ss: Vec<Subject> = Vec::new();
                let ghost sv = subject_views(e.subjects@);
                let mut k: usize = 0;
                proof {
                    assert(subject_views(ss@) =~= sv.subrange(0, 0));
                }
                while k < e.subjects.len()
                    invariant
                        0 <= k <= e.subjects@.len(),
                        sv == subject_views(e.subjects@),
                        sv.len() == e.subjects@.len(),
                        subject_views(ss@) == sv.subrange(0, k as int),
                    decreases e.subjects@.len() - k,
                {
                    let s = e.subjects[k].clone();
                    let ghost before = subject_views(ss@);
                    let ghost svv = s@;
                    ss.push(s);
                    proof {
                        assert(subject_views(ss@) =~= before.push(svv));
                        assert(before.push(svv) =~= sv.subrange(0, k + 1));
                    }
                    k += 1;
                }
                proof {
                    assert(sv.subrange(0, sv.len() as int) =~= sv);
                }
                Some(ss)
            },
        }
    }

    /// Store the freshly scraped subject list at the current time, leaving
    /// the other slots unchanged.
    pub fn put_subjects(&mut self, now: u64, subjects: Vec<Subject>)
        ensures
            final(self).subjects matches Some(e) && e.stored_at == now && subject_views(
                e.subjects@,
            ) == subject_views(subjects@),
            final(self).groups == old(self).groups,
            final(self).faculties == old(self).faculties,
    {
        self.subjects = Some(SubjectsEntry { stored_at: now, subjects });
    }
}

} // verus!
