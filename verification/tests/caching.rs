use htwk_calendar::cache::{Cache, GROUP_EVENTS_TTL_SECS};
use htwk_calendar::dates::{Date, DateTime};
use htwk_calendar::events::Event;
use htwk_calendar::faculties::{Faculty, Subject};
use htwk_calendar::kinds::EventKind;
use htwk_calendar::times::TimeOfDay;

fn sample_event(title: &str) -> Event {
    let at = DateTime {
        date: Date { year: 2023, month: 5, day: 1 },
        time: TimeOfDay { hour: 9, minute: 0, second: 0 },
    };
    Event {
        title: title.to_string(),
        notes: String::new(),
        kind: EventKind::Vorlesung,
        kind_display: "Vorlesung".to_string(),
        rooms: vec![],
        staff: vec![],
        color: "#275BB6".to_string(),
        start: at,
        end: at,
    }
}

/// A stand-in for the upstream scrape that counts how often it runs.
struct CountingFetcher {
    calls: u32,
}

impl CountingFetcher {
    fn fetch(&mut self) -> Vec<Event> {
        self.calls += 1;
        vec![sample_event("frisch")]
    }
}

/// The read path of the events endpoint: serve a fresh hit, otherwise
/// fetch and store.
fn read_through(
    cache: &mut Cache,
    fetcher: &mut CountingFetcher,
    group: &str,
    now: u64,
) -> Vec<Event> {
    if let Some(evs) = cache.get_group_events(group, now, GROUP_EVENTS_TTL_SECS) {
        return evs;
    }
    let evs = fetcher.fetch();
    cache.put_group_events(group, now, evs.clone());
    evs
}

#[test]
fn read_within_ttl_never_fetches_again() {
    let mut cache = Cache::new();
    let mut fetcher = CountingFetcher { calls: 0 };
    read_through(&mut cache, &mut fetcher, "23INB-1", 1000);
    assert_eq!(fetcher.calls, 1);
    // Reads within the TTL are served from the cache: no new fetch.
    read_through(&mut cache, &mut fetcher, "23INB-1", 1000 + 10);
    read_through(&mut cache, &mut fetcher, "23INB-1", 1000 + GROUP_EVENTS_TTL_SECS - 1);
    assert_eq!(fetcher.calls, 1);
}

#[test]
fn read_past_ttl_fetches_exactly_once_and_updates_timestamp() {
    let mut cache = Cache::new();
    let mut fetcher = CountingFetcher { calls: 0 };
    read_through(&mut cache, &mut fetcher, "23INB-1", 1000);
    assert_eq!(fetcher.calls, 1);
    let later = 1000 + GROUP_EVENTS_TTL_SECS;
    read_through(&mut cache, &mut fetcher, "23INB-1", later);
    assert_eq!(fetcher.calls, 2);
    // The stored timestamp was updated: a read shortly after is a hit.
    read_through(&mut cache, &mut fetcher, "23INB-1", later + 10);
    assert_eq!(fetcher.calls, 2);
}

#[test]
fn groups_are_cached_independently() {
    let mut cache = Cache::new();
    let mut fetcher = CountingFetcher { calls: 0 };
    read_through(&mut cache, &mut fetcher, "23INB-1", 1000);
    read_through(&mut cache, &mut fetcher, "23INB-2", 1000);
    assert_eq!(fetcher.calls, 2);
    read_through(&mut cache, &mut fetcher, "23INB-1", 1001);
    read_through(&mut cache, &mut fetcher, "23INB-2", 1001);
    assert_eq!(fetcher.calls, 2);
}

#[test]
fn cached_value_is_returned_as_stored() {
    let mut cache = Cache::new();
    cache.put_group_events("g", 500, vec![sample_event("a"), sample_event("b")]);
    let evs = cache.get_group_events("g", 600, GROUP_EVENTS_TTL_SECS).unwrap();
    assert_eq!(evs.len(), 2);
    assert_eq!(evs[0].title, "a");
    assert_eq!(evs[1].title, "b");
}

#[test]
fn overwrite_replaces_the_entry() {
    let mut cache = Cache::new();
    cache.put_group_events("g", 500, vec![sample_event("alt")]);
    cache.put_group_events("g", 800, vec![sample_event("neu")]);
    let evs = cache.get_group_events("g", 900, GROUP_EVENTS_TTL_SECS).unwrap();
    assert_eq!(evs.len(), 1);
    assert_eq!(evs[0].title, "neu");
}

#[test]
fn faculties_slot_has_its_own_ttl() {
    let mut cache = Cache::new();
    assert!(cache.get_faculties(100, 1800).is_none());
    let fs = vec![Faculty { id: "FIMN".to_string(), name: String::new(), subjects: vec![] }];
    cache.put_faculties(100, fs);
    assert!(cache.get_faculties(100 + 1799, 1800).is_some());
    assert!(cache.get_faculties(100 + 1800, 1800).is_none());
}

#[test]
fn subjects_slot_serves_stale_but_reports_refresh_need() {
    let mut cache = Cache::new();
    assert!(cache.subjects_need_refresh(100, 300));
    assert!(cache.get_subjects().is_none());
    let subs = vec![Subject { id: "INB".to_string(), name: String::new(), groups: vec![] }];
    cache.put_subjects(100, subs);
    assert!(!cache.subjects_need_refresh(200, 300));
    assert!(cache.subjects_need_refresh(100 + 300, 300));
    // A stale subject list is still served; the background task refreshes.
    let got = cache.get_subjects().unwrap();
    assert_eq!(got.len(), 1);
    assert_eq!(got[0].id, "INB");
}
