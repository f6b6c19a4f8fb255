use htwk_calendar::errors::ParseError;
use htwk_calendar::faculties::{
    extension_faculties, merge_faculties, parse_supplement, subjects_of, Faculty, Group, Subject,
};

fn group(id: &str) -> Group {
    Group { id: id.to_string() }
}

fn subject(id: &str, groups: &[&str]) -> Subject {
    Subject {
        id: id.to_string(),
        name: format!("{} (Bachelor)", id),
        groups: groups.iter().map(|g| group(g)).collect(),
    }
}

fn faculty(id: &str, subjects: Vec<Subject>) -> Faculty {
    Faculty { id: id.to_string(), name: format!("Fakultät {}", id), subjects }
}

fn group_ids(s: &Subject) -> Vec<String> {
    s.groups.iter().map(|g| g.id.clone()).collect()
}

#[test]
fn merge_appends_extension_groups_after_scraped_ones() {
    let scraped = vec![faculty("FIMN", vec![subject("INB", &["22INB-1", "22INB-2"])])];
    let extensions = vec![faculty("FIMN", vec![subject("INB", &["23INB-1"])])];
    let merged = merge_faculties(&scraped, &extensions);
    assert_eq!(merged.len(), 1);
    assert_eq!(merged[0].id, "FIMN");
    // Scraped groups stay, in order, as a prefix; extension groups follow.
    assert_eq!(
        group_ids(&merged[0].subjects[0]),
        vec!["22INB-1".to_string(), "22INB-2".to_string(), "23INB-1".to_string()]
    );
}

#[test]
fn merge_without_matching_faculty_changes_nothing() {
    let scraped = vec![faculty("FAS", vec![subject("ASB", &["22ASB"])])];
    let extensions = vec![faculty("FIMN", vec![subject("INB", &["23INB-1"])])];
    let merged = merge_faculties(&scraped, &extensions);
    assert_eq!(merged.len(), 1);
    assert_eq!(merged[0].id, "FAS");
    assert_eq!(merged[0].name, "Fakultät FAS");
    assert_eq!(group_ids(&merged[0].subjects[0]), vec!["22ASB".to_string()]);
}

#[test]
fn merge_extension_subject_without_counterpart_is_ignored() {
    // The extension faculty matches, but its subject id has no scraped
    // counterpart: the scraped tree is unchanged.
    let scraped = vec![faculty("FIMN", vec![subject("MIB", &["22MIB-1"])])];
    let extensions = vec![faculty("FIMN", vec![subject("INB", &["23INB-1"])])];
    let merged = merge_faculties(&scraped, &extensions);
    assert_eq!(merged[0].subjects.len(), 1);
    assert_eq!(merged[0].subjects[0].id, "MIB");
    assert_eq!(group_ids(&merged[0].subjects[0]), vec!["22MIB-1".to_string()]);
}

#[test]
fn merge_never_replaces_scraped_groups() {
    let scraped = vec![faculty("FB", vec![subject("BIB", &["22BIB-1", "22BIB-2"])])];
    let extensions = vec![faculty("FB", vec![subject("BIB", &["23BIB-1"])])];
    let merged = merge_faculties(&scraped, &extensions);
    let ids = group_ids(&merged[0].subjects[0]);
    assert_eq!(&ids[0..2], &["22BIB-1".to_string(), "22BIB-2".to_string()]);
}

#[test]
fn merging_twice_duplicates_groups() {
    // The merge is additive, not idempotent: the cache layer must apply it
    // exactly once per fresh scrape.
    let scraped = vec![faculty("FIMN", vec![subject("INB", &[])])];
    let extensions = vec![faculty("FIMN", vec![subject("INB", &["23INB-1"])])];
    let once = merge_faculties(&scraped, &extensions);
    let twice = merge_faculties(&once, &extensions);
    assert_eq!(
        group_ids(&twice[0].subjects[0]),
        vec!["23INB-1".to_string(), "23INB-1".to_string()]
    );
}

#[test]
fn builtin_extension_directory_shape() {
    let exts = extension_faculties();
    assert_eq!(exts.len(), 4);
    assert_eq!(exts[0].id, "FIMN");
    assert_eq!(exts[0].subjects.len(), 2);
    assert_eq!(exts[0].subjects[0].id, "INB");
    assert_eq!(
        group_ids(&exts[0].subjects[0]),
        vec!["23INB-1".to_string(), "23INB-2".to_string(), "23INB-3".to_string()]
    );
    assert_eq!(exts[1].id, "FB");
    assert_eq!(exts[2].id, "FWW");
    assert_eq!(exts[3].id, "FME");
}

#[test]
fn identity_is_by_id_alone() {
    let a = subject("INB", &["g1"]);
    let mut b = subject("INB", &["g2"]);
    b.name = "ganz anders".to_string();
    assert!(a.same_id(&b));
    let c = subject("MIB", &["g1"]);
    assert!(!a.same_id(&c));
}

#[test]
fn subjects_flatten_in_order() {
    let fs = vec![
        faculty("A", vec![subject("S1", &[]), subject("S2", &[])]),
        faculty("B", vec![subject("S3", &[])]),
    ];
    let subs = subjects_of(&fs);
    let ids: Vec<String> = subs.iter().map(|s| s.id.clone()).collect();
    assert_eq!(ids, vec!["S1".to_string(), "S2".to_string(), "S3".to_string()]);
}

#[test]
fn supplement_records_parse() {
    let text = "INB\n23INB-1\n23INB-2\n\nMIB\n23MIB-1\n";
    let subs = parse_supplement(text).unwrap();
    assert_eq!(subs.len(), 2);
    assert_eq!(subs[0].id, "INB");
    assert_eq!(group_ids(&subs[0]), vec!["23INB-1".to_string(), "23INB-2".to_string()]);
    assert_eq!(subs[1].id, "MIB");
    assert_eq!(group_ids(&subs[1]), vec!["23MIB-1".to_string()]);
    assert_eq!(subs[1].name, "");
}

#[test]
fn supplement_record_without_lines_is_rejected() {
    assert_eq!(parse_supplement("INB").unwrap_err(), ParseError::Supplement);
}
