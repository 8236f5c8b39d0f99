use dotcodeschool_cli::model::{CourseMetaData, DbError, PathLink, TestState, ValidationState};
use dotcodeschool_cli::store::{
    db_should_update, db_update, read_course_metadata, read_staggered, record_outcome,
    tests_accumulate_all, tests_accumulate_matching, tests_accumulate_some, write_staggered,
};

fn fresh_tree(tag: &str) -> (sled::Db, sled::Tree) {
    let nanos = std::time::SystemTime::now()
        .duration_since(std::time::UNIX_EPOCH)
        .unwrap()
        .as_nanos();
    let path = format!("/tmp/dcs-test-db-{}-{}", tag, nanos);
    let db = sled::open(path).unwrap();
    let tree = db.open_tree("course").unwrap();
    (db, tree)
}

fn record(name: &str, optional: bool) -> TestState {
    TestState {
        name: name.to_string(),
        slug: format!("0x{}", name),
        message_on_success: "ok".to_string(),
        message_on_fail: "no".to_string(),
        cmd: vec!["true".to_string()],
        path: vec![
            PathLink::Link("section".to_string()),
            PathLink::Link("lesson".to_string()),
            PathLink::Link(name.to_string()),
            PathLink::Link(name.to_string()),
        ],
        passed: ValidationState::Unknown,
        optional,
    }
}

fn metadata() -> CourseMetaData {
    CourseMetaData {
        logstream_url: "http://logs".to_string(),
        logstream_id: "id-1".to_string(),
        ws_url: "ws://collector".to_string(),
        tester_url: "http://tester".to_string(),
    }
}

#[test]
fn reconcile_then_fetch_all_returns_everything() {
    let (_db, mut tree) = fresh_tree("fetch-all");
    let tests = vec![
        ("alephlessonsectioncourse".to_string(), record("aleph", false)),
        ("betlessonsectioncourse".to_string(), record("bet", true)),
    ];
    db_update(&mut tree, &tests, &metadata()).unwrap();
    let fetched = tests_accumulate_all(&tree).unwrap();
    assert_eq!(fetched.len(), 2);
    assert_eq!(fetched[0].0, "alephlessonsectioncourse");
    assert_eq!(fetched[0].1.name, "aleph");
    assert_eq!(fetched[0].1.passed, ValidationState::Unknown);
    assert_eq!(fetched[1].0, "betlessonsectioncourse");
    assert!(fetched[1].1.optional);
}

#[test]
fn reconcile_preserves_history_of_surviving_tests() {
    let (_db, mut tree) = fresh_tree("preserve");
    let tests = vec![
        ("onekey".to_string(), record("one", false)),
        ("twokey".to_string(), record("two", false)),
    ];
    db_update(&mut tree, &tests, &metadata()).unwrap();
    record_outcome(&mut tree, "onekey", true).unwrap();
    record_outcome(&mut tree, "twokey", false).unwrap();
    // the course definition changes: "two" is gone, "three" is new, and
    // "one" moved to another index position
    let tests2 = vec![
        ("threekey".to_string(), record("three", false)),
        ("onekey".to_string(), record("one", false)),
    ];
    db_update(&mut tree, &tests2, &metadata()).unwrap();
    let fetched = tests_accumulate_all(&tree).unwrap();
    assert_eq!(fetched.len(), 2);
    assert_eq!(fetched[0].1.name, "three");
    assert_eq!(fetched[0].1.passed, ValidationState::Unknown);
    // the surviving test kept its recorded outcome even though it moved
    assert_eq!(fetched[1].1.name, "one");
    assert_eq!(fetched[1].1.passed, ValidationState::Pass);
}

#[test]
fn reconcile_removes_stale_entries() {
    let (_db, mut tree) = fresh_tree("stale");
    let tests = vec![("stalekey".to_string(), record("stale", false))];
    db_update(&mut tree, &tests, &metadata()).unwrap();
    assert_eq!(tests_accumulate_matching("stalekey", &tree).unwrap().len(), 1);
    let tests2 = vec![("freshkey".to_string(), record("fresh", false))];
    db_update(&mut tree, &tests2, &metadata()).unwrap();
    // the stale identity is unreadable after reconciliation
    assert_eq!(tests_accumulate_matching("stalekey", &tree).unwrap().len(), 0);
    assert!(record_outcome(&mut tree, "stalekey", true).is_err());
}

#[test]
fn reconcile_resets_resume_cursor() {
    let (_db, mut tree) = fresh_tree("cursor-reset");
    let tests = vec![("k1".to_string(), record("one", false))];
    db_update(&mut tree, &tests, &metadata()).unwrap();
    write_staggered(&mut tree, 9).unwrap();
    assert_eq!(read_staggered(&tree).unwrap(), 9);
    db_update(&mut tree, &tests, &metadata()).unwrap();
    assert_eq!(read_staggered(&tree).unwrap(), 1);
}

#[test]
fn watermark_always_refreshes() {
    let (_db, mut tree) = fresh_tree("watermark");
    assert!(db_should_update(&mut tree, 100).unwrap());
    assert!(!db_should_update(&mut tree, 100).unwrap());
    assert!(!db_should_update(&mut tree, 50).unwrap());
    // the failed check still moved the watermark down to 50
    assert!(db_should_update(&mut tree, 60).unwrap());
}

#[test]
fn staggered_cursor_defaults_to_one() {
    let (_db, tree) = fresh_tree("cursor-default");
    assert_eq!(read_staggered(&tree).unwrap(), 1);
}

#[test]
fn fetch_window_takes_prefix_of_index() {
    let (_db, mut tree) = fresh_tree("window");
    let tests = vec![
        ("w1".to_string(), record("one", false)),
        ("w2".to_string(), record("two", false)),
        ("w3".to_string(), record("three", false)),
    ];
    db_update(&mut tree, &tests, &metadata()).unwrap();
    let two = tests_accumulate_some(&tree, 2).unwrap();
    assert_eq!(two.len(), 2);
    assert_eq!(two[0].1.name, "one");
    assert_eq!(two[1].1.name, "two");
    let all = tests_accumulate_some(&tree, 50).unwrap();
    assert_eq!(all.len(), 3);
}

#[test]
fn fetch_matching_selects_by_prefix() {
    let (_db, mut tree) = fresh_tree("matching");
    let tests = vec![
        ("setuplessononecourse".to_string(), record("setup", false)),
        ("setuplessontwocourse".to_string(), record("setup2", false)),
        ("otherlessononecourse".to_string(), record("other", false)),
    ];
    db_update(&mut tree, &tests, &metadata()).unwrap();
    let hits = tests_accumulate_matching("setup", &tree).unwrap();
    assert_eq!(hits.len(), 2);
    assert!(hits.iter().all(|(k, _)| k.starts_with("setup")));
    let all_as_match = tests_accumulate_matching("", &tree);
    // an empty prefix also scans the reserved entries, which are not
    // records, so the fetch fails fast rather than misreading them
    assert!(all_as_match.is_err());
}

#[test]
fn record_outcome_round_trips_states() {
    let (_db, mut tree) = fresh_tree("outcome");
    let tests = vec![("okey".to_string(), record("one", false))];
    db_update(&mut tree, &tests, &metadata()).unwrap();
    record_outcome(&mut tree, "okey", false).unwrap();
    assert_eq!(
        tests_accumulate_all(&tree).unwrap()[0].1.passed,
        ValidationState::Fail
    );
    record_outcome(&mut tree, "okey", true).unwrap();
    assert_eq!(
        tests_accumulate_all(&tree).unwrap()[0].1.passed,
        ValidationState::Pass
    );
}

#[test]
fn record_outcome_fails_hard_on_vanished_record() {
    let (_db, mut tree) = fresh_tree("vanished");
    let r = record_outcome(&mut tree, "neverthere", true);
    assert!(matches!(r, Err(DbError::DbGet(..))));
}

#[test]
fn metadata_is_cached_verbatim() {
    let (_db, mut tree) = fresh_tree("metadata");
    assert!(read_course_metadata(&tree).is_err());
    let tests = vec![("mkey".to_string(), record("one", false))];
    db_update(&mut tree, &tests, &metadata()).unwrap();
    let m = read_course_metadata(&tree).unwrap();
    assert_eq!(m.logstream_id, "id-1");
    assert_eq!(m.ws_url, "ws://collector");
}

#[test]
fn fetch_all_of_empty_store_is_empty() {
    let (_db, tree) = fresh_tree("empty");
    assert_eq!(tests_accumulate_all(&tree).unwrap().len(), 0);
}

#[test]
fn search_key_selects_tests_under_a_path() {
    let (_db, mut tree) = fresh_tree("search");
    let tests = vec![
        ("setuplessonbasicscourse".to_string(), record("setup", false)),
        ("runlessonbasicscourse".to_string(), record("run", false)),
        ("setupotherbasicscourse".to_string(), record("setup-other", false)),
    ];
    db_update(&mut tree, &tests, &metadata()).unwrap();
    // the user names a test by its path; the search key reverses the
    // segments into the leaf-first form the identities use
    let key = dotcodeschool_cli::text::search_key("lesson/setup");
    assert_eq!(key, "setuplesson");
    let hits = tests_accumulate_matching(&key, &tree).unwrap();
    assert_eq!(hits.len(), 1);
    assert_eq!(hits[0].1.name, "setup");
}
