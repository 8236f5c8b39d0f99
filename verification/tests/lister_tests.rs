use dotcodeschool_cli::lister::{ListerStateV1, ListerV1};
use dotcodeschool_cli::model::{CourseMetaData, PathLink, TestState, ValidationState};
use dotcodeschool_cli::store::{db_update, record_outcome};

fn fresh_tree(tag: &str) -> (sled::Db, sled::Tree) {
    let nanos = std::time::SystemTime::now()
        .duration_since(std::time::UNIX_EPOCH)
        .unwrap()
        .as_nanos();
    let path = format!("/tmp/dcs-test-db-{}-{}", tag, nanos);
    let db = sled::open(path).unwrap();
    let tree = db.open_tree("course").unwrap();
    (db, tree)
}

fn record(name: &str) -> TestState {
    TestState {
        name: name.to_string(),
        slug: format!("0x{}", name),
        message_on_success: "ok".to_string(),
        message_on_fail: "no".to_string(),
        cmd: vec!["true".to_string()],
        path: vec![
            PathLink::Link("Section".to_string()),
            PathLink::Link("Lesson".to_string()),
            PathLink::Link("Suite".to_string()),
            PathLink::Link(name.to_string()),
        ],
        passed: ValidationState::Unknown,
        optional: false,
    }
}

#[test]
fn lister_walks_index_and_shows_outcomes() {
    let (_db, mut tree) = fresh_tree("lister");
    let tests = vec![
        ("lk1".to_string(), record("Alpha")),
        ("lk2".to_string(), record("Beta")),
    ];
    db_update(&mut tree, &tests, &CourseMetaData {
        logstream_url: String::new(),
        logstream_id: String::new(),
        ws_url: String::new(),
        tester_url: String::new(),
    })
    .unwrap();
    record_outcome(&mut tree, "lk1", true).unwrap();
    record_outcome(&mut tree, "lk2", false).unwrap();
    let mut lister = ListerV1::new(vec!["lk1".to_string(), "lk2".to_string()], tree);
    let heading = lister.step().unwrap();
    assert_eq!(heading, "2 tests available\n ");
    let first = lister.step().unwrap();
    assert_eq!(first, "• [ Passed ] section/lesson/suite/alpha");
    let second = lister.step().unwrap();
    assert_eq!(second, "• [ Failed ] section/lesson/suite/beta");
    assert!(lister.is_finished());
    assert!(lister.step().is_none());
}

#[test]
fn lister_with_empty_index_reports_no_tests() {
    let (_db, tree) = fresh_tree("lister-empty");
    let mut lister = ListerV1::new(Vec::new(), tree);
    let heading = lister.step().unwrap();
    assert_eq!(heading, "0 tests available\n ");
    assert!(matches!(lister.state, ListerStateV1::Error { .. }));
    let line = lister.step().unwrap();
    assert_eq!(line, "\n⚠ Error: 🚫 no tests found");
    assert!(lister.is_finished());
}

#[test]
fn lister_halts_on_missing_record() {
    let (_db, tree) = fresh_tree("lister-missing");
    let mut lister = ListerV1::new(vec!["ghost".to_string()], tree);
    lister.step().unwrap();
    assert!(lister.step().is_none());
    assert!(matches!(lister.state, ListerStateV1::Error { .. }));
    let line = lister.step().unwrap();
    assert_eq!(line, "\n⚠ Error: failed to read test: no data at key ghost");
    assert!(lister.is_finished());
}
