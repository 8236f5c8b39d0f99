use dotcodeschool_cli::model::{CourseMetaData, PathLink, TestResult, TestState, ValidationState};
use dotcodeschool_cli::runner::{RunnerStateV1, RunnerV1, RunnerV1Builder};
use dotcodeschool_cli::store::{db_update, read_staggered, tests_accumulate_all, tests_accumulate_some};

fn fresh_tree(tag: &str) -> (sled::Db, sled::Tree) {
    let nanos = std::time::SystemTime::now()
        .duration_since(std::time::UNIX_EPOCH)
        .unwrap()
        .as_nanos();
    let path = format!("/tmp/dcs-test-db-{}-{}", tag, nanos);
    let db = sled::open(path).unwrap();
    let tree = db.open_tree("course").unwrap();
    (db, tree)
}

fn record(name: &str, optional: bool) -> TestState {
    TestState {
        name: name.to_string(),
        slug: format!("0x{}", name),
        message_on_success: "passed".to_string(),
        message_on_fail: "failed".to_string(),
        cmd: vec!["true".to_string()],
        path: vec![
            PathLink::Link("section".to_string()),
            PathLink::Link("lesson".to_string()),
            PathLink::Link(name.to_string()),
            PathLink::Link(name.to_string()),
        ],
        passed: ValidationState::Unknown,
        optional,
    }
}

fn metadata() -> CourseMetaData {
    CourseMetaData {
        logstream_url: String::new(),
        logstream_id: String::new(),
        ws_url: String::new(),
        tester_url: String::new(),
    }
}

fn runner_over(tree: &mut sled::Tree, tests: Vec<(String, TestState)>) -> RunnerV1 {
    db_update(tree, &tests, &metadata()).unwrap();
    RunnerV1Builder::new()
        .target("workdir".to_string())
        .tests(tests)
        .build()
        .unwrap()
}

#[test]
fn first_mandatory_failure_halts() {
    let (_db, mut tree) = fresh_tree("halt");
    let tests = vec![
        ("t1".to_string(), record("t1", true)),
        ("t2".to_string(), record("t2", false)),
        ("t3".to_string(), record("t3", false)),
    ];
    let mut r = runner_over(&mut tree, tests);
    r.step_loaded();
    assert!(matches!(r.state, RunnerStateV1::NewTest { index_test: 0 }));
    // the optional test fails: the run goes on
    let ev = r.step_test(&mut tree, &TestResult::Fail("boom".to_string()));
    assert!(ev.is_some());
    assert!(matches!(r.state, RunnerStateV1::NewTest { index_test: 1 }));
    // the mandatory test fails: the run halts here, t3 is never reached
    let ev = r.step_test(&mut tree, &TestResult::Fail("boom".to_string()));
    assert!(ev.is_some());
    assert!(matches!(r.state, RunnerStateV1::Fail { index_test: 1, .. }));
    assert_eq!(r.failure_reason(), "Test t2 failed");
    let (status, disconnect, w) = r.step_fail(&mut tree);
    w.unwrap();
    assert!(r.is_finished());
    assert_eq!(status, "{\"event_type\":\"status\",\"success\":false}");
    assert_eq!(disconnect, "{\"event_type\":\"disconnect\"}");
    // the third test's record was never touched
    let all = tests_accumulate_all(&tree).unwrap();
    assert_eq!(all[2].1.passed, ValidationState::Unknown);
    assert_eq!(all[1].1.passed, ValidationState::Fail);
}

#[test]
fn optional_failure_scores_eighty_percent() {
    let (_db, mut tree) = fresh_tree("score");
    let tests = vec![
        ("s1".to_string(), record("s1", false)),
        ("s2".to_string(), record("s2", false)),
        ("s3".to_string(), record("s3", true)),
        ("s4".to_string(), record("s4", false)),
        ("s5".to_string(), record("s5", false)),
    ];
    let mut r = runner_over(&mut tree, tests);
    r.step_loaded();
    for i in 0..5 {
        let outcome = if i == 2 {
            TestResult::Fail("optional miss".to_string())
        } else {
            TestResult::Pass("fine".to_string())
        };
        let ev = r.step_test(&mut tree, &outcome);
        assert!(ev.is_some());
    }
    // one optional failure does not stop the run from passing
    assert!(matches!(r.state, RunnerStateV1::Pass));
    assert_eq!(r.success, 4);
    assert_eq!(r.score_hundredths(), 8000);
    let (status, _disconnect, w) = r.step_pass(&mut tree);
    w.unwrap();
    assert_eq!(status, "{\"event_type\":\"status\",\"success\":true}");
    assert!(r.is_finished());
}

#[test]
fn resume_cursor_after_full_pass_is_test_count() {
    let (_db, mut tree) = fresh_tree("cursor-pass");
    let tests = vec![
        ("c1".to_string(), record("c1", false)),
        ("c2".to_string(), record("c2", false)),
        ("c3".to_string(), record("c3", false)),
    ];
    let mut r = runner_over(&mut tree, tests);
    r.step_loaded();
    for _ in 0..3 {
        r.step_test(&mut tree, &TestResult::Pass("ok".to_string())).unwrap();
    }
    let (_, _, w) = r.step_pass(&mut tree);
    w.unwrap();
    assert_eq!(read_staggered(&tree).unwrap(), 3);
}

#[test]
fn resume_cursor_after_failure_is_index_plus_one() {
    let (_db, mut tree) = fresh_tree("cursor-fail");
    let tests = vec![
        ("f1".to_string(), record("f1", false)),
        ("f2".to_string(), record("f2", false)),
        ("f3".to_string(), record("f3", false)),
    ];
    let mut r = runner_over(&mut tree, tests);
    r.step_loaded();
    r.step_test(&mut tree, &TestResult::Pass("ok".to_string())).unwrap();
    r.step_test(&mut tree, &TestResult::Fail("no".to_string())).unwrap();
    assert!(matches!(r.state, RunnerStateV1::Fail { index_test: 1, .. }));
    let (_, _, w) = r.step_fail(&mut tree);
    w.unwrap();
    assert_eq!(read_staggered(&tree).unwrap(), 2);
}

#[test]
fn empty_work_list_fails_at_once() {
    let (_db, mut tree) = fresh_tree("empty-run");
    db_update(&mut tree, &Vec::new(), &metadata()).unwrap();
    let mut r = RunnerV1Builder::new()
        .target("workdir".to_string())
        .tests(Vec::new())
        .build()
        .unwrap();
    r.step_loaded();
    assert!(matches!(r.state, RunnerStateV1::Fail { index_test: 0, .. }));
    assert_eq!(r.failure_reason(), "🚫 no tests found");
    let (_, _, w) = r.step_fail(&mut tree);
    w.unwrap();
    assert_eq!(read_staggered(&tree).unwrap(), 1);
}

#[test]
fn streaming_failure_never_changes_the_run() {
    let (_db, mut tree_a) = fresh_tree("transport-a");
    let (_db2, mut tree_b) = fresh_tree("transport-b");
    let tests = vec![
        ("x1".to_string(), record("x1", false)),
        ("x2".to_string(), record("x2", true)),
        ("x3".to_string(), record("x3", false)),
    ];
    let mut quiet = runner_over(&mut tree_a, tests.clone());
    let mut noisy = runner_over(&mut tree_b, tests);
    let outcomes = [
        TestResult::Pass("one".to_string()),
        TestResult::Fail("two".to_string()),
        TestResult::Pass("three".to_string()),
    ];
    quiet.step_loaded();
    noisy.step_loaded();
    for outcome in &outcomes {
        let a = quiet.step_test(&mut tree_a, outcome);
        // every send fails on the noisy run
        noisy.note_transport_failure();
        let b = noisy.step_test(&mut tree_b, outcome);
        noisy.note_transport_failure();
        assert_eq!(a, b);
    }
    assert!(matches!(quiet.state, RunnerStateV1::Pass));
    assert!(matches!(noisy.state, RunnerStateV1::Pass));
    assert_eq!(quiet.success, noisy.success);
    assert_eq!(noisy.transport_warnings, 6);
    assert_eq!(quiet.transport_warnings, 0);
}

#[test]
fn log_frame_carries_escaped_result() {
    let (_db, mut tree) = fresh_tree("frame");
    let tests = vec![("l1".to_string(), record("l1", false))];
    let mut r = runner_over(&mut tree, tests);
    r.step_loaded();
    let ev = r.step_test(&mut tree, &TestResult::Pass("out".to_string())).unwrap();
    let payload =
        "{\"slug\":\"0xl1\",\"output\":\"    ╭─[ output ]out\\n    ╰─[ ✅ passed ]\",\"state\":\"Passed\"}";
    let expected = format!(
        "{{\"event_type\":\"log\",\"bytes\":\"{}\"}}",
        payload.replace('\\', "\\\\").replace('"', "\\\"")
    );
    assert_eq!(ev, expected);
}

#[test]
fn builder_refuses_missing_parts() {
    assert!(RunnerV1Builder::new().build().is_none());
    assert!(RunnerV1Builder::new().target("t".to_string()).build().is_none());
    assert!(RunnerV1Builder::new().tests(Vec::new()).build().is_none());
}

#[test]
fn staggered_pass_advances_the_cursor() {
    let (_db, mut tree) = fresh_tree("staggered");
    let tests = vec![
        ("g1".to_string(), record("g1", false)),
        ("g2".to_string(), record("g2", false)),
        ("g3".to_string(), record("g3", false)),
    ];
    db_update(&mut tree, &tests, &metadata()).unwrap();
    // reconciliation reset the cursor; each passing staggered run grows
    // the window by one, so re-runs are incremental
    assert_eq!(read_staggered(&tree).unwrap(), 1);
    for expected_cursor in [2u32, 3, 4] {
        let c = read_staggered(&tree).unwrap();
        let window = tests_accumulate_some(&tree, c as usize).unwrap();
        assert_eq!(window.len(), (c as usize).min(3));
        let mut r = RunnerV1Builder::new()
            .target("workdir".to_string())
            .tests(window)
            .staggered(c)
            .build()
            .unwrap();
        r.step_loaded();
        while matches!(r.state, RunnerStateV1::NewTest { .. }) {
            r.step_test(&mut tree, &TestResult::Pass("ok".to_string())).unwrap();
        }
        assert!(matches!(r.state, RunnerStateV1::Pass));
        let (_, _, w) = r.step_pass(&mut tree);
        w.unwrap();
        assert_eq!(read_staggered(&tree).unwrap(), expected_cursor);
    }
}

#[test]
fn staggered_failure_still_stores_index_plus_one() {
    let (_db, mut tree) = fresh_tree("staggered-fail");
    let tests = vec![
        ("h1".to_string(), record("h1", false)),
        ("h2".to_string(), record("h2", false)),
    ];
    db_update(&mut tree, &tests, &metadata()).unwrap();
    // grow the window to two first
    let window = tests_accumulate_some(&tree, 1).unwrap();
    let mut r = RunnerV1Builder::new()
        .target("workdir".to_string())
        .tests(window)
        .staggered(1)
        .build()
        .unwrap();
    r.step_loaded();
    r.step_test(&mut tree, &TestResult::Pass("ok".to_string())).unwrap();
    let (_, _, w) = r.step_pass(&mut tree);
    w.unwrap();
    assert_eq!(read_staggered(&tree).unwrap(), 2);
    // the second round fails at index 0: the cursor falls back to 1
    let window = tests_accumulate_some(&tree, 2).unwrap();
    let mut r = RunnerV1Builder::new()
        .target("workdir".to_string())
        .tests(window)
        .staggered(2)
        .build()
        .unwrap();
    r.step_loaded();
    r.step_test(&mut tree, &TestResult::Fail("no".to_string())).unwrap();
    assert!(matches!(r.state, RunnerStateV1::Fail { index_test: 0, .. }));
    let (_, _, w) = r.step_fail(&mut tree);
    w.unwrap();
    assert_eq!(read_staggered(&tree).unwrap(), 1);
}
