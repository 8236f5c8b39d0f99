use dotcodeschool_cli::model::{PathLink, TestState, ValidationState};
use dotcodeschool_cli::redis::{RedisCourseResultV1, RedisTestResultV1, RedisTestState};
use dotcodeschool_cli::report::{
    build_test_log_entry, disconnect_frame, init_frame, json_escape, log_frame, status_frame,
    test_result_json,
};

#[test]
fn json_escaping_covers_quotes_and_controls() {
    assert_eq!(json_escape("plain"), "plain");
    assert_eq!(json_escape("a\"b"), "a\\\"b");
    assert_eq!(json_escape("a\\b"), "a\\\\b");
    assert_eq!(json_escape("a\nb\tc\rd"), "a\\nb\\tc\\rd");
    assert_eq!(json_escape(""), "");
    // every other control character gets its four-digit form
    assert_eq!(json_escape("a\u{8}b"), "a\\u0008b");
    assert_eq!(json_escape("\u{0}\u{1f}"), "\\u0000\\u001f");
    assert_eq!(json_escape("\u{1b}[0m"), "\\u001b[0m");
}

#[test]
fn frames_have_the_wire_shape() {
    assert_eq!(
        init_frame("stream-9"),
        "{\"event_type\":\"init\",\"stream_id\":\"stream-9\"}"
    );
    assert_eq!(status_frame(true), "{\"event_type\":\"status\",\"success\":true}");
    assert_eq!(status_frame(false), "{\"event_type\":\"status\",\"success\":false}");
    assert_eq!(disconnect_frame(), "{\"event_type\":\"disconnect\"}");
    assert_eq!(
        log_frame("{\"k\":1}"),
        "{\"event_type\":\"log\",\"bytes\":\"{\\\"k\\\":1}\"}"
    );
}

#[test]
fn test_result_json_is_externally_tagged() {
    let pass = RedisTestResultV1::pass("0xaaaa", "fine");
    assert_eq!(
        test_result_json(&pass),
        "{\"slug\":\"0xaaaa\",\"output\":\"fine\",\"state\":\"Passed\"}"
    );
    let fail = RedisTestResultV1::fail("0xbbbb", "broke", true);
    assert_eq!(
        test_result_json(&fail),
        "{\"slug\":\"0xbbbb\",\"output\":\"broke\",\"state\":{\"Failed\":{\"optional\":true}}}"
    );
    let fail_mandatory = RedisTestResultV1::fail("0xcccc", "broke", false);
    assert_eq!(
        test_result_json(&fail_mandatory),
        "{\"slug\":\"0xcccc\",\"output\":\"broke\",\"state\":{\"Failed\":{\"optional\":false}}}"
    );
}

#[test]
fn course_result_accumulates() {
    let mut course = RedisCourseResultV1::new(2);
    assert!(!course.passed);
    assert_eq!(course.tests.len(), 0);
    course.log_test(RedisTestResultV1::pass("0x1", "a"));
    course.log_test(RedisTestResultV1::fail("0x2", "b", false));
    assert_eq!(course.tests.len(), 2);
    assert!(matches!(course.tests[0].state, RedisTestState::Passed));
    course.pass();
    assert!(course.passed);
}

#[test]
fn log_entry_reads_names_from_the_path() {
    let t = TestState {
        name: "transfer".to_string(),
        slug: "0x1234".to_string(),
        message_on_success: String::new(),
        message_on_fail: String::new(),
        cmd: Vec::new(),
        path: vec![
            PathLink::Link("Section A".to_string()),
            PathLink::Link("Lesson B".to_string()),
            PathLink::Link("transfer".to_string()),
            PathLink::Link("transfer".to_string()),
        ],
        passed: ValidationState::Unknown,
        optional: false,
    };
    let e = build_test_log_entry(&t, true, 1_700_000_000_000, "lesson-b", "repo-x").unwrap();
    assert_eq!(e.test_slug, "0x1234");
    assert!(e.passed);
    assert_eq!(e.timestamp, 1_700_000_000_000);
    assert_eq!(e.section_name, "Section A");
    assert_eq!(e.lesson_name, "Lesson B");
    assert_eq!(e.lesson_slug, "lesson-b");
    assert_eq!(e.test_name, "transfer");
    assert_eq!(e.repo_name, "repo-x");
}

#[test]
fn log_entry_requires_the_four_segment_path() {
    let t = TestState {
        name: "x".to_string(),
        slug: "0x1".to_string(),
        message_on_success: String::new(),
        message_on_fail: String::new(),
        cmd: Vec::new(),
        path: vec![PathLink::Link("only".to_string())],
        passed: ValidationState::Unknown,
        optional: false,
    };
    assert!(build_test_log_entry(&t, false, 0, "s", "r").is_none());
}
