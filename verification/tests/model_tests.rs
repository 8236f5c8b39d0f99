use dotcodeschool_cli::model::{
    JsonSectionV1, JsonTesterLessonV1, PathLink, TestState, TesterDefinition, ValidationState,
};
use dotcodeschool_cli::parsing::{extract_repo_name_from_url, load_repo, JsonTestV1};

fn tester_fixture() -> TesterDefinition {
    let test = |name: &str, optional: bool| JsonTestV1 {
        name: name.to_string(),
        slug: format!("0x{}", name),
        optional,
        cmd: format!("cargo test {}", name),
        message_on_fail: "no".to_string(),
        message_on_success: "ok".to_string(),
    };
    TesterDefinition {
        course_name: "Rust Course".to_string(),
        sections: vec![
            JsonSectionV1 {
                name: "Basics".to_string(),
                slug: "0xsec1".to_string(),
                lessons: vec![
                    JsonTesterLessonV1 {
                        name: "Balances".to_string(),
                        slug: "0xles1".to_string(),
                        tests: Some(vec![test("Setup", false), test("Transfer", true)]),
                    },
                    JsonTesterLessonV1 {
                        name: "Reading".to_string(),
                        slug: "0xles2".to_string(),
                        tests: None,
                    },
                ],
            },
            JsonSectionV1 {
                name: "Advanced".to_string(),
                slug: "0xsec2".to_string(),
                lessons: vec![JsonTesterLessonV1 {
                    name: "Proofs".to_string(),
                    slug: "0xles3".to_string(),
                    tests: Some(vec![test("Finale", false)]),
                }],
            },
        ],
    }
}

#[test]
fn list_tests_builds_leaf_first_lowercase_keys() {
    let td = tester_fixture();
    let entries = td.list_tests();
    assert_eq!(entries.len(), 3);
    assert_eq!(entries[0].0, "setupbalancesbasicsrust course");
    assert_eq!(entries[1].0, "transferbalancesbasicsrust course");
    assert_eq!(entries[2].0, "finaleproofsadvancedrust course");
}

#[test]
fn list_tests_fills_records_in_order() {
    let td = tester_fixture();
    let entries = td.list_tests();
    let first = &entries[0].1;
    assert_eq!(first.name, "Setup");
    assert_eq!(first.slug, "0xSetup");
    assert_eq!(first.cmd, vec!["cargo", "test", "Setup"]);
    assert_eq!(first.passed, ValidationState::Unknown);
    assert!(!first.optional);
    assert!(matches!(&first.path[0], PathLink::Link(n) if n == "Basics"));
    assert!(matches!(&first.path[1], PathLink::Link(n) if n == "Balances"));
    assert!(matches!(&first.path[2], PathLink::Link(n) if n == "Setup"));
    assert!(matches!(&first.path[3], PathLink::Link(n) if n == "Setup"));
    let second = &entries[1].1;
    assert!(second.optional);
    assert!(matches!(&second.path[2], PathLink::LinkOptional(n) if n == "Transfer"));
    assert!(matches!(&second.path[3], PathLink::Link(n) if n == "Transfer"));
    assert_eq!(entries[2].1.name, "Finale");
}

#[test]
fn path_to_joins_the_first_three_segments() {
    let t = TestState {
        name: "x".to_string(),
        slug: "0x1".to_string(),
        message_on_success: String::new(),
        message_on_fail: String::new(),
        cmd: Vec::new(),
        path: vec![
            PathLink::Link("Section".to_string()),
            PathLink::Link("Lesson".to_string()),
            PathLink::LinkOptional("Suite".to_string()),
            PathLink::Link("x".to_string()),
        ],
        passed: ValidationState::Unknown,
        optional: false,
    };
    assert_eq!(t.path_to(), "Section/Lesson/Suite");
    let short = TestState { path: vec![PathLink::Link("only".to_string())], ..t };
    assert_eq!(short.path_to(), "");
}

#[test]
fn repo_name_is_the_last_address_segment() {
    assert_eq!(
        extract_repo_name_from_url("https://git.example/org/my-repo.git").unwrap(),
        "my-repo.git"
    );
    assert_eq!(extract_repo_name_from_url("plain-name").unwrap(), "plain-name");
    assert!(extract_repo_name_from_url("ends/with/slash/").is_none());
    assert!(extract_repo_name_from_url("").is_none());
}

#[test]
fn load_repo_starts_with_an_empty_commit() {
    let r = load_repo("my-repo");
    assert_eq!(r.name, "my-repo");
    assert_eq!(r.commit_sha, "");
}

#[test]
fn display_header_shows_the_test_banner() {
    let t = TestState {
        name: "transfer".to_string(),
        slug: "0x1".to_string(),
        message_on_success: String::new(),
        message_on_fail: String::new(),
        cmd: Vec::new(),
        path: vec![
            PathLink::Link("Section".to_string()),
            PathLink::Link("Lesson".to_string()),
            PathLink::LinkOptional("transfer".to_string()),
            PathLink::Link("transfer".to_string()),
        ],
        passed: ValidationState::Unknown,
        optional: true,
    };
    assert_eq!(
        t.display_header(),
        "\nSection\n╰─Lesson\n  ╰─transfer (optional)\n\n   🧪 Running test transfer"
    );
}
