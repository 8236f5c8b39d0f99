use dotcodeschool_cli::ident::slug_for;
use dotcodeschool_cli::parsing::{
    JsonAuthorV2, JsonCourseV2, JsonLessonV2, JsonLevelV2, JsonStageV2, JsonTestSuiteV2, JsonTestV2,
};
use dotcodeschool_cli::validator::{ValidatorStateV2, ValidatorV2};

fn course_fixture() -> JsonCourseV2 {
    let course_name = "Rust State Machine";
    let stage_name = "Basics";
    let lesson_name = "Balances";
    let suite_name = "Suite One";
    let test_names = ["setup", "transfer"];
    let tests = test_names
        .iter()
        .map(|tn| JsonTestV2 {
            name: tn.to_string(),
            slug: slug_for(&[course_name, stage_name, lesson_name, suite_name, tn]),
            optional: false,
            cmd: "cargo test".to_string(),
            message_on_fail: "no".to_string(),
            message_on_success: "ok".to_string(),
        })
        .collect();
    let suite = JsonTestSuiteV2 {
        name: suite_name.to_string(),
        slug: slug_for(&[course_name, stage_name, lesson_name, suite_name]),
        optional: false,
        tests,
    };
    let lesson_with_suites = JsonLessonV2 {
        name: lesson_name.to_string(),
        slug: slug_for(&[course_name, stage_name, lesson_name]),
        description: String::new(),
        duration: 10,
        content: Vec::new(),
        suites: Some(vec![suite]),
    };
    let lesson_without = JsonLessonV2 {
        name: "Reading".to_string(),
        slug: slug_for(&[course_name, stage_name, "Reading"]),
        description: String::new(),
        duration: 5,
        content: Vec::new(),
        suites: None,
    };
    let stage = JsonStageV2 {
        name: stage_name.to_string(),
        slug: slug_for(&[course_name, stage_name]),
        description: String::new(),
        lessons: vec![lesson_with_suites, lesson_without],
    };
    JsonCourseV2 {
        version: "2.0".to_string(),
        name: course_name.to_string(),
        title: "A course".to_string(),
        slug: slug_for(&[course_name]),
        description: String::new(),
        tagline: String::new(),
        author: JsonAuthorV2 { name: "Someone".to_string(), url: String::new() },
        requisites: Vec::new(),
        outcomes: Vec::new(),
        level: JsonLevelV2::Beginner,
        languages: Vec::new(),
        tags: Vec::new(),
        stages: vec![stage],
    }
}

#[test]
fn well_formed_course_passes() {
    let mut v = ValidatorV2::new(course_fixture());
    v.run_to_outcome();
    assert!(matches!(v.state, ValidatorStateV2::Pass));
    v.step();
    assert!(matches!(v.state, ValidatorStateV2::Finish));
}

#[test]
fn mutated_course_slug_fails_at_root() {
    let mut course = course_fixture();
    course.slug = "0x0000".to_string();
    let expected = slug_for(&["Rust State Machine"]);
    let mut v = ValidatorV2::new(course);
    v.run_to_outcome();
    assert!(matches!(v.state, ValidatorStateV2::Fail { .. }));
    assert_eq!(
        v.failure_reason(),
        &format!("Invalid slug: '0x0000', expected '{}'", expected)
    );
}

#[test]
fn mutated_stage_name_halts_at_the_stage() {
    let mut course = course_fixture();
    // the stage is renamed but every declared slug stays as it was: the
    // stage's own slug is the first that no longer matches
    course.stages[0].name = "Renamed".to_string();
    let declared = course.stages[0].slug.clone();
    let expected = slug_for(&["Rust State Machine", "Renamed"]);
    let mut v = ValidatorV2::new(course);
    // walk step by step: the course root still checks out
    v.step();
    assert!(matches!(v.state, ValidatorStateV2::Course));
    v.step();
    assert!(matches!(v.state, ValidatorStateV2::Stage { index_stage: 0 }));
    v.step();
    assert!(matches!(v.state, ValidatorStateV2::Fail { .. }));
    assert_eq!(
        v.failure_reason(),
        &format!("Invalid slug: '{}', expected '{}'", declared, expected)
    );
}

#[test]
fn mutated_test_name_halts_at_that_test_only() {
    let mut course = course_fixture();
    let suites = course.stages[0].lessons[0].suites.as_mut().unwrap();
    suites[0].tests[1].name = "renamed-test".to_string();
    let declared = suites[0].tests[1].slug.clone();
    let expected = slug_for(&[
        "Rust State Machine",
        "Basics",
        "Balances",
        "Suite One",
        "renamed-test",
    ]);
    let mut v = ValidatorV2::new(course);
    v.run_to_outcome();
    // the course, stage, lesson, suite and first test all checked out;
    // the walk halts exactly at the renamed test
    assert!(matches!(v.state, ValidatorStateV2::Fail { .. }));
    assert_eq!(
        v.failure_reason(),
        &format!("Invalid slug: '{}', expected '{}'", declared, expected)
    );
}

#[test]
fn walk_visits_levels_in_depth_first_order() {
    let mut v = ValidatorV2::new(course_fixture());
    let mut seen = Vec::new();
    while v.running() {
        seen.push(match v.state {
            ValidatorStateV2::Loaded => "loaded".to_string(),
            ValidatorStateV2::Course => "course".to_string(),
            ValidatorStateV2::Stage { index_stage } => format!("stage{}", index_stage),
            ValidatorStateV2::Lesson { index_lesson, .. } => format!("lesson{}", index_lesson),
            ValidatorStateV2::Suite { index_suite, .. } => format!("suite{}", index_suite),
            ValidatorStateV2::Test { index_test, .. } => format!("test{}", index_test),
            _ => unreachable!(),
        });
        v.step();
    }
    assert_eq!(
        seen,
        vec![
            "loaded", "course", "stage0", "lesson0", "suite0", "test0", "test1", "lesson1"
        ]
    );
    assert!(matches!(v.state, ValidatorStateV2::Pass));
}
