//! The parsed shape of course definitions. Deserialization itself is an
//! external collaborator; the library works on these plain records, which
//! hold an ordered test list and the declared content-addressed slugs.

use vstd::prelude::*;

verus! {

use vstd::string::StrSliceExecFns;
use vstd::string::StringExecFns;

/// One test of a course: its name, its declared slug, whether it is
/// optional, its shell command, and its messages.
#[derive(Clone, Debug)]
pub struct JsonTestV1 {
    pub name: String,
    pub slug: String,
    pub optional: bool,
    pub cmd: String,
    pub message_on_fail: String,
    pub message_on_success: String,
}

/// A named group of tests; an optional suite's failures never halt a run.
#[derive(Clone, Debug)]
pub struct JsonTestSuiteV1 {
    pub name: String,
    pub slug: String,
    pub optional: bool,
    pub tests: Vec<JsonTestV1>,
}

/// A position inside lesson content.
#[derive(Clone, Copy, Debug, PartialEq, Eq, Structural)]
pub struct JsonPositionV1 {
    pub x: u32,
    pub y: u32,
}

/// One block of lesson content.
#[derive(Clone, Debug)]
pub enum JsonContentV1 {
    Markdown { file: String, position: JsonPositionV1 },
    Invalid,
}

/// One lesson: content plus, possibly, test suites.
#[derive(Clone, Debug)]
pub struct JsonLessonV1 {
    pub name: String,
    pub slug: String,
    pub description: String,
    pub duration: u32,
    pub content: Vec<JsonContentV1>,
    pub suites: Option<Vec<JsonTestSuiteV1>>,
}

/// One stage of a course: a non-empty list of lessons.
#[derive(Clone, Debug)]
pub struct JsonStageV1 {
    pub name: String,
    pub slug: String,
    pub description: String,
    pub lessons: Vec<JsonLessonV1>,
}

/// The learner's repository: its name and the commit under test.
#[derive(Clone, Debug)]
pub struct JsonRepoV1 {
    pub name: String,
    pub commit_sha: String,
}

/// A course author.
#[derive(Clone, Debug)]
pub struct JsonAuthorV1 {
    pub name: String,
    pub url: String,
}

/// A prerequisite of a course.
#[derive(Clone, Debug)]
pub struct JsonRequisiteV1 {
    pub name: String,
    pub url: String,
}

/// The difficulty of a course.
#[derive(Clone, Copy, Debug, PartialEq, Eq, Structural)]
pub enum JsonLevelV1 {
    Beginner,
    Invalid,
}

/// The programming language of a course.
#[derive(Clone, Copy, Debug, PartialEq, Eq, Structural)]
pub enum JsonLanguageV1 {
    Rust,
    Go,
    Invalid,
}

/// A course definition in the first schema: top-level metadata and the
/// address of its tester repository.
#[derive(Clone, Debug)]
pub struct JsonCourseV1 {
    pub version: String,
    pub slug: String,
    pub name: String,
    pub author: JsonAuthorV1,
    pub title: String,
    pub tester_url: String,
}

/// One test of a course, second schema.
#[derive(Clone, Debug)]
pub struct JsonTestV2 {
    pub name: String,
    pub slug: String,
    pub optional: bool,
    pub cmd: String,
    pub message_on_fail: String,
    pub message_on_success: String,
}

/// A named group of tests, second schema.
#[derive(Clone, Debug)]
pub struct JsonTestSuiteV2 {
    pub name: String,
    pub slug: String,
    pub optional: bool,
    pub tests: Vec<JsonTestV2>,
}

/// A position inside lesson content, second schema.
#[derive(Clone, Copy, Debug, PartialEq, Eq, Structural)]
pub struct JsonPositionV2 {
    pub x: u32,
    pub y: u32,
}

/// One block of lesson content, second schema.
#[derive(Clone, Debug)]
pub enum JsonContentV2 {
    Markdown { file: String, position: JsonPositionV2 },
    Invalid,
}

/// One lesson, second schema: content plus, possibly, test suites.
#[derive(Clone, Debug)]
pub struct JsonLessonV2 {
    pub name: String,
    pub slug: String,
    pub description: String,
    pub duration: u32,
    pub content: Vec<JsonContentV2>,
    pub suites: Option<Vec<JsonTestSuiteV2>>,
}

/// One stage of a course, second schema: a non-empty list of lessons.
#[derive(Clone, Debug)]
pub struct JsonStageV2 {
    pub name: String,
    pub slug: String,
    pub description: String,
    pub lessons: Vec<JsonLessonV2>,
}

/// A course author, second schema.
#[derive(Clone, Debug)]
pub struct JsonAuthorV2 {
    pub name: String,
    pub url: String,
}

/// A prerequisite of a course, second schema.
#[derive(Clone, Debug)]
pub struct JsonRequisiteV2 {
    pub name: String,
    pub url: String,
}

/// The difficulty of a course, second schema.
#[derive(Clone, Copy, Debug, PartialEq, Eq, Structural)]
pub enum JsonLevelV2 {
    Beginner,
    Invalid,
}

/// The programming language of a course, second schema.
#[derive(Clone, Copy, Debug, PartialEq, Eq, Structural)]
pub enum JsonLanguageV2 {
    Rust,
    Go,
    Invalid,
}

/// A course definition in the second schema: the full course tree, from
/// stages down to individual tests, with a declared slug at every level.
#[derive(Clone, Debug)]
pub struct JsonCourseV2 {
    pub version: String,
    pub name: String,
    pub title: String,
    pub slug: String,
    pub description: String,
    pub tagline: String,
    pub author: JsonAuthorV2,
    pub requisites: Vec<JsonRequisiteV2>,
    pub outcomes: Vec<String>,
    pub level: JsonLevelV2,
    pub languages: Vec<JsonLanguageV2>,
    pub tags: Vec<String>,
    pub stages: Vec<JsonStageV2>,
}

/// The course definition versions this library understands.
#[derive(Clone, Debug)]
pub enum JsonCourseVersion {
    V1(JsonCourseV1),
}

/// The name a repository goes by, read from its address: the characters
/// after the last slash, or nothing where the address ends in a slash or
/// is empty.
pub open spec fn repo_name_of(url: Seq<char>) -> Seq<char> {
    let segs = crate::text::split_slash(url);
    segs[segs.len() - 1]
}

/// Extracts the repository name from a remote address: the part after the
/// last slash. Fails where that part is empty.
pub fn extract_repo_name_from_url(url: &str) -> (r: Option<String>)
    ensures
        repo_name_of(url@).len() > 0 ==> (r matches Some(name) && name@ == repo_name_of(url@)),
        repo_name_of(url@).len() == 0 ==> r is None,
{
    let segs = split_last_slash(url);
    if segs.as_str().unicode_len() == 0 {
        None
    } else {
        Some(segs)
    }
}

/// The characters after the last slash of a path.
fn split_last_slash(s: &str) -> (r: String)
    ensures
        r@ == repo_name_of(s@),
{
    let mut cur = String::new();
    let n = s.unicode_len();
    let mut i: usize = 0;
    while i < n
        invariant
            0 <= i <= n,
            n == s@.len(),
            crate::text::split_slash(s@.take(i as int)).len() >= 1,
            cur@ == crate::text::split_slash(s@.take(i as int)).last(),
        decreases n - i,
    {
        let c = s.get_char(i);
        proof {
            assert(s@.take(i + 1).drop_last() =~= s@.take(i as int));
            assert(s@.take(i + 1).last() == s@[i as int]);
        }
        if c == '/' {
            cur = String::new();
        } else {
            crate::text::push_char(&mut cur, c);
        }
        i = i + 1;
    }
    proof {
        assert(s@.take(n as int) =~= s@);
    }
    cur
}

/// Builds the learner's repository record from the extracted repository
/// name; the commit is filled in by a later submission step.
pub fn load_repo(repo_name: &str) -> (r: JsonRepoV1)
    ensures
        r.name@ == repo_name@,
        r.commit_sha@ == Seq::<char>::empty(),
{
    JsonRepoV1 { name: String::from_str(repo_name), commit_sha: String::new() }
}

} // verus!
