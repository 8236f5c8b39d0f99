//! The core data model: test records, path links, validation state, course
//! metadata, the error taxonomy, and the tester definition from which the
//! ordered test list is built.

use vstd::prelude::*;

verus! {

use vstd::string::StringExecFns;

/// The last known outcome of a test, as stored in the registry.
#[derive(Clone, Copy, Debug, PartialEq, Eq, Structural)]
pub enum ValidationState {
    Unknown,
    Pass,
    Fail,
}

/// One segment of a test's path; `LinkOptional` marks a segment whose
/// suite or test is optional.
#[derive(Clone, Debug)]
pub enum PathLink {
    Link(String),
    LinkOptional(String),
}

impl PathLink {
    /// The name carried by this segment.
    pub open spec fn name_view(self) -> Seq<char> {
        match self {
            PathLink::Link(n) => n@,
            PathLink::LinkOptional(n) => n@,
        }
    }

    /// Whether this segment is marked optional.
    pub open spec fn optional_view(self) -> bool {
        self matches PathLink::LinkOptional(_)
    }

    /// The name carried by this segment.
    pub fn name(&self) -> (r: &String)
        ensures
            r@ == self.name_view(),
    {
        match self {
            PathLink::Link(n) => n,
            PathLink::LinkOptional(n) => n,
        }
    }
}

/// A test's durable record: its metadata and its last validation outcome.
#[derive(Clone, Debug)]
pub struct TestState {
    pub name: String,
    pub slug: String,
    pub message_on_success: String,
    pub message_on_fail: String,
    pub cmd: Vec<String>,
    pub path: Vec<PathLink>,
    pub passed: ValidationState,
    pub optional: bool,
}

/// The banner shown before a test runs: the first three path segments as
/// an indented tree, optional segments marked, then the test name.
pub open spec fn display_header_of(t: TestState) -> Seq<char> {
    if t.path@.len() != 4 {
        Seq::empty()
    } else {
        "\n"@ + t.path@[0].name_view() + "\n\u{2570}\u{2500}"@ + t.path@[1].name_view()
            + "\n  \u{2570}\u{2500}"@ + t.path@[2].name_view() + (if t.path@[2].optional_view() {
            " (optional)"@
        } else {
            Seq::empty()
        }) + "\n\n   \u{1f9ea} Running test "@ + t.path@[3].name_view() + (if t.path@[
            3
        ].optional_view() {
            " (optional)"@
        } else {
            Seq::empty()
        })
    }
}

impl TestState {
    /// The same record with the validation state replaced.
    pub open spec fn with_state(self, st: ValidationState) -> TestState {
        TestState { passed: st, ..self }
    }

    /// The banner shown before a test runs: its section, lesson and suite
    /// names as an indented tree, optional segments marked, and the test
    /// name; empty where the path does not have exactly four segments.
    pub fn display_header(&self) -> (r: String)
        ensures
            r@ == display_header_of(*self),
    {
        if self.path.len() != 4 {
            return String::new();
        }
        let mut s = String::from_str("\n");
        s.append(self.path[0].name().as_str());
        s.append("\n\u{2570}\u{2500}");
        s.append(self.path[1].name().as_str());
        s.append("\n  \u{2570}\u{2500}");
        s.append(self.path[2].name().as_str());
        let suite_opt = match &self.path[2] {
            PathLink::LinkOptional(_) => true,
            PathLink::Link(_) => false,
        };
        if suite_opt {
            s.append(" (optional)");
        }
        s.append("\n\n   \u{1f9ea} Running test ");
        s.append(self.path[3].name().as_str());
        let test_opt = match &self.path[3] {
            PathLink::LinkOptional(_) => true,
            PathLink::Link(_) => false,
        };
        if test_opt {
            s.append(" (optional)");
        }
        proof {
            assert(s@ =~= display_header_of(*self));
        }
        s
    }

    /// The path to a test's suite: the first three path segments joined by
    /// slashes, or the empty string where the path does not have exactly
    /// four segments. Every segment renders by its name, whether or not
    /// it is marked optional; no path shape is refused.
    pub fn path_to(&self) -> (r: String)
        ensures
            self.path@.len() == 4 ==> r@ == self.path@[0].name_view() + "/"@
                + self.path@[1].name_view() + "/"@ + self.path@[2].name_view(),
            self.path@.len() != 4 ==> r@ == Seq::<char>::empty(),
    {
        if self.path.len() != 4 {
            return String::new();
        }
        let mut s = String::new();
        s.append(self.path[0].name().as_str());
        s.append("/");
        s.append(self.path[1].name().as_str());
        s.append("/");
        s.append(self.path[2].name().as_str());
        s
    }
}

/// The outcome of executing one test command: captured stdout on success,
/// captured stderr on failure.
#[derive(Clone, Debug)]
pub enum TestResult {
    Pass(String),
    Fail(String),
}

impl TestResult {
    /// Whether the command succeeded.
    pub open spec fn is_pass(self) -> bool {
        self matches TestResult::Pass(_)
    }

    /// The captured output, whichever stream it came from.
    pub open spec fn output_view(self) -> Seq<char> {
        match self {
            TestResult::Pass(s) => s@,
            TestResult::Fail(s) => s@,
        }
    }

    /// The captured output, whichever stream it came from.
    pub fn output(&self) -> (r: &String)
        ensures
            r@ == self.output_view(),
    {
        match self {
            TestResult::Pass(s) => s,
            TestResult::Fail(s) => s,
        }
    }

    /// Whether the command succeeded.
    pub fn passed(&self) -> (r: bool)
        ensures
            r == self.is_pass(),
    {
        match self {
            TestResult::Pass(_) => true,
            TestResult::Fail(_) => false,
        }
    }
}

/// Course metadata fetched once per course-definition change and cached
/// verbatim in the store.
#[derive(Clone, Debug)]
pub struct CourseMetaData {
    pub logstream_url: String,
    pub logstream_id: String,
    pub ws_url: String,
    pub tester_url: String,
}

impl Default for CourseMetaData {
    /// All fields empty.
    fn default() -> (r: Self)
        ensures
            r.logstream_url@ == Seq::<char>::empty(),
            r.logstream_id@ == Seq::<char>::empty(),
            r.ws_url@ == Seq::<char>::empty(),
            r.tester_url@ == Seq::<char>::empty(),
    {
        CourseMetaData {
            logstream_url: String::new(),
            logstream_id: String::new(),
            ws_url: String::new(),
            tester_url: String::new(),
        }
    }
}

/// Failures while retrieving or interpreting course metadata.
#[derive(Clone, Debug)]
pub enum MetadataError {
    MetadataRetrievalError(String),
    MetadataFmtError(String),
}

/// Failures of the persistent store: each variant carries the key or path
/// concerned and the underlying reason.
#[derive(Clone, Debug)]
pub enum DbError {
    DbOpen(String, String),
    DbOpenTree(String, String),
    DbUpdateCheck(String, String),
    DbGet(String, String),
    DbInsert(String, String),
    DbRemove(String, String),
    DecodeError(String, String),
    MetadataError(MetadataError),
}

/// The type of a backend document, used in relationships between documents.
#[derive(Clone, Copy, Debug, PartialEq, Eq, Structural)]
pub enum DocumentType {
    Repository,
    User,
    Course,
}

/// Expected activity frequency for a repository.
#[derive(Clone, Copy, Debug, PartialEq, Eq, Structural)]
pub enum ExpectedPracticeFrequency {
    EveryDay,
    OnceAWeek,
    OnceAMonth,
}

/// One section of a tester definition: the lessons whose tests drive a
/// course.
#[derive(Clone, Debug)]
pub struct JsonSectionV1 {
    pub name: String,
    pub slug: String,
    pub lessons: Vec<JsonTesterLessonV1>,
}

/// One lesson of a tester definition, with its tests where it has any.
#[derive(Clone, Debug)]
pub struct JsonTesterLessonV1 {
    pub name: String,
    pub slug: String,
    pub tests: Option<Vec<crate::parsing::JsonTestV1>>,
}

/// The tester definition: the course's sections and the course name the
/// identity keys are built from.
#[derive(Clone, Debug)]
pub struct TesterDefinition {
    pub sections: Vec<JsonSectionV1>,
    pub course_name: String,
}

/// The identity key and record view of one test of the tester definition:
/// the key is the lowercased concatenation of the test, lesson, section
/// and course names, leaf first — the order the stored identities and the
/// reversed-segment path search keys share; the record starts out
/// unknown.
pub open spec fn entry_of(
    course_name: Seq<char>,
    section: JsonSectionV1,
    lesson: JsonTesterLessonV1,
    t: crate::parsing::JsonTestV1,
) -> (Seq<char>, crate::codec::TestView) {
    (
        crate::ident::lower_of(t.name@) + crate::ident::lower_of(lesson.name@)
            + crate::ident::lower_of(section.name@) + crate::ident::lower_of(course_name),
        crate::codec::TestView {
            name: t.name@,
            slug: t.slug@,
            message_on_success: t.message_on_success@,
            message_on_fail: t.message_on_fail@,
            cmd: crate::text::split_ws(t.cmd@),
            path: seq![
                (false, section.name@),
                (false, lesson.name@),
                (t.optional, t.name@),
                (false, t.name@),
            ],
            passed: ValidationState::Unknown,
            optional: t.optional,
        },
    )
}

/// The entries one lesson contributes, in test order.
pub open spec fn lesson_entries(
    course_name: Seq<char>,
    section: JsonSectionV1,
    lesson: JsonTesterLessonV1,
) -> Seq<(Seq<char>, crate::codec::TestView)> {
    match lesson.tests {
        Some(ts) => Seq::new(ts@.len(), |i: int| entry_of(course_name, section, lesson, ts@[i])),
        None => Seq::empty(),
    }
}

/// The entries one section contributes, in lesson order.
pub open spec fn section_entries(course_name: Seq<char>, section: JsonSectionV1) -> Seq<
    (Seq<char>, crate::codec::TestView),
> {
    Seq::new(
        section.lessons@.len(),
        |j: int| lesson_entries(course_name, section, section.lessons@[j]),
    ).flatten_alt()
}

/// Every test of the tester definition, in section, lesson and test
/// order, as identity-keyed record views.
pub open spec fn tester_entries(td: TesterDefinition) -> Seq<(Seq<char>, crate::codec::TestView)> {
    Seq::new(
        td.sections@.len(),
        |i: int| section_entries(td.course_name@, td.sections@[i]),
    ).flatten_alt()
}

/// The key and record view of one built work-list entry.
pub open spec fn entry_view(e: (String, TestState)) -> (Seq<char>, crate::codec::TestView) {
    (e.0@, crate::codec::view_of(e.1))
}

impl TesterDefinition {
    /// Builds the ordered test list the registry is reconciled against:
    /// one identity-keyed record per test, in section, lesson and test
    /// order, every record starting out with an unknown outcome.
    pub fn list_tests(&self) -> (r: Vec<(String, TestState)>)
        ensures
            r@.map_values(|e: (String, TestState)| entry_view(e)) == tester_entries(*self),
    {
        let ghost all = Seq::new(
            self.sections@.len(),
            |i: int| section_entries(self.course_name@, self.sections@[i]),
        );
        let mut acc: Vec<(String, TestState)> = Vec::new();
        let ns = self.sections.len();
        let mut i: usize = 0;
        while i < ns
            invariant
                0 <= i <= ns,
                ns == self.sections@.len(),
                all == Seq::new(
                    self.sections@.len(),
                    |i_: int| section_entries(self.course_name@, self.sections@[i_]),
                ),
                acc@.map_values(|e: (String, TestState)| entry_view(e)) == all.take(
                    i as int,
                ).flatten_alt(),
            decreases ns - i,
        {
            let ghost sec = self.sections@[i as int];
            let ghost lessons_seq = Seq::new(
                sec.lessons@.len(),
                |j: int| lesson_entries(self.course_name@, sec, sec.lessons@[j]),
            );
            let nl = self.sections[i].lessons.len();
            let mut j: usize = 0;
            while j < nl
                invariant
                    0 <= j <= nl,
                    0 <= i < ns,
                    ns == self.sections@.len(),
                    sec == self.sections@[i as int],
                    nl == sec.lessons@.len(),
                    all == Seq::new(
                        self.sections@.len(),
                        |i_: int| section_entries(self.course_name@, self.sections@[i_]),
                    ),
                    lessons_seq == Seq::new(
                        sec.lessons@.len(),
                        |j_: int| lesson_entries(self.course_name@, sec, sec.lessons@[j_]),
                    ),
                    acc@.map_values(|e: (String, TestState)| entry_view(e)) == all.take(
                        i as int,
                    ).flatten_alt() + lessons_seq.take(j as int).flatten_alt(),
                decreases nl - j,
            {
                let ghost les = sec.lessons@[j as int];
                let ghost lentries = lesson_entries(self.course_name@, sec, les);
                let has_tests = match &self.sections[i].lessons[j].tests {
                    Some(_) => true,
                    None => false,
                };
                if has_tests {
                    let nt = match &self.sections[i].lessons[j].tests {
                        Some(ts) => ts.len(),
                        None => 0,
                    };
                    let mut k: usize = 0;
                    while k < nt
                        invariant
                            0 <= k <= nt,
                            0 <= i < ns,
                            0 <= j < nl,
                            ns == self.sections@.len(),
                            sec == self.sections@[i as int],
                            nl == sec.lessons@.len(),
                            les == sec.lessons@[j as int],
                            les.tests matches Some(ts) && nt == ts@.len(),
                            lentries == lesson_entries(self.course_name@, sec, les),
                            all == Seq::new(
                                self.sections@.len(),
                                |i_: int| section_entries(self.course_name@, self.sections@[i_]),
                            ),
                            lessons_seq == Seq::new(
                                sec.lessons@.len(),
                                |j_: int| lesson_entries(self.course_name@, sec, sec.lessons@[j_]),
                            ),
                            acc@.map_values(|e: (String, TestState)| entry_view(e)) == all.take(
                                i as int,
                            ).flatten_alt() + lessons_seq.take(j as int).flatten_alt()
                                + lentries.take(k as int),
                        decreases nt - k,
                    {
                        let entry = build_entry(
                            &self.course_name,
                            &self.sections[i],
                            &self.sections[i].lessons[j],
                            k,
                        );
                        let ghost before = acc@;
                        acc.push(entry);
                        proof {
                            assert(lentries[k as int] == entry_of(
                                self.course_name@,
                                sec,
                                les,
                                les.tests.unwrap()@[k as int],
                            ));
                            assert(entry_view(entry) == lentries[k as int]);
                            assert(acc@.map_values(|e: (String, TestState)| entry_view(e)) =~= before
                                .map_values(|e: (String, TestState)| entry_view(e)).push(
                                entry_view(entry),
                            ));
                            assert(lentries.take(k + 1) =~= lentries.take(k as int).push(
                                lentries[k as int],
                            ));
                            assert(acc@.map_values(|e: (String, TestState)| entry_view(e)) =~= all
                                .take(i as int).flatten_alt() + lessons_seq.take(
                                j as int,
                            ).flatten_alt() + lentries.take(k + 1));
                        }
                        k = k + 1;
                    }
                    proof {
                        assert(lentries.take(nt as int) =~= lentries);
                    }
                } else {
                    proof {
                        assert(lentries =~= Seq::<(Seq<char>, crate::codec::TestView)>::empty());
                        assert(lessons_seq.take(j as int).flatten_alt() + lentries =~= lessons_seq
                            .take(j as int).flatten_alt());
                        assert(acc@.map_values(|e: (String, TestState)| entry_view(e)) =~= all.take(
                            i as int,
                        ).flatten_alt() + lessons_seq.take(j as int).flatten_alt() + lentries);
                    }
                }
                proof {
                    assert(lessons_seq.take(j + 1).drop_last() =~= lessons_seq.take(j as int));
                    assert(lessons_seq.take(j + 1).last() == lessons_seq[j as int]);
                    assert(lessons_seq[j as int] == lentries);
                    assert(lessons_seq.take(j + 1).flatten_alt() == lessons_seq.take(
                        j as int,
                    ).flatten_alt() + lentries);
                    assert(all.take(i as int).flatten_alt() + lessons_seq.take(j + 1).flatten_alt()
                        =~= all.take(i as int).flatten_alt() + lessons_seq.take(
                        j as int,
                    ).flatten_alt() + lentries);
                }
                j = j + 1;
            }
            proof {
                assert(lessons_seq.take(nl as int) =~= lessons_seq);
                assert(all.take(i + 1).drop_last() =~= all.take(i as int));
                assert(all.take(i + 1).last() == all[i as int]);
                assert(all[i as int] == section_entries(self.course_name@, sec));
                assert(section_entries(self.course_name@, sec) == lessons_seq.flatten_alt());
                assert(all.take(i + 1).flatten_alt() == all.take(i as int).flatten_alt()
                    + lessons_seq.flatten_alt());
            }
            i = i + 1;
        }
        proof {
            assert(all.take(ns as int) =~= all);
        }
        acc
    }
}

/// Builds one work-list entry: the leaf-first lowercased identity key and
/// the fresh record of one test.
fn build_entry(
    course_name: &String,
    section: &JsonSectionV1,
    lesson: &JsonTesterLessonV1,
    k: usize,
) -> (r: (String, TestState))
    requires
        lesson.tests matches Some(ts) && k < ts@.len(),
    ensures
        entry_view(r) == entry_of(
            course_name@,
            *section,
            *lesson,
            lesson.tests.unwrap()@[k as int],
        ),
{
    let t = match &lesson.tests {
        Some(ts) => &ts[k],
        None => &lesson.tests.as_ref().unwrap()[0],
    };
    let mut key = crate::ident::lowercase(t.name.as_str());
    let low_lesson = crate::ident::lowercase(lesson.name.as_str());
    key.append(low_lesson.as_str());
    let low_section = crate::ident::lowercase(section.name.as_str());
    key.append(low_section.as_str());
    let low_course = crate::ident::lowercase(course_name.as_str());
    key.append(low_course.as_str());
    let cmd = crate::text::split_args(t.cmd.as_str());
    let mut path: Vec<PathLink> = Vec::new();
    path.push(PathLink::Link(section.name.clone()));
    path.push(PathLink::Link(lesson.name.clone()));
    if t.optional {
        path.push(PathLink::LinkOptional(t.name.clone()));
    } else {
        path.push(PathLink::Link(t.name.clone()));
    }
    path.push(PathLink::Link(t.name.clone()));
    let record = TestState {
        name: t.name.clone(),
        slug: t.slug.clone(),
        message_on_success: t.message_on_success.clone(),
        message_on_fail: t.message_on_fail.clone(),
        cmd,
        path,
        passed: ValidationState::Unknown,
        optional: t.optional,
    };
    proof {
        assert(crate::codec::link_views(record.path@) =~= seq![
            (false, section.name@),
            (false, lesson.name@),
            (t.optional, t.name@),
            (false, t.name@),
        ]);
        assert(crate::codec::view_of(record) =~= entry_of(
            course_name@,
            *section,
            *lesson,
            lesson.tests.unwrap()@[k as int],
        ).1);
    }
    (key, record)
}

/// One test run reported to the backend; the timestamp is milliseconds
/// since the Unix epoch.
#[derive(Clone, Debug)]
pub struct TestLogEntry {
    pub test_slug: String,
    pub passed: bool,
    pub timestamp: i64,
    pub section_name: String,
    pub lesson_name: String,
    pub lesson_slug: String,
    pub test_name: String,
    pub repo_name: String,
}

} // verus!
