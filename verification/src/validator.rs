//! The structural validator: an independent state machine that walks the
//! course tree and, at every node, recomputes the identity hash over the
//! name path from the course root and compares it with the node's
//! declared slug. The first mismatch halts the walk; the terminal pass
//! state is reached only after every node at every level has checked out.

use vstd::prelude::*;

verus! {

use crate::ident::expected_slug_of;
use crate::ident::slug_for;
use crate::ident::views_of;
use crate::parsing::JsonCourseV2;
use crate::parsing::JsonTestSuiteV2;
use vstd::string::StringExecFns;

/// The states of the validator's walk: one per tree level, plus the two
/// outcome states and the terminal state.
#[derive(Debug)]
pub enum ValidatorStateV2 {
    Loaded,
    Course,
    Stage { index_stage: usize },
    Lesson { index_stage: usize, index_lesson: usize },
    Suite { index_stage: usize, index_lesson: usize, index_suite: usize },
    Test { index_stage: usize, index_lesson: usize, index_suite: usize, index_test: usize },
    Fail { reason: String },
    Pass,
    Finish,
}

/// The suites of one lesson, or nothing where the lesson has none.
pub open spec fn suites_of(c: JsonCourseV2, i: int, j: int) -> Seq<JsonTestSuiteV2> {
    match c.stages@[i].lessons@[j].suites {
        Some(ss) => ss@,
        None => Seq::empty(),
    }
}

/// Whether one lesson has suites.
pub open spec fn has_suites(c: JsonCourseV2, i: int, j: int) -> bool {
    c.stages@[i].lessons@[j].suites is Some
}

/// A course as the parser hands it over: no empty stage, lesson, suite or
/// test list anywhere.
pub open spec fn course_shaped(c: JsonCourseV2) -> bool {
    &&& c.stages@.len() > 0
    &&& forall|i: int| 0 <= i < c.stages@.len() ==> (#[trigger] c.stages@[i]).lessons@.len() > 0
    &&& forall|i: int, j: int|
        0 <= i < c.stages@.len() && 0 <= j < c.stages@[i].lessons@.len() && has_suites(c, i, j)
            ==> #[trigger] suites_of(c, i, j).len() > 0
    &&& forall|i: int, j: int, k: int|
        0 <= i < c.stages@.len() && 0 <= j < c.stages@[i].lessons@.len() && 0 <= k < suites_of(
            c,
            i,
            j,
        ).len() ==> (#[trigger] suites_of(c, i, j)[k]).tests@.len() > 0
}

/// The course's own declared slug matches its recomputed hash.
pub open spec fn course_ok(c: JsonCourseV2) -> bool {
    c.slug@ == expected_slug_of(seq![c.name@])
}

/// A stage's declared slug matches the hash of its name path.
pub open spec fn stage_ok(c: JsonCourseV2, i: int) -> bool {
    c.stages@[i].slug@ == expected_slug_of(seq![c.name@, c.stages@[i].name@])
}

/// A lesson's declared slug matches the hash of its name path.
pub open spec fn lesson_ok(c: JsonCourseV2, i: int, j: int) -> bool {
    c.stages@[i].lessons@[j].slug@ == expected_slug_of(
        seq![c.name@, c.stages@[i].name@, c.stages@[i].lessons@[j].name@],
    )
}

/// A suite's declared slug matches the hash of its name path.
pub open spec fn suite_ok(c: JsonCourseV2, i: int, j: int, k: int) -> bool {
    suites_of(c, i, j)[k].slug@ == expected_slug_of(
        seq![
            c.name@,
            c.stages@[i].name@,
            c.stages@[i].lessons@[j].name@,
            suites_of(c, i, j)[k].name@,
        ],
    )
}

/// A test's declared slug matches the hash of its name path.
pub open spec fn test_ok(c: JsonCourseV2, i: int, j: int, k: int, l: int) -> bool {
    suites_of(c, i, j)[k].tests@[l].slug@ == expected_slug_of(
        seq![
            c.name@,
            c.stages@[i].name@,
            c.stages@[i].lessons@[j].name@,
            suites_of(c, i, j)[k].name@,
            suites_of(c, i, j)[k].tests@[l].name@,
        ],
    )
}

/// Every node of the course tree, at every level, carries the slug its
/// name path hashes to.
pub open spec fn course_valid(c: JsonCourseV2) -> bool {
    &&& course_ok(c)
    &&& forall|i: int| 0 <= i < c.stages@.len() ==> #[trigger] stage_ok(c, i)
    &&& forall|i: int, j: int|
        0 <= i < c.stages@.len() && 0 <= j < c.stages@[i].lessons@.len()
            ==> #[trigger] lesson_ok(c, i, j)
    &&& forall|i: int, j: int, k: int|
        0 <= i < c.stages@.len() && 0 <= j < c.stages@[i].lessons@.len() && 0 <= k < suites_of(
            c,
            i,
            j,
        ).len() ==> #[trigger] suite_ok(c, i, j, k)
    &&& forall|i: int, j: int, k: int, l: int|
        0 <= i < c.stages@.len() && 0 <= j < c.stages@[i].lessons@.len() && 0 <= k < suites_of(
            c,
            i,
            j,
        ).len() && 0 <= l < suites_of(c, i, j)[k].tests@.len() ==> #[trigger] test_ok(c, i, j, k, l)
}

/// The mismatch message carried for one node: its declared slug and the
/// recomputed one.
pub open spec fn mismatch_reason_of(declared: Seq<char>, expected: Seq<char>) -> Seq<char> {
    "Invalid slug: '"@ + declared + "', expected '"@ + expected + "'"@
}

/// The failing state carrying exactly one node's declared and recomputed
/// slugs.
pub open spec fn failed_at(s: ValidatorStateV2, declared: Seq<char>, expected: Seq<char>) -> bool {
    s matches ValidatorStateV2::Fail { reason } && reason@ == mismatch_reason_of(
        declared,
        expected,
    )
}

/// The walk's position after the last node of a lesson, depth first: the
/// next lesson, the next stage, or the passing outcome at the end.
pub open spec fn next_after_lesson(c: JsonCourseV2, i: usize, j: usize) -> ValidatorStateV2 {
    if j + 1 < c.stages@[i as int].lessons@.len() {
        ValidatorStateV2::Lesson { index_stage: i, index_lesson: (j + 1) as usize }
    } else if i + 1 < c.stages@.len() {
        ValidatorStateV2::Stage { index_stage: (i + 1) as usize }
    } else {
        ValidatorStateV2::Pass
    }
}

/// The walk's position after one checked test, depth first: the next
/// test, the next suite, or past the lesson.
pub open spec fn next_after_test(
    c: JsonCourseV2,
    i: usize,
    j: usize,
    k: usize,
    l: usize,
) -> ValidatorStateV2 {
    if l + 1 < suites_of(c, i as int, j as int)[k as int].tests@.len() {
        ValidatorStateV2::Test {
            index_stage: i,
            index_lesson: j,
            index_suite: k,
            index_test: (l + 1) as usize,
        }
    } else if k + 1 < suites_of(c, i as int, j as int).len() {
        ValidatorStateV2::Suite { index_stage: i, index_lesson: j, index_suite: (k + 1) as usize }
    } else {
        next_after_lesson(c, i, j)
    }
}

/// One suite checked out in full: its own slug and all its tests' slugs.
pub open spec fn suite_done(c: JsonCourseV2, i: int, j: int, k: int) -> bool {
    &&& suite_ok(c, i, j, k)
    &&& forall|l: int| 0 <= l < suites_of(c, i, j)[k].tests@.len() ==> #[trigger] test_ok(c, i, j, k, l)
}

/// One lesson checked out in full: its own slug and all its suites.
pub open spec fn lesson_done(c: JsonCourseV2, i: int, j: int) -> bool {
    &&& lesson_ok(c, i, j)
    &&& forall|k: int| 0 <= k < suites_of(c, i, j).len() ==> #[trigger] suite_done(c, i, j, k)
}

/// One stage checked out in full: its own slug and all its lessons.
pub open spec fn stage_done(c: JsonCourseV2, i: int) -> bool {
    &&& stage_ok(c, i)
    &&& forall|j: int| 0 <= j < c.stages@[i].lessons@.len() ==> #[trigger] lesson_done(c, i, j)
}

/// The validator: the walk's state over an owned course definition.
#[derive(Debug)]
pub struct ValidatorV2 {
    pub state: ValidatorStateV2,
    pub course: JsonCourseV2,
}

impl ValidatorV2 {
    /// Everything known mid-walk: indices are in range, every node before
    /// the current one checked out, and a terminal outcome state tells the
    /// truth about the whole course.
    pub open spec fn inv(self) -> bool {
        let c = self.course;
        &&& course_shaped(c)
        &&& match self.state {
            ValidatorStateV2::Loaded => true,
            ValidatorStateV2::Course => true,
            ValidatorStateV2::Stage { index_stage } => {
                &&& index_stage < c.stages@.len()
                &&& course_ok(c)
                &&& forall|x: int| 0 <= x < index_stage ==> #[trigger] stage_done(c, x)
            },
            ValidatorStateV2::Lesson { index_stage, index_lesson } => {
                &&& index_stage < c.stages@.len()
                &&& index_lesson < c.stages@[index_stage as int].lessons@.len()
                &&& course_ok(c)
                &&& forall|x: int| 0 <= x < index_stage ==> #[trigger] stage_done(c, x)
                &&& stage_ok(c, index_stage as int)
                &&& forall|y: int|
                    0 <= y < index_lesson ==> #[trigger] lesson_done(c, index_stage as int, y)
            },
            ValidatorStateV2::Suite { index_stage, index_lesson, index_suite } => {
                &&& index_stage < c.stages@.len()
                &&& index_lesson < c.stages@[index_stage as int].lessons@.len()
                &&& index_suite < suites_of(c, index_stage as int, index_lesson as int).len()
                &&& course_ok(c)
                &&& forall|x: int| 0 <= x < index_stage ==> #[trigger] stage_done(c, x)
                &&& stage_ok(c, index_stage as int)
                &&& forall|y: int|
                    0 <= y < index_lesson ==> #[trigger] lesson_done(c, index_stage as int, y)
                &&& lesson_ok(c, index_stage as int, index_lesson as int)
                &&& forall|z: int|
                    0 <= z < index_suite ==> #[trigger] suite_done(
                        c,
                        index_stage as int,
                        index_lesson as int,
                        z,
                    )
            },
            ValidatorStateV2::Test { index_stage, index_lesson, index_suite, index_test } => {
                &&& index_stage < c.stages@.len()
                &&& index_lesson < c.stages@[index_stage as int].lessons@.len()
                &&& index_suite < suites_of(c, index_stage as int, index_lesson as int).len()
                &&& index_test < suites_of(c, index_stage as int, index_lesson as int)[
                    index_suite as int
                ].tests@.len()
                &&& course_ok(c)
                &&& forall|x: int| 0 <= x < index_stage ==> #[trigger] stage_done(c, x)
                &&& stage_ok(c, index_stage as int)
                &&& forall|y: int|
                    0 <= y < index_lesson ==> #[trigger] lesson_done(c, index_stage as int, y)
                &&& lesson_ok(c, index_stage as int, index_lesson as int)
                &&& forall|z: int|
                    0 <= z < index_suite ==> #[trigger] suite_done(
                        c,
                        index_stage as int,
                        index_lesson as int,
                        z,
                    )
                &&& suite_ok(c, index_stage as int, index_lesson as int, index_suite as int)
                &&& forall|w: int|
                    0 <= w < index_test ==> #[trigger] test_ok(
                        c,
                        index_stage as int,
                        index_lesson as int,
                        index_suite as int,
                        w,
                    )
            },
            ValidatorStateV2::Fail { .. } => !course_valid(c),
            ValidatorStateV2::Pass => course_valid(c),
            ValidatorStateV2::Finish => true,
        }
    }

    /// Whether the walk is still at a tree node.
    pub open spec fn is_running(self) -> bool {
        match self.state {
            ValidatorStateV2::Loaded => true,
            ValidatorStateV2::Course => true,
            ValidatorStateV2::Stage { .. } => true,
            ValidatorStateV2::Lesson { .. } => true,
            ValidatorStateV2::Suite { .. } => true,
            ValidatorStateV2::Test { .. } => true,
            _ => false,
        }
    }

    /// Whether the walk is still at a tree node.
    pub fn running(&self) -> (r: bool)
        ensures
            r == self.is_running(),
    {
        match self.state {
            ValidatorStateV2::Loaded => true,
            ValidatorStateV2::Course => true,
            ValidatorStateV2::Stage { .. } => true,
            ValidatorStateV2::Lesson { .. } => true,
            ValidatorStateV2::Suite { .. } => true,
            ValidatorStateV2::Test { .. } => true,
            _ => false,
        }
    }

    /// The first component of the walk's termination measure.
    pub open spec fn m1(self) -> int {
        let c = self.course;
        match self.state {
            ValidatorStateV2::Loaded => c.stages@.len() as int + 4,
            ValidatorStateV2::Course => c.stages@.len() as int + 3,
            ValidatorStateV2::Stage { index_stage } => c.stages@.len() as int - index_stage + 2,
            ValidatorStateV2::Lesson { index_stage, .. } => c.stages@.len() as int - index_stage + 2,
            ValidatorStateV2::Suite { index_stage, .. } => c.stages@.len() as int - index_stage + 2,
            ValidatorStateV2::Test { index_stage, .. } => c.stages@.len() as int - index_stage + 2,
            ValidatorStateV2::Fail { .. } => 1,
            ValidatorStateV2::Pass => 1,
            ValidatorStateV2::Finish => 0,
        }
    }

    /// The second component of the walk's termination measure.
    pub open spec fn m2(self) -> int {
        let c = self.course;
        match self.state {
            ValidatorStateV2::Stage { index_stage } => c.stages@[index_stage as int].lessons@.len()
                as int + 1,
            ValidatorStateV2::Lesson { index_stage, index_lesson } => c.stages@[
                index_stage as int
            ].lessons@.len() as int - index_lesson,
            ValidatorStateV2::Suite { index_stage, index_lesson, .. } => c.stages@[
                index_stage as int
            ].lessons@.len() as int - index_lesson,
            ValidatorStateV2::Test { index_stage, index_lesson, .. } => c.stages@[
                index_stage as int
            ].lessons@.len() as int - index_lesson,
            _ => 0,
        }
    }

    /// The third component of the walk's termination measure.
    pub open spec fn m3(self) -> int {
        let c = self.course;
        match self.state {
            ValidatorStateV2::Lesson { index_stage, index_lesson } => suites_of(
                c,
                index_stage as int,
                index_lesson as int,
            ).len() as int + 1,
            ValidatorStateV2::Suite { index_stage, index_lesson, index_suite } => suites_of(
                c,
                index_stage as int,
                index_lesson as int,
            ).len() as int - index_suite,
            ValidatorStateV2::Test { index_stage, index_lesson, index_suite, .. } => suites_of(
                c,
                index_stage as int,
                index_lesson as int,
            ).len() as int - index_suite,
            _ => 0,
        }
    }

    /// The fourth component of the walk's termination measure.
    pub open spec fn m4(self) -> int {
        let c = self.course;
        match self.state {
            ValidatorStateV2::Suite { index_stage, index_lesson, index_suite } => suites_of(
                c,
                index_stage as int,
                index_lesson as int,
            )[index_suite as int].tests@.len() as int + 1,
            ValidatorStateV2::Test { index_stage, index_lesson, index_suite, index_test } => suites_of(
                c,
                index_stage as int,
                index_lesson as int,
            )[index_suite as int].tests@.len() as int - index_test,
            _ => 0,
        }
    }

    /// The walk's measure shrinks lexicographically at each step.
    pub open spec fn measure_lt(a: ValidatorV2, b: ValidatorV2) -> bool {
        ||| (a.m1() < b.m1() && 0 <= a.m1())
        ||| (a.m1() == b.m1() && a.m2() < b.m2() && 0 <= a.m2())
        ||| (a.m1() == b.m1() && a.m2() == b.m2() && a.m3() < b.m3() && 0 <= a.m3())
        ||| (a.m1() == b.m1() && a.m2() == b.m2() && a.m3() == b.m3() && a.m4() < b.m4() && 0
            <= a.m4())
    }

    /// A fresh validator over a parsed course.
    pub fn new(course: JsonCourseV2) -> (r: Self)
        requires
            course_shaped(course),
        ensures
            r.course == course,
            r.state is Loaded,
            r.inv(),
    {
        ValidatorV2 { state: ValidatorStateV2::Loaded, course }
    }

    /// The reason the walk halted, in the failed state.
    pub fn failure_reason(&self) -> (r: &String)
        requires
            self.state matches ValidatorStateV2::Fail { .. },
        ensures
            self.state matches ValidatorStateV2::Fail { reason } && *r == reason,
    {
        match &self.state {
            ValidatorStateV2::Fail { reason } => reason,
            _ => &self.course.name,
        }
    }

    /// Advances the walk by one node: recomputes the current node's slug
    /// and either moves to the next node in depth-first order, halts with
    /// the mismatch, or reaches an outcome state. From an outcome state the
    /// walk finishes.
    pub fn step(&mut self)
        requires
            old(self).inv(),
            !(old(self).state is Finish),
        ensures
            final(self).inv(),
            final(self).course == old(self).course,
            Self::measure_lt(*final(self), *old(self)),
            old(self).is_running() ==> !(final(self).state is Finish),
            old(self).state is Pass ==> final(self).state is Finish,
            old(self).state matches ValidatorStateV2::Fail { .. } ==> final(self).state is Finish,
            ({
                let c = old(self).course;
                match old(self).state {
                    ValidatorStateV2::Loaded => final(self).state is Course,
                    ValidatorStateV2::Course => if course_ok(c) {
                        final(self).state matches ValidatorStateV2::Stage { index_stage: 0usize }
                    } else {
                        failed_at(final(self).state, c.slug@, expected_slug_of(seq![c.name@]))
                    },
                    ValidatorStateV2::Stage { index_stage } => if stage_ok(c, index_stage as int) {
                        final(self).state matches ValidatorStateV2::Lesson {
                            index_stage: i2,
                            index_lesson: 0usize,
                        } && i2 == index_stage
                    } else {
                        failed_at(
                            final(self).state,
                            c.stages@[index_stage as int].slug@,
                            expected_slug_of(seq![c.name@, c.stages@[index_stage as int].name@]),
                        )
                    },
                    ValidatorStateV2::Lesson { index_stage, index_lesson } => if lesson_ok(
                        c,
                        index_stage as int,
                        index_lesson as int,
                    ) {
                        if has_suites(c, index_stage as int, index_lesson as int) {
                            final(self).state matches ValidatorStateV2::Suite {
                                index_stage: i2,
                                index_lesson: j2,
                                index_suite: 0usize,
                            } && i2 == index_stage && j2 == index_lesson
                        } else {
                            final(self).state == next_after_lesson(c, index_stage, index_lesson)
                        }
                    } else {
                        failed_at(
                            final(self).state,
                            c.stages@[index_stage as int].lessons@[index_lesson as int].slug@,
                            expected_slug_of(
                                seq![
                                    c.name@,
                                    c.stages@[index_stage as int].name@,
                                    c.stages@[index_stage as int].lessons@[
                                        index_lesson as int
                                    ].name@,
                                ],
                            ),
                        )
                    },
                    ValidatorStateV2::Suite { index_stage, index_lesson, index_suite } => if suite_ok(
                        c,
                        index_stage as int,
                        index_lesson as int,
                        index_suite as int,
                    ) {
                        final(self).state matches ValidatorStateV2::Test {
                            index_stage: i2,
                            index_lesson: j2,
                            index_suite: k2,
                            index_test: 0usize,
                        } && i2 == index_stage && j2 == index_lesson && k2 == index_suite
                    } else {
                        failed_at(
                            final(self).state,
                            suites_of(c, index_stage as int, index_lesson as int)[
                                index_suite as int
                            ].slug@,
                            expected_slug_of(
                                seq![
                                    c.name@,
                                    c.stages@[index_stage as int].name@,
                                    c.stages@[index_stage as int].lessons@[
                                        index_lesson as int
                                    ].name@,
                                    suites_of(c, index_stage as int, index_lesson as int)[
                                        index_suite as int
                                    ].name@,
                                ],
                            ),
                        )
                    },
                    ValidatorStateV2::Test { index_stage, index_lesson, index_suite, index_test } => if test_ok(
                        c,
                        index_stage as int,
                        index_lesson as int,
                        index_suite as int,
                        index_test as int,
                    ) {
                        final(self).state == next_after_test(
                            c,
                            index_stage,
                            index_lesson,
                            index_suite,
                            index_test,
                        )
                    } else {
                        failed_at(
                            final(self).state,
                            suites_of(c, index_stage as int, index_lesson as int)[
                                index_suite as int
                            ].tests@[index_test as int].slug@,
                            expected_slug_of(
                                seq![
                                    c.name@,
                                    c.stages@[index_stage as int].name@,
                                    c.stages@[index_stage as int].lessons@[
                                        index_lesson as int
                                    ].name@,
                                    suites_of(c, index_stage as int, index_lesson as int)[
                                        index_suite as int
                                    ].name@,
                                    suites_of(c, index_stage as int, index_lesson as int)[
                                        index_suite as int
                                    ].tests@[index_test as int].name@,
                                ],
                            ),
                        )
                    },
                    ValidatorStateV2::Fail { .. } => final(self).state is Finish,
                    ValidatorStateV2::Pass => final(self).state is Finish,
                    ValidatorStateV2::Finish => true,
                }
            }),
    {
        match &self.state {
            ValidatorStateV2::Loaded => {
                self.state = ValidatorStateV2::Course;
            },
            ValidatorStateV2::Course => {
                let mut words: Vec<&str> = Vec::new();
                words.push(self.course.name.as_str());
                proof {
                    assert(views_of(words@) =~= seq![self.course.name@]);
                }
                let expected = slug_for(words.as_slice());
                if expected == self.course.slug {
                    self.state = ValidatorStateV2::Stage { index_stage: 0 };
                } else {
                    let reason = mismatch_reason(&self.course.slug, &expected);
                    proof {
                        assert(!course_ok(self.course));
                    }
                    self.state = ValidatorStateV2::Fail { reason };
                }
            },
            ValidatorStateV2::Stage { index_stage } => {
                let i = *index_stage;
                let mut words: Vec<&str> = Vec::new();
                words.push(self.course.name.as_str());
                words.push(self.course.stages[i].name.as_str());
                proof {
                    assert(views_of(words@) =~= seq![
                        self.course.name@,
                        self.course.stages@[i as int].name@,
                    ]);
                }
                let expected = slug_for(words.as_slice());
                if expected == self.course.stages[i].slug {
                    self.state = ValidatorStateV2::Lesson { index_stage: i, index_lesson: 0 };
                } else {
                    let reason = mismatch_reason(&self.course.stages[i].slug, &expected);
                    proof {
                        assert(!stage_ok(self.course, i as int));
                    }
                    self.state = ValidatorStateV2::Fail { reason };
                }
            },
            ValidatorStateV2::Lesson { index_stage, index_lesson } => {
                let i = *index_stage;
                let j = *index_lesson;
                let mut words: Vec<&str> = Vec::new();
                words.push(self.course.name.as_str());
                words.push(self.course.stages[i].name.as_str());
                words.push(self.course.stages[i].lessons[j].name.as_str());
                proof {
                    assert(views_of(words@) =~= seq![
                        self.course.name@,
                        self.course.stages@[i as int].name@,
                        self.course.stages@[i as int].lessons@[j as int].name@,
                    ]);
                }
                let expected = slug_for(words.as_slice());
                if expected == self.course.stages[i].lessons[j].slug {
                    let has = match &self.course.stages[i].lessons[j].suites {
                        Some(_) => true,
                        None => false,
                    };
                    if has {
                        self.state = ValidatorStateV2::Suite {
                            index_stage: i,
                            index_lesson: j,
                            index_suite: 0,
                        };
                    } else {
                        proof {
                            lemma_lesson_without_suites_done(self.course, i as int, j as int);
                        }
                        self.advance_lesson(i, j);
                    }
                } else {
                    let reason = mismatch_reason(
                        &self.course.stages[i].lessons[j].slug,
                        &expected,
                    );
                    proof {
                        assert(!lesson_ok(self.course, i as int, j as int));
                    }
                    self.state = ValidatorStateV2::Fail { reason };
                }
            },
            ValidatorStateV2::Suite { index_stage, index_lesson, index_suite } => {
                let i = *index_stage;
                let j = *index_lesson;
                let k = *index_suite;
                let suite_name = self.suite_name(i, j, k);
                let suite_slug = self.suite_slug(i, j, k);
                let mut words: Vec<&str> = Vec::new();
                words.push(self.course.name.as_str());
                words.push(self.course.stages[i].name.as_str());
                words.push(self.course.stages[i].lessons[j].name.as_str());
                words.push(suite_name.as_str());
                proof {
                    assert(views_of(words@) =~= seq![
                        self.course.name@,
                        self.course.stages@[i as int].name@,
                        self.course.stages@[i as int].lessons@[j as int].name@,
                        suites_of(self.course, i as int, j as int)[k as int].name@,
                    ]);
                }
                let expected = slug_for(words.as_slice());
                if expected == *suite_slug {
                    self.state = ValidatorStateV2::Test {
                        index_stage: i,
                        index_lesson: j,
                        index_suite: k,
                        index_test: 0,
                    };
                } else {
                    let reason = mismatch_reason(suite_slug, &expected);
                    proof {
                        assert(!suite_ok(self.course, i as int, j as int, k as int));
                    }
                    self.state = ValidatorStateV2::Fail { reason };
                }
            },
            ValidatorStateV2::Test { index_stage, index_lesson, index_suite, index_test } => {
                let i = *index_stage;
                let j = *index_lesson;
                let k = *index_suite;
                let l = *index_test;
                let suite_name = self.suite_name(i, j, k);
                let test_name = self.test_name(i, j, k, l);
                let test_slug = self.test_slug(i, j, k, l);
                let mut words: Vec<&str> = Vec::new();
                words.push(self.course.name.as_str());
                words.push(self.course.stages[i].name.as_str());
                words.push(self.course.stages[i].lessons[j].name.as_str());
                words.push(suite_name.as_str());
                words.push(test_name.as_str());
                proof {
                    assert(views_of(words@) =~= seq![
                        self.course.name@,
                        self.course.stages@[i as int].name@,
                        self.course.stages@[i as int].lessons@[j as int].name@,
                        suites_of(self.course, i as int, j as int)[k as int].name@,
                        suites_of(self.course, i as int, j as int)[k as int].tests@[l as int].name@,
                    ]);
                }
                let expected = slug_for(words.as_slice());
                if expected == *test_slug {
                    let suites_len = self.suites_len(i, j);
                    let tests_len = self.tests_len(i, j, k);
                    if l + 1 < tests_len {
                        self.state = ValidatorStateV2::Test {
                            index_stage: i,
                            index_lesson: j,
                            index_suite: k,
                            index_test: l + 1,
                        };
                    } else if k + 1 < suites_len {
                        proof {
                            lemma_suite_done(self.course, i as int, j as int, k as int, l as int);
                        }
                        self.state = ValidatorStateV2::Suite {
                            index_stage: i,
                            index_lesson: j,
                            index_suite: k + 1,
                        };
                    } else {
                        proof {
                            lemma_suite_done(self.course, i as int, j as int, k as int, l as int);
                            lemma_lesson_with_suites_done(
                                self.course,
                                i as int,
                                j as int,
                                k as int,
                            );
                        }
                        self.advance_lesson(i, j);
                    }
                } else {
                    let reason = mismatch_reason(test_slug, &expected);
                    proof {
                        assert(!test_ok(self.course, i as int, j as int, k as int, l as int));
                    }
                    self.state = ValidatorStateV2::Fail { reason };
                }
            },
            ValidatorStateV2::Fail { .. } => {
                self.state = ValidatorStateV2::Finish;
            },
            ValidatorStateV2::Pass => {
                self.state = ValidatorStateV2::Finish;
            },
            ValidatorStateV2::Finish => {
                proof {
                    assert(false);
                }
            },
        }
    }

    /// Moves past a finished lesson: to the next lesson, the next stage,
    /// or the passing outcome at the end of the tree.
    fn advance_lesson(&mut self, i: usize, j: usize)
        requires
            old(self).inv(),
            (old(self).state matches ValidatorStateV2::Lesson { index_stage, index_lesson }
                && index_stage == i && index_lesson == j) || (old(self).state
                matches ValidatorStateV2::Test { index_stage, index_lesson, .. } && index_stage == i
                && index_lesson == j),
            i < old(self).course.stages@.len(),
            j < old(self).course.stages@[i as int].lessons@.len(),
            course_ok(old(self).course),
            stage_ok(old(self).course, i as int),
            forall|x: int| 0 <= x < i ==> #[trigger] stage_done(old(self).course, x),
            forall|y: int| 0 <= y < j ==> #[trigger] lesson_done(old(self).course, i as int, y),
            lesson_done(old(self).course, i as int, j as int),
        ensures
            final(self).course == old(self).course,
            final(self).inv(),
            final(self).state == next_after_lesson(old(self).course, i, j),
            !(final(self).state is Finish),
            !(final(self).state is Loaded),
            !(final(self).state is Course),
            final(self).m1() < old(self).m1() || (final(self).m1() == old(self).m1()
                && final(self).m2() < old(self).m2() && 0 <= final(self).m2()),
            0 <= final(self).m1(),
    {
        let c_stage_len = self.course.stages.len();
        let c_lesson_len = self.course.stages[i].lessons.len();
        if j + 1 < c_lesson_len {
            self.state = ValidatorStateV2::Lesson { index_stage: i, index_lesson: j + 1 };
        } else if i + 1 < c_stage_len {
            proof {
                lemma_stage_done(self.course, i as int, j as int);
            }
            self.state = ValidatorStateV2::Stage { index_stage: i + 1 };
        } else {
            proof {
                lemma_stage_done(self.course, i as int, j as int);
                lemma_course_valid(self.course, i as int);
            }
            self.state = ValidatorStateV2::Pass;
        }
    }

    /// The number of suites of one lesson.
    fn suites_len(&self, i: usize, j: usize) -> (r: usize)
        requires
            i < self.course.stages@.len(),
            j < self.course.stages@[i as int].lessons@.len(),
            has_suites(self.course, i as int, j as int),
        ensures
            r == suites_of(self.course, i as int, j as int).len(),
    {
        match &self.course.stages[i].lessons[j].suites {
            Some(ss) => ss.len(),
            None => 0,
        }
    }

    /// The number of tests of one suite.
    fn tests_len(&self, i: usize, j: usize, k: usize) -> (r: usize)
        requires
            i < self.course.stages@.len(),
            j < self.course.stages@[i as int].lessons@.len(),
            has_suites(self.course, i as int, j as int),
            k < suites_of(self.course, i as int, j as int).len(),
        ensures
            r == suites_of(self.course, i as int, j as int)[k as int].tests@.len(),
    {
        match &self.course.stages[i].lessons[j].suites {
            Some(ss) => ss[k].tests.len(),
            None => 0,
        }
    }

    /// The name of one suite.
    fn suite_name(&self, i: usize, j: usize, k: usize) -> (r: &String)
        requires
            i < self.course.stages@.len(),
            j < self.course.stages@[i as int].lessons@.len(),
            has_suites(self.course, i as int, j as int),
            k < suites_of(self.course, i as int, j as int).len(),
        ensures
            *r == suites_of(self.course, i as int, j as int)[k as int].name,
    {
        match &self.course.stages[i].lessons[j].suites {
            Some(ss) => &ss[k].name,
            None => &self.course.name,
        }
    }

    /// The declared slug of one suite.
    fn suite_slug(&self, i: usize, j: usize, k: usize) -> (r: &String)
        requires
            i < self.course.stages@.len(),
            j < self.course.stages@[i as int].lessons@.len(),
            has_suites(self.course, i as int, j as int),
            k < suites_of(self.course, i as int, j as int).len(),
        ensures
            *r == suites_of(self.course, i as int, j as int)[k as int].slug,
    {
        match &self.course.stages[i].lessons[j].suites {
            Some(ss) => &ss[k].slug,
            None => &self.course.name,
        }
    }

    /// The name of one test.
    fn test_name(&self, i: usize, j: usize, k: usize, l: usize) -> (r: &String)
        requires
            i < self.course.stages@.len(),
            j < self.course.stages@[i as int].lessons@.len(),
            has_suites(self.course, i as int, j as int),
            k < suites_of(self.course, i as int, j as int).len(),
            l < suites_of(self.course, i as int, j as int)[k as int].tests@.len(),
        ensures
            *r == suites_of(self.course, i as int, j as int)[k as int].tests@[l as int].name,
    {
        match &self.course.stages[i].lessons[j].suites {
            Some(ss) => &ss[k].tests[l].name,
            None => &self.course.name,
        }
    }

    /// The declared slug of one test.
    fn test_slug(&self, i: usize, j: usize, k: usize, l: usize) -> (r: &String)
        requires
            i < self.course.stages@.len(),
            j < self.course.stages@[i as int].lessons@.len(),
            has_suites(self.course, i as int, j as int),
            k < suites_of(self.course, i as int, j as int).len(),
            l < suites_of(self.course, i as int, j as int)[k as int].tests@.len(),
        ensures
            *r == suites_of(self.course, i as int, j as int)[k as int].tests@[l as int].slug,
    {
        match &self.course.stages[i].lessons[j].suites {
            Some(ss) => &ss[k].tests[l].slug,
            None => &self.course.name,
        }
    }

    /// Walks the whole course tree to one of the two outcome states: the
    /// passing one exactly where every node's declared slug matches its
    /// recomputed hash, the failing one with the first mismatch otherwise.
    pub fn run_to_outcome(&mut self)
        requires
            old(self).inv(),
            old(self).state is Loaded,
        ensures
            final(self).inv(),
            final(self).course == old(self).course,
            final(self).state is Pass <==> course_valid(old(self).course),
            (final(self).state is Pass) || (final(self).state
                matches ValidatorStateV2::Fail { .. }),
    {
        while self.running()
            invariant
                self.inv(),
                self.course == old(self).course,
                !(self.state is Finish),
            decreases self.m1(), self.m2(), self.m3(), self.m4(),
        {
            self.step();
        }
        proof {
            if self.state is Pass {
                assert(course_valid(self.course));
            } else {
                assert(self.state matches ValidatorStateV2::Fail { .. });
                assert(!course_valid(self.course));
            }
        }
    }
}

/// A lesson without suites is done as soon as its own slug checks out.
proof fn lemma_lesson_without_suites_done(c: JsonCourseV2, i: int, j: int)
    requires
        0 <= i < c.stages@.len(),
        0 <= j < c.stages@[i].lessons@.len(),
        !has_suites(c, i, j),
        lesson_ok(c, i, j),
    ensures
        lesson_done(c, i, j),
{
    assert(suites_of(c, i, j).len() == 0);
}

/// After the last test of a suite checked out, the suite is done.
proof fn lemma_suite_done(c: JsonCourseV2, i: int, j: int, k: int, l: int)
    requires
        0 <= i < c.stages@.len(),
        0 <= j < c.stages@[i].lessons@.len(),
        0 <= k < suites_of(c, i, j).len(),
        l == suites_of(c, i, j)[k].tests@.len() - 1,
        suite_ok(c, i, j, k),
        forall|w: int| 0 <= w < l ==> #[trigger] test_ok(c, i, j, k, w),
        test_ok(c, i, j, k, l),
    ensures
        suite_done(c, i, j, k),
{
}

/// After the last suite of a lesson is done, the lesson is done.
proof fn lemma_lesson_with_suites_done(c: JsonCourseV2, i: int, j: int, k: int)
    requires
        0 <= i < c.stages@.len(),
        0 <= j < c.stages@[i].lessons@.len(),
        k == suites_of(c, i, j).len() - 1,
        lesson_ok(c, i, j),
        forall|z: int| 0 <= z < k ==> #[trigger] suite_done(c, i, j, z),
        suite_done(c, i, j, k),
    ensures
        lesson_done(c, i, j),
{
}

/// After the last lesson of a stage is done, the stage is done.
proof fn lemma_stage_done(c: JsonCourseV2, i: int, j: int)
    requires
        0 <= i < c.stages@.len(),
        j == c.stages@[i].lessons@.len() - 1,
        stage_ok(c, i),
        forall|y: int| 0 <= y < j ==> #[trigger] lesson_done(c, i, y),
        lesson_done(c, i, j),
    ensures
        stage_done(c, i),
{
}

/// After the last stage is done, the whole course is valid.
proof fn lemma_course_valid(c: JsonCourseV2, i: int)
    requires
        i == c.stages@.len() - 1,
        course_ok(c),
        forall|x: int| 0 <= x < i ==> #[trigger] stage_done(c, x),
        stage_done(c, i),
    ensures
        course_valid(c),
{
    assert(forall|x: int| 0 <= x < c.stages@.len() ==> #[trigger] stage_done(c, x));
    assert forall|x: int| 0 <= x < c.stages@.len() implies #[trigger] stage_ok(c, x) by {
        assert(stage_done(c, x));
    }
    assert forall|x: int, j: int|
        0 <= x < c.stages@.len() && 0 <= j < c.stages@[x].lessons@.len() implies #[trigger] lesson_ok(
        c,
        x,
        j,
    ) by {
        assert(stage_done(c, x));
        assert(lesson_done(c, x, j));
    }
    assert forall|x: int, j: int, k: int|
        0 <= x < c.stages@.len() && 0 <= j < c.stages@[x].lessons@.len() && 0 <= k < suites_of(
            c,
            x,
            j,
        ).len() implies #[trigger] suite_ok(c, x, j, k) by {
        assert(stage_done(c, x));
        assert(lesson_done(c, x, j));
        assert(suite_done(c, x, j, k));
    }
    assert forall|x: int, j: int, k: int, l: int|
        0 <= x < c.stages@.len() && 0 <= j < c.stages@[x].lessons@.len() && 0 <= k < suites_of(
            c,
            x,
            j,
        ).len() && 0 <= l < suites_of(c, x, j)[k].tests@.len() implies #[trigger] test_ok(
        c,
        x,
        j,
        k,
        l,
    ) by {
        assert(stage_done(c, x));
        assert(lesson_done(c, x, j));
        assert(suite_done(c, x, j, k));
    }
}

/// The mismatch message the failing outcome carries: the declared slug and
/// the recomputed one.
fn mismatch_reason(declared: &String, expected: &String) -> (r: String)
    ensures
        r@ == mismatch_reason_of(declared@, expected@),
{
    let mut s = String::from_str("Invalid slug: '");
    s.append(declared.as_str());
    s.append("', expected '");
    s.append(expected.as_str());
    s.append("'");
    s
}

} // verus!
