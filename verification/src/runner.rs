//! The execution state machine: a sequential driver over an ordered test
//! work list. Each test's command runs outside; the machine consumes the
//! outcome, records it in the registry, and either advances, reaches
//! `Pass` after the last test, or halts at the first failure of a
//! non-optional test. The exit steps persist the resume cursor and hand
//! back the terminal streaming frames.

use vstd::prelude::*;

verus! {

use crate::codec::enc_record_v;
use crate::codec::enc_u32;
use crate::model::DbError;
use crate::model::TestResult;
use crate::model::TestState;
use crate::redis::RedisTestResultV1;
use crate::report::disconnect_frame;
use crate::report::disconnect_frame_of;
use crate::report::log_frame;
use crate::report::log_frame_of;
use crate::report::status_frame;
use crate::report::status_frame_of;
use crate::report::test_result_json;
use crate::report::test_result_json_of;
use crate::store::cursor_key;
use crate::store::outcome_recorded;
use crate::store::record_outcome;
use crate::store::tree_view;
use crate::store::write_staggered;
use crate::text::format_output;
use crate::text::format_output_spec;
use vstd::string::StringExecFns;

/// The states of the sequential runner: freshly loaded, about to run one
/// test, halted at a failed test, all tests visited, and finished.
#[derive(Debug)]
pub enum RunnerStateV1 {
    Loaded,
    NewTest { index_test: usize },
    Fail { index_test: usize, err: String },
    Pass,
    Finish,
}

/// The sequential runner: a work list of identity-keyed test records, a
/// count of passed tests, a count of failed streaming sends, the resume
/// cursor a passing run will persist, and the machine's state. The
/// registry tree is handed to each step that touches it.
pub struct RunnerV1 {
    pub target: String,
    pub tests: Vec<(String, TestState)>,
    pub success: u32,
    pub transport_warnings: u32,
    pub resume_on_pass: u32,
    pub state: RunnerStateV1,
}

/// The framed output of a passed test: its stdout under the on-success
/// message.
pub open spec fn pass_output_of(t: TestState, stdout: Seq<char>) -> Seq<char> {
    format_output_spec(stdout, "\u{2705} "@ + t.message_on_success@)
}

/// The framed output of a failed test: its stderr under the on-fail
/// message.
pub open spec fn fail_output_of(t: TestState, stderr: Seq<char>) -> Seq<char> {
    format_output_spec(stderr, "\u{274c} "@ + t.message_on_fail@)
}

/// The reason carried when the registry refuses to record an outcome.
pub open spec fn store_failure_reason_of(t: TestState) -> Seq<char> {
    "failed to update test "@ + t.name@
}

/// The reason carried when a non-optional test fails.
pub open spec fn test_failure_reason_of(t: TestState) -> Seq<char> {
    "Test "@ + t.name@ + " failed"@
}

/// The reason carried when the work list is empty.
pub open spec fn no_tests_reason() -> Seq<char> {
    "\u{1f6ab} no tests found"@
}

/// The `log` frame streamed for one test outcome.
pub open spec fn log_event_of(t: TestState, outcome: TestResult) -> Seq<char> {
    if outcome.is_pass() {
        log_frame_of(
            test_result_json_of(t.slug@, pass_output_of(t, outcome.output_view()), true, false),
        )
    } else {
        log_frame_of(
            test_result_json_of(
                t.slug@,
                fail_output_of(t, outcome.output_view()),
                false,
                t.optional,
            ),
        )
    }
}

impl RunnerV1 {
    /// The machine's structural invariant: counters fit, the current
    /// index is in range, and no more tests passed than were visited.
    pub open spec fn wf(self) -> bool {
        &&& self.tests@.len() <= 0xffff_ffff
        &&& self.success <= self.tests@.len()
        &&& match self.state {
            RunnerStateV1::Loaded => self.success == 0,
            RunnerStateV1::NewTest { index_test } => index_test < self.tests@.len()
                && self.success <= index_test,
            RunnerStateV1::Fail { index_test, .. } => if self.tests@.len() == 0 {
                index_test == 0
            } else {
                index_test < self.tests@.len()
            },
            _ => true,
        }
    }

    /// The index of the test the machine stands at, in the states that
    /// have one.
    pub open spec fn cur_index(self) -> int {
        match self.state {
            RunnerStateV1::NewTest { index_test } => index_test as int,
            RunnerStateV1::Fail { index_test, .. } => index_test as int,
            _ => -1,
        }
    }

    /// Whether the machine has finished.
    pub open spec fn is_finished_spec(self) -> bool {
        self.state is Finish
    }

    /// Whether the machine has finished.
    pub fn is_finished(&self) -> (r: bool)
        ensures
            r == self.is_finished_spec(),
    {
        match self.state {
            RunnerStateV1::Finish => true,
            _ => false,
        }
    }

    /// The test that the next outcome belongs to.
    pub fn current_test(&self) -> (r: &TestState)
        requires
            self.wf(),
            self.state matches RunnerStateV1::NewTest { .. },
        ensures
            *r == self.tests@[self.cur_index()].1,
    {
        let i = match &self.state {
            RunnerStateV1::NewTest { index_test } => *index_test,
            _ => 0,
        };
        &self.tests[i].1
    }

    /// The reason the run halted, in the failed state.
    pub fn failure_reason(&self) -> (r: &String)
        requires
            self.state matches RunnerStateV1::Fail { .. },
        ensures
            self.state matches RunnerStateV1::Fail { err, .. } && *r == err,
    {
        match &self.state {
            RunnerStateV1::Fail { err, .. } => err,
            _ => &self.target,
        }
    }

    /// Genesis step: an empty work list fails at once; otherwise the
    /// first test is up.
    pub fn step_loaded(&mut self)
        requires
            old(self).wf(),
            old(self).state is Loaded,
        ensures
            final(self).wf(),
            final(self).target == old(self).target,
            final(self).tests == old(self).tests,
            final(self).success == old(self).success,
            final(self).transport_warnings == old(self).transport_warnings,
            final(self).resume_on_pass == old(self).resume_on_pass,
            old(self).tests@.len() == 0 ==> (final(self).state matches RunnerStateV1::Fail {
                index_test: 0usize,
                err,
            } && err@ == no_tests_reason()),
            old(self).tests@.len() > 0 ==> final(self).state matches RunnerStateV1::NewTest {
                index_test: 0usize,
            },
    {
        if self.tests.len() == 0 {
            self.state = RunnerStateV1::Fail {
                index_test: 0,
                err: String::from_str("\u{1f6ab} no tests found"),
            };
        } else {
            self.state = RunnerStateV1::NewTest { index_test: 0 };
        }
    }

    /// Consumes the outcome of the current test: records it in the
    /// registry and streams nothing itself. On a recorded outcome the
    /// returned `log` frame carries the result; the machine advances on
    /// a pass or an optional failure, reaches `Pass` past the last test,
    /// and halts in `Fail` on the first non-optional failure. A registry
    /// failure halts the run at this test with no frame.
    pub fn step_test(&mut self, tree: &mut sled::Tree, outcome: &TestResult) -> (ev: Option<
        String,
    >)
        requires
            old(self).wf(),
            old(self).state matches RunnerStateV1::NewTest { .. },
        ensures
            final(self).wf(),
            final(self).target == old(self).target,
            final(self).tests == old(self).tests,
            final(self).transport_warnings == old(self).transport_warnings,
            final(self).resume_on_pass == old(self).resume_on_pass,
            ({
                let i = old(self).cur_index();
                let t = old(self).tests@[i].1;
                let key = old(self).tests@[i].0@;
                let n = old(self).tests@.len() as int;
                match ev {
                    None => {
                        &&& final(self).state matches RunnerStateV1::Fail { index_test, err }
                            && index_test as int == i && err@ == store_failure_reason_of(t)
                        &&& final(self).success == old(self).success
                    },
                    Some(frame) => {
                        &&& outcome_recorded(
                            tree_view(*old(tree)),
                            tree_view(*final(tree)),
                            key,
                            outcome.is_pass(),
                        )
                        &&& frame@ == log_event_of(t, *outcome)
                        &&& if outcome.is_pass() {
                            &&& final(self).success == old(self).success + 1
                            &&& (i + 1 < n ==> (final(self).state
                                matches RunnerStateV1::NewTest { index_test } && index_test as int
                                == i + 1))
                            &&& (i + 1 == n ==> final(self).state is Pass)
                        } else if !t.optional {
                            &&& final(self).success == old(self).success
                            &&& final(self).state matches RunnerStateV1::Fail { index_test, err }
                                && index_test as int == i && err@ == test_failure_reason_of(t)
                        } else {
                            &&& final(self).success == old(self).success
                            &&& (i + 1 < n ==> (final(self).state
                                matches RunnerStateV1::NewTest { index_test } && index_test as int
                                == i + 1))
                            &&& (i + 1 == n ==> final(self).state is Pass)
                        }
                    },
                }
            }),
    {
        let i = match &self.state {
            RunnerStateV1::NewTest { index_test } => *index_test,
            _ => 0,
        };
        let passed = outcome.passed();
        match record_outcome(tree, self.tests[i].0.as_str(), passed) {
            Ok(_) => (),
            Err(_) => {
                let mut err = String::from_str("failed to update test ");
                err.append(self.tests[i].1.name.as_str());
                self.state = RunnerStateV1::Fail { index_test: i, err };
                return None;
            },
        }
        let frame = if passed {
            let mut msg = String::from_str("\u{2705} ");
            msg.append(self.tests[i].1.message_on_success.as_str());
            let output = format_output(outcome.output().as_str(), msg.as_str());
            let tr = RedisTestResultV1::pass(self.tests[i].1.slug.as_str(), output.as_str());
            let json = test_result_json(&tr);
            log_frame(json.as_str())
        } else {
            let mut msg = String::from_str("\u{274c} ");
            msg.append(self.tests[i].1.message_on_fail.as_str());
            let output = format_output(outcome.output().as_str(), msg.as_str());
            let tr = RedisTestResultV1::fail(
                self.tests[i].1.slug.as_str(),
                output.as_str(),
                self.tests[i].1.optional,
            );
            let json = test_result_json(&tr);
            log_frame(json.as_str())
        };
        if passed {
            self.success = self.success + 1;
            if i + 1 < self.tests.len() {
                self.state = RunnerStateV1::NewTest { index_test: i + 1 };
            } else {
                self.state = RunnerStateV1::Pass;
            }
        } else if !self.tests[i].1.optional {
            let mut err = String::from_str("Test ");
            err.append(self.tests[i].1.name.as_str());
            err.append(" failed");
            self.state = RunnerStateV1::Fail { index_test: i, err };
        } else {
            if i + 1 < self.tests.len() {
                self.state = RunnerStateV1::NewTest { index_test: i + 1 };
            } else {
                self.state = RunnerStateV1::Pass;
            }
        }
        Some(frame)
    }

    /// Exit step after a halting failure: persists the resume cursor at
    /// the failed index plus one and finishes. Returns the terminal
    /// `status` and `disconnect` frames, and the cursor write's result;
    /// a failed write only means the next staggered run starts earlier.
    pub fn step_fail(&mut self, tree: &mut sled::Tree) -> (r: (String, String, Result<(), DbError>))
        requires
            old(self).wf(),
            old(self).state matches RunnerStateV1::Fail { .. },
        ensures
            final(self).wf(),
            final(self).target == old(self).target,
            final(self).tests == old(self).tests,
            final(self).success == old(self).success,
            final(self).transport_warnings == old(self).transport_warnings,
            final(self).resume_on_pass == old(self).resume_on_pass,
            final(self).state is Finish,
            r.0@ == status_frame_of(false),
            r.1@ == disconnect_frame_of(),
            r.2 is Ok ==> tree_view(*final(tree)) == tree_view(*old(tree)).insert(
                cursor_key(),
                enc_u32((old(self).cur_index() + 1) as u32),
            ),
            r.2 is Err ==> tree_view(*final(tree)) == tree_view(*old(tree)) || tree_view(
                *final(tree),
            ) == tree_view(*old(tree)).insert(
                cursor_key(),
                enc_u32((old(self).cur_index() + 1) as u32),
            ),
    {
        let i = match &self.state {
            RunnerStateV1::Fail { index_test, .. } => *index_test,
            _ => 0,
        };
        let w = write_staggered(tree, (i + 1) as u32);
        self.state = RunnerStateV1::Finish;
        (status_frame(false), disconnect_frame(), w)
    }

    /// Exit step after every test was visited without a halting failure:
    /// persists the resume cursor at the run's configured resume point —
    /// the full test count, or in staggered mode the cursor the window
    /// was built from advanced by one — and finishes. Returns the
    /// terminal `status` and `disconnect` frames, and the cursor write's
    /// result.
    pub fn step_pass(&mut self, tree: &mut sled::Tree) -> (r: (String, String, Result<(), DbError>))
        requires
            old(self).wf(),
            old(self).state is Pass,
        ensures
            final(self).wf(),
            final(self).target == old(self).target,
            final(self).tests == old(self).tests,
            final(self).success == old(self).success,
            final(self).transport_warnings == old(self).transport_warnings,
            final(self).resume_on_pass == old(self).resume_on_pass,
            final(self).state is Finish,
            r.0@ == status_frame_of(true),
            r.1@ == disconnect_frame_of(),
            r.2 is Ok ==> tree_view(*final(tree)) == tree_view(*old(tree)).insert(
                cursor_key(),
                enc_u32(old(self).resume_on_pass),
            ),
            r.2 is Err ==> tree_view(*final(tree)) == tree_view(*old(tree)) || tree_view(
                *final(tree),
            ) == tree_view(*old(tree)).insert(cursor_key(), enc_u32(old(self).resume_on_pass)),
    {
        let n = self.resume_on_pass;
        let w = write_staggered(tree, n);
        self.state = RunnerStateV1::Finish;
        (status_frame(true), disconnect_frame(), w)
    }

    /// The final score in hundredths of a percent: passed tests over all
    /// tests, whether or not the failures were optional.
    pub fn score_hundredths(&self) -> (r: u32)
        requires
            self.wf(),
            self.tests@.len() > 0,
        ensures
            r as int == self.success as int * 10000 / self.tests@.len() as int,
            r <= 10000,
    {
        let n = self.tests.len() as u64;
        let s = self.success as u64;
        proof {
            assert(s as int * 10000 <= n as int * 10000) by (nonlinear_arith)
                requires
                    s <= n,
            ;
            assert(s as int * 10000 / (n as int) <= 10000) by (nonlinear_arith)
                requires
                    n > 0 && s as int * 10000 <= n as int * 10000,
            ;
            assert(n as int * 10000 <= 0xffff_ffffi64 * 10000) by (nonlinear_arith)
                requires
                    n <= 0xffff_ffffu64,
            ;
        }
        ((s * 10000) / n) as u32
    }

    /// Streaming failure isolation: a failed send is only counted. The
    /// machine's state, its success count, its work list and its target
    /// are exactly what they were, so a transport error never changes
    /// what the runner decides or reports locally.
    pub fn note_transport_failure(&mut self)
        requires
            old(self).wf(),
        ensures
            final(self).wf(),
            final(self).state == old(self).state,
            final(self).success == old(self).success,
            final(self).tests == old(self).tests,
            final(self).target == old(self).target,
            final(self).resume_on_pass == old(self).resume_on_pass,
            final(self).transport_warnings == (if old(self).transport_warnings < 0xffff_ffffu32 {
                old(self).transport_warnings + 1
            } else {
                old(self).transport_warnings as int
            }),
    {
        if self.transport_warnings < 0xffff_ffff {
            self.transport_warnings = self.transport_warnings + 1;
        }
    }
}

/// The resume cursor a run built from the given parts will persist on a
/// pass: the cursor the staggered window was built from advanced by one,
/// or the whole work list's length for a run over the full selection.
pub open spec fn resume_point(staggered_from: Option<u32>, tests_len: int) -> int {
    match staggered_from {
        Some(c) => if c < 0xffff_ffffu32 {
            c + 1
        } else {
            c as int
        },
        None => tests_len,
    }
}

/// Builds a runner from its required parts; `build` refuses a missing
/// target or work list, and a work list too long to score.
pub struct RunnerV1Builder {
    pub target: Option<String>,
    pub tests: Option<Vec<(String, TestState)>>,
    pub staggered_from: Option<u32>,
}

impl RunnerV1Builder {
    /// An empty builder.
    pub fn new() -> (r: Self)
        ensures
            r.target is None,
            r.tests is None,
            r.staggered_from is None,
    {
        RunnerV1Builder { target: None, tests: None, staggered_from: None }
    }

    /// Sets the working directory the test commands will run in.
    pub fn target(self, target: String) -> (r: Self)
        ensures
            r.target == Some(target),
            r.tests == self.tests,
            r.staggered_from == self.staggered_from,
    {
        RunnerV1Builder { target: Some(target), tests: self.tests, staggered_from: self.staggered_from }
    }

    /// Sets the ordered work list of identity-keyed test records.
    pub fn tests(self, tests: Vec<(String, TestState)>) -> (r: Self)
        ensures
            r.tests == Some(tests),
            r.target == self.target,
            r.staggered_from == self.staggered_from,
    {
        RunnerV1Builder { target: self.target, tests: Some(tests), staggered_from: self.staggered_from }
    }

    /// Marks the run as staggered: the work list is the resume window
    /// built from the given stored cursor, and a pass advances the
    /// cursor by one instead of storing the window's length.
    pub fn staggered(self, cursor: u32) -> (r: Self)
        ensures
            r.staggered_from == Some(cursor),
            r.target == self.target,
            r.tests == self.tests,
    {
        RunnerV1Builder { target: self.target, tests: self.tests, staggered_from: Some(cursor) }
    }

    /// Builds the runner in its genesis state, where both required parts
    /// were supplied and the work list's length fits the counters. The
    /// resume point a pass will persist is the staggered cursor advanced
    /// by one, or the whole work list's length.
    pub fn build(self) -> (r: Option<RunnerV1>)
        ensures
            match r {
                Some(m) => {
                    &&& self.target matches Some(tg) && m.target == tg
                    &&& self.tests matches Some(ts) && m.tests == ts
                    &&& self.tests matches Some(ts) && m.resume_on_pass as int == resume_point(
                        self.staggered_from,
                        ts@.len() as int,
                    )
                    &&& m.success == 0
                    &&& m.transport_warnings == 0
                    &&& m.state is Loaded
                    &&& m.wf()
                },
                None => self.target is None || self.tests is None || (self.tests matches Some(ts)
                    && ts@.len() > 0xffff_ffff),
            },
    {
        let target = match self.target {
            Some(t) => t,
            None => {
                return None;
            },
        };
        let tests = match self.tests {
            Some(t) => t,
            None => {
                return None;
            },
        };
        if tests.len() > 0xffff_ffff {
            return None;
        }
        let resume_on_pass = match self.staggered_from {
            Some(c) => if c < 0xffff_ffff {
                c + 1
            } else {
                c
            },
            None => tests.len() as u32,
        };
        Some(
            RunnerV1 {
                target,
                tests,
                success: 0,
                transport_warnings: 0,
                resume_on_pass,
                state: RunnerStateV1::Loaded,
            },
        )
    }
}

} // verus!
