//! Per-test results in the shape the streaming collector expects: one
//! entry per executed test, and a running course result.

use vstd::prelude::*;

verus! {

use vstd::string::StringExecFns;

/// The reported state of one executed test.
#[derive(Clone, Debug)]
pub enum RedisTestState {
    Passed,
    Failed { optional: bool },
}

/// One test outcome as reported to the collector: the test's slug, its
/// formatted output, and whether it passed.
#[derive(Clone, Debug)]
pub struct RedisTestResultV1 {
    pub slug: String,
    pub output: String,
    pub state: RedisTestState,
}

impl RedisTestResultV1 {
    /// A passing result for the given test slug and formatted output.
    pub fn pass(slug: &str, output: &str) -> (r: Self)
        ensures
            r.slug@ == slug@,
            r.output@ == output@,
            r.state is Passed,
    {
        Self {
            slug: String::from_str(slug),
            output: String::from_str(output),
            state: RedisTestState::Passed,
        }
    }

    /// A failing result for the given test slug and formatted output,
    /// carrying whether the test was optional.
    pub fn fail(slug: &str, output: &str, optional: bool) -> (r: Self)
        ensures
            r.slug@ == slug@,
            r.output@ == output@,
            r.state matches RedisTestState::Failed { optional: o } && o == optional,
    {
        Self {
            slug: String::from_str(slug),
            output: String::from_str(output),
            state: RedisTestState::Failed { optional },
        }
    }
}

/// The running result of a whole course run: every reported test outcome
/// in order, and whether the course passed.
#[derive(Debug)]
pub struct RedisCourseResultV1 {
    pub tests: Vec<RedisTestResultV1>,
    pub passed: bool,
}

impl RedisCourseResultV1 {
    /// An empty course result with room for the expected test count; the
    /// course counts as not passed until `pass` is called.
    pub fn new(test_count: usize) -> (r: RedisCourseResultV1)
        ensures
            r.tests@.len() == 0,
            !r.passed,
    {
        Self { tests: Vec::with_capacity(test_count), passed: false }
    }

    /// Appends one test outcome.
    pub fn log_test(&mut self, test: RedisTestResultV1)
        ensures
            final(self).tests@ == old(self).tests@.push(test),
            final(self).passed == old(self).passed,
    {
        self.tests.push(test);
    }

    /// Marks the course as passed.
    pub fn pass(&mut self)
        ensures
            final(self).tests@ == old(self).tests@,
            final(self).passed,
    {
        self.passed = true;
    }
}

} // verus!
