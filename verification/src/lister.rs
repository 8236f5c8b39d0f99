//! The lister: a state machine that walks the stored test index and
//! renders one display line per test with its last known outcome.

use vstd::prelude::*;

verus! {

use crate::codec::dec_record_at;
use crate::codec::decode_record;
use crate::codec::view_of;
use crate::ident::lower_of;
use crate::ident::lowercase;
use crate::model::TestState;
use crate::model::ValidationState;
use crate::store::tree_view;
use crate::text::dec_str_of;
use crate::text::usize_to_string;
use vstd::string::StringExecFns;

/// The states of the lister's walk.
#[derive(Debug)]
pub enum ListerStateV1 {
    Loaded,
    List { index_test: usize },
    Error { reason: String },
    Finished,
}

/// The display marker for a test's last known outcome.
pub open spec fn state_marker(st: ValidationState) -> Seq<char> {
    match st {
        ValidationState::Unknown => "[   ..   ] "@,
        ValidationState::Pass => "[ Passed ] "@,
        ValidationState::Fail => "[ Failed ] "@,
    }
}

/// The display line of one stored test: a bullet, the outcome marker, the
/// lowercased path to its suite, and the lowercased test name.
pub open spec fn lister_line_of(t: TestState) -> Seq<char> {
    let path_to = if t.path@.len() == 4 {
        t.path@[0].name_view() + "/"@ + t.path@[1].name_view() + "/"@ + t.path@[2].name_view()
    } else {
        Seq::<char>::empty()
    };
    "\u{2022} "@ + state_marker(t.passed) + lower_of(path_to) + "/"@ + lower_of(t.name@)
}

/// Renders the display line of one stored test.
pub fn render_line(t: &TestState) -> (r: String)
    ensures
        r@ == lister_line_of(*t),
{
    let mut s = String::from_str("\u{2022} ");
    match t.passed {
        ValidationState::Unknown => s.append("[   ..   ] "),
        ValidationState::Pass => s.append("[ Passed ] "),
        ValidationState::Fail => s.append("[ Failed ] "),
    }
    let path_to = t.path_to();
    let lower_path = lowercase(path_to.as_str());
    s.append(lower_path.as_str());
    s.append("/");
    let lower_name = lowercase(t.name.as_str());
    s.append(lower_name.as_str());
    s
}

/// The heading line: how many tests the index holds.
pub open spec fn count_line_of(n: int) -> Seq<char> {
    dec_str_of(n) + " tests available\n "@
}

/// The reason carried when the index is empty.
pub open spec fn no_tests_reason() -> Seq<char> {
    "\u{1f6ab} no tests found"@
}

/// The reason carried when an indexed identity has no record: it names
/// the identity.
pub open spec fn missing_record_reason_of(key: Seq<char>) -> Seq<char> {
    "failed to read test: no data at key "@ + key
}

/// The reason carried when the store refuses a read: it names the
/// identity.
pub open spec fn read_failure_reason_of(key: Seq<char>) -> Seq<char> {
    "failed to read test at key "@ + key
}

/// The reason carried when a stored record does not decode.
pub open spec fn undecodable_record_reason() -> Seq<char> {
    "stored record is not decodable"@
}

/// The reason carried when a stored record has bytes past its end.
pub open spec fn trailing_bytes_reason() -> Seq<char> {
    "stored record has trailing bytes"@
}

/// The lister: the stored index's keys, the registry tree the records are
/// read from, and the walk's state.
pub struct ListerV1 {
    pub tests: Vec<String>,
    pub tree: sled::Tree,
    pub state: ListerStateV1,
}

impl ListerV1 {
    /// The walk's structural invariant.
    pub open spec fn wf(self) -> bool {
        match self.state {
            ListerStateV1::List { index_test } => index_test < self.tests@.len(),
            _ => true,
        }
    }

    /// A fresh lister over the stored index.
    pub fn new(tests: Vec<String>, tree: sled::Tree) -> (r: Self)
        ensures
            r.tests == tests,
            r.state is Loaded,
            r.wf(),
    {
        ListerV1 { tests, tree, state: ListerStateV1::Loaded }
    }

    /// Whether the walk has finished.
    pub fn is_finished(&self) -> (r: bool)
        ensures
            r == (self.state is Finished),
    {
        match self.state {
            ListerStateV1::Finished => true,
            _ => false,
        }
    }

    /// Advances the walk by one step and returns the line to display, if
    /// the step has one: the count heading when loaded, one test line per
    /// index entry, and the error line where a record is missing, cannot
    /// be read, or cannot be decoded. Whenever the walk advances past an
    /// entry, the line shown is exactly that record's rendered line.
    pub fn step(&mut self) -> (r: Option<String>)
        requires
            old(self).wf(),
        ensures
            final(self).wf(),
            final(self).tests == old(self).tests,
            final(self).tree == old(self).tree,
            match old(self).state {
                ListerStateV1::Loaded => {
                    &&& (r matches Some(l) && l@ == count_line_of(old(self).tests@.len() as int))
                    &&& (old(self).tests@.len() == 0 ==> (final(self).state
                        matches ListerStateV1::Error { reason } && reason@ == no_tests_reason()))
                    &&& (old(self).tests@.len() > 0 ==> final(self).state
                        matches ListerStateV1::List { index_test: 0usize })
                },
                ListerStateV1::List { index_test } => {
                    let v = tree_view(old(self).tree);
                    let key = old(self).tests@[index_test as int]@;
                    &&& ((final(self).state matches ListerStateV1::List { .. }
                        || final(self).state is Finished) ==> {
                        &&& v.contains_key(key)
                        &&& (match dec_record_at(v[key], 0) {
                            Some(p) => p.1 == v[key].len() && (r matches Some(l) && exists|
                                t: TestState,
                            |
                                view_of(t) == p.0 && l@ == #[trigger] lister_line_of(t)),
                            None => false,
                        })
                        &&& (index_test + 1 < old(self).tests@.len() ==> (final(self).state
                            matches ListerStateV1::List { index_test: nx } && nx == index_test
                            + 1))
                        &&& (index_test + 1 == old(self).tests@.len()
                            ==> final(self).state is Finished)
                    })
                    &&& (!v.contains_key(key) ==> final(self).state
                        matches ListerStateV1::Error { .. })
                    &&& (final(self).state matches ListerStateV1::Error { reason } ==> {
                        &&& r is None
                        &&& {
                            ||| reason@ == read_failure_reason_of(key)
                            ||| (!v.contains_key(key) && reason@ == missing_record_reason_of(key))
                            ||| (v.contains_key(key) && dec_record_at(v[key], 0) is None
                                && reason@ == undecodable_record_reason())
                            ||| (v.contains_key(key) && (dec_record_at(v[key], 0) matches Some(p)
                                && p.1 != v[key].len()) && reason@ == trailing_bytes_reason())
                        }
                    })
                },
                ListerStateV1::Error { reason } => {
                    &&& (r matches Some(l) && l@ == "\n\u{26a0} Error: "@ + reason@)
                    &&& final(self).state is Finished
                },
                ListerStateV1::Finished => r is None && final(self).state is Finished,
            },
    {
        match &self.state {
            ListerStateV1::Loaded => {
                let count = self.tests.len();
                let mut line = usize_to_string(count);
                line.append(" tests available\n ");
                if count == 0 {
                    self.state = ListerStateV1::Error {
                        reason: String::from_str("\u{1f6ab} no tests found"),
                    };
                } else {
                    self.state = ListerStateV1::List { index_test: 0 };
                }
                Some(line)
            },
            ListerStateV1::List { index_test } => {
                let i = *index_test;
                proof {
                    assert(old(self).state matches ListerStateV1::List { index_test: ii }
                        && ii == i);
                    assert(i < self.tests@.len());
                }
                let bytes = match crate::store::tree_get(&self.tree, self.tests[i].as_str()) {
                    Ok(Some(b)) => b,
                    Ok(None) => {
                        let mut reason = String::from_str("failed to read test: no data at key ");
                        reason.append(self.tests[i].as_str());
                        self.state = ListerStateV1::Error { reason };
                        return None;
                    },
                    Err(_) => {
                        let mut reason = String::from_str("failed to read test at key ");
                        reason.append(self.tests[i].as_str());
                        self.state = ListerStateV1::Error { reason };
                        return None;
                    },
                };
                let (t, end) = match decode_record(&bytes, 0) {
                    Some(p) => p,
                    None => {
                        self.state = ListerStateV1::Error {
                            reason: String::from_str("stored record is not decodable"),
                        };
                        return None;
                    },
                };
                if end != bytes.len() {
                    self.state = ListerStateV1::Error {
                        reason: String::from_str("stored record has trailing bytes"),
                    };
                    return None;
                }
                let line = render_line(&t);
                let n = self.tests.len();
                if i + 1 < n {
                    self.state = ListerStateV1::List { index_test: i + 1 };
                } else {
                    self.state = ListerStateV1::Finished;
                }
                Some(line)
            },
            ListerStateV1::Error { reason } => {
                let mut line = String::from_str("\n\u{26a0} Error: ");
                line.append(reason.as_str());
                self.state = ListerStateV1::Finished;
                Some(line)
            },
            ListerStateV1::Finished => None,
        }
    }
}

} // verus!
