//! The result streaming protocol: JSON text frames sent over a persistent
//! connection. An `init` frame opens the stream, one `log` frame carries
//! each test outcome, a single `status` frame carries the overall result,
//! and a `disconnect` frame closes the stream. Everything here only
//! builds the frames; sending them is the caller's affair, and a send
//! that fails never changes what the runner decides.

use vstd::prelude::*;

verus! {

use crate::model::TestLogEntry;
use crate::model::TestState;
use crate::redis::RedisTestResultV1;
use crate::redis::RedisTestState;
use crate::text::push_char;
use vstd::string::StrSliceExecFns;
use vstd::string::StringExecFns;

/// The lowercase hexadecimal digit of a value below sixteen.
pub open spec fn hex_digit(d: int) -> char {
    if d == 0 {
        '0'
    } else if d == 1 {
        '1'
    } else if d == 2 {
        '2'
    } else if d == 3 {
        '3'
    } else if d == 4 {
        '4'
    } else if d == 5 {
        '5'
    } else if d == 6 {
        '6'
    } else if d == 7 {
        '7'
    } else if d == 8 {
        '8'
    } else if d == 9 {
        '9'
    } else if d == 10 {
        'a'
    } else if d == 11 {
        'b'
    } else if d == 12 {
        'c'
    } else if d == 13 {
        'd'
    } else if d == 14 {
        'e'
    } else {
        'f'
    }
}

/// How one character is escaped inside a JSON string: quote and backslash
/// get a backslash escape, newline, carriage return and tab their short
/// forms, every other control character its `\u00..` form, and everything
/// else stands as itself.
pub open spec fn json_escaped_char(c: char) -> Seq<char> {
    if c == '"' {
        "\\\""@
    } else if c == '\\' {
        "\\\\"@
    } else if c == '\n' {
        "\\n"@
    } else if c == '\r' {
        "\\r"@
    } else if c == '\t' {
        "\\t"@
    } else if (c as u32) < 0x20 {
        "\\u00"@ + seq![hex_digit(c as int / 16), hex_digit(c as int % 16)]
    } else {
        seq![c]
    }
}

/// The lowercase hexadecimal digit of a value below sixteen.
fn hex_digit_char(d: u32) -> (r: char)
    requires
        d < 16,
    ensures
        r == hex_digit(d as int),
{
    if d == 0 {
        '0'
    } else if d == 1 {
        '1'
    } else if d == 2 {
        '2'
    } else if d == 3 {
        '3'
    } else if d == 4 {
        '4'
    } else if d == 5 {
        '5'
    } else if d == 6 {
        '6'
    } else if d == 7 {
        '7'
    } else if d == 8 {
        '8'
    } else if d == 9 {
        '9'
    } else if d == 10 {
        'a'
    } else if d == 11 {
        'b'
    } else if d == 12 {
        'c'
    } else if d == 13 {
        'd'
    } else if d == 14 {
        'e'
    } else {
        'f'
    }
}

/// A string with every character escaped for use inside a JSON string.
pub open spec fn json_escaped(s: Seq<char>) -> Seq<char>
    decreases s.len(),
{
    if s.len() == 0 {
        Seq::empty()
    } else {
        json_escaped(s.drop_last()) + json_escaped_char(s.last())
    }
}

/// Escapes a string for embedding inside a JSON string literal.
pub fn json_escape(s: &str) -> (r: String)
    ensures
        r@ == json_escaped(s@),
{
    let mut out = String::new();
    let n = s.unicode_len();
    let mut i: usize = 0;
    while i < n
        invariant
            0 <= i <= n,
            n == s@.len(),
            out@ == json_escaped(s@.take(i as int)),
        decreases n - i,
    {
        let c = s.get_char(i);
        proof {
            assert(s@.take(i + 1).drop_last() =~= s@.take(i as int));
            assert(s@.take(i + 1).last() == s@[i as int]);
        }
        if c == '"' {
            out.append("\\\"");
        } else if c == '\\' {
            out.append("\\\\");
        } else if c == '\n' {
            out.append("\\n");
        } else if c == '\r' {
            out.append("\\r");
        } else if c == '\t' {
            out.append("\\t");
        } else if (c as u32) < 0x20 {
            let v = c as u32;
            out.append("\\u00");
            push_char(&mut out, hex_digit_char(v / 16));
            push_char(&mut out, hex_digit_char(v % 16));
            proof {
                assert(json_escaped(s@.take(i as int)) + "\\u00"@ + seq![
                    hex_digit(c as int / 16),
                ] + seq![hex_digit(c as int % 16)] =~= json_escaped(s@.take(i as int)) + ("\\u00"@
                    + seq![hex_digit(c as int / 16), hex_digit(c as int % 16)]));
            }
        } else {
            push_char(&mut out, c);
            proof {
                assert(json_escaped(s@.take(i as int)).push(c) =~= json_escaped(
                    s@.take(i as int),
                ) + seq![c]);
            }
        }
        i = i + 1;
    }
    proof {
        assert(s@.take(n as int) =~= s@);
    }
    out
}

/// The JSON encoding of one test outcome: its slug, its formatted output,
/// and its state, externally tagged.
pub open spec fn test_result_json_of(
    slug: Seq<char>,
    output: Seq<char>,
    passed: bool,
    optional: bool,
) -> Seq<char> {
    "{\"slug\":\""@ + json_escaped(slug) + "\",\"output\":\""@ + json_escaped(output)
        + "\",\"state\":"@ + (if passed {
        "\"Passed\""@
    } else {
        "{\"Failed\":{\"optional\":"@ + (if optional {
            "true"@
        } else {
            "false"@
        }) + "}}"@
    }) + "}"@
}

/// Encodes one test outcome as JSON.
pub fn test_result_json(r: &RedisTestResultV1) -> (s: String)
    ensures
        s@ == (match r.state {
            RedisTestState::Passed => test_result_json_of(r.slug@, r.output@, true, false),
            RedisTestState::Failed { optional } => test_result_json_of(
                r.slug@,
                r.output@,
                false,
                optional,
            ),
        }),
{
    let mut s = String::from_str("{\"slug\":\"");
    let esc_slug = json_escape(r.slug.as_str());
    s.append(esc_slug.as_str());
    s.append("\",\"output\":\"");
    let esc_out = json_escape(r.output.as_str());
    s.append(esc_out.as_str());
    s.append("\",\"state\":");
    match &r.state {
        RedisTestState::Passed => {
            s.append("\"Passed\"");
        },
        RedisTestState::Failed { optional } => {
            s.append("{\"Failed\":{\"optional\":");
            if *optional {
                s.append("true");
            } else {
                s.append("false");
            }
            s.append("}}");
        },
    }
    s.append("}");
    s
}

/// The frame that opens a stream: the session identifier under
/// `stream_id`.
pub open spec fn init_frame_of(stream_id: Seq<char>) -> Seq<char> {
    "{\"event_type\":\"init\",\"stream_id\":\""@ + stream_id + "\"}"@
}

/// Builds the frame that opens a stream.
pub fn init_frame(stream_id: &str) -> (r: String)
    ensures
        r@ == init_frame_of(stream_id@),
{
    let mut s = String::from_str("{\"event_type\":\"init\",\"stream_id\":\"");
    s.append(stream_id);
    s.append("\"}");
    s
}

/// The frame that carries one test outcome: the outcome's JSON encoding,
/// escaped into the `bytes` field.
pub open spec fn log_frame_of(payload: Seq<char>) -> Seq<char> {
    "{\"event_type\":\"log\",\"bytes\":\""@ + json_escaped(payload) + "\"}"@
}

/// Builds the frame that carries one test outcome.
pub fn log_frame(payload: &str) -> (r: String)
    ensures
        r@ == log_frame_of(payload@),
{
    let mut s = String::from_str("{\"event_type\":\"log\",\"bytes\":\"");
    let esc = json_escape(payload);
    s.append(esc.as_str());
    s.append("\"}");
    s
}

/// The single terminal frame carrying the overall result.
pub open spec fn status_frame_of(success: bool) -> Seq<char> {
    "{\"event_type\":\"status\",\"success\":"@ + (if success {
        "true"@
    } else {
        "false"@
    }) + "}"@
}

/// Builds the terminal status frame.
pub fn status_frame(success: bool) -> (r: String)
    ensures
        r@ == status_frame_of(success),
{
    let mut s = String::from_str("{\"event_type\":\"status\",\"success\":");
    if success {
        s.append("true");
    } else {
        s.append("false");
    }
    s.append("}");
    s
}

/// The frame that closes a stream.
pub open spec fn disconnect_frame_of() -> Seq<char> {
    "{\"event_type\":\"disconnect\"}"@
}

/// Builds the frame that closes a stream.
pub fn disconnect_frame() -> (r: String)
    ensures
        r@ == disconnect_frame_of(),
{
    String::from_str("{\"event_type\":\"disconnect\"}")
}

/// Builds the log entry reported to the backend for one test run, where
/// the test's path has its four expected segments; nothing otherwise.
/// The timestamp is handed in by the caller as milliseconds since the
/// Unix epoch.
pub fn build_test_log_entry(
    test: &TestState,
    passed: bool,
    timestamp: i64,
    lesson_slug: &str,
    repo_name: &str,
) -> (r: Option<TestLogEntry>)
    ensures
        test.path@.len() == 4 ==> (r matches Some(e) && e.test_slug@ == test.slug@ && e.passed
            == passed && e.timestamp == timestamp && e.section_name@ == test.path@[0].name_view()
            && e.lesson_name@ == test.path@[1].name_view() && e.lesson_slug@ == lesson_slug@
            && e.test_name@ == test.name@ && e.repo_name@ == repo_name@),
        test.path@.len() != 4 ==> r is None,
{
    if test.path.len() != 4 {
        return None;
    }
    Some(
        TestLogEntry {
            test_slug: test.slug.clone(),
            passed,
            timestamp,
            section_name: test.path[0].name().clone(),
            lesson_name: test.path[1].name().clone(),
            lesson_slug: String::from_str(lesson_slug),
            test_name: test.name.clone(),
            repo_name: String::from_str(repo_name),
        },
    )
}

} // verus!
