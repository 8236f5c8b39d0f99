use blake2::digest::consts::U2;
use blake2::{Blake2b, Digest};
use dotcodeschool_cli::ident::{hash, slug_for};
use dotcodeschool_cli::text::{format_output, search_key, split_args, usize_to_string};

#[test]
fn hash_matches_reference_digest() {
    let words = ["Rust State Machine", "Balances", "setup"];
    let mut hasher = Blake2b::<U2>::new();
    hasher.update("Rust State MachineBalancessetup".as_bytes());
    let expected = hex::encode(hasher.finalize());
    assert_eq!(hash(&words), expected);
}

#[test]
fn hash_depends_on_content() {
    assert_ne!(hash(&["a"]), hash(&["b"]));
    assert_eq!(hash(&["a", "b"]), hash(&["ab"]));
    assert_eq!(hash(&["ab"]).len(), 4);
}

#[test]
fn slug_has_hex_prefix() {
    let s = slug_for(&["Course", "Stage"]);
    assert_eq!(s.len(), 6);
    assert!(s.starts_with("0x"));
    assert_eq!(&s[2..], hash(&["Course", "Stage"]));
}

#[test]
fn search_key_reverses_path_segments() {
    assert_eq!(search_key("course/section/lesson/test"), "testlessonsectioncourse");
    assert_eq!(search_key("solo"), "solo");
    assert_eq!(search_key(""), "");
    assert_eq!(search_key("a//b"), "ba");
}

#[test]
fn split_args_splits_on_whitespace_runs() {
    assert_eq!(split_args("cargo test  --release"), vec!["cargo", "test", "--release"]);
    assert_eq!(split_args("  lone  "), vec!["lone"]);
    assert_eq!(split_args(""), Vec::<String>::new());
    assert_eq!(split_args(" \t\n "), Vec::<String>::new());
}

#[test]
fn split_args_splits_on_unicode_whitespace() {
    assert_eq!(split_args("a\u{00a0}b"), vec!["a", "b"]);
    assert_eq!(split_args("wide\u{3000}space"), vec!["wide", "space"]);
    assert_eq!(split_args("thin\u{2009}gap\u{2028}line"), vec!["thin", "gap", "line"]);
}

#[test]
fn format_output_frames_and_indents() {
    assert_eq!(
        format_output("", "✅ nice"),
        "    ╭─[ output ]\n    ╰─[ ✅ nice ]"
    );
    assert_eq!(
        format_output("line one\nline two", "❌ no"),
        "    ╭─[ output ]line one\n    │line two\n    ╰─[ ❌ no ]"
    );
}

#[test]
fn decimal_formatting() {
    assert_eq!(usize_to_string(0), "0");
    assert_eq!(usize_to_string(7), "7");
    assert_eq!(usize_to_string(10), "10");
    assert_eq!(usize_to_string(409), "409");
    assert_eq!(usize_to_string(1_000_001), "1000001");
}
