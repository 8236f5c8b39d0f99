//! The persistent test registry: an embedded key-value tree holding one
//! record per test identity plus reserved entries for the test index, the
//! course metadata, the modification-time watermark and the resume cursor.
//! The tree itself comes from an embedded storage engine; everything the
//! library assumes of it is stated on the small wrappers below.

use vstd::prelude::*;

verus! {

use crate::codec::dec_i64_at;
use crate::codec::dec_metadata_at;
use crate::codec::dec_record_at;
use crate::codec::dec_str_vec_at;
use crate::codec::dec_u32_at;
use crate::codec::decode_i64;
use crate::codec::decode_record;
use crate::codec::decode_str_vec;
use crate::codec::decode_u32;
use crate::codec::enc_i64;
use crate::codec::enc_record;
use crate::codec::enc_record_v;
use crate::codec::enc_str_vec;
use crate::codec::enc_u32;
use crate::codec::encode_i64;
use crate::codec::encode_metadata;
use crate::codec::encode_record;
use crate::codec::encode_str_vec;
use crate::codec::encode_u32;
use crate::codec::enc_metadata;
use crate::codec::metadata_encodable;
use crate::codec::record_encodable;
use crate::codec::str_encodable;
use crate::codec::str_views;
use crate::codec::str_vec_encodable;
use crate::codec::view_of;
use crate::model::CourseMetaData;
use crate::model::DbError;
use crate::model::TestState;
use crate::model::ValidationState;
use vstd::string::StringExecFns;

/// The storage tree of the embedded engine, declared so that verified code
/// can hold and pass one.
#[verifier::external_type_specification]
#[verifier::external_body]
pub struct ExTree(sled::Tree);

/// What a storage tree holds: a map from string keys to byte values.
pub uninterp spec fn tree_view(t: sled::Tree) -> Map<Seq<char>, Seq<u8>>;

/// Relies on `sled::Tree::insert`: sets the value at a key; other keys are
/// untouched. The update is a single atomic page link, so even a failed
/// call has either applied in full or not at all.
#[verifier::external_body]
fn tree_insert(t: &mut sled::Tree, key: &str, value: &[u8]) -> (r: Result<(), String>)
    ensures
        r is Ok ==> tree_view(*final(t)) == tree_view(*old(t)).insert(key@, value@),
        r is Err ==> tree_view(*final(t)) == tree_view(*old(t)) || tree_view(*final(t))
            == tree_view(*old(t)).insert(key@, value@),
{
    match t.insert(key.as_bytes(), value) {
        Ok(_) => Ok(()),
        Err(e) => Err(e.to_string()),
    }
}

/// Relies on `sled::Tree::get`: returns the value stored at a key, if any.
#[verifier::external_body]
pub(crate) fn tree_get(t: &sled::Tree, key: &str) -> (r: Result<Option<Vec<u8>>, String>)
    ensures
        r matches Ok(Some(v)) ==> tree_view(*t).contains_key(key@) && tree_view(*t)[key@] == v@,
        r matches Ok(None) ==> !tree_view(*t).contains_key(key@),
{
    match t.get(key.as_bytes()) {
        Ok(Some(v)) => Ok(Some(v.to_vec())),
        Ok(None) => Ok(None),
        Err(e) => Err(e.to_string()),
    }
}

/// Relies on `sled::Tree::remove`: deletes the value at a key; other keys
/// are untouched. The update is a single atomic page link, so even a
/// failed call has either applied in full or not at all.
#[verifier::external_body]
fn tree_remove(t: &mut sled::Tree, key: &str) -> (r: Result<(), String>)
    ensures
        r is Ok ==> tree_view(*final(t)) == tree_view(*old(t)).remove(key@),
        r is Err ==> tree_view(*final(t)) == tree_view(*old(t)) || tree_view(*final(t))
            == tree_view(*old(t)).remove(key@),
{
    match t.remove(key.as_bytes()) {
        Ok(_) => Ok(()),
        Err(e) => Err(e.to_string()),
    }
}

/// Relies on `sled::Tree::scan_prefix`: yields each stored pair whose key
/// starts with the prefix, every such pair exactly once.
#[verifier::external_body]
fn tree_scan_prefix(t: &sled::Tree, prefix: &str) -> (r: Result<Vec<(String, Vec<u8>)>, String>)
    ensures
        r matches Ok(ps) ==> {
            &&& forall|i: int|
                0 <= i < ps.len() ==> (#[trigger] ps[i]).0@.len() >= prefix@.len() && ps[i].0@
                    .subrange(0, prefix@.len() as int) == prefix@ && tree_view(*t).contains_key(
                    ps[i].0@,
                ) && tree_view(*t)[ps[i].0@] == ps[i].1@
            &&& forall|k: Seq<char>|
                tree_view(*t).contains_key(k) && k.len() >= prefix@.len() && k.subrange(
                    0,
                    prefix@.len() as int,
                ) == prefix@ ==> exists|i: int| 0 <= i < ps.len() && (#[trigger] ps[i]).0@ == k
            &&& forall|i: int, j: int|
                0 <= i < ps.len() && 0 <= j < ps.len() && i != j ==> (#[trigger] ps[i]).0@ != (
                #[trigger] ps[j]).0@
        },
{
    let mut out: Vec<(String, Vec<u8>)> = Vec::new();
    for item in t.scan_prefix(prefix.as_bytes()) {
        match item {
            Ok((k, v)) => match String::from_utf8(k.to_vec()) {
                Ok(ks) => out.push((ks, v.to_vec())),
                Err(e) => {
                    return Err(e.to_string());
                },
            },
            Err(e) => {
                return Err(e.to_string());
            },
        }
    }
    Ok(out)
}

/// The reserved key under which the test index is stored.
pub open spec fn index_key() -> Seq<char> {
    "tests"@
}

/// The reserved key under which the modification-time watermark is stored.
pub open spec fn time_key() -> Seq<char> {
    "time_last_modified"@
}

/// The reserved key under which the resume cursor is stored.
pub open spec fn cursor_key() -> Seq<char> {
    "staggered"@
}

/// The reserved key under which the course metadata is stored.
pub open spec fn metadata_key() -> Seq<char> {
    "metadata"@
}

/// Whether a key is one of the four reserved entries.
pub open spec fn reserved(k: Seq<char>) -> bool {
    k == index_key() || k == time_key() || k == cursor_key() || k == metadata_key()
}

/// The four reserved keys are pairwise distinct.
proof fn lemma_reserved_distinct()
    ensures
        index_key() != time_key(),
        index_key() != cursor_key(),
        index_key() != metadata_key(),
        time_key() != cursor_key(),
        time_key() != metadata_key(),
        cursor_key() != metadata_key(),
{
    reveal_strlit("tests");
    reveal_strlit("time_last_modified");
    reveal_strlit("staggered");
    reveal_strlit("metadata");
    assert(index_key().len() == 5);
    assert(time_key().len() == 18);
    assert(cursor_key().len() == 9);
    assert(metadata_key().len() == 8);
}

/// Tests whether a key is one of the four reserved entries.
pub fn is_reserved_key(s: &str) -> (b: bool)
    ensures
        b == reserved(s@),
{
    let tests = String::from_str("tests");
    let time = String::from_str("time_last_modified");
    let staggered = String::from_str("staggered");
    let metadata = String::from_str("metadata");
    let own = String::from_str(s);
    own == tests || own == time || own == staggered || own == metadata
}

/// Compares the course file's modification time against the stored
/// watermark and always refreshes the watermark; reports whether the
/// course definition is newer than what the store has seen. Fails where
/// the stored watermark cannot be decoded or the store refuses an access.
pub fn db_should_update(tree: &mut sled::Tree, time_last_modified: i64) -> (r: Result<
    bool,
    DbError,
>)
    ensures
        r matches Ok(b) ==> {
            let pre = tree_view(*old(tree));
            let post = tree_view(*final(tree));
            &&& post == pre.insert(time_key(), enc_i64(time_last_modified))
            &&& if pre.contains_key(time_key()) {
                match dec_i64_at(pre[time_key()], 0) {
                    Some(p) => b == (time_last_modified > p.0),
                    None => false,
                }
            } else {
                b == true
            }
        },
        tree_view(*old(tree)).contains_key(time_key()) && dec_i64_at(
            tree_view(*old(tree))[time_key()],
            0,
        ) is None ==> r is Err,
        r is Err ==> tree_view(*final(tree)) == tree_view(*old(tree)) || tree_view(*final(tree))
            == tree_view(*old(tree)).insert(time_key(), enc_i64(time_last_modified)),
{
    let key = "time_last_modified";
    let stored = match tree_get(tree, key) {
        Ok(v) => v,
        Err(e) => {
            return Err(DbError::DbGet(String::from_str(key), e));
        },
    };
    let newer = match stored {
        Some(bytes) => {
            match decode_i64(&bytes, 0) {
                Some((t0, _)) => time_last_modified > t0,
                None => {
                    return Err(
                        DbError::DecodeError(
                            String::from_str(key),
                            String::from_str("stored watermark is not a valid timestamp"),
                        ),
                    );
                },
            }
        },
        None => true,
    };
    let mut enc: Vec<u8> = Vec::new();
    encode_i64(&mut enc, time_last_modified);
    match tree_insert(tree, key, enc.as_slice()) {
        Ok(_) => Ok(newer),
        Err(e) => Err(DbError::DbInsert(String::from_str(key), e)),
    }
}

/// Reads the resume cursor: the number of tests to run in staggered mode.
/// A store without a cursor yet reads as 1.
pub fn read_staggered(tree: &sled::Tree) -> (r: Result<u32, DbError>)
    ensures
        r matches Ok(n) ==> {
            let v = tree_view(*tree);
            if v.contains_key(cursor_key()) {
                match dec_u32_at(v[cursor_key()], 0) {
                    Some(p) => n == p.0,
                    None => false,
                }
            } else {
                n == 1
            }
        },
        tree_view(*tree).contains_key(cursor_key()) && dec_u32_at(
            tree_view(*tree)[cursor_key()],
            0,
        ) is None ==> r is Err,
{
    let key = "staggered";
    match tree_get(tree, key) {
        Ok(Some(bytes)) => match decode_u32(&bytes, 0) {
            Some((n, _)) => Ok(n),
            None => Err(
                DbError::DecodeError(
                    String::from_str(key),
                    String::from_str("stored cursor is not a valid count"),
                ),
            ),
        },
        Ok(None) => Ok(1),
        Err(e) => Err(DbError::DbGet(String::from_str(key), e)),
    }
}

/// Writes the resume cursor.
pub fn write_staggered(tree: &mut sled::Tree, n: u32) -> (r: Result<(), DbError>)
    ensures
        r is Ok ==> tree_view(*final(tree)) == tree_view(*old(tree)).insert(
            cursor_key(),
            enc_u32(n),
        ),
        r is Err ==> tree_view(*final(tree)) == tree_view(*old(tree)) || tree_view(*final(tree))
            == tree_view(*old(tree)).insert(cursor_key(), enc_u32(n)),
{
    let mut enc: Vec<u8> = Vec::new();
    encode_u32(&mut enc, n);
    match tree_insert(tree, "staggered", enc.as_slice()) {
        Ok(_) => Ok(()),
        Err(e) => Err(DbError::DbInsert(String::from_str("staggered"), e)),
    }
}

/// The bytes of a record whose validation state was set to `Pass`, where
/// the given bytes decode to a record; nothing otherwise.
pub fn test_pass(old_bytes: Option<&Vec<u8>>) -> (r: Option<Vec<u8>>)
    ensures
        match old_bytes {
            Some(bytes) => match dec_record_at(bytes@, 0) {
                Some(p) => r matches Some(out) && out@ == enc_record_v(
                    p.0.with_state(ValidationState::Pass),
                ),
                None => r is None,
            },
            None => r is None,
        },
{
    set_record_state(old_bytes, ValidationState::Pass)
}

/// The bytes of a record whose validation state was set to `Fail`, where
/// the given bytes decode to a record; nothing otherwise.
pub fn test_fail(old_bytes: Option<&Vec<u8>>) -> (r: Option<Vec<u8>>)
    ensures
        match old_bytes {
            Some(bytes) => match dec_record_at(bytes@, 0) {
                Some(p) => r matches Some(out) && out@ == enc_record_v(
                    p.0.with_state(ValidationState::Fail),
                ),
                None => r is None,
            },
            None => r is None,
        },
{
    set_record_state(old_bytes, ValidationState::Fail)
}

fn set_record_state(old_bytes: Option<&Vec<u8>>, st: ValidationState) -> (r: Option<Vec<u8>>)
    ensures
        match old_bytes {
            Some(bytes) => match dec_record_at(bytes@, 0) {
                Some(p) => r matches Some(out) && out@ == enc_record_v(p.0.with_state(st)),
                None => r is None,
            },
            None => r is None,
        },
{
    let bytes = match old_bytes {
        Some(b) => b,
        None => {
            return None;
        },
    };
    let (t, _) = match decode_record(bytes, 0) {
        Some(p) => p,
        None => {
            return None;
        },
    };
    let updated = TestState { passed: st, ..t };
    proof {
        lemma_record_encodable_of_decoded(bytes@, t);
        assert(view_of(updated) =~= view_of(t).with_state(st));
    }
    let mut out: Vec<u8> = Vec::new();
    encode_record(&mut out, &updated);
    Some(out)
}

/// A record that was decoded from bytes fits the encoding's length fields.
proof fn lemma_record_encodable_of_decoded(s: Seq<u8>, t: TestState)
    requires
        dec_record_at(s, 0) matches Some(p) && p.0 == view_of(t),
    ensures
        record_encodable(t),
{
    lemma_dec_record_encodable(s, 0);
}

/// Whatever a record decoding returns fits the encoding's length fields.
proof fn lemma_dec_record_encodable(s: Seq<u8>, i: int)
    requires
        dec_record_at(s, i) is Some,
    ensures
        crate::codec::record_encodable_v(dec_record_at(s, i).unwrap().0),
{
    let name = crate::codec::dec_str_at(s, i).unwrap();
    lemma_dec_str_fits(s, i);
    lemma_dec_str_fits(s, name.1);
    let slug = crate::codec::dec_str_at(s, name.1).unwrap();
    lemma_dec_str_fits(s, slug.1);
    let msg_ok = crate::codec::dec_str_at(s, slug.1).unwrap();
    lemma_dec_str_fits(s, msg_ok.1);
    let msg_fail = crate::codec::dec_str_at(s, msg_ok.1).unwrap();
    lemma_dec_str_vec_fits(s, msg_fail.1);
    let cmd = dec_str_vec_at(s, msg_fail.1).unwrap();
    lemma_dec_links_fits(s, cmd.1);
}

/// A decoded string fits the 32-bit length field.
proof fn lemma_dec_str_fits(s: Seq<u8>, i: int)
    requires
        crate::codec::dec_str_at(s, i) is Some,
    ensures
        str_encodable(crate::codec::dec_str_at(s, i).unwrap().0),
{
    let n = dec_u32_at(s, i).unwrap().0;
    lemma_dec_chars_len(s, i + 4, n as nat);
}

/// Decoding n characters yields exactly n characters.
proof fn lemma_dec_chars_len(s: Seq<u8>, i: int, n: nat)
    requires
        crate::codec::dec_chars_at(s, i, n) is Some,
    ensures
        crate::codec::dec_chars_at(s, i, n).unwrap().0.len() == n,
    decreases n,
{
    if n > 0 {
        let p = crate::codec::dec_char_at(s, i).unwrap();
        lemma_dec_chars_len(s, p.1, (n - 1) as nat);
    }
}

/// A decoded string list fits the 32-bit count and length fields.
proof fn lemma_dec_str_vec_fits(s: Seq<u8>, i: int)
    requires
        dec_str_vec_at(s, i) is Some,
    ensures
        str_vec_encodable(dec_str_vec_at(s, i).unwrap().0),
{
    let n = dec_u32_at(s, i).unwrap().0;
    lemma_dec_str_items_fits(s, i + 4, n as nat);
}

/// Decoded string items: exactly n of them, each fitting its length field.
proof fn lemma_dec_str_items_fits(s: Seq<u8>, i: int, n: nat)
    requires
        crate::codec::dec_str_items(s, i, n) is Some,
    ensures
        crate::codec::dec_str_items(s, i, n).unwrap().0.len() == n,
        forall|j: int|
            0 <= j < n ==> str_encodable(
                #[trigger] crate::codec::dec_str_items(s, i, n).unwrap().0[j],
            ),
    decreases n,
{
    if n > 0 {
        let p = crate::codec::dec_str_at(s, i).unwrap();
        lemma_dec_str_fits(s, i);
        lemma_dec_str_items_fits(s, p.1, (n - 1) as nat);
    }
}

/// A decoded path fits the 32-bit count and length fields.
proof fn lemma_dec_links_fits(s: Seq<u8>, i: int)
    requires
        crate::codec::dec_links_at(s, i) is Some,
    ensures
        crate::codec::links_encodable(crate::codec::dec_links_at(s, i).unwrap().0),
{
    let n = dec_u32_at(s, i).unwrap().0;
    lemma_dec_link_items_fits(s, i + 4, n as nat);
}

/// Decoded path items: exactly n of them, each name fitting its length
/// field.
proof fn lemma_dec_link_items_fits(s: Seq<u8>, i: int, n: nat)
    requires
        crate::codec::dec_link_items(s, i, n) is Some,
    ensures
        crate::codec::dec_link_items(s, i, n).unwrap().0.len() == n,
        forall|j: int|
            0 <= j < n ==> str_encodable(
                (#[trigger] crate::codec::dec_link_items(s, i, n).unwrap().0[j]).1,
            ),
    decreases n,
{
    if n > 0 {
        let p = crate::codec::dec_bool_at(s, i).unwrap();
        let q = crate::codec::dec_str_at(s, p.1).unwrap();
        lemma_dec_str_fits(s, p.1);
        lemma_dec_link_items_fits(s, q.1, (n - 1) as nat);
    }
}

/// How recording one outcome relates the store's contents before and
/// after: the record at the key had decoded, and it now holds the same
/// record with its validation state set to the outcome; nothing else
/// moved.
pub open spec fn outcome_recorded(
    pre: Map<Seq<char>, Seq<u8>>,
    post: Map<Seq<char>, Seq<u8>>,
    key: Seq<char>,
    passed: bool,
) -> bool {
    &&& pre.contains_key(key)
    &&& match dec_record_at(pre[key], 0) {
        Some(p) => post == pre.insert(
            key,
            enc_record_v(
                p.0.with_state(
                    if passed {
                        ValidationState::Pass
                    } else {
                        ValidationState::Fail
                    },
                ),
            ),
        ),
        None => false,
    }
}

/// Records the outcome of one test run: an atomic read-modify-write of the
/// record's validation state. Fails hard where the record disappeared or
/// cannot be decoded, since that signals concurrent external mutation or
/// corruption.
pub fn record_outcome(tree: &mut sled::Tree, key: &str, passed: bool) -> (r: Result<(), DbError>)
    ensures
        r is Ok ==> outcome_recorded(
            tree_view(*old(tree)),
            tree_view(*final(tree)),
            key@,
            passed,
        ),
        !tree_view(*old(tree)).contains_key(key@) ==> r is Err,
        r is Err ==> tree_view(*final(tree)) == tree_view(*old(tree)) || outcome_recorded(
            tree_view(*old(tree)),
            tree_view(*final(tree)),
            key@,
            passed,
        ),
{
    let bytes = match tree_get(tree, key) {
        Ok(Some(b)) => b,
        Ok(None) => {
            return Err(
                DbError::DbGet(String::from_str(key), String::from_str("no record at key")),
            );
        },
        Err(e) => {
            return Err(DbError::DbGet(String::from_str(key), e));
        },
    };
    let updated = if passed {
        test_pass(Some(&bytes))
    } else {
        test_fail(Some(&bytes))
    };
    let out = match updated {
        Some(out) => out,
        None => {
            return Err(
                DbError::DecodeError(
                    String::from_str(key),
                    String::from_str("stored record is not decodable"),
                ),
            );
        },
    };
    match tree_insert(tree, key, out.as_slice()) {
        Ok(_) => Ok(()),
        Err(e) => Err(DbError::DbInsert(String::from_str(key), e)),
    }
}

/// The identity keys of a test list, in order.
pub open spec fn keys_of(tests: Seq<(String, TestState)>) -> Seq<Seq<char>> {
    tests.map_values(|p: (String, TestState)| p.0@)
}

/// Whether some test in the list has the given identity key.
fn tests_contain_key(tests: &Vec<(String, TestState)>, k: &String) -> (b: bool)
    ensures
        b == keys_of(tests@).contains(k@),
{
    let ghost ks = keys_of(tests@);
    let mut i: usize = 0;
    while i < tests.len()
        invariant
            0 <= i <= tests@.len(),
            ks == keys_of(tests@),
            forall|j: int| 0 <= j < i ==> #[trigger] ks[j] != k@,
        decreases tests@.len() - i,
    {
        proof {
            assert(ks[i as int] == tests@[i as int].0@);
        }
        if tests[i].0 == *k {
            return true;
        }
        i = i + 1;
    }
    proof {
        assert(forall|j: int| 0 <= j < ks.len() ==> #[trigger] ks[j] != k@);
    }
    false
}

/// Whether a string list holds the given string.
fn vec_contains_string(v: &Vec<String>, k: &String) -> (b: bool)
    ensures
        b == str_views(v@).contains(k@),
{
    let ghost ks = str_views(v@);
    let mut i: usize = 0;
    while i < v.len()
        invariant
            0 <= i <= v@.len(),
            ks == str_views(v@),
            forall|j: int| 0 <= j < i ==> #[trigger] ks[j] != k@,
        decreases v@.len() - i,
    {
        proof {
            assert(ks[i as int] == v@[i as int]@);
        }
        if v[i] == *k {
            return true;
        }
        i = i + 1;
    }
    proof {
        assert(forall|j: int| 0 <= j < ks.len() ==> #[trigger] ks[j] != k@);
    }
    false
}

/// How one reconciliation relates the store's contents before (`pre`) and
/// after (`post`): the index, metadata and cursor entries are rewritten;
/// a test present in both the old index and the new list keeps its stored
/// record untouched; a test only in the new list is stored fresh; an old
/// index entry absent from the new list is removed; every other key, the
/// watermark included, is untouched.
pub open spec fn reconciled(
    pre: Map<Seq<char>, Seq<u8>>,
    post: Map<Seq<char>, Seq<u8>>,
    had_index: bool,
    old_index: Seq<Seq<char>>,
    tests: Seq<(String, TestState)>,
    metadata: CourseMetaData,
) -> bool {
    let ks = keys_of(tests);
    &&& post.contains_key(index_key()) && post[index_key()] == enc_str_vec(ks)
    &&& post.contains_key(metadata_key()) && post[metadata_key()] == enc_metadata(metadata)
    &&& post.contains_key(cursor_key()) && post[cursor_key()] == enc_u32(1)
    &&& post.contains_key(time_key()) == pre.contains_key(time_key())
    &&& pre.contains_key(time_key()) ==> post[time_key()] == pre[time_key()]
    &&& forall|i: int|
        0 <= i < tests.len() ==> {
            let k = (#[trigger] tests[i]).0@;
            if had_index && old_index.contains(k) {
                &&& post.contains_key(k) == pre.contains_key(k)
                &&& (pre.contains_key(k) ==> post[k] == pre[k])
            } else {
                &&& post.contains_key(k)
                &&& post[k] == enc_record(tests[i].1)
            }
        }
    &&& forall|k: Seq<char>|
        had_index && old_index.contains(k) && !ks.contains(k) && !reserved(k)
            ==> !(#[trigger] post.contains_key(k))
    &&& forall|k: Seq<char>|
        !reserved(k) && !ks.contains(k) && !(had_index && old_index.contains(k)) ==> {
            &&& #[trigger] post.contains_key(k) == pre.contains_key(k)
            &&& (pre.contains_key(k) ==> post[k] == pre[k])
        }
}

/// One key's state after a reconciliation attempt that may have failed
/// part-way: the key holds either its old value or its reconciled one —
/// a record of the new list, the rewritten index, metadata or reset
/// cursor — or, for an old-index entry, no value at all. Whatever the
/// failure, no key is ever corrupted.
pub open spec fn key_old_or_new(
    pre: Map<Seq<char>, Seq<u8>>,
    post: Map<Seq<char>, Seq<u8>>,
    had_index: bool,
    old_index: Seq<Seq<char>>,
    tests: Seq<(String, TestState)>,
    metadata: CourseMetaData,
    k: Seq<char>,
) -> bool {
    ||| (post.contains_key(k) == pre.contains_key(k) && (pre.contains_key(k) ==> post[k]
        == pre[k]))
    ||| (post.contains_key(k) && (exists|i: int|
        0 <= i < tests.len() && (#[trigger] tests[i]).0@ == k && post[k] == enc_record(
            tests[i].1,
        )))
    ||| (k == index_key() && post.contains_key(k) && post[k] == enc_str_vec(keys_of(tests)))
    ||| (k == metadata_key() && post.contains_key(k) && post[k] == enc_metadata(metadata))
    ||| (k == cursor_key() && post.contains_key(k) && post[k] == enc_u32(1))
    ||| (had_index && old_index.contains(k) && !post.contains_key(k))
}

/// Extending a per-key frame by one reserved write keeps it: the written
/// key moves to its reconciled value and every other key is untouched.
proof fn lemma_frame_insert_reserved(
    pre: Map<Seq<char>, Seq<u8>>,
    a: Map<Seq<char>, Seq<u8>>,
    b: Map<Seq<char>, Seq<u8>>,
    had_index: bool,
    old_index: Seq<Seq<char>>,
    tests: Seq<(String, TestState)>,
    metadata: CourseMetaData,
    rk: Seq<char>,
    rv: Seq<u8>,
)
    requires
        forall|k: Seq<char>| #[trigger] key_old_or_new(pre, a, had_index, old_index, tests, metadata, k),
        b == a || b == a.insert(rk, rv),
        (rk == index_key() && rv == enc_str_vec(keys_of(tests))) || (rk == metadata_key() && rv
            == enc_metadata(metadata)) || (rk == cursor_key() && rv == enc_u32(1)),
    ensures
        forall|k: Seq<char>| #[trigger] key_old_or_new(pre, b, had_index, old_index, tests, metadata, k),
{
    assert forall|k: Seq<char>| #[trigger] key_old_or_new(
        pre,
        b,
        had_index,
        old_index,
        tests,
        metadata,
        k,
    ) by {
        assert(key_old_or_new(pre, a, had_index, old_index, tests, metadata, k));
        if b != a && k == rk {
            assert(b.contains_key(k) && b[k] == rv);
        }
    }
}

/// Composing the removal phase's frame with a prefix of the insert
/// phase's gives the per-key old-or-new frame: stale entries are gone,
/// the first `m` fresh records are stored, everything else is untouched.
proof fn lemma_frame_after_updates(
    pre: Map<Seq<char>, Seq<u8>>,
    v1: Map<Seq<char>, Seq<u8>>,
    v2: Map<Seq<char>, Seq<u8>>,
    had_index: bool,
    old_index: Seq<Seq<char>>,
    tests: Seq<(String, TestState)>,
    metadata: CourseMetaData,
    m: int,
)
    requires
        0 <= m <= tests.len(),
        forall|k: Seq<char>|
            !(had_index && old_index.contains(k) && !keys_of(tests).contains(k) && !reserved(k))
                ==> #[trigger] v1.contains_key(k) == pre.contains_key(k),
        forall|k: Seq<char>|
            !(had_index && old_index.contains(k) && !keys_of(tests).contains(k) && !reserved(k))
                && pre.contains_key(k) ==> #[trigger] v1[k] == pre[k],
        forall|k: Seq<char>|
            had_index && old_index.contains(k) && !keys_of(tests).contains(k) && !reserved(k)
                ==> !(#[trigger] v1.contains_key(k)),
        forall|j: int|
            0 <= j < m && !(had_index && old_index.contains(#[trigger] keys_of(tests)[j]))
                ==> v2.contains_key(keys_of(tests)[j]) && v2[keys_of(tests)[j]] == enc_record(
                tests[j].1,
            ),
        forall|k: Seq<char>|
            !(exists|j: int|
                0 <= j < m && #[trigger] keys_of(tests)[j] == k && !(had_index
                    && old_index.contains(k))) ==> #[trigger] v2.contains_key(k)
                == v1.contains_key(k),
        forall|k: Seq<char>|
            !(exists|j: int|
                0 <= j < m && #[trigger] keys_of(tests)[j] == k && !(had_index
                    && old_index.contains(k))) && v1.contains_key(k) ==> #[trigger] v2[k] == v1[k],
    ensures
        forall|k: Seq<char>| #[trigger] key_old_or_new(
            pre,
            v2,
            had_index,
            old_index,
            tests,
            metadata,
            k,
        ),
{
    let ks = keys_of(tests);
    assert forall|k: Seq<char>| #[trigger] key_old_or_new(
        pre,
        v2,
        had_index,
        old_index,
        tests,
        metadata,
        k,
    ) by {
        if exists|j: int|
            0 <= j < m && #[trigger] ks[j] == k && !(had_index && old_index.contains(k)) {
            let j = choose|j: int|
                0 <= j < m && #[trigger] ks[j] == k && !(had_index && old_index.contains(k));
            assert(v2.contains_key(ks[j]) && v2[ks[j]] == enc_record(tests[j].1));
            assert(ks[j] == tests[j].0@);
        } else if had_index && old_index.contains(k) && !ks.contains(k) && !reserved(k) {
            assert(!v1.contains_key(k));
            assert(!(exists|j: int|
                0 <= j < m && #[trigger] ks[j] == k && !(had_index && old_index.contains(k))));
            assert(v2.contains_key(k) == v1.contains_key(k));
        } else {
            assert(!(exists|j: int|
                0 <= j < m && #[trigger] ks[j] == k && !(had_index && old_index.contains(k))));
            assert(v1.contains_key(k) == pre.contains_key(k));
            assert(pre.contains_key(k) ==> v1[k] =~= pre[k]);
            assert(v2.contains_key(k) == v1.contains_key(k));
            assert(v1.contains_key(k) ==> v2[k] =~= v1[k]);
        }
    }
}

/// Reconciliation preserves history: a test present in both the old index
/// and the new list keeps its stored record, and in particular its
/// validation state, byte for byte, wherever it moved in the index.
pub proof fn lemma_reconcile_preserves_history(
    pre: Map<Seq<char>, Seq<u8>>,
    post: Map<Seq<char>, Seq<u8>>,
    old_index: Seq<Seq<char>>,
    tests: Seq<(String, TestState)>,
    metadata: CourseMetaData,
    i: int,
)
    requires
        reconciled(pre, post, true, old_index, tests, metadata),
        0 <= i < tests.len(),
        old_index.contains(tests[i].0@),
        pre.contains_key(tests[i].0@),
    ensures
        post.contains_key(tests[i].0@),
        post[tests[i].0@] == pre[tests[i].0@],
{
}

/// Reconciliation removes stale entries: an identity in the old index but
/// absent from the new list is unreadable afterwards.
pub proof fn lemma_reconcile_removes_stale(
    pre: Map<Seq<char>, Seq<u8>>,
    post: Map<Seq<char>, Seq<u8>>,
    old_index: Seq<Seq<char>>,
    tests: Seq<(String, TestState)>,
    metadata: CourseMetaData,
    k: Seq<char>,
)
    requires
        reconciled(pre, post, true, old_index, tests, metadata),
        old_index.contains(k),
        !keys_of(tests).contains(k),
        !reserved(k),
    ensures
        !post.contains_key(k),
{
}

/// Writes the course metadata, removes the records of identities that left
/// the course definition, stores the records of identities new to it,
/// leaves the record of every identity present in both untouched, rewrites
/// the test index to exactly the new list in its order, and resets the
/// resume cursor. Fails where a stored index cannot be decoded or the
/// store refuses an access; a failure part-way leaves the store between
/// the two states.
#[verifier::rlimit(80)]
pub fn db_update(
    tree: &mut sled::Tree,
    tests: &Vec<(String, TestState)>,
    metadata: &CourseMetaData,
) -> (r: Result<(), DbError>)
    requires
        metadata_encodable(*metadata),
        tests@.len() <= 0xffff_ffff,
        forall|i: int| 0 <= i < tests@.len() ==> !reserved((#[trigger] tests@[i]).0@),
        forall|i: int| 0 <= i < tests@.len() ==> str_encodable((#[trigger] tests@[i]).0@),
        forall|i: int| 0 <= i < tests@.len() ==> record_encodable((#[trigger] tests@[i]).1),
        forall|i: int, j: int|
            0 <= i < j < tests@.len() ==> (#[trigger] tests@[i]).0@ != (#[trigger] tests@[j]).0@,
    ensures
        r is Ok ==> {
            let pre = tree_view(*old(tree));
            let post = tree_view(*final(tree));
            if pre.contains_key(index_key()) {
                match dec_str_vec_at(pre[index_key()], 0) {
                    Some(p) => reconciled(pre, post, true, p.0, tests@, *metadata),
                    None => false,
                }
            } else {
                reconciled(pre, post, false, Seq::empty(), tests@, *metadata)
            }
        },
        tree_view(*old(tree)).contains_key(index_key()) && dec_str_vec_at(
            tree_view(*old(tree))[index_key()],
            0,
        ) is None ==> r is Err,
        r matches Err(e) ==> {
            let pre = tree_view(*old(tree));
            match e {
                DbError::DbGet(k, _) => k@ == index_key(),
                DbError::DecodeError(k, _) => k@ == index_key() && pre.contains_key(index_key())
                    && dec_str_vec_at(pre[index_key()], 0) is None,
                DbError::DbRemove(k, _) => pre.contains_key(index_key()) && (match dec_str_vec_at(
                    pre[index_key()],
                    0,
                ) {
                    Some(p) => p.0.contains(k@),
                    None => false,
                }) && !keys_of(tests@).contains(k@) && !reserved(k@),
                DbError::DbInsert(k, _) => keys_of(tests@).contains(k@) || k@ == index_key()
                    || k@ == metadata_key() || k@ == cursor_key(),
                _ => false,
            }
        },
        r is Err ==> {
            let pre = tree_view(*old(tree));
            let post = tree_view(*final(tree));
            if pre.contains_key(index_key()) {
                match dec_str_vec_at(pre[index_key()], 0) {
                    Some(p) => forall|k: Seq<char>| #[trigger] key_old_or_new(
                        pre,
                        post,
                        true,
                        p.0,
                        tests@,
                        *metadata,
                        k,
                    ),
                    None => post == pre,
                }
            } else {
                forall|k: Seq<char>| #[trigger] key_old_or_new(
                    pre,
                    post,
                    false,
                    Seq::empty(),
                    tests@,
                    *metadata,
                    k,
                )
            }
        },
{
    let ghost pre = tree_view(*tree);
    let ghost ks = keys_of(tests@);
    proof {
        lemma_reserved_distinct();
        assert(forall|i: int| 0 <= i < tests@.len() ==> #[trigger] ks[i] == tests@[i].0@);
    }
    // Read the stored index, if any.
    let old_bytes = match tree_get(tree, "tests") {
        Ok(v) => v,
        Err(e) => {
            return Err(DbError::DbGet(String::from_str("tests"), e));
        },
    };
    let old_index_opt: Option<Vec<String>> = match old_bytes {
        Some(bytes) => match decode_str_vec(&bytes, 0) {
            Some((v, _)) => Some(v),
            None => {
                return Err(
                    DbError::DecodeError(
                        String::from_str("tests"),
                        String::from_str("stored test index is not decodable"),
                    ),
                );
            },
        },
        None => None,
    };
    let ghost had: bool = old_index_opt is Some;
    let ghost oi: Seq<Seq<char>> = if had {
        str_views(old_index_opt.unwrap()@)
    } else {
        Seq::empty()
    };
    // Remove the records of identities that left the course definition.
    if let Some(old_index) = &old_index_opt {
        let mut x: usize = 0;
        while x < old_index.len()
            invariant
                0 <= x <= old_index@.len(),
                oi == str_views(old_index@),
                ks == keys_of(tests@),
                pre == tree_view(*old(tree)),
                pre.contains_key(index_key()),
                dec_str_vec_at(pre[index_key()], 0) matches Some(p) && p.0 == oi,
                forall|y: int|
                    0 <= y < x && !ks.contains(#[trigger] oi[y]) && !reserved(oi[y])
                        ==> !tree_view(*tree).contains_key(oi[y]),
                forall|k: Seq<char>|
                    !(exists|y: int|
                        0 <= y < x && #[trigger] oi[y] == k && !ks.contains(k) && !reserved(k))
                        ==> #[trigger] tree_view(*tree).contains_key(k) == pre.contains_key(k) && (
                    pre.contains_key(k) ==> tree_view(*tree)[k] == pre[k]),
            decreases old_index@.len() - x,
        {
            proof {
                assert(oi[x as int] == old_index@[x as int]@);
            }
            let ghost before = tree_view(*tree);
            let ghost k0 = oi[x as int];
            let stale = !tests_contain_key(tests, &old_index[x]);
            let keep = is_reserved_key(old_index[x].as_str());
            if stale && !keep {
                match tree_remove(tree, old_index[x].as_str()) {
                    Ok(_) => (),
                    Err(e) => {
                        proof {
                            let views = str_views(old_index@);
                            assert(views[x as int] == old_index@[x as int]@);
                            assert(views.contains(old_index@[x as int]@));
                            let now = tree_view(*tree);
                            assert forall|kk: Seq<char>| #[trigger] key_old_or_new(
                                pre,
                                now,
                                true,
                                oi,
                                tests@,
                                *metadata,
                                kk,
                            ) by {
                                if exists|y: int|
                                    0 <= y < x && #[trigger] oi[y] == kk && !ks.contains(kk)
                                        && !reserved(kk) {
                                    let y = choose|y: int|
                                        0 <= y < x && #[trigger] oi[y] == kk && !ks.contains(kk)
                                            && !reserved(kk);
                                    assert(!before.contains_key(oi[y]));
                                    assert(oi.contains(kk));
                                    assert(!now.contains_key(kk));
                                } else {
                                    assert(before.contains_key(kk) == pre.contains_key(kk));
                                    assert(pre.contains_key(kk) ==> before[kk] =~= pre[kk]);
                                    if now != before {
                                        assert(now == before.remove(k0));
                                        if kk == k0 {
                                            assert(oi.contains(k0));
                                            assert(!now.contains_key(kk));
                                        }
                                    }
                                }
                            }
                        }
                        return Err(DbError::DbRemove(old_index[x].clone(), e));
                    },
                }
            }
            proof {
                let now = tree_view(*tree);
                assert(stale && !keep ==> now == before.remove(k0));
                assert(!(stale && !keep) ==> now == before);
                assert forall|y: int|
                    0 <= y < x + 1 && !ks.contains(#[trigger] oi[y]) && !reserved(oi[y])
                        implies !now.contains_key(oi[y]) by {
                    if y == x {
                        assert(stale && !keep);
                        assert(!now.contains_key(k0));
                    } else {
                        assert(!before.contains_key(oi[y]));
                    }
                }
                assert forall|k: Seq<char>|
                    !(exists|y: int|
                        0 <= y < x + 1 && #[trigger] oi[y] == k && !ks.contains(k) && !reserved(
                            k,
                        )) implies now.contains_key(k) == pre.contains_key(k) && (
                pre.contains_key(k) ==> now[k] == pre[k]) by {
                    assert(!(exists|y: int|
                        0 <= y < x && #[trigger] oi[y] == k && !ks.contains(k) && !reserved(k)))
                        by {
                        if exists|y: int|
                            0 <= y < x && #[trigger] oi[y] == k && !ks.contains(k) && !reserved(
                                k,
                            ) {
                            let y = choose|y: int|
                                0 <= y < x && #[trigger] oi[y] == k && !ks.contains(k)
                                    && !reserved(k);
                            assert(0 <= y < x + 1 && oi[y] == k && !ks.contains(k) && !reserved(
                                k,
                            ));
                        }
                    }
                    assert(before.contains_key(k) == pre.contains_key(k));
                    assert(pre.contains_key(k) ==> before[k] =~= pre[k]);
                    if stale && !keep && k == k0 {
                        assert(oi[x as int] == k && !ks.contains(k) && !reserved(k));
                        assert(false);
                    }
                }
            }
            x = x + 1;
        }
    }
    let ghost v1 = tree_view(*tree);
    proof {
        assert(forall|k: Seq<char>|
            !(had && oi.contains(k) && !ks.contains(k) && !reserved(k))
                ==> #[trigger] v1.contains_key(k) == pre.contains_key(k) && (pre.contains_key(k)
                ==> v1[k] == pre[k]));
        assert(forall|k: Seq<char>|
            had && oi.contains(k) && !ks.contains(k) && !reserved(k) ==> !(
            #[trigger] v1.contains_key(k)));
    }
    // Store the records of identities new to the course definition.
    let mut i: usize = 0;
    while i < tests.len()
        invariant
            0 <= i <= tests@.len(),
            ks == keys_of(tests@),
            pre == tree_view(*old(tree)),
            had ==> old_index_opt is Some && oi == str_views(old_index_opt.unwrap()@),
            !had ==> old_index_opt is None,
            !had ==> oi == Seq::<Seq<char>>::empty(),
            had ==> pre.contains_key(index_key()) && (dec_str_vec_at(pre[index_key()], 0)
                matches Some(p) && p.0 == oi),
            !had ==> !pre.contains_key(index_key()),
            forall|k: Seq<char>|
                !(had && oi.contains(k) && !ks.contains(k) && !reserved(k))
                    ==> #[trigger] v1.contains_key(k) == pre.contains_key(k) && (
                pre.contains_key(k) ==> v1[k] == pre[k]),
            forall|k: Seq<char>|
                had && oi.contains(k) && !ks.contains(k) && !reserved(k) ==> !(
                #[trigger] v1.contains_key(k)),
            forall|i_: int| 0 <= i_ < tests@.len() ==> str_encodable((#[trigger] tests@[i_]).0@),
            forall|i_: int| 0 <= i_ < tests@.len() ==> record_encodable((#[trigger] tests@[i_]).1),
            forall|a: int, b_: int|
                0 <= a < b_ < tests@.len() ==> (#[trigger] tests@[a]).0@ != (
                #[trigger] tests@[b_]).0@,
            forall|j: int|
                0 <= j < i && !(had && oi.contains(#[trigger] ks[j])) ==> tree_view(
                    *tree,
                ).contains_key(ks[j]) && tree_view(*tree)[ks[j]] == enc_record(tests@[j].1),
            forall|k: Seq<char>|
                !(exists|j: int|
                    0 <= j < i && #[trigger] ks[j] == k && !(had && oi.contains(k)))
                    ==> #[trigger] tree_view(*tree).contains_key(k) == v1.contains_key(k) && (
                v1.contains_key(k) ==> tree_view(*tree)[k] == v1[k]),
        decreases tests@.len() - i,
    {
        proof {
            assert(ks[i as int] == tests@[i as int].0@);
        }
        let ghost before = tree_view(*tree);
        let ghost k0 = ks[i as int];
        let is_old = match &old_index_opt {
            Some(oidx) => vec_contains_string(oidx, &tests[i].0),
            None => false,
        };
        proof {
            assert(is_old == (had && oi.contains(k0)));
        }
        if !is_old {
            let mut enc: Vec<u8> = Vec::new();
            encode_record(&mut enc, &tests[i].1);
            proof {
                assert(enc@ =~= enc_record(tests@[i as int].1));
            }
            match tree_insert(tree, tests[i].0.as_str(), enc.as_slice()) {
                Ok(_) => (),
                Err(e) => {
                    proof {
                        let now = tree_view(*tree);
                        if now == before {
                            assert forall|kb: Seq<char>|
                                !(had && oi.contains(kb) && !keys_of(tests@).contains(kb) && !reserved(kb))
                                    && pre.contains_key(kb) implies #[trigger] v1[kb] == pre[kb] by {
                                assert(v1.contains_key(kb) == pre.contains_key(kb));
                            }
                            assert forall|kb: Seq<char>|
                                !(exists|jb: int|
                                    0 <= jb < i && #[trigger] keys_of(tests@)[jb] == kb && !(had && oi.contains(
                                        kb,
                                    ))) && v1.contains_key(kb) implies #[trigger] now[kb] == v1[kb] by {
                                assert(now.contains_key(kb) == v1.contains_key(kb));
                            }
                            lemma_frame_after_updates(
                                pre,
                                v1,
                                now,
                                had,
                                oi,
                                tests@,
                                *metadata,
                                i as int,
                            );
                        } else {
                            assert(now == before.insert(k0, enc_record(tests@[i as int].1)));
                            assert forall|j: int|
                                0 <= j < i + 1 && !(had && oi.contains(#[trigger] ks[j]))
                                    implies now.contains_key(ks[j]) && now[ks[j]] == enc_record(
                                tests@[j].1,
                            ) by {
                                if j == i {
                                    assert(now.contains_key(k0));
                                } else {
                                    assert(before.contains_key(ks[j]) && before[ks[j]]
                                        == enc_record(tests@[j].1));
                                    assert(ks[j] == tests@[j].0@ && ks[i as int] == tests@[
                                        i as int
                                    ].0@);
                                    assert(ks[j] != k0);
                                }
                            }
                            assert forall|k: Seq<char>|
                                !(exists|j: int|
                                    0 <= j < i + 1 && #[trigger] ks[j] == k && !(had
                                        && oi.contains(k))) implies now.contains_key(k)
                                == v1.contains_key(k) && (v1.contains_key(k) ==> now[k]
                                == v1[k]) by {
                                assert(!(exists|j: int|
                                    0 <= j < i && #[trigger] ks[j] == k && !(had && oi.contains(
                                        k,
                                    )))) by {
                                    if exists|j: int|
                                        0 <= j < i && #[trigger] ks[j] == k && !(had
                                            && oi.contains(k)) {
                                        let j = choose|j: int|
                                            0 <= j < i && #[trigger] ks[j] == k && !(had
                                                && oi.contains(k));
                                        assert(0 <= j < i + 1 && ks[j] == k && !(had
                                            && oi.contains(k)));
                                    }
                                }
                                assert(before.contains_key(k) == v1.contains_key(k));
                                assert(v1.contains_key(k) ==> before[k] =~= v1[k]);
                                if k == k0 {
                                    assert(ks[i as int] == k && !(had && oi.contains(k)));
                                    assert(false);
                                }
                            }
                            assert forall|kb: Seq<char>|
                                !(had && oi.contains(kb) && !keys_of(tests@).contains(kb) && !reserved(kb))
                                    && pre.contains_key(kb) implies #[trigger] v1[kb] == pre[kb] by {
                                assert(v1.contains_key(kb) == pre.contains_key(kb));
                            }
                            assert forall|kb: Seq<char>|
                                !(exists|jb: int|
                                    0 <= jb < i + 1 && #[trigger] keys_of(tests@)[jb] == kb && !(had && oi.contains(
                                        kb,
                                    ))) && v1.contains_key(kb) implies #[trigger] now[kb] == v1[kb] by {
                                assert(now.contains_key(kb) == v1.contains_key(kb));
                            }
                            lemma_frame_after_updates(
                                pre,
                                v1,
                                now,
                                had,
                                oi,
                                tests@,
                                *metadata,
                                i + 1,
                            );
                        }
                    }
                    return Err(DbError::DbInsert(tests[i].0.clone(), e));
                },
            }
        }
        proof {
            let now = tree_view(*tree);
            assert(!is_old ==> now == before.insert(k0, enc_record(tests@[i as int].1)));
            assert(is_old ==> now == before);
            assert forall|j: int|
                0 <= j < i + 1 && !(had && oi.contains(#[trigger] ks[j])) implies now.contains_key(
                ks[j],
            ) && now[ks[j]] == enc_record(tests@[j].1) by {
                if j == i {
                    assert(!is_old);
                } else {
                    assert(before.contains_key(ks[j]) && before[ks[j]] == enc_record(tests@[j].1));
                    assert(ks[j] == tests@[j].0@ && ks[i as int] == tests@[i as int].0@);
                    assert(ks[j] != k0);
                }
            }
            assert forall|k: Seq<char>|
                !(exists|j: int|
                    0 <= j < i + 1 && #[trigger] ks[j] == k && !(had && oi.contains(k)))
                    implies now.contains_key(k) == v1.contains_key(k) && (v1.contains_key(k)
                ==> now[k] == v1[k]) by {
                assert(!(exists|j: int|
                    0 <= j < i && #[trigger] ks[j] == k && !(had && oi.contains(k)))) by {
                    if exists|j: int|
                        0 <= j < i && #[trigger] ks[j] == k && !(had && oi.contains(k)) {
                        let j = choose|j: int|
                            0 <= j < i && #[trigger] ks[j] == k && !(had && oi.contains(k));
                        assert(0 <= j < i + 1 && ks[j] == k && !(had && oi.contains(k)));
                    }
                }
                assert(before.contains_key(k) == v1.contains_key(k));
                assert(v1.contains_key(k) ==> before[k] =~= v1[k]);
                if !is_old && k == k0 {
                    assert(ks[i as int] == k && !(had && oi.contains(k)));
                    assert(false);
                }
            }
        }
        i = i + 1;
    }
    let ghost v2 = tree_view(*tree);
    proof {
        assert forall|kb: Seq<char>|
            !(had && oi.contains(kb) && !keys_of(tests@).contains(kb) && !reserved(kb))
                && pre.contains_key(kb) implies #[trigger] v1[kb] == pre[kb] by {
            assert(v1.contains_key(kb) == pre.contains_key(kb));
        }
        assert forall|kb: Seq<char>|
            !(exists|jb: int|
                0 <= jb < tests@.len() && #[trigger] keys_of(tests@)[jb] == kb && !(had && oi.contains(
                    kb,
                ))) && v1.contains_key(kb) implies #[trigger] v2[kb] == v1[kb] by {
            assert(v2.contains_key(kb) == v1.contains_key(kb));
        }
        lemma_frame_after_updates(pre, v1, v2, had, oi, tests@, *metadata, tests@.len() as int);
    }
    // Rewrite the index to exactly the new identity list, in its order.
    let mut key_list: Vec<String> = Vec::new();
    let mut j: usize = 0;
    while j < tests.len()
        invariant
            0 <= j <= tests@.len(),
            ks == keys_of(tests@),
            str_views(key_list@) =~= ks.take(j as int),
        decreases tests@.len() - j,
    {
        let ghost old_kl = key_list@;
        key_list.push(tests[j].0.clone());
        proof {
            assert(key_list@ == old_kl.push(tests@[j as int].0));
            assert(old_kl.len() == j as int) by {
                assert(str_views(old_kl).len() == ks.take(j as int).len());
            }
            assert(key_list@.len() == j + 1);
            assert forall|m: int| 0 <= m < j + 1 implies str_views(key_list@)[m] == ks.take(
                j + 1,
            )[m] by {
                if m < j {
                    assert(str_views(key_list@)[m] == key_list@[m]@);
                    assert(key_list@[m] == old_kl[m]);
                    assert(str_views(old_kl)[m] == old_kl[m]@);
                    assert(str_views(old_kl)[m] == ks.take(j as int)[m]);
                } else {
                    assert(key_list@[m] == tests@[j as int].0);
                    assert(ks[m] == tests@[m].0@);
                }
            }
            assert(str_views(key_list@) =~= ks.take(j + 1));
        }
        j = j + 1;
    }
    proof {
        assert(ks.take(tests@.len() as int) =~= ks);
        assert(str_vec_encodable(ks));
    }
    let mut enc_idx: Vec<u8> = Vec::new();
    encode_str_vec(&mut enc_idx, &key_list);
    match tree_insert(tree, "tests", enc_idx.as_slice()) {
        Ok(_) => (),
        Err(e) => {
            proof {
                lemma_frame_insert_reserved(
                    pre,
                    v2,
                    tree_view(*tree),
                    had,
                    oi,
                    tests@,
                    *metadata,
                    index_key(),
                    enc_str_vec(ks),
                );
            }
            return Err(DbError::DbInsert(String::from_str("tests"), e));
        },
    }
    let ghost v3 = tree_view(*tree);
    proof {
        lemma_frame_insert_reserved(
            pre,
            v2,
            v3,
            had,
            oi,
            tests@,
            *metadata,
            index_key(),
            enc_str_vec(ks),
        );
    }
    // Cache the course metadata verbatim.
    let mut enc_md: Vec<u8> = Vec::new();
    encode_metadata(&mut enc_md, metadata);
    match tree_insert(tree, "metadata", enc_md.as_slice()) {
        Ok(_) => (),
        Err(e) => {
            proof {
                lemma_frame_insert_reserved(
                    pre,
                    v3,
                    tree_view(*tree),
                    had,
                    oi,
                    tests@,
                    *metadata,
                    metadata_key(),
                    enc_metadata(*metadata),
                );
            }
            return Err(DbError::DbInsert(String::from_str("metadata"), e));
        },
    }
    let ghost v4 = tree_view(*tree);
    proof {
        lemma_frame_insert_reserved(
            pre,
            v3,
            v4,
            had,
            oi,
            tests@,
            *metadata,
            metadata_key(),
            enc_metadata(*metadata),
        );
    }
    // Reset the resume cursor: the course definition changed.
    let mut enc_cur: Vec<u8> = Vec::new();
    encode_u32(&mut enc_cur, 1);
    match tree_insert(tree, "staggered", enc_cur.as_slice()) {
        Ok(_) => (),
        Err(e) => {
            proof {
                lemma_frame_insert_reserved(
                    pre,
                    v4,
                    tree_view(*tree),
                    had,
                    oi,
                    tests@,
                    *metadata,
                    cursor_key(),
                    enc_u32(1),
                );
            }
            return Err(DbError::DbInsert(String::from_str("staggered"), e));
        },
    }
    proof {
        let post = tree_view(*tree);
        assert(post == v2.insert(index_key(), enc_str_vec(ks)).insert(
            metadata_key(),
            enc_metadata(*metadata),
        ).insert(cursor_key(), enc_u32(1)));
        assert forall|i_: int| 0 <= i_ < tests@.len() implies {
            let k = (#[trigger] tests@[i_]).0@;
            if had && oi.contains(k) {
                &&& post.contains_key(k) == pre.contains_key(k)
                &&& (pre.contains_key(k) ==> post[k] == pre[k])
            } else {
                &&& post.contains_key(k)
                &&& post[k] == enc_record(tests@[i_].1)
            }
        } by {
            let k = tests@[i_].0@;
            assert(ks[i_] == k);
            assert(!reserved(k));
            if had && oi.contains(k) {
                assert(ks.contains(k));
                assert(!(exists|j_: int|
                    0 <= j_ < tests@.len() && #[trigger] ks[j_] == k && !(had && oi.contains(k))));
                assert(v2.contains_key(k) == v1.contains_key(k));
                assert(v1.contains_key(k) == pre.contains_key(k));
            } else {
                assert(v2.contains_key(k) && v2[k] == enc_record(tests@[i_].1));
            }
        }
        assert forall|k: Seq<char>|
            had && oi.contains(k) && !ks.contains(k) && !reserved(k) implies !(
        #[trigger] post.contains_key(k)) by {
            assert(!v1.contains_key(k));
            assert(!(exists|j_: int|
                0 <= j_ < tests@.len() && #[trigger] ks[j_] == k && !(had && oi.contains(k)))) by {
                assert(forall|j_: int|
                    0 <= j_ < tests@.len() ==> (#[trigger] ks[j_] == k ==> ks.contains(k)));
            }
            assert(!v2.contains_key(k));
        }
        assert forall|k: Seq<char>|
            !reserved(k) && !ks.contains(k) && !(had && oi.contains(k)) implies {
            &&& #[trigger] post.contains_key(k) == pre.contains_key(k)
            &&& (pre.contains_key(k) ==> post[k] == pre[k])
        } by {
            assert(!(exists|y: int|
                0 <= y < oi.len() && #[trigger] oi[y] == k && !ks.contains(k) && !reserved(k)))
                by {
                assert(forall|y: int|
                    0 <= y < oi.len() ==> (#[trigger] oi[y] == k ==> oi.contains(k)));
            }
            assert(v1.contains_key(k) == pre.contains_key(k));
            assert(!(exists|j_: int|
                0 <= j_ < tests@.len() && #[trigger] ks[j_] == k && !(had && oi.contains(k)))) by {
                assert(forall|j_: int|
                    0 <= j_ < tests@.len() ==> (#[trigger] ks[j_] == k ==> ks.contains(k)));
            }
            assert(v2.contains_key(k) == v1.contains_key(k));
        }
        assert(post.contains_key(time_key()) == pre.contains_key(time_key()) && (
        pre.contains_key(time_key()) ==> post[time_key()] == pre[time_key()])) by {
            let k = time_key();
            assert(reserved(k));
            assert(!(exists|y: int|
                0 <= y < oi.len() && #[trigger] oi[y] == k && !ks.contains(k) && !reserved(k)));
            assert(forall|j_: int|
                0 <= j_ < tests@.len() ==> #[trigger] ks[j_] != k && tests@[j_].0@ != k);
            assert(!(exists|j_: int|
                0 <= j_ < tests@.len() && #[trigger] ks[j_] == k && !(had && oi.contains(k))));
            assert(v1.contains_key(k) == pre.contains_key(k));
            assert(v2.contains_key(k) == v1.contains_key(k));
        }
        assert(reconciled(pre, post, had, oi, tests@, *metadata));
    }
    Ok(())
}

/// How a fetched work list relates to the store: either every one of the
/// first `m` indexed identities had a record that decoded, and the list
/// holds them in index order, or some indexed identity had no record and
/// the list is empty.
pub open spec fn fetched_prefix(
    v: Map<Seq<char>, Seq<u8>>,
    keys: Seq<Seq<char>>,
    m: int,
    ts: Seq<(String, TestState)>,
) -> bool {
    ||| (ts.len() == m && (forall|i: int|
        0 <= i < m ==> {
            &&& v.contains_key(#[trigger] keys[i])
            &&& ts[i].0@ == keys[i]
            &&& dec_record_at(v[keys[i]], 0) == Some((view_of(ts[i].1), v[keys[i]].len() as int))
        }))
    ||| (ts.len() == 0 && (exists|i: int| 0 <= i < m && !v.contains_key(#[trigger] keys[i])))
}

/// Reads the records of the first `m` indexed identities, in index order.
/// A missing record yields an empty work list; a record that does not
/// decode aborts the whole fetch.
fn fetch_records(tree: &sled::Tree, keys: &Vec<String>, m: usize) -> (r: Result<
    Vec<(String, TestState)>,
    DbError,
>)
    requires
        m <= keys@.len(),
    ensures
        r matches Ok(ts) ==> fetched_prefix(tree_view(*tree), str_views(keys@), m as int, ts@),
{
    let ghost v = tree_view(*tree);
    let ghost kvs = str_views(keys@);
    let mut ts: Vec<(String, TestState)> = Vec::new();
    let mut i: usize = 0;
    while i < m
        invariant
            0 <= i <= m <= keys@.len(),
            v == tree_view(*tree),
            kvs == str_views(keys@),
            ts@.len() == i,
            forall|j: int|
                0 <= j < i ==> {
                    &&& v.contains_key(#[trigger] kvs[j])
                    &&& ts@[j].0@ == kvs[j]
                    &&& dec_record_at(v[kvs[j]], 0) == Some(
                        (view_of(ts@[j].1), v[kvs[j]].len() as int),
                    )
                },
        decreases m - i,
    {
        proof {
            assert(kvs[i as int] == keys@[i as int]@);
        }
        let bytes = match tree_get(tree, keys[i].as_str()) {
            Ok(Some(b)) => b,
            Ok(None) => {
                proof {
                    assert(!v.contains_key(kvs[i as int]));
                }
                return Ok(Vec::new());
            },
            Err(e) => {
                return Err(DbError::DbGet(keys[i].clone(), e));
            },
        };
        let (t, end) = match decode_record(&bytes, 0) {
            Some(p) => p,
            None => {
                return Err(
                    DbError::DecodeError(
                        keys[i].clone(),
                        String::from_str("stored record is not decodable"),
                    ),
                );
            },
        };
        if end != bytes.len() {
            return Err(
                DbError::DecodeError(
                    keys[i].clone(),
                    String::from_str("stored record has trailing bytes"),
                ),
            );
        }
        ts.push((keys[i].clone(), t));
        i = i + 1;
    }
    Ok(ts)
}

/// Reads the whole work list: every test in the stored index, in index
/// order. A store without an index yields an empty list; a missing record
/// yields an empty list; an index or record that does not decode aborts
/// the fetch.
pub fn tests_accumulate_all(tree: &sled::Tree) -> (r: Result<Vec<(String, TestState)>, DbError>)
    ensures
        r matches Ok(ts) ==> {
            let v = tree_view(*tree);
            &&& (!v.contains_key(index_key()) ==> ts@.len() == 0)
            &&& (v.contains_key(index_key()) ==> match dec_str_vec_at(v[index_key()], 0) {
                Some(p) => fetched_prefix(v, p.0, p.0.len() as int, ts@),
                None => false,
            })
        },
        tree_view(*tree).contains_key(index_key()) && dec_str_vec_at(
            tree_view(*tree)[index_key()],
            0,
        ) is None ==> r is Err,
{
    let keys = match read_index(tree) {
        Ok(Some(keys)) => keys,
        Ok(None) => {
            return Ok(Vec::new());
        },
        Err(e) => {
            return Err(e);
        },
    };
    let m = keys.len();
    fetch_records(tree, &keys, m)
}

/// Reads the work list for staggered execution: the first `n` tests of the
/// stored index, in index order, or all of them where the index is
/// shorter.
pub fn tests_accumulate_some(tree: &sled::Tree, n: usize) -> (r: Result<
    Vec<(String, TestState)>,
    DbError,
>)
    ensures
        r matches Ok(ts) ==> {
            let v = tree_view(*tree);
            &&& (!v.contains_key(index_key()) ==> ts@.len() == 0)
            &&& (v.contains_key(index_key()) ==> match dec_str_vec_at(v[index_key()], 0) {
                Some(p) => fetched_prefix(
                    v,
                    p.0,
                    if n <= p.0.len() {
                        n as int
                    } else {
                        p.0.len() as int
                    },
                    ts@,
                ),
                None => false,
            })
        },
        tree_view(*tree).contains_key(index_key()) && dec_str_vec_at(
            tree_view(*tree)[index_key()],
            0,
        ) is None ==> r is Err,
{
    let keys = match read_index(tree) {
        Ok(Some(keys)) => keys,
        Ok(None) => {
            return Ok(Vec::new());
        },
        Err(e) => {
            return Err(e);
        },
    };
    let m = if n <= keys.len() {
        n
    } else {
        keys.len()
    };
    fetch_records(tree, &keys, m)
}

/// Reads the stored test index, where there is one.
pub fn read_index(tree: &sled::Tree) -> (r: Result<Option<Vec<String>>, DbError>)
    ensures
        r matches Ok(Some(keys)) ==> {
            let v = tree_view(*tree);
            v.contains_key(index_key()) && match dec_str_vec_at(v[index_key()], 0) {
                Some(p) => p.0 == str_views(keys@),
                None => false,
            }
        },
        r matches Ok(None) ==> !tree_view(*tree).contains_key(index_key()),
        tree_view(*tree).contains_key(index_key()) && dec_str_vec_at(
            tree_view(*tree)[index_key()],
            0,
        ) is None ==> r is Err,
{
    match tree_get(tree, "tests") {
        Ok(Some(bytes)) => match decode_str_vec(&bytes, 0) {
            Some((keys, _)) => Ok(Some(keys)),
            None => Err(
                DbError::DecodeError(
                    String::from_str("tests"),
                    String::from_str("stored test index is not decodable"),
                ),
            ),
        },
        Ok(None) => Ok(None),
        Err(e) => Err(DbError::DbGet(String::from_str("tests"), e)),
    }
}

/// Reads the work list of every stored test whose identity starts with the
/// given prefix: each such record exactly once, decoded; a record that
/// does not decode aborts the fetch.
pub fn tests_accumulate_matching(test_name: &str, tree: &sled::Tree) -> (r: Result<
    Vec<(String, TestState)>,
    DbError,
>)
    ensures
        r matches Ok(ts) ==> {
            let v = tree_view(*tree);
            &&& forall|i: int|
                0 <= i < ts.len() ==> {
                    &&& (#[trigger] ts@[i]).0@.len() >= test_name@.len()
                    &&& ts@[i].0@.subrange(0, test_name@.len() as int) == test_name@
                    &&& v.contains_key(ts@[i].0@)
                    &&& dec_record_at(v[ts@[i].0@], 0) == Some(
                        (view_of(ts@[i].1), v[ts@[i].0@].len() as int),
                    )
                }
            &&& forall|k: Seq<char>|
                v.contains_key(k) && k.len() >= test_name@.len() && k.subrange(
                    0,
                    test_name@.len() as int,
                ) == test_name@ ==> exists|i: int| 0 <= i < ts@.len() && (#[trigger] ts@[i]).0@ == k
            &&& forall|i: int, j: int|
                0 <= i < ts@.len() && 0 <= j < ts@.len() && i != j ==> (#[trigger] ts@[i]).0@ != (
                #[trigger] ts@[j]).0@
        },
{
    let ghost v = tree_view(*tree);
    let pairs = match tree_scan_prefix(tree, test_name) {
        Ok(ps) => ps,
        Err(e) => {
            return Err(DbError::DbGet(String::from_str(test_name), e));
        },
    };
    let mut ts: Vec<(String, TestState)> = Vec::new();
    let mut i: usize = 0;
    while i < pairs.len()
        invariant
            0 <= i <= pairs@.len(),
            v == tree_view(*tree),
            ts@.len() == i,
            forall|j: int|
                0 <= j < pairs@.len() ==> (#[trigger] pairs@[j]).0@.len() >= test_name@.len()
                    && pairs@[j].0@.subrange(0, test_name@.len() as int) == test_name@
                    && v.contains_key(pairs@[j].0@) && v[pairs@[j].0@] == pairs@[j].1@,
            forall|k: Seq<char>|
                v.contains_key(k) && k.len() >= test_name@.len() && k.subrange(
                    0,
                    test_name@.len() as int,
                ) == test_name@ ==> exists|j: int|
                    0 <= j < pairs@.len() && (#[trigger] pairs@[j]).0@ == k,
            forall|a: int, b_: int|
                0 <= a < pairs@.len() && 0 <= b_ < pairs@.len() && a != b_ ==> (
                #[trigger] pairs@[a]).0@ != (#[trigger] pairs@[b_]).0@,
            forall|j: int| 0 <= j < i ==> (#[trigger] ts@[j]).0 == pairs@[j].0,
            forall|j: int|
                0 <= j < i ==> dec_record_at(v[(#[trigger] ts@[j]).0@], 0) == Some(
                    (view_of(ts@[j].1), v[ts@[j].0@].len() as int),
                ),
        decreases pairs@.len() - i,
    {
        let (t, end) = match decode_record(&pairs[i].1, 0) {
            Some(p) => p,
            None => {
                return Err(
                    DbError::DecodeError(
                        pairs[i].0.clone(),
                        String::from_str("stored record is not decodable"),
                    ),
                );
            },
        };
        if end != pairs[i].1.len() {
            return Err(
                DbError::DecodeError(
                    pairs[i].0.clone(),
                    String::from_str("stored record has trailing bytes"),
                ),
            );
        }
        ts.push((pairs[i].0.clone(), t));
        i = i + 1;
    }
    proof {
        assert forall|k: Seq<char>|
            v.contains_key(k) && k.len() >= test_name@.len() && k.subrange(
                0,
                test_name@.len() as int,
            ) == test_name@ implies exists|j: int|
            0 <= j < ts@.len() && (#[trigger] ts@[j]).0@ == k by {
            let j = choose|j: int| 0 <= j < pairs@.len() && (#[trigger] pairs@[j]).0@ == k;
            assert(ts@[j].0@ == k);
        }
    }
    Ok(ts)
}

/// Reads the cached course metadata. Fails where none is stored or it
/// cannot be decoded.
pub fn read_course_metadata(tree: &sled::Tree) -> (r: Result<CourseMetaData, DbError>)
    ensures
        r matches Ok(m) ==> {
            let v = tree_view(*tree);
            &&& v.contains_key(metadata_key())
            &&& match crate::codec::dec_metadata_at(v[metadata_key()], 0) {
                Some(p) => p.0 == (m.logstream_url@, m.logstream_id@, m.ws_url@, m.tester_url@),
                None => false,
            }
        },
        !tree_view(*tree).contains_key(metadata_key()) ==> r is Err,
{
    match tree_get(tree, "metadata") {
        Ok(Some(bytes)) => match crate::codec::decode_metadata(&bytes, 0) {
            Some((m, _)) => Ok(m),
            None => Err(
                DbError::DecodeError(
                    String::from_str("metadata"),
                    String::from_str("stored metadata is not decodable"),
                ),
            ),
        },
        Ok(None) => Err(
            DbError::DbGet(String::from_str("metadata"), String::from_str("no metadata stored")),
        ),
        Err(e) => Err(DbError::DbGet(String::from_str("metadata"), e)),
    }
}

/// What reconciliation stores for a fresh identity reads back as exactly
/// the record it was given: the stored bytes decode to the record's view,
/// consuming the whole value.
pub proof fn lemma_fresh_record_readable(
    pre: Map<Seq<char>, Seq<u8>>,
    post: Map<Seq<char>, Seq<u8>>,
    had_index: bool,
    old_index: Seq<Seq<char>>,
    tests: Seq<(String, TestState)>,
    metadata: CourseMetaData,
    i: int,
)
    requires
        reconciled(pre, post, had_index, old_index, tests, metadata),
        0 <= i < tests.len(),
        !(had_index && old_index.contains(tests[i].0@)),
        record_encodable(tests[i].1),
    ensures
        post.contains_key(tests[i].0@),
        dec_record_at(post[tests[i].0@], 0) == Some(
            (view_of(tests[i].1), post[tests[i].0@].len() as int),
        ),
{
    let bytes = post[tests[i].0@];
    assert(bytes == enc_record(tests[i].1));
    assert(bytes.subrange(0, bytes.len() as int) =~= bytes);
    crate::codec::lemma_dec_enc_record(bytes, 0, view_of(tests[i].1));
}

/// The watermark a refresh stores reads back as exactly the time it was
/// given.
pub proof fn lemma_watermark_readable(
    pre: Map<Seq<char>, Seq<u8>>,
    post: Map<Seq<char>, Seq<u8>>,
    time_last_modified: i64,
)
    requires
        post == pre.insert(time_key(), enc_i64(time_last_modified)),
    ensures
        post.contains_key(time_key()),
        dec_i64_at(post[time_key()], 0) == Some((time_last_modified, 8int)),
{
    let bytes = post[time_key()];
    assert(bytes.subrange(0, 8) =~= bytes);
    crate::codec::lemma_dec_enc_i64(bytes, 0, time_last_modified);
}

/// The resume cursor a write stores reads back as exactly the count it
/// was given.
pub proof fn lemma_cursor_readable(pre: Map<Seq<char>, Seq<u8>>, post: Map<Seq<char>, Seq<u8>>, n: u32)
    requires
        post == pre.insert(cursor_key(), enc_u32(n)),
    ensures
        post.contains_key(cursor_key()),
        dec_u32_at(post[cursor_key()], 0) == Some((n, 4int)),
{
    let bytes = post[cursor_key()];
    assert(bytes.subrange(0, 4) =~= bytes);
    crate::codec::lemma_dec_enc_u32(bytes, 0, n);
}

/// The index and metadata reconciliation stores read back as exactly the
/// identity list and metadata it was given.
#[verifier::rlimit(60)]
pub proof fn lemma_reconciled_store_readable(
    pre: Map<Seq<char>, Seq<u8>>,
    post: Map<Seq<char>, Seq<u8>>,
    had_index: bool,
    old_index: Seq<Seq<char>>,
    tests: Seq<(String, TestState)>,
    metadata: CourseMetaData,
)
    requires
        reconciled(pre, post, had_index, old_index, tests, metadata),
        tests.len() <= 0xffff_ffff,
        forall|i: int| 0 <= i < tests.len() ==> str_encodable((#[trigger] tests[i]).0@),
        metadata_encodable(metadata),
    ensures
        dec_str_vec_at(post[index_key()], 0) == Some(
            (keys_of(tests), post[index_key()].len() as int),
        ),
        dec_metadata_at(post[metadata_key()], 0) == Some(
            (
                (
                    metadata.logstream_url@,
                    metadata.logstream_id@,
                    metadata.ws_url@,
                    metadata.tester_url@,
                ),
                post[metadata_key()].len() as int,
            ),
        ),
        dec_u32_at(post[cursor_key()], 0) == Some((1u32, 4int)),
{
    let ks = keys_of(tests);
    let idx_bytes = post[index_key()];
    assert(idx_bytes == enc_str_vec(ks));
    assert(idx_bytes.subrange(0, idx_bytes.len() as int) =~= idx_bytes);
    assert(str_vec_encodable(ks)) by {
        assert(forall|i: int| 0 <= i < ks.len() ==> #[trigger] ks[i] == tests[i].0@);
    }
    crate::codec::lemma_dec_enc_str_vec(idx_bytes, 0, ks);
    let md_bytes = post[metadata_key()];
    assert(md_bytes.subrange(0, md_bytes.len() as int) =~= md_bytes);
    crate::codec::lemma_dec_enc_metadata(md_bytes, 0, metadata);
    let cur_bytes = post[cursor_key()];
    assert(cur_bytes.subrange(0, 4) =~= cur_bytes);
    crate::codec::lemma_dec_enc_u32(cur_bytes, 0, 1u32);
}

} // verus!
