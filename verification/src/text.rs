//! Text helpers shared across the library: building strings character by
//! character, formatting captured test output, splitting a command line
//! into arguments, and turning a name path into a store search key.

use vstd::prelude::*;

verus! {

use crate::ident::concat_all;
use vstd::string::StrSliceExecFns;
use vstd::string::StringExecFns;

/// Relies on `String::push`: appends a single character.
#[verifier::external_body]
pub(crate) fn push_char(s: &mut String, c: char)
    ensures
        final(s)@ == old(s)@.push(c),
{
    s.push(c);
}

/// A copy of the input with every newline followed by the display gutter,
/// so that multi-line output stays inside its frame.
pub open spec fn newline_indented(s: Seq<char>) -> Seq<char>
    decreases s.len(),
{
    if s.len() == 0 {
        Seq::empty()
    } else {
        newline_indented(s.drop_last()) + (if s.last() == '\n' {
            "\n    \u{2502}"@
        } else {
            seq![s.last()]
        })
    }
}

/// The framed form of a test's captured output followed by a closing
/// message.
pub open spec fn format_output_spec(output: Seq<char>, msg: Seq<char>) -> Seq<char> {
    "    \u{256d}\u{2500}[ output ]"@ + newline_indented(output) + "\n    \u{2570}\u{2500}[ "@
        + msg + " ]"@
}

/// Formats a test's captured output: every line of the output is indented
/// into a frame which closes with the given message.
pub fn format_output(output: &str, msg: &str) -> (r: String)
    ensures
        r@ == format_output_spec(output@, msg@),
{
    let mut body = String::new();
    let n = output.unicode_len();
    let mut i: usize = 0;
    while i < n
        invariant
            0 <= i <= n,
            n == output@.len(),
            body@ == newline_indented(output@.take(i as int)),
        decreases n - i,
    {
        let c = output.get_char(i);
        proof {
            assert(output@.take(i + 1).drop_last() =~= output@.take(i as int));
            assert(output@.take(i + 1).last() == output@[i as int]);
        }
        if c == '\n' {
            body.append("\n    \u{2502}");
        } else {
            push_char(&mut body, c);
            proof {
                assert(newline_indented(output@.take(i as int)).push(c) =~= newline_indented(
                    output@.take(i as int),
                ) + seq![c]);
            }
        }
        i = i + 1;
    }
    proof {
        assert(output@.take(n as int) =~= output@);
    }
    let mut r = String::from_str("    \u{256d}\u{2500}[ output ]");
    r.append(body.as_str());
    r.append("\n    \u{2570}\u{2500}[ ");
    r.append(msg);
    r.append(" ]");
    r
}

/// The characters a command line is split on: the Unicode white-space
/// set.
pub open spec fn is_space(c: char) -> bool {
    let v = c as u32;
    ||| v == 0x09
    ||| v == 0x0A
    ||| v == 0x0B
    ||| v == 0x0C
    ||| v == 0x0D
    ||| v == 0x20
    ||| v == 0x85
    ||| v == 0xA0
    ||| v == 0x1680
    ||| (0x2000 <= v && v <= 0x200A)
    ||| v == 0x2028
    ||| v == 0x2029
    ||| v == 0x202F
    ||| v == 0x205F
    ||| v == 0x3000
}

/// Tests whether a character is Unicode whitespace.
pub fn is_space_char(c: char) -> (r: bool)
    ensures
        r == is_space(c),
{
    let v = c as u32;
    v == 0x09 || v == 0x0A || v == 0x0B || v == 0x0C || v == 0x0D || v == 0x20 || v == 0x85 || v
        == 0xA0 || v == 0x1680 || (0x2000 <= v && v <= 0x200A) || v == 0x2028 || v == 0x2029 || v
        == 0x202F || v == 0x205F || v == 0x3000
}

/// The whitespace-separated words of a command line, in order, with no
/// empty words.
pub open spec fn split_ws(s: Seq<char>) -> Seq<Seq<char>>
    decreases s.len(),
{
    if s.len() == 0 {
        Seq::empty()
    } else {
        let rest = split_ws(s.drop_last());
        let c = s.last();
        if is_space(c) {
            rest
        } else if s.len() >= 2 && !is_space(s[s.len() - 2]) {
            rest.update(rest.len() - 1, rest.last().push(c))
        } else {
            rest.push(seq![c])
        }
    }
}

/// A string ending in a non-space character splits into at least one word.
proof fn lemma_split_ws_trailing(s: Seq<char>)
    requires
        s.len() > 0,
        !is_space(s.last()),
    ensures
        split_ws(s).len() >= 1,
    decreases s.len(),
{
    if s.len() >= 2 && !is_space(s[s.len() - 2]) {
        lemma_split_ws_trailing(s.drop_last());
    }
}

/// Splits a command line into its whitespace-separated arguments.
pub fn split_args(s: &str) -> (r: Vec<String>)
    ensures
        r@.map_values(|w: String| w@) == split_ws(s@),
{
    let mut done: Vec<String> = Vec::new();
    let mut cur = String::new();
    let n = s.unicode_len();
    let mut i: usize = 0;
    while i < n
        invariant
            0 <= i <= n,
            n == s@.len(),
            cur@.len() > 0 <==> (i > 0 && !is_space(s@[i as int - 1])),
            cur@.len() > 0 ==> split_ws(s@.take(i as int)).len() >= 1 && split_ws(
                s@.take(i as int),
            ).last() == cur@,
            cur@.len() == 0 ==> done@.map_values(|w: String| w@) == split_ws(s@.take(i as int)),
            cur@.len() > 0 ==> done@.map_values(|w: String| w@) == split_ws(
                s@.take(i as int),
            ).drop_last(),
        decreases n - i,
    {
        let c = s.get_char(i);
        proof {
            assert(s@.take(i + 1).drop_last() =~= s@.take(i as int));
            assert(s@.take(i + 1).last() == s@[i as int]);
        }
        let ghost pre_words = split_ws(s@.take(i as int));
        if is_space_char(c) {
            if cur.as_str().unicode_len() > 0 {
                proof {
                    assert(pre_words.drop_last().push(pre_words.last()) =~= pre_words);
                }
                done.push(cur);
                cur = String::new();
                assert(done@.map_values(|w: String| w@) =~= split_ws(s@.take(i + 1)));
            }
        } else {
            if cur.as_str().unicode_len() > 0 {
                push_char(&mut cur, c);
                proof {
                    assert(split_ws(s@.take(i + 1)) =~= pre_words.update(
                        pre_words.len() - 1,
                        pre_words.last().push(c),
                    ));
                    assert(split_ws(s@.take(i + 1)).drop_last() =~= pre_words.drop_last());
                }
            } else {
                push_char(&mut cur, c);
                proof {
                    assert(cur@ =~= seq![c]);
                    assert(split_ws(s@.take(i + 1)) =~= pre_words.push(seq![c]));
                    assert(split_ws(s@.take(i + 1)).drop_last() =~= pre_words);
                }
            }
        }
        i = i + 1;
    }
    proof {
        assert(s@.take(n as int) =~= s@);
    }
    if cur.as_str().unicode_len() > 0 {
        proof {
            let words = split_ws(s@);
            assert(words.drop_last().push(words.last()) =~= words);
        }
        done.push(cur);
    }
    done
}

/// The segments of a name path split on slashes; empty segments are kept,
/// and the empty path has one empty segment.
pub open spec fn split_slash(s: Seq<char>) -> Seq<Seq<char>>
    decreases s.len(),
{
    if s.len() == 0 {
        seq![Seq::empty()]
    } else {
        let rest = split_slash(s.drop_last());
        if s.last() == '/' {
            rest.push(Seq::empty())
        } else {
            rest.update(rest.len() - 1, rest.last().push(s.last()))
        }
    }
}

/// A slash split always yields at least one segment.
pub proof fn lemma_split_slash_nonempty(s: Seq<char>)
    ensures
        split_slash(s).len() >= 1,
    decreases s.len(),
{
    if s.len() > 0 {
        lemma_split_slash_nonempty(s.drop_last());
    }
}

/// The store key that selects the tests under a name path: the path's
/// slash-separated segments concatenated in reverse order.
pub open spec fn search_key_spec(s: Seq<char>) -> Seq<char> {
    concat_all(split_slash(s).reverse())
}

/// Builds the store search key for a test name path: its slash-separated
/// segments, reversed and concatenated, so that leaf-first identity keys
/// can be matched by prefix.
pub fn search_key(name: &str) -> (r: String)
    ensures
        r@ == search_key_spec(name@),
{
    let mut segs: Vec<String> = Vec::new();
    let mut cur = String::new();
    let n = name.unicode_len();
    let mut i: usize = 0;
    while i < n
        invariant
            0 <= i <= n,
            n == name@.len(),
            split_slash(name@.take(i as int)).len() >= 1,
            segs@.map_values(|w: String| w@).push(cur@) == split_slash(name@.take(i as int)),
        decreases n - i,
    {
        let c = name.get_char(i);
        proof {
            assert(name@.take(i + 1).drop_last() =~= name@.take(i as int));
            assert(name@.take(i + 1).last() == name@[i as int]);
            lemma_split_slash_nonempty(name@.take(i + 1));
        }
        let ghost pre_segs = split_slash(name@.take(i as int));
        if c == '/' {
            segs.push(cur);
            cur = String::new();
            assert(segs@.map_values(|w: String| w@).push(cur@) =~= split_slash(
                name@.take(i + 1),
            ));
        } else {
            push_char(&mut cur, c);
            proof {
                assert(split_slash(name@.take(i + 1)) =~= pre_segs.update(
                    pre_segs.len() - 1,
                    pre_segs.last().push(c),
                ));
                assert(segs@.map_values(|w: String| w@).push(cur@) =~= split_slash(
                    name@.take(i + 1),
                ));
            }
        }
        i = i + 1;
    }
    proof {
        assert(name@.take(n as int) =~= name@);
    }
    segs.push(cur);
    let ghost all = split_slash(name@);
    proof {
        assert(segs@.map_values(|w: String| w@) =~= all);
    }
    let mut key = String::new();
    let m = segs.len();
    let mut j: usize = 0;
    while j < m
        invariant
            0 <= j <= m,
            m == segs@.len(),
            segs@.map_values(|w: String| w@) == all,
            key@ == concat_all(all.reverse().take(j as int)),
        decreases m - j,
    {
        proof {
            crate::ident::lemma_concat_all_take(all.reverse(), j as int);
            assert(all.reverse()[j as int] == all[m - 1 - j]);
        }
        key.append(segs[m - 1 - j].as_str());
        j = j + 1;
    }
    proof {
        assert(all.reverse().take(m as int) =~= all.reverse());
    }
    key
}

/// The decimal digit character of a value below ten.
pub open spec fn digit_char(d: int) -> char {
    if d == 0 {
        '0'
    } else if d == 1 {
        '1'
    } else if d == 2 {
        '2'
    } else if d == 3 {
        '3'
    } else if d == 4 {
        '4'
    } else if d == 5 {
        '5'
    } else if d == 6 {
        '6'
    } else if d == 7 {
        '7'
    } else if d == 8 {
        '8'
    } else {
        '9'
    }
}

/// The decimal numeral of a non-negative number, most significant digit
/// first.
pub open spec fn dec_str_of(n: int) -> Seq<char>
    decreases n,
{
    if n < 10 {
        seq![digit_char(n)]
    } else {
        dec_str_of(n / 10).push(digit_char(n % 10))
    }
}

/// Formats a number as its decimal numeral.
pub fn usize_to_string(n: usize) -> (r: String)
    ensures
        r@ == dec_str_of(n as int),
{
    let mut digits: Vec<char> = Vec::new();
    let mut m = n;
    if n == 0 {
        let mut s = String::new();
        push_char(&mut s, '0');
        proof {
            assert(s@ =~= dec_str_of(0));
        }
        return s;
    }
    while m > 0
        invariant
            dec_str_of(n as int) == (if m > 0 {
                dec_str_of(m as int)
            } else {
                Seq::<char>::empty()
            }) + digits@.reverse(),
        decreases m,
    {
        let d = m % 10;
        let c = if d == 0 {
            '0'
        } else if d == 1 {
            '1'
        } else if d == 2 {
            '2'
        } else if d == 3 {
            '3'
        } else if d == 4 {
            '4'
        } else if d == 5 {
            '5'
        } else if d == 6 {
            '6'
        } else if d == 7 {
            '7'
        } else if d == 8 {
            '8'
        } else {
            '9'
        };
        let ghost m_old = m as int;
        let ghost old_digits = digits@;
        digits.push(c);
        m = m / 10;
        proof {
            assert(c == digit_char(m_old % 10));
            assert(digits@.reverse() =~= seq![c] + old_digits.reverse());
            if m > 0 {
                assert(dec_str_of(m_old) == dec_str_of(m_old / 10).push(digit_char(m_old % 10)));
                assert(dec_str_of(m as int) + digits@.reverse() =~= dec_str_of(m_old)
                    + old_digits.reverse());
            } else {
                assert(m_old < 10);
                assert(dec_str_of(m_old) =~= seq![c]);
                assert(Seq::<char>::empty() + digits@.reverse() =~= dec_str_of(m_old)
                    + old_digits.reverse());
            }
        }
    }
    proof {
        assert(dec_str_of(n as int) =~= digits@.reverse());
    }
    let mut s = String::new();
    let k = digits.len();
    let mut j: usize = 0;
    while j < k
        invariant
            0 <= j <= k,
            k == digits@.len(),
            dec_str_of(n as int) == digits@.reverse(),
            s@ == digits@.reverse().take(j as int),
        decreases k - j,
    {
        proof {
            assert(digits@.reverse()[j as int] == digits@[k - 1 - j]);
            assert(digits@.reverse().take(j + 1).drop_last() =~= digits@.reverse().take(j as int));
            assert(s@.push(digits@[k - 1 - j]) =~= digits@.reverse().take(j + 1));
        }
        push_char(&mut s, digits[k - 1 - j]);
        j = j + 1;
    }
    proof {
        assert(digits@.reverse().take(k as int) =~= digits@.reverse());
    }
    s
}

} // verus!
