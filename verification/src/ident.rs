//! Identity hashing: the short content digest over ordered name paths that
//! serves both as a stable test key and as the target of slug validation.

use blake2::digest::consts::U2;
use blake2::Blake2b;
use blake2::Digest;
use vstd::prelude::*;

verus! {

use vstd::string::StringExecFns;

/// What the two-byte Blake2b digest of a phrase looks like after hex
/// encoding: a function of the input characters alone.
pub uninterp spec fn digest_hex_of(phrase: Seq<char>) -> Seq<char>;

/// What `str::to_lowercase` returns: a function of the characters alone.
pub uninterp spec fn lower_of(s: Seq<char>) -> Seq<char>;

/// Relies on blake2's `Blake2b` with a two-byte output and on `hex::encode`:
/// the digest depends on the input bytes alone, and hex encoding yields two
/// lowercase hexadecimal digits per byte, so the result has exactly four
/// such characters.
#[verifier::external_body]
pub(crate) fn digest_hex(phrase: &str) -> (r: String)
    ensures
        r@ == digest_hex_of(phrase@),
        r@.len() == 4,
        forall|i: int|
            0 <= i < r@.len() ==> (('0' <= #[trigger] r@[i] && r@[i] <= '9') || ('a' <= r@[i]
                && r@[i] <= 'f')),
{
    let mut hasher = Blake2b::<U2>::new();
    hasher.update(phrase.as_bytes());
    hex::encode(hasher.finalize())
}

/// Relies on `str::to_lowercase`: the result depends on the characters
/// alone, and an empty string stays empty.
#[verifier::external_body]
pub(crate) fn lowercase(s: &str) -> (r: String)
    ensures
        r@ == lower_of(s@),
        s@.len() == 0 ==> r@.len() == 0,
{
    s.to_lowercase()
}

/// The concatenation of a sequence of name parts, in order.
pub open spec fn concat_all(parts: Seq<Seq<char>>) -> Seq<char>
    decreases parts.len(),
{
    if parts.len() == 0 {
        Seq::empty()
    } else {
        parts[0] + concat_all(parts.skip(1))
    }
}

/// Concatenating one more part extends the concatenation of the prefix.
pub proof fn lemma_concat_all_take(parts: Seq<Seq<char>>, i: int)
    requires
        0 <= i < parts.len(),
    ensures
        concat_all(parts.take(i + 1)) == concat_all(parts.take(i)) + parts[i],
    decreases i,
{
    if i == 0 {
        assert(parts.take(1) =~= seq![parts[0]]);
        assert(parts.take(1).skip(1) =~= Seq::<Seq<char>>::empty());
        assert(concat_all(Seq::<Seq<char>>::empty()) =~= Seq::<char>::empty());
        assert(parts.take(1)[0] == parts[0]);
        assert(concat_all(parts.take(1)) =~= parts[0]);
        assert(parts.take(0) =~= Seq::<Seq<char>>::empty());
        assert(concat_all(parts.take(0)) + parts[0] =~= parts[0]);
    } else {
        lemma_concat_all_take(parts.skip(1), i - 1);
        assert(parts.take(i + 1).skip(1) =~= parts.skip(1).take(i));
        assert(parts.take(i).skip(1) =~= parts.skip(1).take(i - 1));
        assert(parts.take(i + 1)[0] == parts[0]);
        assert(parts.take(i)[0] == parts[0]);
        assert(parts.skip(1)[i - 1] == parts[i]);
        assert(concat_all(parts.take(i + 1)) == parts[0] + concat_all(parts.skip(1).take(i)));
        assert(concat_all(parts.take(i)) == parts[0] + concat_all(parts.skip(1).take(i - 1)));
        assert(parts[0] + (concat_all(parts.skip(1).take(i - 1)) + parts[i]) =~= (parts[0]
            + concat_all(parts.skip(1).take(i - 1))) + parts[i]);
    }
}

/// The views of a sequence of string slices.
pub open spec fn views_of(words: Seq<&str>) -> Seq<Seq<char>> {
    words.map_values(|w: &str| w@)
}

/// The deterministic short content hash over an ordered tuple of names: the
/// hex form of the two-byte digest of their concatenation.
pub fn hash(words: &[&str]) -> (r: String)
    ensures
        r@ == digest_hex_of(concat_all(views_of(words@))),
        r@.len() == 4,
{
    let mut phrase = String::new();
    let mut i: usize = 0;
    while i < words.len()
        invariant
            0 <= i <= words@.len(),
            phrase@ == concat_all(views_of(words@).take(i as int)),
        decreases words@.len() - i,
    {
        proof {
            lemma_concat_all_take(views_of(words@), i as int);
        }
        phrase.append(words[i]);
        i = i + 1;
    }
    proof {
        assert(views_of(words@).take(words@.len() as int) =~= views_of(words@));
    }
    digest_hex(phrase.as_str())
}

/// A declared slug is valid when it equals `"0x"` followed by the digest of
/// the concatenated name path.
pub open spec fn expected_slug_of(parts: Seq<Seq<char>>) -> Seq<char> {
    "0x"@ + digest_hex_of(concat_all(parts))
}

/// The expected slug for an ordered name path, as the validator recomputes
/// it: `"0x"` followed by the short content hash.
pub fn slug_for(words: &[&str]) -> (r: String)
    ensures
        r@ == expected_slug_of(views_of(words@)),
{
    let mut s = String::from_str("0x");
    let h = hash(words);
    s.append(h.as_str());
    s
}

} // verus!
