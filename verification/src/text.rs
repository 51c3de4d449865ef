//! Byte and text helpers for the supply's model name.

use vstd::prelude::*;
use vstd::utf8::{valid_utf8, decode_utf8};

verus! {

/// The characters that `String::from_utf8_lossy` makes of `bytes`.
pub uninterp spec fn utf8_lossy(bytes: Seq<u8>) -> Seq<char>;

/// Calls `String::from_utf8_lossy` (then `Cow::into_owned`). Trusted: the
/// result's characters are the name `utf8_lossy` applied to the bytes, and for
/// valid UTF-8 they are the bytes decoded, as std documents (valid input is
/// returned as it is). How invalid sequences become U+FFFD is left unsaid.
#[verifier::external_body]
fn string_from_utf8_lossy(bytes: &[u8]) -> (s: String)
    ensures
        s@ == utf8_lossy(bytes@),
        valid_utf8(bytes@) ==> s@ == decode_utf8(bytes@),
{
    String::from_utf8_lossy(bytes).into_owned()
}

/// `s` without its trailing NUL characters.
pub open spec fn trim_trailing_nul(s: Seq<char>) -> Seq<char>
    decreases s.len(),
{
    if s.len() > 0 && s.last() == '\0' {
        trim_trailing_nul(s.drop_last())
    } else {
        s
    }
}

/// Whether `needle` occurs in `hay` as a contiguous run.
pub open spec fn contains_run<T>(hay: Seq<T>, needle: Seq<T>) -> bool {
    exists|i: int|
        0 <= i && i + needle.len() <= hay.len() && #[trigger] hay.subrange(i, i + needle.len())
            == needle
}

/// The name string of a model-name reply: converted from UTF-8 with invalid
/// sequences replaced, then without its trailing NUL characters.
pub open spec fn spec_model_name(bytes: Seq<u8>) -> Seq<char> {
    trim_trailing_nul(utf8_lossy(bytes))
}

/// A trimmed text does not end in a NUL and is no longer than the text.
pub proof fn lemma_trim_trailing_nul(s: Seq<char>)
    ensures
        trim_trailing_nul(s).len() <= s.len(),
        trim_trailing_nul(s).len() == 0 || trim_trailing_nul(s).last() != '\0',
        trim_trailing_nul(s) == s.take(trim_trailing_nul(s).len() as int),
    decreases s.len(),
{
    if s.len() > 0 && s.last() == '\0' {
        lemma_trim_trailing_nul(s.drop_last());
        let n = trim_trailing_nul(s).len() as int;
        assert(s.drop_last().take(n) =~= s.take(n));
    } else {
        assert(s.take(s.len() as int) =~= s);
    }
}

/// Drops the trailing NUL characters of a text.
pub fn trim_nul_chars(text: &str) -> (out: String)
    ensures
        out@ == trim_trailing_nul(text@),
{
    let mut end: usize = text.unicode_len();
    assert(text@.take(end as int) =~= text@);
    while end > 0 && text.get_char(end - 1) == '\0'
        invariant
            end <= text@.len(),
            trim_trailing_nul(text@) == trim_trailing_nul(text@.take(end as int)),
        decreases end,
    {
        assert(text@.take(end as int).drop_last() =~= text@.take(end - 1));
        end -= 1;
    }
    let kept = text.substring_char(0, end);
    assert(kept@ =~= text@.take(end as int));
    String::from_str(kept)
}

/// The model name of a model-name reply.
pub fn model_name(bytes: &[u8]) -> (name: String)
    ensures
        name@ == spec_model_name(bytes@),
        name@.len() == 0 || name@.last() != '\0',
{
    let text = string_from_utf8_lossy(bytes);
    proof {
        lemma_trim_trailing_nul(text@);
    }
    trim_nul_chars(text.as_str())
}

/// Whether the text `needle` occurs in `hay`, character by character.
pub fn str_contains(hay: &str, needle: &str) -> (b: bool)
    ensures
        b == contains_run(hay@, needle@),
{
    let h = hay.unicode_len();
    let n = needle.unicode_len();
    if n == 0 {
        assert(hay@.subrange(0int, 0int + needle@.len()) =~= needle@);
        return true;
    }
    if n > h {
        return false;
    }
    let last = h - n;
    let mut i: usize = 0;
    while i <= last
        invariant
            n == needle@.len(),
            n >= 1,
            h == hay@.len(),
            last == h - n,
            i <= last + 1,
            forall|j: int| 0 <= j < i ==> #[trigger] hay@.subrange(j, j + n) != needle@,
        decreases last + 1 - i,
    {
        let mut k: usize = 0;
        let mut same = true;
        while k < n
            invariant
                n == needle@.len(),
                h == hay@.len(),
                i + n <= h,
                k <= n,
                same == (forall|t: int| 0 <= t < k ==> hay@[i + t] == needle@[t]),
            decreases n - k,
        {
            if hay.get_char(i + k) != needle.get_char(k) {
                same = false;
            }
            k += 1;
        }
        if same {
            assert(hay@.subrange(i as int, i + needle@.len()) =~= needle@);
            return true;
        }
        assert(hay@.subrange(i as int, i + n) != needle@) by {
            let t = choose|t: int| 0 <= t < n && hay@[i + t] != needle@[t];
            assert(hay@.subrange(i as int, i + n)[t] == hay@[i + t]);
        }
        i += 1;
    }
    proof {
        assert forall|j: int|
            0 <= j && j + needle@.len() <= hay@.len() implies #[trigger] hay@.subrange(j, j + needle@.len()) != needle@ by {
            assert(j < i);
        }
    }
    false
}

} // verus!
