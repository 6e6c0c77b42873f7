//! Verified text utilities: equality, substring search, trimming, and
//! removal of formatting wrappers.

use vstd::prelude::*;
use vstd::string::StrSliceExecFns;
use vstd::string::StringExecFns;

verus! {

/// What `char::is_whitespace` returns: a property of the character
/// alone.
pub uninterp spec fn is_space(c: char) -> bool;

/// Relies on `char::is_whitespace`: the Unicode white-space property of
/// the character.  On ASCII it holds exactly of the space, the tab and
/// the four control characters 0x0A through 0x0D, as the standard
/// library documents.
#[verifier::external_body]
pub(crate) fn is_whitespace_char(c: char) -> (r: bool)
    ensures
        r == is_space(c),
        (c as u32) < 128 ==> (r <==> (c == ' ' || c == '\t' || c == '\n' || c == '\r' || c
            == '\u{B}' || c == '\u{C}')),
{
    c.is_whitespace()
}

/// What `str::to_lowercase` returns: a function of the characters alone.
pub uninterp spec fn lower_of(s: Seq<char>) -> Seq<char>;

/// Relies on `str::to_lowercase`: the Unicode lowercase mapping of the
/// text, which depends on the characters alone.
#[verifier::external_body]
pub(crate) fn lowercase(s: &str) -> (r: String)
    ensures
        r@ == lower_of(s@),
{
    s.to_lowercase()
}

/// The text with its leading white space removed.
pub open spec fn trim_start_spec(s: Seq<char>) -> Seq<char>
    decreases s.len(),
{
    if s.len() > 0 && is_space(s[0]) {
        trim_start_spec(s.drop_first())
    } else {
        s
    }
}

/// The text with its trailing white space removed.
pub open spec fn trim_end_spec(s: Seq<char>) -> Seq<char>
    decreases s.len(),
{
    if s.len() > 0 && is_space(s.last()) {
        trim_end_spec(s.drop_last())
    } else {
        s
    }
}

/// The text with white space removed from both ends.
pub open spec fn trim_spec(s: Seq<char>) -> Seq<char> {
    trim_end_spec(trim_start_spec(s))
}

/// The text with every occurrence of a pattern removed, scanning left to
/// right without overlap.
pub open spec fn remove_all(s: Seq<char>, pat: Seq<char>) -> Seq<char>
    decreases s.len(),
{
    if pat.len() == 0 || s.len() < pat.len() {
        s
    } else if s.take(pat.len() as int) == pat {
        remove_all(s.skip(pat.len() as int), pat)
    } else {
        seq![s[0]] + remove_all(s.drop_first(), pat)
    }
}

/// The text with every leading repetition of a pattern removed.
pub open spec fn strip_prefix_all(s: Seq<char>, pat: Seq<char>) -> Seq<char>
    decreases s.len(),
{
    if pat.len() > 0 && s.len() >= pat.len() && s.take(pat.len() as int) == pat {
        strip_prefix_all(s.skip(pat.len() as int), pat)
    } else {
        s
    }
}

/// Whether the pattern occurs anywhere in the text.
pub open spec fn has_sub(s: Seq<char>, pat: Seq<char>) -> bool {
    exists|i: int|
        0 <= i && i + pat.len() <= s.len() && #[trigger] s.subrange(i, i + pat.len() as int) == pat
}

/// Whether the text begins with the pattern.
pub open spec fn starts_with_spec(s: Seq<char>, pat: Seq<char>) -> bool {
    s.len() >= pat.len() && s.take(pat.len() as int) == pat
}

/// A reply text with known formatting wrappers stripped: surrounding
/// white space, fenced code markers and backticks, in the order the
/// removals are applied.
pub open spec fn strip_spec(s: Seq<char>) -> Seq<char> {
    trim_spec(remove_all(remove_all(remove_all(trim_spec(s), "```shell"@), "```"@), "`"@))
}

/// Whether the characters of `s` starting at `i` equal `pat`.
pub fn matches_at(s: &str, pat: &str, i: usize) -> (r: bool)
    requires
        i + pat@.len() <= s@.len(),
        s@.len() <= usize::MAX,
    ensures
        r == (s@.subrange(i as int, i + pat@.len()) == pat@),
{
    let m = pat.unicode_len();
    let mut j: usize = 0;
    while j < m
        invariant
            j <= m,
            m == pat@.len(),
            i + m <= s@.len() <= usize::MAX,
            forall|k: int| 0 <= k < j ==> s@[i + k] == pat@[k],
        decreases m - j,
    {
        if s.get_char(i + j) != pat.get_char(j) {
            proof {
                assert(s@.subrange(i as int, i + pat@.len()) != pat@) by {
                    if s@.subrange(i as int, i + pat@.len()) == pat@ {
                        assert(s@.subrange(i as int, i + pat@.len())[j as int] == s@[i + j]);
                    }
                }
            }
            return false;
        }
        j = j + 1;
    }
    proof {
        assert(s@.subrange(i as int, i + pat@.len()) =~= pat@);
    }
    true
}

/// Whether two texts are equal, character for character.
pub fn str_eq(a: &str, b: &str) -> (r: bool)
    ensures
        r == (a@ == b@),
{
    let n = a.unicode_len();
    let m = b.unicode_len();
    if n != m {
        proof {
            assert(a@ != b@) by {
                if a@ == b@ {
                    assert(a@.len() == b@.len());
                }
            }
        }
        return false;
    }
    let mut i: usize = 0;
    while i < n
        invariant
            i <= n,
            n == a@.len(),
            n == b@.len(),
            forall|j: int| 0 <= j < i ==> a@[j] == b@[j],
        decreases n - i,
    {
        if a.get_char(i) != b.get_char(i) {
            proof {
                assert(a@ != b@) by {
                    if a@ == b@ {
                        assert(a@[i as int] == b@[i as int]);
                    }
                }
            }
            return false;
        }
        i = i + 1;
    }
    proof {
        assert(a@ =~= b@);
    }
    true
}

/// Whether the text begins with the pattern.
pub fn str_starts_with(s: &str, pat: &str) -> (r: bool)
    ensures
        r == starts_with_spec(s@, pat@),
{
    let n = s.unicode_len();
    let m = pat.unicode_len();
    if m > n {
        return false;
    }
    matches_at(s, pat, 0)
}

/// Whether the pattern occurs anywhere in the text.
pub fn str_contains(s: &str, pat: &str) -> (r: bool)
    ensures
        r == has_sub(s@, pat@),
{
    let n = s.unicode_len();
    let m = pat.unicode_len();
    if m > n {
        proof {
            assert(!has_sub(s@, pat@)) by {
                if has_sub(s@, pat@) {
                    let i = choose|i: int|
                        0 <= i && i + pat@.len() <= s@.len() && #[trigger] s@.subrange(
                            i,
                            i + pat@.len() as int,
                        ) == pat@;
                }
            }
        }
        return false;
    }
    if m == 0 {
        proof {
            assert(s@.subrange(0, 0 + pat@.len() as int) =~= pat@);
        }
        return true;
    }
    let mut i: usize = 0;
    while i <= n - m
        invariant
            0 < m <= n,
            i <= n - m + 1,
            n == s@.len(),
            m == pat@.len(),
            forall|j: int|
                0 <= j < i ==> #[trigger] s@.subrange(j, j + pat@.len() as int) != pat@,
        decreases n - i,
    {
        if matches_at(s, pat, i) {
            proof {
                assert(has_sub(s@, pat@)) by {
                    assert(s@.subrange(i as int, i + pat@.len()) == pat@);
                }
            }
            return true;
        }
        i = i + 1;
    }
    proof {
        assert(!has_sub(s@, pat@)) by {
            if has_sub(s@, pat@) {
                let k = choose|k: int|
                    0 <= k && k + pat@.len() <= s@.len() && #[trigger] s@.subrange(
                        k,
                        k + pat@.len() as int,
                    ) == pat@;
                assert(k < i);
            }
        }
    }
    false
}

/// The text with white space removed from both ends.
pub fn trim_str<'a>(s: &'a str) -> (r: &'a str)
    ensures
        r@ == trim_spec(s@),
{
    let n = s.unicode_len();
    let mut lo: usize = 0;
    proof {
        assert(s@.skip(0) =~= s@);
    }
    while lo < n && is_whitespace_char(s.get_char(lo))
        invariant
            lo <= n,
            n == s@.len(),
            trim_start_spec(s@) == trim_start_spec(s@.skip(lo as int)),
        decreases n - lo,
    {
        proof {
            assert(s@.skip(lo as int)[0] == s@[lo as int]);
            assert(s@.skip(lo as int).drop_first() =~= s@.skip(lo as int + 1));
        }
        lo = lo + 1;
    }
    proof {
        if lo < n {
            assert(s@.skip(lo as int)[0] == s@[lo as int]);
            assert(trim_start_spec(s@.skip(lo as int)) == s@.skip(lo as int));
        } else {
            assert(s@.skip(lo as int) =~= Seq::<char>::empty());
        }
        assert(trim_start_spec(s@) == s@.skip(lo as int));
        assert(s@.subrange(lo as int, n as int) =~= s@.skip(lo as int));
    }
    let mut hi: usize = n;
    while hi > lo && is_whitespace_char(s.get_char(hi - 1))
        invariant
            lo <= hi <= n,
            n == s@.len(),
            trim_start_spec(s@) == s@.skip(lo as int),
            trim_end_spec(s@.skip(lo as int)) == trim_end_spec(s@.subrange(lo as int, hi as int)),
        decreases hi,
    {
        proof {
            assert(s@.subrange(lo as int, hi as int).last() == s@[hi as int - 1]);
            assert(s@.subrange(lo as int, hi as int).drop_last() =~= s@.subrange(
                lo as int,
                hi as int - 1,
            ));
        }
        hi = hi - 1;
    }
    proof {
        if hi > lo {
            assert(s@.subrange(lo as int, hi as int).last() == s@[hi as int - 1]);
            assert(trim_end_spec(s@.subrange(lo as int, hi as int)) == s@.subrange(
                lo as int,
                hi as int,
            ));
        } else {
            assert(s@.subrange(lo as int, hi as int) =~= Seq::<char>::empty());
        }
        assert(trim_spec(s@) == s@.subrange(lo as int, hi as int));
    }
    s.substring_char(lo, hi)
}

/// The text with every occurrence of the pattern removed, scanning left
/// to right.
pub fn remove_all_str(s: &str, pat: &str) -> (r: String)
    requires
        pat@.len() > 0,
    ensures
        r@ == remove_all(s@, pat@),
{
    let n = s.unicode_len();
    let m = pat.unicode_len();
    let mut out = String::new();
    let mut i: usize = 0;
    proof {
        assert(s@.skip(0) =~= s@);
        assert(out@ + remove_all(s@, pat@) =~= remove_all(s@, pat@));
    }
    while i < n
        invariant
            i <= n,
            n == s@.len(),
            m == pat@.len(),
            m > 0,
            remove_all(s@, pat@) == out@ + remove_all(s@.skip(i as int), pat@),
        decreases n - i,
    {
        if n - i >= m && matches_at(s, pat, i) {
            proof {
                let t = s@.skip(i as int);
                assert(t.take(m as int) =~= s@.subrange(i as int, i + pat@.len()));
                assert(t.skip(m as int) =~= s@.skip(i as int + m as int));
            }
            i = i + m;
        } else {
            let piece = s.substring_char(i, i + 1);
            proof {
                let t = s@.skip(i as int);
                assert(t[0] == s@[i as int]);
                assert(t.drop_first() =~= s@.skip(i as int + 1));
                if t.len() < m {
                    assert(remove_all(t, pat@) == t);
                    assert(remove_all(t.drop_first(), pat@) == t.drop_first());
                    assert(t =~= seq![t[0]] + t.drop_first());
                } else {
                    assert(t.take(m as int) =~= s@.subrange(i as int, i + pat@.len()));
                }
                assert(piece@ =~= seq![s@[i as int]]);
                assert((out@ + piece@) + remove_all(s@.skip(i as int + 1), pat@) =~= out@ + (
                seq![s@[i as int]] + remove_all(s@.skip(i as int + 1), pat@)));
            }
            out.append(piece);
            i = i + 1;
        }
    }
    proof {
        assert(s@.skip(i as int) =~= Seq::<char>::empty());
        assert(out@ + remove_all(s@.skip(i as int), pat@) =~= out@);
    }
    out
}

/// The text with every leading repetition of the pattern removed.
pub fn strip_prefix_all_str<'a>(s: &'a str, pat: &str) -> (r: &'a str)
    requires
        pat@.len() > 0,
    ensures
        r@ == strip_prefix_all(s@, pat@),
{
    let n = s.unicode_len();
    let m = pat.unicode_len();
    let mut lo: usize = 0;
    proof {
        assert(s@.skip(0) =~= s@);
    }
    while n - lo >= m && matches_at(s, pat, lo)
        invariant
            lo <= n,
            n == s@.len(),
            m == pat@.len(),
            m > 0,
            strip_prefix_all(s@, pat@) == strip_prefix_all(s@.skip(lo as int), pat@),
        decreases n - lo,
    {
        proof {
            let t = s@.skip(lo as int);
            assert(t.take(m as int) =~= s@.subrange(lo as int, lo + pat@.len()));
            assert(t.skip(m as int) =~= s@.skip(lo as int + m as int));
        }
        lo = lo + m;
    }
    proof {
        let t = s@.skip(lo as int);
        if t.len() >= m {
            assert(t.take(m as int) =~= s@.subrange(lo as int, lo + pat@.len()));
        }
        assert(strip_prefix_all(s@.skip(lo as int), pat@) == s@.skip(lo as int));
        assert(s@.subrange(lo as int, n as int) =~= s@.skip(lo as int));
    }
    s.substring_char(lo, n)
}

/// A side-task reply cleaned for use: surrounding white space is
/// trimmed, then fenced code markers and stray backticks are removed,
/// then the result is trimmed again.
pub fn strip_formatting(s: &str) -> (r: String)
    ensures
        r@ == strip_spec(s@),
{
    proof {
        reveal_strlit("```shell");
        reveal_strlit("```");
        reveal_strlit("`");
    }
    let t0 = trim_str(s);
    let t1 = remove_all_str(t0, "```shell");
    let t2 = remove_all_str(t1.as_str(), "```");
    let t3 = remove_all_str(t2.as_str(), "`");
    let t4 = trim_str(t3.as_str());
    String::from_str(t4)
}

} // verus!
