//! Whitespace in the sense of Unicode's `White_Space` property, and trimming.

use vstd::prelude::*;

verus! {

/// A character with the Unicode `White_Space` property, as `char::is_whitespace`
/// classifies it.
pub open spec fn is_white_space(c: char) -> bool {
    ||| ('\u{9}' <= c && c <= '\u{d}')
    ||| c == ' '
    ||| c == '\u{85}'
    ||| c == '\u{a0}'
    ||| c == '\u{1680}'
    ||| ('\u{2000}' <= c && c <= '\u{200a}')
    ||| c == '\u{2028}'
    ||| c == '\u{2029}'
    ||| c == '\u{202f}'
    ||| c == '\u{205f}'
    ||| c == '\u{3000}'
}

/// `s` without its leading whitespace.
pub open spec fn trim_start(s: Seq<char>) -> Seq<char>
    decreases s.len(),
{
    if s.len() > 0 && is_white_space(s[0]) {
        trim_start(s.drop_first())
    } else {
        s
    }
}

/// `s` without its trailing whitespace.
pub open spec fn trim_end(s: Seq<char>) -> Seq<char>
    decreases s.len(),
{
    if s.len() > 0 && is_white_space(s.last()) {
        trim_end(s.drop_last())
    } else {
        s
    }
}

/// `s` without its leading and trailing whitespace, as `str::trim` gives it.
pub open spec fn trim(s: Seq<char>) -> Seq<char> {
    trim_end(trim_start(s))
}

/// Whether `s` holds nothing but whitespace.
pub open spec fn is_blank(s: Seq<char>) -> bool {
    forall|i: int| 0 <= i < s.len() ==> is_white_space(#[trigger] s[i])
}

/// Classifies one character as whitespace.
pub fn char_is_white_space(c: char) -> (res: bool)
    ensures
        res == is_white_space(c),
{
    ('\u{9}' <= c && c <= '\u{d}') || c == ' ' || c == '\u{85}' || c == '\u{a0}' || c
        == '\u{1680}' || ('\u{2000}' <= c && c <= '\u{200a}') || c == '\u{2028}' || c
        == '\u{2029}' || c == '\u{202f}' || c == '\u{205f}' || c == '\u{3000}'
}

proof fn lemma_trim_start_skip(s: Seq<char>, i: int)
    requires
        0 <= i <= s.len(),
        forall|k: int| 0 <= k < i ==> is_white_space(#[trigger] s[k]),
    ensures
        trim_start(s) == trim_start(s.subrange(i, s.len() as int)),
    decreases i,
{
    if i > 0 {
        assert(s.drop_first() =~= s.subrange(1, s.len() as int));
        let t = s.drop_first();
        assert forall|k: int| 0 <= k < i - 1 implies is_white_space(#[trigger] t[k]) by {
            assert(t[k] == s[k + 1]);
        }
        lemma_trim_start_skip(t, i - 1);
        assert(t.subrange(i - 1, t.len() as int) =~= s.subrange(i, s.len() as int));
    } else {
        assert(s.subrange(0, s.len() as int) =~= s);
    }
}

proof fn lemma_trim_end_skip(s: Seq<char>, j: int)
    requires
        0 <= j <= s.len(),
        forall|k: int| j <= k < s.len() ==> is_white_space(#[trigger] s[k]),
    ensures
        trim_end(s) == trim_end(s.subrange(0, j)),
    decreases s.len() - j,
{
    if j < s.len() {
        let t = s.drop_last();
        assert forall|k: int| j <= k < t.len() implies is_white_space(#[trigger] t[k]) by {
            assert(t[k] == s[k]);
        }
        assert(is_white_space(s[s.len() - 1]));
        lemma_trim_end_skip(t, j);
        assert(t.subrange(0, j) =~= s.subrange(0, j));
    } else {
        assert(s.subrange(0, j) =~= s);
    }
}

/// Removes leading and trailing whitespace.
pub fn trim_str(s: &str) -> (res: &str)
    ensures
        res@ == trim(s@),
{
    let n = s.unicode_len();
    let mut i: usize = 0;
    while i < n && char_is_white_space(s.get_char(i))
        invariant
            n == s@.len(),
            0 <= i <= n,
            forall|k: int| 0 <= k < i ==> is_white_space(#[trigger] s@[k]),
        decreases n - i,
    {
        i = i + 1;
    }
    proof {
        lemma_trim_start_skip(s@, i as int);
    }
    let ghost rest = s@.subrange(i as int, n as int);
    assert(trim_start(rest) == rest) by {
        if rest.len() > 0 {
            assert(rest[0] == s@[i as int]);
        }
    }
    let mut j: usize = n;
    while j > i && char_is_white_space(s.get_char(j - 1))
        invariant
            n == s@.len(),
            i <= j <= n,
            rest == s@.subrange(i as int, n as int),
            forall|k: int| j <= k < n ==> is_white_space(#[trigger] s@[k]),
        decreases j,
    {
        j = j - 1;
    }
    proof {
        assert forall|k: int| j - i <= k < rest.len() implies is_white_space(#[trigger] rest[k]) by {
            assert(rest[k] == s@[k + i]);
        }
        lemma_trim_end_skip(rest, j - i);
        let kept = rest.subrange(0, j - i);
        assert(kept =~= s@.subrange(i as int, j as int));
        if kept.len() > 0 {
            assert(kept.last() == s@[j - 1]);
        }
    }
    s.substring_char(i, j)
}

/// Whether nothing but whitespace remains of `s` once it is trimmed.
pub fn str_is_blank(s: &str) -> (res: bool)
    ensures
        res == (trim(s@).len() == 0),
        res == is_blank(s@),
{
    let n = s.unicode_len();
    let mut i: usize = 0;
    while i < n
        invariant
            n == s@.len(),
            0 <= i <= n,
            forall|k: int| 0 <= k < i ==> is_white_space(#[trigger] s@[k]),
        decreases n - i,
    {
        if !char_is_white_space(s.get_char(i)) {
            proof {
                lemma_trim_start_skip(s@, i as int);
                let rest = s@.subrange(i as int, n as int);
                assert(rest[0] == s@[i as int]);
                lemma_trim_end_nonempty(rest);
            }
            return false;
        }
        i = i + 1;
    }
    proof {
        lemma_trim_start_skip(s@, n as int);
        assert(s@.subrange(n as int, n as int).len() == 0);
    }
    true
}

proof fn lemma_trim_end_nonempty(s: Seq<char>)
    requires
        s.len() > 0,
        !is_white_space(s[0]),
    ensures
        trim_end(s).len() > 0,
    decreases s.len(),
{
    if is_white_space(s.last()) {
        assert(s.len() > 1);
        assert(s.drop_last()[0] == s[0]);
        lemma_trim_end_nonempty(s.drop_last());
    }
}

proof fn lemma_trim_start_result(s: Seq<char>)
    ensures
        trim_start(s).len() == 0 || !is_white_space(trim_start(s)[0]),
    decreases s.len(),
{
    if s.len() > 0 && is_white_space(s[0]) {
        lemma_trim_start_result(s.drop_first());
    }
}

proof fn lemma_trim_end_result(s: Seq<char>)
    ensures
        trim_end(s).len() == 0 || !is_white_space(trim_end(s).last()),
        trim_end(s).len() <= s.len(),
        forall|i: int| 0 <= i < trim_end(s).len() ==> #[trigger] trim_end(s)[i] == s[i],
    decreases s.len(),
{
    if s.len() > 0 && is_white_space(s.last()) {
        lemma_trim_end_result(s.drop_last());
    }
}

/// Trimming twice is trimming once.
pub proof fn lemma_trim_idempotent(s: Seq<char>)
    ensures
        trim(trim(s)) == trim(s),
{
    let t = trim_start(s);
    let u = trim_end(t);
    lemma_trim_start_result(s);
    lemma_trim_end_result(t);
    if u.len() > 0 {
        assert(u[0] == t[0]);
    }
    assert(trim_start(u) == u);
    assert(trim_end(u) == u);
}

} // verus!
