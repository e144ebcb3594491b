//! Shell-style expansion of environment variables in a text, given the
//! values that the variables have.

use vstd::prelude::*;

verus! {

/// The value of each variable, `None` for one that is not set.
pub type Environment = spec_fn(Seq<char>) -> Option<Seq<char>>;

/// A character that may stand in a variable name written without braces:
/// an ASCII letter or digit, or `_`.
pub open spec fn is_var_name_char(c: char) -> bool {
    ('a' <= c && c <= 'z') || ('A' <= c && c <= 'Z') || ('0' <= c && c <= '9') || c == '_'
}

/// How many characters at the start of `s` may stand in a variable name.
pub open spec fn var_name_len(s: Seq<char>) -> nat
    decreases s.len(),
{
    if s.len() > 0 && is_var_name_char(s[0]) {
        1 + var_name_len(s.drop_first())
    } else {
        0
    }
}

/// The position of the first `c` in `s`.
pub open spec fn find_char(s: Seq<char>, c: char) -> Option<int>
    decreases s.len(),
{
    if s.len() == 0 {
        None
    } else if s[0] == c {
        Some(0)
    } else {
        match find_char(s.drop_first(), c) {
            Some(i) => Some(i + 1),
            None => None,
        }
    }
}

/// The position of the first `:-` in `s`.
pub open spec fn find_default_split(s: Seq<char>) -> Option<int>
    decreases s.len(),
{
    if s.len() < 2 {
        None
    } else if s[0] == ':' && s[1] == '-' {
        Some(0)
    } else {
        match find_default_split(s.drop_first()) {
            Some(i) => Some(i + 1),
            None => None,
        }
    }
}

/// `text` before the expansion of the rest, when the rest expands.
pub open spec fn prefixed(text: Seq<char>, rest: Option<Seq<char>>) -> Option<Seq<char>> {
    match rest {
        Some(r) => Some(text + r),
        None => None,
    }
}

/// The expansion of `s` under `env`, as `shellexpand::env` reads a text
/// from the left:
/// - `${NAME}` is the value of `NAME`, `${NAME:-default}` the value or, when
///   `NAME` is not set, the default; a `${` with no `}` after it stays as it
///   is;
/// - `$NAME` (the longest run of name characters) is the value of `NAME`;
/// - `$$` is `$`, and any other `$` stays as it is;
/// - every other character stays as it is.
///
/// A variable that is not set, written without a default, leaves no
/// expansion (`None`).
pub open spec fn shell_expand(s: Seq<char>, env: Environment) -> Option<Seq<char>>
    decreases s.len(),
{
    if s.len() == 0 {
        Some(Seq::empty())
    } else if s[0] != '$' {
        prefixed(seq![s[0]], shell_expand(s.drop_first(), env))
    } else if s.len() >= 2 && s[1] == '{' {
        match find_char(s, '}') {
            Some(c) => if 2 <= c < s.len() {
                let rest = shell_expand(s.subrange(c + 1, s.len() as int), env);
                let (name, default) = match find_default_split(s.subrange(0, c)) {
                    Some(d) => if d != 2 && 2 <= d && d + 2 <= c {
                        (s.subrange(2, d), Some(s.subrange(d + 2, c)))
                    } else {
                        (s.subrange(2, c), None)
                    },
                    None => (s.subrange(2, c), None),
                };
                match env(name) {
                    Some(value) => prefixed(value, rest),
                    None => match default {
                        Some(d) => prefixed(d, rest),
                        None => None,
                    },
                }
            } else {
                None
            },
            None => prefixed(seq!['$', '{'], shell_expand(s.subrange(2, s.len() as int), env)),
        }
    } else if s.len() >= 2 && is_var_name_char(s[1]) {
        let k = var_name_len(s.drop_first()) as int;
        if 1 + k <= s.len() {
            match env(s.subrange(1, 1 + k)) {
                Some(value) => prefixed(value, shell_expand(s.subrange(1 + k, s.len() as int), env)),
                None => None,
            }
        } else {
            None
        }
    } else if s.len() >= 2 && s[1] == '$' {
        prefixed(seq!['$'], shell_expand(s.subrange(2, s.len() as int), env))
    } else {
        prefixed(seq!['$'], shell_expand(s.drop_first(), env))
    }
}

/// A non-empty run of name characters.
pub open spec fn is_var_name(n: Seq<char>) -> bool {
    n.len() > 0 && forall|i: int| 0 <= i < n.len() ==> is_var_name_char(#[trigger] n[i])
}

proof fn lemma_var_name_len(n: Seq<char>, r: Seq<char>)
    requires
        forall|i: int| 0 <= i < n.len() ==> is_var_name_char(#[trigger] n[i]),
        r.len() == 0 || !is_var_name_char(r[0]),
    ensures
        var_name_len(n + r) == n.len(),
    decreases n.len(),
{
    if n.len() > 0 {
        assert((n + r)[0] == n[0]);
        assert((n + r).drop_first() =~= n.drop_first() + r);
        lemma_var_name_len(n.drop_first(), r);
    } else {
        assert(n + r =~= r);
    }
}

proof fn lemma_find_char_after(p: Seq<char>, c: char, r: Seq<char>)
    requires
        forall|i: int| 0 <= i < p.len() ==> #[trigger] p[i] != c,
    ensures
        find_char(p + seq![c] + r, c) == Some(p.len() as int),
    decreases p.len(),
{
    let s = p + seq![c] + r;
    if p.len() == 0 {
        assert(s[0] == c);
    } else {
        assert(s[0] == p[0]);
        assert(s.drop_first() =~= p.drop_first() + seq![c] + r);
        lemma_find_char_after(p.drop_first(), c, r);
    }
}

proof fn lemma_no_default_split(s: Seq<char>)
    requires
        forall|i: int| 0 <= i < s.len() ==> #[trigger] s[i] != ':',
    ensures
        find_default_split(s) is None,
    decreases s.len(),
{
    if s.len() >= 2 {
        lemma_no_default_split(s.drop_first());
    }
}

/// A text without `$` expands to itself, whatever the variables hold.
pub proof fn lemma_plain_text_is_kept(s: Seq<char>, env: Environment)
    requires
        !s.contains('$'),
    ensures
        shell_expand(s, env) == Some(s),
    decreases s.len(),
{
    if s.len() > 0 {
        let t = s.drop_first();
        assert(!t.contains('$')) by {
            if t.contains('$') {
                let i = choose|i: int| 0 <= i < t.len() && t[i] == '$';
                assert(s[i + 1] == '$');
            }
        }
        lemma_plain_text_is_kept(t, env);
        assert(seq![s[0]] + t =~= s);
    }
}

/// `$NAME` is replaced by the value of `NAME` when it is set, and leaves no
/// expansion when it is not; the text after it expands on its own.
pub proof fn lemma_reference_is_replaced(n: Seq<char>, r: Seq<char>, env: Environment)
    requires
        is_var_name(n),
        r.len() == 0 || !is_var_name_char(r[0]),
    ensures
        shell_expand(seq!['$'] + n + r, env) == match env(n) {
            Some(value) => prefixed(value, shell_expand(r, env)),
            None => None,
        },
{
    let s = seq!['$'] + n + r;
    assert(s.drop_first() =~= n + r);
    lemma_var_name_len(n, r);
    assert(s[1] == n[0]);
    assert(s.subrange(1, 1 + n.len() as int) =~= n);
    assert(s.subrange(1 + n.len() as int, s.len() as int) =~= r);
}

/// `${NAME}` is replaced by the value of `NAME` when it is set, and leaves
/// no expansion when it is not; the text after it expands on its own.
pub proof fn lemma_braced_reference_is_replaced(n: Seq<char>, r: Seq<char>, env: Environment)
    requires
        is_var_name(n),
    ensures
        shell_expand(seq!['$', '{'] + n + seq!['}'] + r, env) == match env(n) {
            Some(value) => prefixed(value, shell_expand(r, env)),
            None => None,
        },
{
    let p = seq!['$', '{'] + n;
    let s = p + seq!['}'] + r;
    assert(s =~= seq!['$', '{'] + n + seq!['}'] + r);
    assert forall|i: int| 0 <= i < p.len() implies #[trigger] p[i] != '}' by {
        if i >= 2 {
            assert(p[i] == n[i - 2]);
        }
    }
    lemma_find_char_after(p, '}', r);
    let c = p.len() as int;
    assert(s.subrange(0, c) =~= p);
    assert forall|i: int| 0 <= i < p.len() implies #[trigger] p[i] != ':' by {
        if i >= 2 {
            assert(p[i] == n[i - 2]);
        }
    }
    lemma_no_default_split(p);
    assert(s.subrange(2, c) =~= n);
    assert(s.subrange(c + 1, s.len() as int) =~= r);
}

/// Two references to one variable, one without braces and one with, get
/// the same text: an expansion never replaces a variable by two different
/// texts.
pub proof fn lemma_references_agree(n: Seq<char>, env: Environment)
    requires
        is_var_name(n),
    ensures
        match shell_expand(seq!['$'] + n + seq!['$', '{'] + n + seq!['}'], env) {
            Some(out) => env(n) matches Some(v) && out == v + v,
            None => env(n) is None,
        },
{
    let r = seq!['$', '{'] + n + seq!['}'];
    assert(r =~= seq!['$', '{'] + n + seq!['}'] + Seq::<char>::empty());
    lemma_braced_reference_is_replaced(n, Seq::empty(), env);
    lemma_reference_is_replaced(n, r, env);
    assert(seq!['$'] + n + seq!['$', '{'] + n + seq!['}'] =~= seq!['$'] + n + r);
    if let Some(v) = env(n) {
        assert(v + Seq::<char>::empty() =~= v);
    }
}

/// Whatever the variables hold, a text that refers to one variable twice,
/// `$NAME${NAME}`, expands to one text written twice: no expansion keeps a
/// reference as it is while replacing the other.
pub proof fn lemma_expansion_repeats_value(n: Seq<char>, out: Seq<char>)
    requires
        is_var_name(n),
        exists|env: Environment|
            shell_expand(seq!['$'] + n + seq!['$', '{'] + n + seq!['}'], env) == Some(out),
    ensures
        exists|v: Seq<char>| out == v + v,
{
    let env = choose|env: Environment|
        shell_expand(seq!['$'] + n + seq!['$', '{'] + n + seq!['}'], env) == Some(out);
    lemma_references_agree(n, env);
    let v = env(n)->0;
    assert(out == v + v);
}

} // verus!
