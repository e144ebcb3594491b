//! Tool definitions used by manifests.

use crate::expansion::{shell_expand, Environment};
use crate::string_map::StringMap;
use vstd::utf8::is_ascii_chars;
use vstd::prelude::*;

verus! {

/// The value of an environment variable handed to a tool process, with the
/// variables it names already expanded.
pub struct EnvValue(String);

impl View for EnvValue {
    type V = Seq<char>;

    closed spec fn view(&self) -> Seq<char> {
        self.0@
    }
}

/// Every `$` in `s` is the first of a `$$` pair (read from the left): the
/// text names no variable.
pub open spec fn dollars_only_escaped(s: Seq<char>) -> bool
    decreases s.len(),
{
    if s.len() == 0 {
        true
    } else if s[0] != '$' {
        dollars_only_escaped(s.drop_first())
    } else {
        s.len() >= 2 && s[1] == '$' && dollars_only_escaped(s.subrange(2, s.len() as int))
    }
}

/// `s` with each `$$` pair (read from the left) turned into one `$`.
pub open spec fn unescape_dollars(s: Seq<char>) -> Seq<char>
    decreases s.len(),
{
    if s.len() == 0 {
        Seq::empty()
    } else if s[0] == '$' && s.len() >= 2 && s[1] == '$' {
        seq!['$'] + unescape_dollars(s.subrange(2, s.len() as int))
    } else {
        seq![s[0]] + unescape_dollars(s.drop_first())
    }
}

/// Calls `shellexpand::env`, which replaces `$NAME`, `${NAME}` and
/// `${NAME:-default}` by the values of environment variables and `$$` by
/// `$`. What comes back for a variable depends on the environment, so only
/// this is claimed: a text that names no variable, its `$` signs all in
/// `$$` pairs, succeeds and comes back with each pair made one `$` (the
/// function looks nothing up for them); an error (a variable that is not
/// set) is handed back as its message. For an ASCII text, the outcome is
/// the expansion of the text under the variables as they stand during the
/// call (`shell_expand`, which follows the function's reading of the text;
/// for ASCII text its `char::is_alphanumeric` test is the ASCII one). Which
/// values the variables have is not stated: it is read from the
/// environment.
#[verifier::external_body]
fn expand_env_vars(raw: &str) -> (res: Result<String, String>)
    ensures
        res is Err ==> !dollars_only_escaped(raw@),
        res matches Ok(s) ==> (dollars_only_escaped(raw@) ==> s@ == unescape_dollars(raw@)),
        res matches Ok(s) ==> (is_ascii_chars(raw@) ==> exists|env: Environment|
            shell_expand(raw@, env) == Some(s@)),
        res is Err ==> (is_ascii_chars(raw@) ==> exists|env: Environment|
            shell_expand(raw@, env) is None),
{
    match shellexpand::env(raw) {
        Ok(expanded) => Ok(expanded.into_owned()),
        Err(e) => Err(e.to_string()),
    }
}

/// A text without `$` names no variable and is its own unescaping.
pub proof fn lemma_no_dollar_unescaped(s: Seq<char>)
    requires
        !s.contains('$'),
    ensures
        dollars_only_escaped(s),
        unescape_dollars(s) == s,
    decreases s.len(),
{
    if s.len() > 0 {
        assert(s[0] != '$');
        let t = s.drop_first();
        assert(!t.contains('$')) by {
            if t.contains('$') {
                let i = choose|i: int| 0 <= i < t.len() && t[i] == '$';
                assert(s[i + 1] == '$');
            }
        }
        lemma_no_dollar_unescaped(t);
        assert(seq![s[0]] + t =~= s);
    }
}

impl EnvValue {
    /// Expands the environment variables that `raw` names. A text that names
    /// none (each `$` in a `$$` pair) is kept with every `$$` made one `$`,
    /// so a text without `$` is kept as it is. An ASCII text comes back as
    /// its shell-style expansion under the variables' values at the time of
    /// the call, each reference replaced by its variable's value; it fails
    /// when it names, without a default, a variable that is not set.
    pub fn expand(raw: &str) -> (res: Result<EnvValue, String>)
        ensures
            dollars_only_escaped(raw@) ==> (res matches Ok(v) && v@ == unescape_dollars(raw@)),
            !raw@.contains('$') ==> (res matches Ok(v) && v@ == raw@),
            res is Err ==> !dollars_only_escaped(raw@) && raw@.contains('$'),
            is_ascii_chars(raw@) ==> match res {
                Ok(v) => exists|env: Environment| shell_expand(raw@, env) == Some(v@),
                Err(_) => exists|env: Environment| shell_expand(raw@, env) is None,
            },
    {
        proof {
            if !raw@.contains('$') {
                lemma_no_dollar_unescaped(raw@);
            }
        }
        match expand_env_vars(raw) {
            Ok(expanded) => Ok(EnvValue(expanded)),
            Err(message) => Err(message),
        }
    }

    /// The expanded text.
    pub fn as_str(&self) -> (res: &str)
        ensures
            res@ == self@,
    {
        self.0.as_str()
    }
}

/// How an agent reaches a tool server.
pub enum ToolDefinition {
    /// A server reached over streamable HTTP, with extra request headers.
    Http { url: String, headers: Option<StringMap<String>> },
    /// A server started as a child process that speaks over its standard
    /// input and output.
    Stdio { command: String, args: Option<Vec<String>>, env: Option<StringMap<EnvValue>> },
}

} // verus!
