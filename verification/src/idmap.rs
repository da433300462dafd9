//! Bidirectional mapping between tmux and zellij identifiers.
//!
//! - pane: tmux `%N` <-> zellij `terminal_N` (the integer `N` is shared).
//! - window: tmux `@N` <-> zellij `tab_id` (integer).
//! - session: tmux `X` <-> zellij tab-name prefix `X:` (a naming namespace,
//!   because one attached zellij session holds every pane, so tmux "sessions"
//!   are represented as groups of tabs whose names start with `X:`).
use crate::error::{cat, ShimError};
use crate::text::{
    all_digits, find_char_from, is_digit, law_i64_roundtrip, lemma_find_char_from_sound, lemma_nat_digits, nat_digits,
    before_char, chars_of, int_str, int_string, opt_view, parse_i64, parse_i64_chars,
    split_once, starts_with, strip_prefix, strip_prefix_exec, string_of, trim, trim_chars,
};
use vstd::prelude::*;
use vstd::string::*;

verus! {

/// The tmux pane id `%N`.
pub open spec fn spec_tmux_pane_id(n: i64) -> Seq<char> {
    "%"@ + int_str(n as int)
}

/// The zellij pane id `terminal_N`.
pub open spec fn spec_terminal_id(n: i64) -> Seq<char> {
    "terminal_"@ + int_str(n as int)
}

/// The digits part of a pane reference: after a `%` or `terminal_` prefix, if any.
pub open spec fn pane_digits(t: Seq<char>) -> Seq<char> {
    match strip_prefix(t, "%"@) {
        Some(d) => d,
        None => match strip_prefix(t, "terminal_"@) {
            Some(d) => d,
            None => t,
        },
    }
}

/// The pane integer named by `%N`, `terminal_N` or a bare `N` (surrounding
/// whitespace ignored).
pub open spec fn parse_pane_int(s: Seq<char>) -> Option<i64> {
    parse_i64(pane_digits(trim(s)))
}

/// The tab id named by `@N` or a bare `N` (surrounding whitespace ignored).
pub open spec fn parse_window(s: Seq<char>) -> Option<i64> {
    let t = trim(s);
    parse_i64(
        match strip_prefix(t, "@"@) {
            Some(d) => d,
            None => t,
        },
    )
}

/// The tmux window id `@N`.
pub open spec fn spec_tmux_window_id(n: i64) -> Seq<char> {
    "@"@ + int_str(n as int)
}

/// The tab-name prefix `X:` of the tmux session `X`.
pub open spec fn spec_session_prefix(session: Seq<char>) -> Seq<char> {
    session + ":"@
}

/// The session part of a `session:leaf` tab name.
pub open spec fn spec_session_of_tab_name(name: Seq<char>) -> Option<Seq<char>> {
    match split_once(name, ':') {
        Some(parts) => Some(parts.0),
        None => None,
    }
}

/// A tab belongs to tmux session `session`.
pub open spec fn spec_is_session_tab(session: Seq<char>, tab_name: Seq<char>) -> bool {
    spec_session_prefix(session).is_prefix_of(tab_name)
}

/// `%N` for zellij pane `N`.
pub fn tmux_pane_id(zellij_pane: i64) -> (s: String)
    ensures
        s@ == spec_tmux_pane_id(zellij_pane),
{
    let n = int_string(zellij_pane);
    cat("%", n.as_str())
}

/// `terminal_N` for zellij pane `N`.
pub fn terminal_id(n: i64) -> (s: String)
    ensures
        s@ == spec_terminal_id(n),
{
    let d = int_string(n);
    cat("terminal_", d.as_str())
}

fn parse_pane_int_exec(target: &str) -> (r: Option<i64>)
    ensures
        r == parse_pane_int(target@),
{
    let v = chars_of(target);
    let t = trim_chars(&v);
    let pct = chars_of("%");
    let term = chars_of("terminal_");
    let digits = match strip_prefix_exec(&t, &pct) {
        Some(d) => d,
        None => match strip_prefix_exec(&t, &term) {
            Some(d) => d,
            None => t,
        },
    };
    parse_i64_chars(&digits)
}

/// The zellij pane id for a tmux pane target.
///
/// # Errors
/// `BadArgs("invalid pane target: ...")` when the target names no pane integer.
pub fn zellij_pane_target(target: &str) -> (r: Result<String, ShimError>)
    ensures
        match parse_pane_int(target@) {
            Some(n) => r matches Ok(s) && s@ == spec_terminal_id(n),
            None => r matches Err(ShimError::BadArgs(m)) && m@ == "invalid pane target: "@
                + target@,
        },
{
    match parse_pane_int_exec(target) {
        Some(n) => Ok(terminal_id(n)),
        None => Err(ShimError::BadArgs(cat("invalid pane target: ", target))),
    }
}

/// The pane integer in `$ZELLIJ_PANE_ID`-style text (`N`, `%N` or `terminal_N`).
pub fn pane_int_from_env(value: &str) -> (r: Option<i64>)
    ensures
        r == parse_pane_int(value@),
{
    parse_pane_int_exec(value)
}

/// `@N` for zellij tab `N`.
pub fn tmux_window_id(zellij_tab: i64) -> (s: String)
    ensures
        s@ == spec_tmux_window_id(zellij_tab),
{
    let n = int_string(zellij_tab);
    cat("@", n.as_str())
}

/// The zellij tab id for a tmux window target.
///
/// # Errors
/// `BadArgs("invalid window target: ...")` when the target names no tab integer.
pub fn zellij_tab_from_window(target: &str) -> (r: Result<i64, ShimError>)
    ensures
        match parse_window(target@) {
            Some(n) => r == Ok::<i64, ShimError>(n),
            None => r matches Err(ShimError::BadArgs(m)) && m@ == "invalid window target: "@
                + target@,
        },
{
    let v = chars_of(target);
    let t = trim_chars(&v);
    let at = chars_of("@");
    let digits = match strip_prefix_exec(&t, &at) {
        Some(d) => d,
        None => t,
    };
    match parse_i64_chars(&digits) {
        Some(n) => Ok(n),
        None => Err(ShimError::BadArgs(cat("invalid window target: ", target))),
    }
}

/// `X:` for session `X`.
pub fn session_tab_prefix(session: &str) -> (s: String)
    ensures
        s@ == spec_session_prefix(session@),
{
    cat(session, ":")
}

/// `X:leaf`, the tab name of window `leaf` in session `X`.
pub fn compose_session_tab_name(session: &str, leaf: &str) -> (s: String)
    ensures
        s@ == spec_session_prefix(session@) + leaf@,
{
    let mut s = session_tab_prefix(session);
    s.append(leaf);
    s
}

/// The tab named `tab_name` belongs to tmux session `session`.
pub fn is_session_tab(session: &str, tab_name: &str) -> (b: bool)
    ensures
        b == spec_is_session_tab(session@, tab_name@),
{
    let p = session_tab_prefix(session);
    let pv = chars_of(p.as_str());
    let nv = chars_of(tab_name);
    starts_with(&nv, &pv)
}

/// The session a `session:leaf` tab name belongs to.
pub fn session_of_tab_name(tab_name: &str) -> (r: Option<String>)
    ensures
        opt_view(r) == spec_session_of_tab_name(tab_name@),
{
    let v = chars_of(tab_name);
    match before_char(&v, ':') {
        Some(s) => Some(string_of(&s)),
        None => None,
    }
}

// ---------------------------------------------------------------------------
// laws
// ---------------------------------------------------------------------------

proof fn lemma_tagged_number(tag: Seq<char>, n: i64)
    requires
        tag.len() > 0,
        !crate::text::is_ws(tag[0]),
    ensures
        trim(tag + int_str(n as int)) == tag + int_str(n as int),
        strip_prefix(tag + int_str(n as int), tag) == Some(int_str(n as int)),
        parse_i64(int_str(n as int)) == Some(n),
{
    law_i64_roundtrip(n);
    let d = int_str(n as int);
    let m: nat = if n < 0 {
        (-n) as nat
    } else {
        n as nat
    };
    lemma_nat_digits(m);
    let s = tag + d;
    assert(d.len() > 0);
    assert(d.last() == nat_digits(m).last());
    assert(is_digit(nat_digits(m)[nat_digits(m).len() - 1]));
    assert(s.last() == d.last());
    assert(s[0] == tag[0]);
    assert(crate::text::trim_start(s) == s);
    assert(crate::text::trim_end(s) == s);
    assert(tag.is_prefix_of(s));
    assert(s.skip(tag.len() as int) =~= d);
}

/// tmux and zellij pane ids name the same pane integer: `%N` and
/// `terminal_N` both parse back to `N`.
pub proof fn law_pane_id_roundtrip(n: i64)
    ensures
        parse_pane_int(spec_tmux_pane_id(n)) == Some(n),
        parse_pane_int(spec_terminal_id(n)) == Some(n),
{
    reveal_strlit("%");
    reveal_strlit("terminal_");
    lemma_tagged_number("%"@, n);
    lemma_tagged_number("terminal_"@, n);
    let t = spec_terminal_id(n);
    assert(t[0] == 't');
    assert(!"%"@.is_prefix_of(t)) by {
        if "%"@.is_prefix_of(t) {
            assert(t[0] == "%"@[0]);
        }
    }
}

/// A tmux window id `@N` parses back to the tab id `N`.
pub proof fn law_window_id_roundtrip(n: i64)
    ensures
        parse_window(spec_tmux_window_id(n)) == Some(n),
{
    reveal_strlit("@");
    lemma_tagged_number("@"@, n);
}

/// Session namespacing: a window's tab name composed for session `X` belongs
/// to `X`, and, when `X` itself has no `:`, names `X` as its session.
pub proof fn law_session_namespace(session: Seq<char>, leaf: Seq<char>)
    ensures
        spec_is_session_tab(session, spec_session_prefix(session) + leaf),
        !session.contains(':') ==> spec_session_of_tab_name(spec_session_prefix(session) + leaf)
            == Some(session),
{
    reveal_strlit(":");
    let p = spec_session_prefix(session);
    let name = p + leaf;
    assert(p.is_prefix_of(name)) by {
        assert(name.subrange(0, p.len() as int) =~= p);
    }
    if !session.contains(':') {
        let k = session.len() as int;
        assert(name[k] == ':');
        lemma_find_char_from_sound(name, ':', 0);
        match find_char_from(name, ':', 0) {
            Some(j) => {
                if j < k {
                    assert(name[j] == session[j]);
                    assert(session.contains(':'));
                }
            },
            None => {},
        }
        assert(name.take(k) =~= session);
    }
}

} // verus!
