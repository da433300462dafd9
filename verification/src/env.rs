//! `$TMUX` synthesis, the shell wrapper that injects `-e KEY=VALUE`
//! environment assignments in front of a user command, and the choice of the
//! real `tmux` to hand over to outside zellij.
use crate::error::cat;
use crate::text::{
    chars_of, clone_strings, extend, find_char_exec, is_alnum, is_alnum_char, is_digit,
    is_digit_char, join, lemma_find_char_from_sound, push_char, slice, split_once, string_of,
    uint_string, int_str, views,
};
use crate::search::{first_index, first_where, lemma_first_index_is, lemma_first_index_none};
use crate::session::cache::{join_path, path_join};
use vstd::prelude::*;
use vstd::string::*;

verus! {

/// `/tmp/zellij-tmux-shim/<session>,<pid>,0`.
pub open spec fn spec_synth_tmux(session: Seq<char>, pid: u32) -> Seq<char> {
    "/tmp/zellij-tmux-shim/"@ + session + ","@ + int_str(pid as int) + ",0"@
}

/// Synthesize a plausible `$TMUX` value (`socket,pid,session-index`) so tools
/// that merely check for tmux presence are satisfied.
pub fn synth_tmux(session: &str, pid: u32) -> (s: String)
    ensures
        s@ == spec_synth_tmux(session@, pid),
{
    let mut s = cat("/tmp/zellij-tmux-shim/", session);
    s.append(",");
    let p = uint_string(pid as u64);
    s.append(p.as_str());
    s.append(",0");
    s
}

/// `s` with every `'` replaced by `'\''`.
pub open spec fn escape_quotes(s: Seq<char>) -> Seq<char>
    decreases s.len(),
{
    if s.len() == 0 {
        seq![]
    } else {
        escape_quotes(s.drop_last()) + if s.last() == '\'' {
            seq!['\'', '\\', '\'', '\'']
        } else {
            seq![s.last()]
        }
    }
}

/// `s` as a single-quoted POSIX shell word.
pub open spec fn spec_single_quote(s: Seq<char>) -> Seq<char> {
    seq!['\''] + escape_quotes(s) + seq!['\'']
}

/// A valid shell variable name: non-empty, not starting with a digit, and made
/// of ASCII letters, digits and `_`.
pub open spec fn valid_key(k: Seq<char>) -> bool {
    &&& k.len() > 0
    &&& !is_digit(k[0])
    &&& forall|i: int| 0 <= i < k.len() ==> is_alnum(#[trigger] k[i]) || k[i] == '_'
}

/// `KEY='VALUE'` for a `KEY=VALUE` pair with a valid key.
pub open spec fn spec_sh_assignment(kv: Seq<char>) -> Option<Seq<char>> {
    match split_once(kv, '=') {
        Some(parts) => if valid_key(parts.0) {
            Some(parts.0 + "="@ + spec_single_quote(parts.1))
        } else {
            None
        },
        None => None,
    }
}

/// The assignments of the valid `envs`, in order.
pub open spec fn assignments(envs: Seq<Seq<char>>) -> Seq<Seq<char>>
    decreases envs.len(),
{
    if envs.len() == 0 {
        seq![]
    } else {
        match spec_sh_assignment(envs.last()) {
            Some(a) => assignments(envs.drop_last()).push(a),
            None => assignments(envs.drop_last()),
        }
    }
}

/// The argv that runs `command` with `envs` injected: unchanged without
/// assignments, else `/bin/sh -c 'K=V ... exec "$@"' sh command...`; empty
/// when there is no command.
pub open spec fn spec_wrap_command(envs: Seq<Seq<char>>, command: Seq<Seq<char>>) -> Seq<
    Seq<char>,
> {
    if command.len() == 0 {
        seq![]
    } else if envs.len() == 0 {
        command
    } else {
        seq![
            "/bin/sh"@,
            "-c"@,
            join(assignments(envs), " "@) + " exec \"$@\""@,
            "sh"@,
        ] + command
    }
}

fn sh_single_quote(s: &Vec<char>) -> (r: Vec<char>)
    ensures
        r@ == spec_single_quote(s@),
{
    let mut r: Vec<char> = vec!['\''];
    let mut i: usize = 0;
    while i < s.len()
        invariant
            i <= s.len(),
            r@ == seq!['\''] + escape_quotes(s@.take(i as int)),
        decreases s.len() - i,
    {
        let c = s[i];
        assert(s@.take(i + 1).drop_last() =~= s@.take(i as int));
        if c == '\'' {
            r.push('\'');
            r.push('\\');
            r.push('\'');
            r.push('\'');
        } else {
            r.push(c);
        }
        i = i + 1;
        assert(r@ =~= seq!['\''] + escape_quotes(s@.take(i as int)));
    }
    assert(s@.take(s.len() as int) =~= s@);
    r.push('\'');
    r
}

fn valid_key_exec(k: &Vec<char>) -> (b: bool)
    ensures
        b == valid_key(k@),
{
    if k.len() == 0 || is_digit_char(k[0]) {
        return false;
    }
    let mut i: usize = 0;
    while i < k.len()
        invariant
            i <= k.len(),
            forall|j: int| 0 <= j < i ==> is_alnum(#[trigger] k@[j]) || k@[j] == '_',
        decreases k.len() - i,
    {
        if !(is_alnum_char(k[i]) || k[i] == '_') {
            return false;
        }
        i = i + 1;
    }
    true
}

fn sh_assignment(kv: &str) -> (r: Option<Vec<char>>)
    ensures
        match r {
            Some(v) => spec_sh_assignment(kv@) == Some(v@),
            None => spec_sh_assignment(kv@) is None,
        },
{
    let v = chars_of(kv);
    match find_char_exec(&v, '=', 0) {
        None => None,
        Some(i) => {
            proof {
                lemma_find_char_from_sound(v@, '=', 0);
            }
            let key = slice(&v, 0, i);
            let value = slice(&v, i + 1, v.len());
            assert(key@ == v@.take(i as int));
            assert(value@ == v@.skip(i + 1));
            if !valid_key_exec(&key) {
                return None;
            }
            let mut out = key;
            out.push('=');
            let q = sh_single_quote(&value);
            extend(&mut out, &q);
            assert(out@ =~= v@.take(i as int) + "="@ + spec_single_quote(v@.skip(i + 1))) by {
                assert("="@ =~= seq!['=']) by {
                    reveal_strlit("=");
                }
            }
            Some(out)
        },
    }
}

/// The argv that runs `command` with the `-e KEY=VALUE` pairs `envs` injected.
///
/// Pairs whose key is not a valid shell name are skipped; values are
/// single-quoted. Without a command the result is empty.
pub fn wrap_command(envs: &[&str], command: &[String]) -> (r: Vec<String>)
    ensures
        views(r@) == spec_wrap_command(envs@.map_values(|e: &str| e@), views(command@)),
{
    let ghost ev = envs@.map_values(|e: &str| e@);
    if command.len() == 0 {
        let r: Vec<String> = Vec::new();
        assert(views(r@) =~= Seq::<Seq<char>>::empty());
        return r;
    }
    if envs.len() == 0 {
        let r = clone_strings(command);
        return r;
    }
    let mut body: Vec<char> = Vec::new();
    let mut count: usize = 0;
    let mut i: usize = 0;
    let sp = chars_of(" ");
    while i < envs.len()
        invariant
            i <= envs.len(),
            ev == envs@.map_values(|e: &str| e@),
            sp@ == " "@,
            body@ == join(assignments(ev.take(i as int)), " "@),
            count == assignments(ev.take(i as int)).len(),
            count <= i,
        decreases envs.len() - i,
    {
        assert(ev.take(i + 1).drop_last() =~= ev.take(i as int));
        assert(ev.take(i + 1).last() == envs@[i as int]@);
        match sh_assignment(envs[i]) {
            Some(a) => {
                let ghost prev = assignments(ev.take(i as int));
                if count > 0 {
                    extend(&mut body, &sp);
                    extend(&mut body, &a);
                    assert(prev.push(a@).drop_last() =~= prev);
                } else {
                    extend(&mut body, &a);
                    assert(body@ =~= a@);
                }
                count = count + 1;
            },
            None => {},
        }
        i = i + 1;
    }
    assert(ev.take(envs.len() as int) =~= ev);
    let tail = chars_of(" exec \"$@\"");
    extend(&mut body, &tail);
    let mut r: Vec<String> = Vec::new();
    r.push(String::from_str("/bin/sh"));
    r.push(String::from_str("-c"));
    r.push(string_of(&body));
    r.push(String::from_str("sh"));
    let ghost head = views(r@);
    let mut j: usize = 0;
    while j < command.len()
        invariant
            j <= command.len(),
            views(r@) == head + views(command@).take(j as int),
        decreases command.len() - j,
    {
        let ghost prev = r@;
        let c = command[j].clone();
        assert(c@ == command@[j as int]@);
        r.push(c);
        assert(views(r@) =~= views(prev).push(command@[j as int]@));
        j = j + 1;
        assert(views(command@).take(j as int) =~= views(command@).take(j - 1).push(command@[j - 1]@));
    }
    assert(views(command@).take(command.len() as int) =~= views(command@));
    r
}

/// Injecting environment variables never alters the command: the wrapped
/// argv ends with the command's own arguments, and without variables it is
/// the command itself.
pub proof fn law_wrap_keeps_command(envs: Seq<Seq<char>>, command: Seq<Seq<char>>)
    ensures
        command.is_suffix_of(spec_wrap_command(envs, command)),
        envs.len() == 0 ==> spec_wrap_command(envs, command) == command,
{
    let w = spec_wrap_command(envs, command);
    if command.len() == 0 {
        assert(w.subrange(w.len() - command.len(), w.len() as int) =~= command);
    } else if envs.len() == 0 {
        assert(w.subrange(0, w.len() as int) =~= command);
    } else {
        assert(w.subrange(w.len() - command.len(), w.len() as int) =~= command);
    }
}

// ---------------------------------------------------------------------------
// the real tmux
// ---------------------------------------------------------------------------

/// A `PATH` directory as seen when looking for the real `tmux`: the directory,
/// whether it is the shim's own directory, and whether its `tmux` is an
/// executable file.
pub type TmuxCandidate = (String, bool, bool);

/// A directory to hand over to: not the shim's own directory (which would
/// exec the shim again, endlessly) and holding an executable `tmux`.
pub open spec fn usable_candidate() -> spec_fn((Seq<char>, bool, bool)) -> bool {
    |c: (Seq<char>, bool, bool)| !c.1 && c.2
}

/// The views of the candidates.
pub open spec fn candidate_views(c: Seq<TmuxCandidate>) -> Seq<(Seq<char>, bool, bool)> {
    c.map_values(|t: TmuxCandidate| (t.0@, t.1, t.2))
}

/// The real `tmux`: `tmux` inside the first usable directory in `PATH` order.
pub open spec fn spec_pick_real_tmux(cands: Seq<(Seq<char>, bool, bool)>) -> Option<Seq<char>> {
    match first_where(cands, usable_candidate()) {
        Some(c) => Some(path_join(c.0, "tmux"@)),
        None => None,
    }
}

/// The `tmux` file inside directory `dir`.
pub fn tmux_candidate(dir: &str) -> (r: String)
    ensures
        r@ == path_join(dir@, "tmux"@),
{
    let name = chars_of("tmux");
    let v = join_path(dir, name);
    string_of(&v)
}

/// The real `tmux` among the `PATH` candidates, in order.
pub fn pick_real_tmux(cands: &[TmuxCandidate]) -> (r: Option<String>)
    ensures
        crate::text::opt_view(r) == spec_pick_real_tmux(candidate_views(cands@)),
{
    let ghost cv = candidate_views(cands@);
    let mut i: usize = 0;
    while i < cands.len()
        invariant
            i <= cands.len(),
            cv == candidate_views(cands@),
            forall|j: int| 0 <= j < i ==> !usable_candidate()(#[trigger] cv[j]),
        decreases cands.len() - i,
    {
        if !cands[i].1 && cands[i].2 {
            proof {
                lemma_first_index_is(cv, usable_candidate(), i as int);
            }
            return Some(tmux_candidate(cands[i].0.as_str()));
        }
        i = i + 1;
    }
    proof {
        lemma_first_index_none(cv, usable_candidate());
    }
    None
}

/// The shim never hands over to itself: the `tmux` it picks lies in a
/// directory that is not its own and whose `tmux` is executable.
pub proof fn law_never_picks_own_dir(cands: Seq<(Seq<char>, bool, bool)>)
    ensures
        spec_pick_real_tmux(cands) matches Some(t) ==> exists|k: int|
            0 <= k < cands.len() && !(#[trigger] cands[k]).1 && cands[k].2 && t == path_join(
                cands[k].0,
                "tmux"@,
            ),
{
    crate::search::lemma_first_index(cands, usable_candidate());
}

} // verus!
