//! Live zellij session resolution.
//!
//! When the user renames the running zellij session, every process keeps a
//! stale `$ZELLIJ_SESSION_NAME`. This module resolves the LIVE session name by
//! probing `zellij list-sessions -n`, so that every action can be scoped with
//! `zellij --session <resolved> action ...` and never targets a dead session.
//!
//! [`resolve_from`] is the pure resolver for the fast path and the
//! unambiguous single-session case. [`resolve_session_in`] additionally drives
//! the [`cache`] multi-session rename recovery and, failing that, a pane
//! probe that finds our own pane among the live sessions. Like the command
//! handlers it is a decision function over the replies received so far.
pub mod cache;

use cache::{law_recovery_is_live_and_stable, recover_at, record_at, record_stage, recover_stage};
use crate::error::{ErrView, ShimError};
use crate::exchange::{output_of, panes_of, panes_reply, zellij, Expect, Progress, Reply, Request, RequestView, Stage, Step, StepView};
use crate::search::{keep, lemma_keep_take, lemma_take_full};
use crate::text::{
    chars_of, contains, contains_exec, find, find_from_exec, lemma_find_from_sound, lines,
    lines_exec, lemma_trim_idempotent, opt_view, slice, string_of, trim, trim_chars, views,
};
use crate::zellij::client::Client;
use crate::zellij::types::PaneInfo;
use vstd::prelude::*;
use vstd::string::*;

verus! {

// ---------------------------------------------------------------------------
// list-sessions
// ---------------------------------------------------------------------------

/// The session name on one `list-sessions -n` line: the text before
/// `" [Created"`, trimmed.
pub open spec fn session_name_of(line: Seq<char>) -> Seq<char> {
    trim(
        match find(line, " [Created"@) {
            Some(i) => line.take(i),
            None => line,
        },
    )
}

/// The names of the live sessions among `ls`, in order: lines that do not
/// contain `"(EXITED"` and whose name is not empty. The `"(current)"` marker is
/// ignored (it is derived from the possibly stale env name).
pub open spec fn live_names(ls: Seq<Seq<char>>) -> Seq<Seq<char>>
    decreases ls.len(),
{
    if ls.len() == 0 {
        seq![]
    } else {
        let rest = live_names(ls.drop_last());
        let l = ls.last();
        if !contains(l, "(EXITED"@) && session_name_of(l).len() > 0 {
            rest.push(session_name_of(l))
        } else {
            rest
        }
    }
}

/// The live sessions listed by `zellij list-sessions -n` output.
pub open spec fn live_sessions(stdout: Seq<char>) -> Seq<Seq<char>> {
    live_names(lines(stdout))
}

/// Parse `zellij list-sessions -n` stdout into the names of the live
/// (non-exited) sessions, preserving order.
pub fn parse_live_sessions(stdout: &str) -> (r: Vec<String>)
    ensures
        views(r@) == live_sessions(stdout@),
{
    let v = chars_of(stdout);
    let ls = lines_exec(&v);
    let ghost lv = ls@.map_values(|l: Vec<char>| l@);
    let exited = chars_of("(EXITED");
    let created = chars_of(" [Created");
    let mut r: Vec<String> = Vec::new();
    let mut i: usize = 0;
    while i < ls.len()
        invariant
            i <= ls.len(),
            lv == ls@.map_values(|l: Vec<char>| l@),
            lv == lines(stdout@),
            exited@ == "(EXITED"@,
            created@ == " [Created"@,
            views(r@) == live_names(lv.take(i as int)),
        decreases ls.len() - i,
    {
        let line = &ls[i];
        assert(lv.take(i + 1).drop_last() =~= lv.take(i as int));
        assert(lv.take(i + 1).last() == line@);
        proof {
            lemma_find_from_sound(line@, created@, 0);
        }
        let head = match find_from_exec(line, &created, 0) {
            Some(k) => slice(line, 0, k),
            None => slice(line, 0, line.len()),
        };
        assert(head@ =~= (match find(line@, " [Created"@) {
            Some(k) => line@.take(k),
            None => line@,
        }));
        let name = trim_chars(&head);
        let ghost prev = r@;
        if !contains_exec(line, &exited) && name.len() > 0 {
            r.push(string_of(&name));
            assert(views(r@) =~= views(prev).push(name@));
        }
        i = i + 1;
    }
    assert(lv.take(ls.len() as int) =~= lv);
    r
}

/// The request `zellij list-sessions -n` (never scoped to a session).
pub open spec fn list_sessions_req() -> RequestView {
    zellij(seq!["list-sessions"@, "-n"@], Expect::Text)
}

/// The live sessions a `list-sessions -n` reply reports: an unsuccessful run
/// is `ZellijExit` with its stderr; a failure to run is passed on.
pub open spec fn live_of(r: Reply) -> Result<Seq<Seq<char>>, ErrView> {
    match r {
        Reply::Output(o) => if o.success {
            Ok(live_sessions(o.stdout@))
        } else {
            Err(ErrView::ZellijExit { code: 1, stderr: o.stderr@ })
        },
        Reply::Failed(e) => Err(e@),
        _ => Err(ErrView::BadArgs("unexpected reply from zellij"@)),
    }
}

/// `zellij list-sessions -n`.
pub fn list_sessions_request() -> (r: Request)
    ensures
        r@ == list_sessions_req(),
{
    let args = crate::text::strs(&["list-sessions", "-n"]);
    proof {
        assert(views(args@) =~= seq!["list-sessions"@, "-n"@]) by {
            assert(["list-sessions", "-n"]@.map_values(|s: &str| s@) =~= seq![
                "list-sessions"@,
                "-n"@,
            ]);
        }
    }
    Request::Zellij { args, expect: Expect::Text }
}

/// The live sessions a `list-sessions -n` reply reports. Only a failure to
/// run zellij, or an unsuccessful run, is an error; empty or unrecognised
/// output is an empty list.
pub fn list_live_sessions(reply: &Reply) -> (r: Result<Vec<String>, ShimError>)
    ensures
        match r {
            Ok(v) => live_of(*reply) == Ok::<Seq<Seq<char>>, ErrView>(views(v@)),
            Err(e) => live_of(*reply) == Err::<Seq<Seq<char>>, ErrView>(e@),
        },
{
    let out = match output_of(reply) {
        Ok(o) => o,
        Err(e) => return Err(e),
    };
    if !out.success {
        return Err(ShimError::ZellijExit { code: 1, stderr: out.stderr.clone() });
    }
    Ok(parse_live_sessions(out.stdout.as_str()))
}

// ---------------------------------------------------------------------------
// the pure resolver
// ---------------------------------------------------------------------------

/// An optional name as text, empty when absent.
pub open spec fn or_empty(name: Option<Seq<char>>) -> Seq<char> {
    match name {
        Some(n) => n,
        None => Seq::<char>::empty(),
    }
}

/// The env name when it is live (no rename); else the only live session
/// (a running shim's session is alive, so a stale env name means a rename
/// and the sole live session is ours); else `NoSuchSession`.
pub open spec fn resolved_from(env_name: Option<Seq<char>>, live: Seq<Seq<char>>) -> Result<
    Seq<char>,
    ErrView,
> {
    if env_name is Some && live.contains(env_name.unwrap()) {
        Ok(env_name.unwrap())
    } else if live.len() == 1 {
        Ok(live[0])
    } else {
        Err(ErrView::NoSuchSession(or_empty(env_name)))
    }
}

/// Whether `name` is among `live`.
pub fn is_live(live: &[String], name: &str) -> (b: bool)
    ensures
        b == views(live@).contains(name@),
{
    let n = chars_of(name);
    let mut i: usize = 0;
    while i < live.len()
        invariant
            i <= live.len(),
            n@ == name@,
            forall|j: int| 0 <= j < i ==> live@[j]@ != name@,
        decreases live.len() - i,
    {
        let s = chars_of(live[i].as_str());
        if crate::text::eq_chars(&s, &n) {
            assert(views(live@)[i as int] == name@);
            return true;
        }
        i = i + 1;
    }
    proof {
        if views(live@).contains(name@) {
            let j = choose|j: int| 0 <= j < views(live@).len() && views(live@)[j] == name@;
            assert(live@[j]@ == name@);
        }
    }
    false
}

fn name_or_empty(name: Option<&str>) -> (r: String)
    ensures
        r@ == or_empty(crate::cli::args::opt_str_view(name)),
{
    match name {
        Some(n) => String::from_str(n),
        None => String::new(),
    }
}

/// Resolve the live session from the env name and the live set.
pub fn resolve_from(env_name: Option<&str>, live: &[String]) -> (r: Result<String, ShimError>)
    ensures
        match r {
            Ok(s) => resolved_from(crate::cli::args::opt_str_view(env_name), views(live@))
                == Ok::<Seq<char>, ErrView>(s@),
            Err(e) => resolved_from(crate::cli::args::opt_str_view(env_name), views(live@))
                == Err::<Seq<char>, ErrView>(e@),
        },
{
    match env_name {
        Some(n) => if is_live(live, n) {
            return Ok(String::from_str(n));
        },
        None => {},
    }
    if live.len() == 1 {
        return Ok(live[0].clone());
    }
    Err(ShimError::NoSuchSession(name_or_empty(env_name)))
}

/// What the pure resolver returns is a live session.
pub proof fn law_resolved_from_is_live(env_name: Option<Seq<char>>, live: Seq<Seq<char>>)
    ensures
        resolved_from(env_name, live) matches Ok(s) ==> live.contains(s),
{
    if !(env_name is Some && live.contains(env_name.unwrap())) && live.len() == 1 {
        assert(live[0] == live[0]);
    }
}

// ---------------------------------------------------------------------------
// the pane probe
// ---------------------------------------------------------------------------

/// A pane that could be ours: a tiled terminal pane with our pane id and a
/// known working directory. Focus and command are not considered: both
/// collide across sessions.
pub open spec fn probe_candidate(pane_id: i64) -> spec_fn(PaneInfo) -> bool {
    |p: PaneInfo| !p.is_plugin && !p.is_floating && p.id == pane_id && p.pane_cwd is Some
}

/// The working directories of the candidate panes, in order.
pub open spec fn candidate_cwds(panes: Seq<PaneInfo>, pane_id: i64) -> Seq<Seq<char>> {
    keep(panes, probe_candidate(pane_id)).map_values(|p: PaneInfo| p.pane_cwd.unwrap()@)
}

/// `s` without its trailing slashes.
pub open spec fn trim_end_slashes(s: Seq<char>) -> Seq<char>
    decreases s.len(),
{
    if s.len() > 0 && s.last() == '/' {
        trim_end_slashes(s.drop_last())
    } else {
        s
    }
}

/// The canonical path a reply carries, if any.
pub open spec fn canonical_of(r: Reply) -> Option<Seq<char>> {
    match r {
        Reply::Canonical(o) => opt_view(o),
        _ => None,
    }
}

/// Two paths name the same place: their canonical forms are equal when both
/// resolve, else they are equal up to trailing slashes.
pub open spec fn same_path(a: Seq<char>, b: Seq<char>, ca: Option<Seq<char>>, cb: Option<Seq<char>>) -> bool {
    match (ca, cb) {
        (Some(x), Some(y)) => x == y,
        _ => trim_end_slashes(a) == trim_end_slashes(b),
    }
}

/// Whether one of the candidate directories `cwds` is `cwd`, reading replies
/// from `pos`: each candidate costs two canonicalisations (its directory, then
/// ours), and the scan stops at the first match.
pub open spec fn scan_stage(replies: Seq<Reply>, pos: int, cwds: Seq<Seq<char>>, cwd: Seq<char>) -> Stage<bool>
    decreases cwds.len(),
{
    if cwds.len() == 0 {
        Stage::Over(false, pos)
    } else if replies.len() <= pos {
        Stage::Ask(RequestView::Canonical { path: cwds[0] })
    } else if replies.len() <= pos + 1 {
        Stage::Ask(RequestView::Canonical { path: cwd })
    } else if same_path(cwds[0], cwd, canonical_of(replies[pos]), canonical_of(replies[pos + 1])) {
        Stage::Over(true, pos + 2)
    } else {
        scan_stage(replies, pos + 2, cwds.drop_first(), cwd)
    }
}

/// The pane list of session `name`.
pub open spec fn session_panes_req(name: Seq<char>) -> RequestView {
    zellij(
        seq!["--session"@, name, "action"@, "list-panes"@, "--all"@, "--json"@],
        Expect::Panes,
    )
}

/// The probe from the `i`-th live session on, reading replies from `pos`,
/// with `hit` the session found so far. A session whose pane list cannot be
/// had (it may die mid-probe) is no match; a second match makes the probe
/// ambiguous and it gives up.
pub open spec fn probe_stage(
    replies: Seq<Reply>,
    pos: int,
    live: Seq<Seq<char>>,
    i: int,
    pane_id: i64,
    cwd: Seq<char>,
    hit: Option<Seq<char>>,
) -> Stage<Option<Seq<char>>>
    decreases live.len() - i,
{
    if i < 0 || i >= live.len() {
        Stage::Over(hit, pos)
    } else if replies.len() <= pos {
        Stage::Ask(session_panes_req(live[i]))
    } else {
        match panes_reply(replies[pos]) {
            Err(_) => probe_stage(replies, pos + 1, live, i + 1, pane_id, cwd, hit),
            Ok(panes) => match scan_stage(replies, pos + 1, candidate_cwds(panes, pane_id), cwd) {
                Stage::Ask(q) => Stage::Ask(q),
                Stage::Over(ours, p) => if !ours {
                    probe_stage(replies, p, live, i + 1, pane_id, cwd, hit)
                } else if hit is Some {
                    Stage::Over(None, p)
                } else {
                    probe_stage(replies, p, live, i + 1, pane_id, cwd, Some(live[i]))
                },
            },
        }
    }
}

/// The pane probe: identify our session as the only live session holding a
/// pane with our id whose working directory is ours. Pane ids are per session,
/// so the directory is what tells sessions apart; without a known working
/// directory the probe declines.
pub open spec fn probe(
    replies: Seq<Reply>,
    pos: int,
    live: Seq<Seq<char>>,
    pane_id: i64,
    cwd: Option<Seq<char>>,
) -> Stage<Option<Seq<char>>> {
    match cwd {
        None => Stage::Over(None, pos),
        Some(c) => probe_stage(replies, pos, live, 0, pane_id, c, None),
    }
}

fn candidates(panes: &[PaneInfo], pane_id: i64) -> (r: Vec<String>)
    ensures
        views(r@) == candidate_cwds(panes@, pane_id),
{
    let ghost p = probe_candidate(pane_id);
    let mut r: Vec<String> = Vec::new();
    let mut i: usize = 0;
    while i < panes.len()
        invariant
            i <= panes.len(),
            p == probe_candidate(pane_id),
            views(r@) == candidate_cwds(panes@.take(i as int), pane_id),
        decreases panes.len() - i,
    {
        proof {
            lemma_keep_take(panes@, p, i as int);
        }
        let q = &panes[i];
        let ghost prev = r@;
        if !q.is_plugin && !q.is_floating && q.id == pane_id {
            match &q.pane_cwd {
                Some(c) => {
                    r.push(c.clone());
                    assert(views(r@) =~= views(prev).push(c@));
                },
                None => {},
            }
        }
        i = i + 1;
        assert(views(r@) =~= candidate_cwds(panes@.take(i as int), pane_id));
    }
    proof {
        lemma_take_full(panes@);
    }
    r
}

fn without_trailing_slashes(s: &str) -> (r: Vec<char>)
    ensures
        r@ == trim_end_slashes(s@),
{
    let mut v = chars_of(s);
    while v.len() > 0 && v[v.len() - 1] == '/'
        invariant
            trim_end_slashes(v@) == trim_end_slashes(s@),
        decreases v.len(),
    {
        v.pop();
    }
    v
}

fn canonical_in(r: &Reply) -> (o: Option<&String>)
    ensures
        match o {
            Some(x) => canonical_of(*r) == Some(x@),
            None => canonical_of(*r) is None,
        },
{
    match r {
        Reply::Canonical(Some(x)) => Some(x),
        _ => None,
    }
}

fn same(a: &str, b: &str, ra: &Reply, rb: &Reply) -> (r: bool)
    ensures
        r == same_path(a@, b@, canonical_of(*ra), canonical_of(*rb)),
{
    match (canonical_in(ra), canonical_in(rb)) {
        (Some(x), Some(y)) => {
            let xv = chars_of(x.as_str());
            let yv = chars_of(y.as_str());
            crate::text::eq_chars(&xv, &yv)
        },
        _ => {
            let x = without_trailing_slashes(a);
            let y = without_trailing_slashes(b);
            crate::text::eq_chars(&x, &y)
        },
    }
}

fn scan_at(cwds: &Vec<String>, cwd: &str, replies: &[Reply], start: usize) -> (p: Progress<bool>)
    requires
        start <= replies.len(),
    ensures
        match p {
            Progress::Ask(q) => scan_stage(replies@, start as int, views(cwds@), cwd@) == Stage::<bool>::Ask(q@),
            Progress::Over(b, k) => scan_stage(replies@, start as int, views(cwds@), cwd@) == Stage::<bool>::Over(b, k as int)
                && start <= k <= replies.len(),
        },
{
    let ghost whole = scan_stage(replies@, start as int, views(cwds@), cwd@);
    let mut j: usize = 0;
    let mut pos = start;
    assert(views(cwds@).skip(0) =~= views(cwds@));
    while j < cwds.len()
        invariant
            j <= cwds.len(),
            start <= pos <= replies.len(),
            whole == scan_stage(replies@, start as int, views(cwds@), cwd@),
            whole == scan_stage(replies@, pos as int, views(cwds@).skip(j as int), cwd@),
        decreases cwds.len() - j,
    {
        assert(views(cwds@).skip(j as int)[0] == cwds@[j as int]@);
        if replies.len() <= pos {
            return Progress::Ask(Request::Canonical { path: cwds[j].clone() });
        }
        if replies.len() - pos <= 1 {
            return Progress::Ask(Request::Canonical { path: String::from_str(cwd) });
        }
        if same(cwds[j].as_str(), cwd, &replies[pos], &replies[pos + 1]) {
            return Progress::Over(true, pos + 2);
        }
        assert(views(cwds@).skip(j as int).drop_first() =~= views(cwds@).skip(j + 1));
        pos = pos + 2;
        j = j + 1;
    }
    assert(views(cwds@).skip(j as int) =~= Seq::<Seq<char>>::empty());
    Progress::Over(false, pos)
}

fn session_panes_request(name: &String) -> (r: Request)
    ensures
        r@ == session_panes_req(name@),
{
    let c = Client::new(name.clone());
    let r = c.list_panes();
    assert(c.scope() + seq!["action"@, "list-panes"@, "--all"@, "--json"@] =~= seq![
        "--session"@,
        name@,
        "action"@,
        "list-panes"@,
        "--all"@,
        "--json"@,
    ]);
    r
}

/// The pane probe, reading replies from `start`.
fn probe_at(live: &[String], pane_id: i64, cwd: Option<&str>, replies: &[Reply], start: usize) -> (p:
    Progress<Option<String>>)
    requires
        start <= replies.len(),
    ensures
        match p {
            Progress::Ask(q) => probe(replies@, start as int, views(live@), pane_id, crate::cli::args::opt_str_view(cwd))
                == Stage::<Option<Seq<char>>>::Ask(q@),
            Progress::Over(v, k) => probe(replies@, start as int, views(live@), pane_id, crate::cli::args::opt_str_view(cwd))
                == Stage::<Option<Seq<char>>>::Over(opt_view(v), k as int) && k <= replies.len(),
        },
{
    let here = match cwd {
        Some(c) => c,
        None => return Progress::Over(None, start),
    };
    let ghost whole = probe(replies@, start as int, views(live@), pane_id, Some(here@));
    let mut hit: Option<String> = None;
    let mut i: usize = 0;
    let mut pos = start;
    while i < live.len()
        invariant
            i <= live.len(),
            pos <= replies.len(),
            crate::cli::args::opt_str_view(cwd) == Some(here@),
            whole == probe(replies@, start as int, views(live@), pane_id, Some(here@)),
            whole == probe_stage(replies@, pos as int, views(live@), i as int, pane_id, here@, opt_view(hit)),
        decreases live.len() - i,
    {
        assert(views(live@)[i as int] == live@[i as int]@);
        if replies.len() <= pos {
            return Progress::Ask(session_panes_request(&live[i]));
        }
        match panes_of(&replies[pos]) {
            Err(_) => {
                pos = pos + 1;
            },
            Ok(panes) => {
                let cands = candidates(panes.as_slice(), pane_id);
                match scan_at(&cands, here, replies, pos + 1) {
                    Progress::Ask(q) => return Progress::Ask(q),
                    Progress::Over(ours, k) => {
                        pos = k;
                        if ours {
                            if hit.is_some() {
                                return Progress::Over(None, pos);
                            }
                            hit = Some(live[i].clone());
                        }
                    },
                }
            },
        }
        i = i + 1;
    }
    Progress::Over(hit, pos)
}

// ---------------------------------------------------------------------------
// the orchestrator
// ---------------------------------------------------------------------------

/// The env name, or `"zellij"` when there is none.
pub open spec fn env_or_default(env_name: Option<Seq<char>>) -> Seq<char> {
    match env_name {
        Some(n) => n,
        None => "zellij"@,
    }
}

/// After recovery from the cache gave nothing (reading replies from `pos`):
/// the pane probe, whose find is recorded under the stale env name so later
/// calls hit the ledger; otherwise `NoSuchSession`.
pub open spec fn after_recovery(
    env_name: Option<Seq<char>>,
    cache_dir: Option<Seq<char>>,
    pane_id: Option<i64>,
    cwd: Option<Seq<char>>,
    live: Seq<Seq<char>>,
    replies: Seq<Reply>,
    pos: int,
) -> StepView<Seq<char>> {
    match pane_id {
        None => StepView::Done(Err(ErrView::NoSuchSession(or_empty(env_name)))),
        Some(pid) => match probe(replies, pos, live, pid, cwd) {
            Stage::Ask(q) => StepView::Call(q),
            Stage::Over(None, _) => StepView::Done(Err(ErrView::NoSuchSession(or_empty(env_name)))),
            Stage::Over(Some(r), k) => if env_name is Some && cache_dir is Some {
                match record_stage(replies, k, cache_dir.unwrap(), env_name.unwrap(), live, r) {
                    Stage::Ask(q) => StepView::Call(q),
                    Stage::Over(_, _) => StepView::Done(Ok(r)),
                }
            } else {
                StepView::Done(Ok(r))
            },
        },
    }
}

/// Resolve the live session: list the live sessions (degrading to the env
/// name, or `"zellij"`, when that fails or lists none); the env name when it
/// is live (recorded in the cache); the only live session; a recovery from
/// the cache; the pane probe; else `NoSuchSession`.
pub open spec fn resolve_stage(
    env_name: Option<Seq<char>>,
    cache_dir: Option<Seq<char>>,
    pane_id: Option<i64>,
    cwd: Option<Seq<char>>,
    replies: Seq<Reply>,
) -> StepView<Seq<char>> {
    if replies.len() == 0 {
        StepView::Call(list_sessions_req())
    } else {
        match live_of(replies[0]) {
            Err(_) => StepView::Done(Ok(env_or_default(env_name))),
            Ok(live) => if live.len() == 0 {
                StepView::Done(Ok(env_or_default(env_name)))
            } else if env_name is Some && live.contains(env_name.unwrap()) {
                match cache_dir {
                    Some(d) => match record_stage(replies, 1, d, env_name.unwrap(), live, env_name.unwrap()) {
                        Stage::Ask(q) => StepView::Call(q),
                        Stage::Over(_, _) => StepView::Done(Ok(env_name.unwrap())),
                    },
                    None => StepView::Done(Ok(env_name.unwrap())),
                }
            } else if live.len() == 1 {
                StepView::Done(Ok(live[0]))
            } else {
                let rec = if env_name is Some && cache_dir is Some {
                    recover_stage(replies, 1, cache_dir.unwrap(), env_name.unwrap(), live)
                } else {
                    Stage::Over(None, 1)
                };
                match rec {
                    Stage::Ask(q) => StepView::Call(q),
                    Stage::Over(Some(r), _) => StepView::Done(Ok(r)),
                    Stage::Over(None, p) => after_recovery(env_name, cache_dir, pane_id, cwd, live, replies, p),
                }
            },
        }
    }
}

fn env_or_zellij(env_name: Option<&str>) -> (r: String)
    ensures
        r@ == env_or_default(crate::cli::args::opt_str_view(env_name)),
{
    match env_name {
        Some(n) => String::from_str(n),
        None => String::from_str("zellij"),
    }
}

fn no_such_session(env_name: Option<&str>) -> (e: ShimError)
    ensures
        e@ == ErrView::NoSuchSession(or_empty(crate::cli::args::opt_str_view(env_name))),
{
    ShimError::NoSuchSession(name_or_empty(env_name))
}

/// The next step of resolving the live session name from the env name
/// `$ZELLIJ_SESSION_NAME`, the cache directory (`None` disables the cache),
/// our own pane id and working directory, given the replies so far.
pub fn resolve_session_in(
    env_name: Option<&str>,
    cache_dir: Option<&str>,
    pane_id: Option<i64>,
    cwd: Option<&str>,
    replies: &[Reply],
) -> (s: Step<String>)
    ensures
        s@ == resolve_stage(
            crate::cli::args::opt_str_view(env_name),
            crate::cli::args::opt_str_view(cache_dir),
            pane_id,
            crate::cli::args::opt_str_view(cwd),
            replies@,
        ),
{
    if replies.len() == 0 {
        return Step::Call(list_sessions_request());
    }
    let live = match list_live_sessions(&replies[0]) {
        Ok(v) => v,
        Err(_) => return Step::Done(Ok(env_or_zellij(env_name))),
    };
    if live.len() == 0 {
        return Step::Done(Ok(env_or_zellij(env_name)));
    }
    match env_name {
        Some(n) => if is_live(live.as_slice(), n) {
            return match cache_dir {
                Some(d) => match record_at(d, n, live.as_slice(), n, replies, 1) {
                    Progress::Ask(q) => Step::Call(q),
                    Progress::Over(_, _) => Step::Done(Ok(String::from_str(n))),
                },
                None => Step::Done(Ok(String::from_str(n))),
            };
        },
        None => {},
    }
    if live.len() == 1 {
        assert(views(live@)[0] == live@[0]@);
        return Step::Done(Ok(live[0].clone()));
    }
    let next = match (env_name, cache_dir) {
        (Some(n), Some(d)) => match recover_at(d, n, live.as_slice(), replies, 1) {
            Progress::Ask(q) => return Step::Call(q),
            Progress::Over(Some(r), _) => return Step::Done(Ok(r)),
            Progress::Over(None, k) => k,
        },
        _ => 1,
    };
    let pid = match pane_id {
        Some(p) => p,
        None => return Step::Done(Err(no_such_session(env_name))),
    };
    match probe_at(live.as_slice(), pid, cwd, replies, next) {
        Progress::Ask(q) => Step::Call(q),
        Progress::Over(None, _) => Step::Done(Err(no_such_session(env_name))),
        Progress::Over(Some(r), k) => match (env_name, cache_dir) {
            (Some(n), Some(d)) => match record_at(d, n, live.as_slice(), r.as_str(), replies, k) {
                Progress::Ask(q) => Step::Call(q),
                Progress::Over(_, _) => Step::Done(Ok(r)),
            },
            _ => Step::Done(Ok(r)),
        },
    }
}

// ---------------------------------------------------------------------------
// laws
// ---------------------------------------------------------------------------

proof fn lemma_probe_finds_live(
    replies: Seq<Reply>,
    pos: int,
    live: Seq<Seq<char>>,
    i: int,
    pane_id: i64,
    cwd: Seq<char>,
    hit: Option<Seq<char>>,
)
    requires
        hit matches Some(h) ==> live.contains(h),
    ensures
        probe_stage(replies, pos, live, i, pane_id, cwd, hit) matches Stage::Over(Some(r), _) ==> live.contains(r),
    decreases live.len() - i,
{
    if 0 <= i < live.len() && replies.len() > pos {
        match panes_reply(replies[pos]) {
            Err(_) => lemma_probe_finds_live(replies, pos + 1, live, i + 1, pane_id, cwd, hit),
            Ok(panes) => match scan_stage(replies, pos + 1, candidate_cwds(panes, pane_id), cwd) {
                Stage::Ask(_) => {},
                Stage::Over(ours, p) => if !ours {
                    lemma_probe_finds_live(replies, p, live, i + 1, pane_id, cwd, hit);
                } else if hit is None {
                    assert(live.contains(live[i]));
                    lemma_probe_finds_live(replies, p, live, i + 1, pane_id, cwd, Some(live[i]));
                },
            },
        }
    }
}

/// The shim never targets a dead session: whenever zellij lists live
/// sessions, the name resolved is one of them; only when the listing fails or
/// is empty does it fall back to the env name, or `"zellij"` without one.
pub proof fn law_resolved_session_is_live(
    env_name: Option<Seq<char>>,
    cache_dir: Option<Seq<char>>,
    pane_id: Option<i64>,
    cwd: Option<Seq<char>>,
    replies: Seq<Reply>,
)
    ensures
        resolve_stage(env_name, cache_dir, pane_id, cwd, replies) matches StepView::Done(Ok(r)) ==> (
        match live_of(replies[0]) {
            Ok(live) => if live.len() > 0 {
                live.contains(r)
            } else {
                r == env_or_default(env_name)
            },
            Err(_) => r == env_or_default(env_name),
        }),
{
    if replies.len() > 0 {
        match live_of(replies[0]) {
            Ok(live) => {
                if live.len() == 1 {
                    assert(live.contains(live[0]));
                }
                if env_name is Some && cache_dir is Some {
                    law_recovery_is_live_and_stable(
                        replies,
                        1,
                        cache_dir.unwrap(),
                        env_name.unwrap(),
                        live,
                        replies,
                        0,
                        0,
                    );
                }
                let rec = if env_name is Some && cache_dir is Some {
                    recover_stage(replies, 1, cache_dir.unwrap(), env_name.unwrap(), live)
                } else {
                    Stage::Over(None, 1)
                };
                match (rec, pane_id, cwd) {
                    (Stage::Over(None, p), Some(pid), Some(c)) => {
                        lemma_probe_finds_live(replies, p, live, 0, pid, c, None);
                    },
                    _ => {},
                }
            },
            Err(_) => {},
        }
    }
}

proof fn lemma_live_names_trimmed(ls: Seq<Seq<char>>)
    ensures
        forall|k: int| 0 <= k < live_names(ls).len() ==> #[trigger] live_names(ls)[k].len() > 0
            && trim(live_names(ls)[k]) == live_names(ls)[k],
    decreases ls.len(),
{
    if ls.len() > 0 {
        lemma_live_names_trimmed(ls.drop_last());
        let l = ls.last();
        let head = match find(l, " [Created"@) {
            Some(i) => l.take(i),
            None => l,
        };
        lemma_trim_idempotent(head);
        assert(session_name_of(l) == trim(head));
        let rest = live_names(ls.drop_last());
        assert forall|k: int| 0 <= k < live_names(ls).len() implies #[trigger] live_names(ls)[k].len() > 0
            && trim(live_names(ls)[k]) == live_names(ls)[k] by {
            if k < rest.len() {
                assert(live_names(ls)[k] == rest[k]);
            }
        }
    }
}

/// Every session name parsed from `list-sessions -n` output is non-empty and
/// carries no surrounding whitespace.
pub proof fn law_live_names_are_trimmed(stdout: Seq<char>)
    ensures
        forall|k: int| 0 <= k < live_sessions(stdout).len() ==> #[trigger] live_sessions(stdout)[k].len() > 0
            && trim(live_sessions(stdout)[k]) == live_sessions(stdout)[k],
{
    lemma_live_names_trimmed(lines(stdout));
}

} // verus!
