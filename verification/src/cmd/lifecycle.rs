//! Lifecycle handlers: creating and destroying panes, windows (zellij tabs),
//! and sessions (tab-name namespaces).
use super::select::{tab_for, tab_or_active, target_text};
use super::query::{list_panes_req, list_tabs_req, no_active_tab};
use super::{line_out, ok_out, perform_actions, request_views, run_actions, stderr_out, Ctx, Output, OutputView};
use crate::cli::args::{flag_value, flag_values, has_flag, InvocationView, ParsedInvocation};
use crate::env::{spec_wrap_command, wrap_command};
use crate::error::{cat, res_view, ErrView, ShimError};
use crate::exchange::{panes_of, panes_reply, tabs_of, tabs_reply, zellij, Expect, Reply, Request, RequestView, Step, StepView};
use crate::format::context::{build, pane_context};
use crate::format::render::{render, spec_render};
use crate::idmap::{
    compose_session_tab_name, is_session_tab, parse_pane_int, parse_window, pane_int_from_env,
    session_tab_prefix, spec_is_session_tab, spec_session_prefix, spec_terminal_id,
    spec_tmux_pane_id, terminal_id, tmux_pane_id, zellij_pane_target, zellij_tab_from_window,
};
use crate::search::{first_where, keep, lemma_keep_take, lemma_take_full};
use crate::text::{chars_of, clone_strings, concat_strings, int_str, int_string, is, parse_i64, parse_i64_chars, strip_prefix, strip_prefix_exec, strs, views};
use crate::zellij::client::{new_pane_outcome, new_pane_result, new_tab_outcome, new_tab_result, Client};
use crate::zellij::types::{active_tab, is_active_tab, is_terminal_with_id, pane_by_terminal_id, PaneInfo, TabInfo};
use vstd::prelude::*;
use vstd::string::*;

verus! {

// ---------------------------------------------------------------------------
// Commands for new panes
// ---------------------------------------------------------------------------

/// The command to run: a single operand is a shell command line run through
/// `/bin/sh -c`; several operands are an argv run directly.
pub open spec fn shell_command(operands: Seq<Seq<char>>) -> Seq<Seq<char>> {
    if operands.len() == 1 {
        seq!["/bin/sh"@, "-c"@, operands[0]]
    } else {
        operands
    }
}

/// The command of a new pane, with its `-e` environment injected.
pub open spec fn pane_command(inv: InvocationView) -> Seq<Seq<char>> {
    spec_wrap_command(flag_values(inv.flags, 'e'), shell_command(inv.operands))
}

/// `-- <command...>` when there is a command.
pub open spec fn command_args(inv: InvocationView) -> Seq<Seq<char>> {
    if pane_command(inv).len() == 0 {
        seq![]
    } else {
        seq!["--"@] + pane_command(inv)
    }
}

fn shell_command_exec(operands: &[String]) -> (r: Vec<String>)
    ensures
        views(r@) == shell_command(views(operands@)),
{
    if operands.len() == 1 {
        let mut r = strs(&["/bin/sh", "-c"]);
        let ghost prev = r@;
        r.push(operands[0].clone());
        assert(views(r@) =~= views(prev).push(operands@[0]@));
        assert(["/bin/sh", "-c"]@.map_values(|s: &str| s@) =~= seq!["/bin/sh"@, "-c"@]);
        r
    } else {
        clone_strings(operands)
    }
}

fn pane_command_exec(inv: &ParsedInvocation) -> (r: Vec<String>)
    ensures
        views(r@) == pane_command(inv@),
{
    let cmd = shell_command_exec(inv.operands());
    let envs = inv.values_of('e');
    wrap_command(envs.as_slice(), cmd.as_slice())
}

fn append_command(args: Vec<String>, inv: &ParsedInvocation) -> (r: Vec<String>)
    ensures
        views(r@) == views(args@) + command_args(inv@),
{
    let command = pane_command_exec(inv);
    if command.len() == 0 {
        assert(views(args@) + Seq::<Seq<char>>::empty() =~= views(args@));
        args
    } else {
        let dd = strs(&["--"]);
        assert(["--"]@.map_values(|s: &str| s@) =~= seq!["--"@]);
        let tail = concat_strings(dd, &command);
        let r = concat_strings(args, &tail);
        assert(views(r@) =~= views(args@) + command_args(inv@));
        r
    }
}

// ---------------------------------------------------------------------------
// -P: printing what was created
// ---------------------------------------------------------------------------

/// With `-P`, print the new pane: its `%N` id for the default format, else the
/// `-F` format rendered for it (listing the panes and tabs first).
pub open spec fn print_created_step(
    inv: InvocationView,
    c: Client,
    session: Seq<char>,
    pane_id: i64,
    replies: Seq<Reply>,
) -> StepView<OutputView> {
    if !has_flag(inv.flags, 'P') {
        StepView::Done(Ok(ok_out()))
    } else {
        let format = match flag_value(inv.flags, 'F') {
            Some(f) => f,
            None => "#{pane_id}"@,
        };
        if format == "#{pane_id}"@ {
            StepView::Done(Ok(line_out(spec_tmux_pane_id(pane_id))))
        } else if replies.len() == 0 {
            StepView::Call(list_panes_req(c))
        } else {
            match panes_reply(replies[0]) {
                Err(e) => StepView::Done(Err(e)),
                Ok(panes) => if replies.len() == 1 {
                    StepView::Call(list_tabs_req(c))
                } else {
                    match tabs_reply(replies[1]) {
                        Err(e) => StepView::Done(Err(e)),
                        Ok(tabs) => match first_where(panes, is_terminal_with_id(pane_id)) {
                            None => StepView::Done(Ok(line_out(spec_tmux_pane_id(pane_id)))),
                            Some(pane) => match tab_for(tabs, pane.tab_id) {
                                None => StepView::Done(Err(no_active_tab())),
                                Some(tab) => StepView::Done(
                                    Ok(
                                        line_out(
                                            spec_render(
                                                format,
                                                pane_context(pane, tab, panes, session),
                                            ),
                                        ),
                                    ),
                                ),
                            },
                        },
                    }
                },
            }
        }
    }
}

fn print_created(
    inv: &ParsedInvocation,
    client: &Client,
    ctx: &Ctx,
    pane_id: i64,
    replies: &[Reply],
    start: usize,
) -> (s: Step<Output>)
    requires
        start <= replies.len(),
    ensures
        s@ == print_created_step(inv@, *client, ctx.session@, pane_id, replies@.skip(start as int)),
{
    let ghost rest = replies@.skip(start as int);
    if !inv.has('P') {
        return Step::Done(Ok(Output::ok()));
    }
    let format = match inv.value('F') {
        Some(f) => String::from_str(f),
        None => String::from_str("#{pane_id}"),
    };
    let fv = chars_of(format.as_str());
    if is(&fv, "#{pane_id}") {
        return Step::Done(Ok(Output::line(tmux_pane_id(pane_id).as_str())));
    }
    if replies.len() == start {
        return Step::Call(client.list_panes());
    }
    assert(rest[0] == replies@[start as int]);
    let panes = match panes_of(&replies[start]) {
        Ok(p) => p,
        Err(e) => return Step::Done(Err(e)),
    };
    if replies.len() == start + 1 {
        return Step::Call(client.list_tabs());
    }
    assert(rest[1] == replies@[start + 1]);
    let tabs = match tabs_of(&replies[start + 1]) {
        Ok(t) => t,
        Err(e) => return Step::Done(Err(e)),
    };
    let pane = match pane_by_terminal_id(panes.as_slice(), pane_id) {
        Some(p) => p,
        None => return Step::Done(Ok(Output::line(tmux_pane_id(pane_id).as_str()))),
    };
    let tab = match tab_or_active(tabs.as_slice(), pane.tab_id) {
        Some(t) => t,
        None => return Step::Done(Err(ShimError::BadArgs(String::from_str("no active tab")))),
    };
    let text = render(format.as_str(), &build(pane, tab, panes.as_slice(), ctx.session.as_str()));
    Step::Done(Ok(Output::line(text.as_str())))
}

// ---------------------------------------------------------------------------
// split-window
// ---------------------------------------------------------------------------

/// The pane to focus before a directional split: the `-t` target when it
/// names a pane, else the caller's own pane.
pub open spec fn split_focus(inv: InvocationView, current: Option<i64>) -> Option<Seq<char>> {
    match flag_value(inv.flags, 't') {
        Some(target) => match parse_pane_int(target) {
            Some(n) => Some(spec_terminal_id(n)),
            None => None,
        },
        None => match current {
            Some(n) => Some(spec_terminal_id(n)),
            None => None,
        },
    }
}

/// The `new-pane` arguments of a split: direction, working directory, and
/// the command (the login shell when only `-c` is given).
pub open spec fn split_args(inv: InvocationView, login_shell: Seq<char>) -> Seq<Seq<char>> {
    let dir = if has_flag(inv.flags, 'h') {
        "right"@
    } else {
        "down"@
    };
    let cwd = match flag_value(inv.flags, 'c') {
        Some(c) => seq!["--cwd"@, c],
        None => seq![],
    };
    let command = if inv.operands.len() > 0 {
        command_args(inv)
    } else if flag_value(inv.flags, 'c') is Some {
        seq!["--"@, login_shell]
    } else {
        seq![]
    };
    seq!["--direction"@, dir] + cwd + command
}

/// `split-window`: focus the split target (ignoring the outcome), open the new
/// pane, then report it as `-P` asks.
pub open spec fn split_window_step(
    inv: InvocationView,
    c: Client,
    ctx: Ctx,
    replies: Seq<Reply>,
) -> StepView<OutputView> {
    let focus = split_focus(inv, ctx.current_pane);
    let k: int = if focus is Some {
        1
    } else {
        0
    };
    if focus is Some && replies.len() == 0 {
        StepView::Call(
            zellij(c.scope() + seq!["action"@, "focus-pane-id"@, focus.unwrap()], Expect::Text),
        )
    } else if replies.len() == k {
        StepView::Call(
            zellij(
                c.scope() + seq!["action"@, "new-pane"@] + split_args(inv, ctx.login_shell@),
                Expect::Text,
            ),
        )
    } else {
        match new_pane_outcome(replies[k]) {
            Err(e) => StepView::Done(Err(e)),
            Ok(id) => print_created_step(inv, c, ctx.session@, id, replies.skip(k + 1)),
        }
    }
}

fn split_focus_exec(inv: &ParsedInvocation, ctx: &Ctx) -> (r: Option<String>)
    ensures
        crate::text::opt_view(r) == split_focus(inv@, ctx.current_pane),
{
    match inv.value('t') {
        Some(target) => match zellij_pane_target(target) {
            Ok(p) => Some(p),
            Err(_) => None,
        },
        None => match ctx.current_pane {
            Some(n) => Some(terminal_id(n)),
            None => None,
        },
    }
}

fn split_args_exec(inv: &ParsedInvocation, ctx: &Ctx) -> (r: Vec<String>)
    ensures
        views(r@) == split_args(inv@, ctx.login_shell@),
{
    let dir = if inv.has('h') {
        "right"
    } else {
        "down"
    };
    let mut args = strs(&["--direction", dir]);
    assert(["--direction", dir]@.map_values(|s: &str| s@) =~= seq!["--direction"@, dir@]);
    let cwd_given = match inv.value('c') {
        Some(c) => {
            let extra = strs(&["--cwd", c]);
            assert(["--cwd", c]@.map_values(|s: &str| s@) =~= seq!["--cwd"@, c@]);
            args = concat_strings(args, &extra);
            true
        },
        None => false,
    };
    if inv.operands().len() > 0 {
        let r = append_command(args, inv);
        assert(views(r@) =~= split_args(inv@, ctx.login_shell@));
        r
    } else if cwd_given {
        let mut extra = strs(&["--"]);
        assert(["--"]@.map_values(|s: &str| s@) =~= seq!["--"@]);
        let ghost prev = extra@;
        extra.push(ctx.login_shell.clone());
        assert(views(extra@) =~= views(prev).push(ctx.login_shell@));
        let r = concat_strings(args, &extra);
        assert(views(r@) =~= split_args(inv@, ctx.login_shell@));
        r
    } else {
        assert(views(args@) =~= split_args(inv@, ctx.login_shell@));
        args
    }
}

fn split_window(inv: &ParsedInvocation, client: &Client, ctx: &Ctx, replies: &[Reply]) -> (s: Step<
    Output,
>)
    ensures
        s@ == split_window_step(inv@, *client, *ctx, replies@),
{
    let focus = split_focus_exec(inv, ctx);
    let k: usize = if focus.is_some() {
        1
    } else {
        0
    };
    match &focus {
        Some(target) => {
            if replies.len() == 0 {
                return Step::Call(client.focus_pane(target.as_str()));
            }
        },
        None => {},
    }
    if replies.len() == k {
        let args = split_args_exec(inv, ctx);
        return Step::Call(client.new_pane(args.as_slice()));
    }
    let pane_id = match new_pane_result(&replies[k]) {
        Ok(id) => id,
        Err(e) => return Step::Done(Err(e)),
    };
    print_created(inv, client, ctx, pane_id, replies, k + 1)
}

// ---------------------------------------------------------------------------
// new-session / new-window
// ---------------------------------------------------------------------------

/// The smallest id among `panes`.
pub open spec fn min_id(panes: Seq<PaneInfo>) -> Option<i64>
    decreases panes.len(),
{
    if panes.len() == 0 {
        None
    } else {
        match min_id(panes.drop_last()) {
            Some(m) => if panes.last().id < m {
                Some(panes.last().id)
            } else {
                Some(m)
            },
            None => Some(panes.last().id),
        }
    }
}

/// The first pane of tab `tab_id`: the smallest terminal pane id in it.
pub open spec fn tab_first_pane(panes: Seq<PaneInfo>, tab_id: i64) -> Option<i64> {
    min_id(keep(panes, crate::format::context::in_tab(tab_id)))
}

/// Open a tab with `tab_args`, then list the panes to find its first pane;
/// then report it as `-P` asks.
pub open spec fn new_tab_step(
    inv: InvocationView,
    c: Client,
    session: Seq<char>,
    tab_args: Seq<Seq<char>>,
    replies: Seq<Reply>,
) -> StepView<OutputView> {
    if replies.len() == 0 {
        StepView::Call(zellij(c.scope() + seq!["action"@, "new-tab"@] + tab_args, Expect::Text))
    } else {
        match new_tab_outcome(replies[0]) {
            Err(e) => StepView::Done(Err(e)),
            Ok(tab_id) => if replies.len() == 1 {
                StepView::Call(list_panes_req(c))
            } else {
                match panes_reply(replies[1]) {
                    Err(e) => StepView::Done(Err(e)),
                    Ok(panes) => match tab_first_pane(panes, tab_id) {
                        None => StepView::Done(
                            Err(
                                ErrView::BadArgs(
                                    "new tab "@ + int_str(tab_id as int) + " has no pane"@,
                                ),
                            ),
                        ),
                        Some(id) => print_created_step(inv, c, session, id, replies.skip(2)),
                    },
                }
            },
        }
    }
}

fn first_pane_of_tab(panes: &[PaneInfo], tab_id: i64) -> (r: Option<i64>)
    ensures
        r == tab_first_pane(panes@, tab_id),
{
    let ghost p = crate::format::context::in_tab(tab_id);
    let mut best: Option<i64> = None;
    let mut i: usize = 0;
    while i < panes.len()
        invariant
            i <= panes.len(),
            p == crate::format::context::in_tab(tab_id),
            best == min_id(keep(panes@.take(i as int), p)),
        decreases panes.len() - i,
    {
        proof {
            lemma_keep_take(panes@, p, i as int);
        }
        let q = &panes[i];
        if !q.is_plugin && q.tab_id == tab_id {
            let ghost ks = keep(panes@.take(i as int), p).push(*q);
            assert(ks.drop_last() =~= keep(panes@.take(i as int), p));
            best = match best {
                Some(m) => if q.id < m {
                    Some(q.id)
                } else {
                    Some(m)
                },
                None => Some(q.id),
            };
        }
        i = i + 1;
    }
    proof {
        lemma_take_full(panes@);
    }
    best
}

fn new_tab_pane(
    inv: &ParsedInvocation,
    client: &Client,
    ctx: &Ctx,
    tab_args: &[String],
    replies: &[Reply],
    start: usize,
) -> (s: Step<Output>)
    requires
        start <= replies.len(),
    ensures
        s@ == new_tab_step(inv@, *client, ctx.session@, views(tab_args@), replies@.skip(start as int)),
{
    let ghost rest = replies@.skip(start as int);
    if replies.len() == start {
        return Step::Call(client.new_tab(tab_args));
    }
    assert(rest[0] == replies@[start as int]);
    let tab_id = match new_tab_result(&replies[start]) {
        Ok(t) => t,
        Err(e) => return Step::Done(Err(e)),
    };
    if replies.len() == start + 1 {
        return Step::Call(client.list_panes());
    }
    assert(rest[1] == replies@[start + 1]);
    let panes = match panes_of(&replies[start + 1]) {
        Ok(p) => p,
        Err(e) => return Step::Done(Err(e)),
    };
    match first_pane_of_tab(panes.as_slice(), tab_id) {
        None => {
            let mut m = String::from_str("new tab ");
            let t = int_string(tab_id);
            m.append(t.as_str());
            m.append(" has no pane");
            Step::Done(Err(ShimError::BadArgs(m)))
        },
        Some(id) => {
            assert(rest.skip(2) =~= replies@.skip(start + 2));
            print_created(inv, client, ctx, id, replies, start + 2)
        },
    }
}

/// `new-session -s <name>`: a tab named `<name>:1`.
pub open spec fn new_session_step(
    inv: InvocationView,
    c: Client,
    session: Seq<char>,
    replies: Seq<Reply>,
) -> StepView<OutputView> {
    match flag_value(inv.flags, 's') {
        None => StepView::Done(Err(ErrView::BadArgs("new-session requires -s"@))),
        Some(name) => new_tab_step(
            inv,
            c,
            session,
            seq!["--name"@, spec_session_prefix(name) + "1"@] + command_args(inv),
            replies,
        ),
    }
}

fn new_session(inv: &ParsedInvocation, client: &Client, ctx: &Ctx, replies: &[Reply]) -> (s: Step<
    Output,
>)
    ensures
        s@ == new_session_step(inv@, *client, ctx.session@, replies@),
{
    let session = match inv.value('s') {
        Some(s) => s,
        None => return Step::Done(
            Err(ShimError::BadArgs(String::from_str("new-session requires -s"))),
        ),
    };
    let name = compose_session_tab_name(session, "1");
    let mut args = strs(&["--name"]);
    let ghost prev = args@;
    args.push(name);
    assert(views(args@) =~= seq!["--name"@, spec_session_prefix(session@) + "1"@]) by {
        assert(["--name"]@.map_values(|s: &str| s@) =~= seq!["--name"@]);
        assert(views(args@) =~= views(prev).push(spec_session_prefix(session@) + "1"@));
    }
    let args = append_command(args, inv);
    assert(replies@.skip(0) =~= replies@);
    new_tab_pane(inv, client, ctx, args.as_slice(), replies, 0)
}

/// The largest numeric window index among the tabs of `session`.
pub open spec fn max_index(tabs: Seq<TabInfo>, session: Seq<char>) -> Option<i64>
    decreases tabs.len(),
{
    if tabs.len() == 0 {
        None
    } else {
        let rest = max_index(tabs.drop_last(), session);
        match strip_prefix(tabs.last().name@, spec_session_prefix(session)) {
            Some(leaf) => match parse_i64(leaf) {
                Some(n) => match rest {
                    Some(m) => if n > m {
                        Some(n)
                    } else {
                        Some(m)
                    },
                    None => Some(n),
                },
                None => rest,
            },
            None => rest,
        }
    }
}

/// One more than the largest numeric window index of `session` (wrapping at
/// the `i64` bound), 1 when there is none.
pub open spec fn next_window_index_of(tabs: Seq<TabInfo>, session: Seq<char>) -> i64 {
    match max_index(tabs, session) {
        Some(m) => if m == i64::MAX {
            i64::MIN
        } else {
            (m + 1) as i64
        },
        None => 1,
    }
}

fn next_window_index(tabs: &[TabInfo], session: &str) -> (r: i64)
    ensures
        r == next_window_index_of(tabs@, session@),
{
    let prefix = session_tab_prefix(session);
    let pv = chars_of(prefix.as_str());
    let mut best: Option<i64> = None;
    let mut i: usize = 0;
    while i < tabs.len()
        invariant
            i <= tabs.len(),
            pv@ == spec_session_prefix(session@),
            best == max_index(tabs@.take(i as int), session@),
        decreases tabs.len() - i,
    {
        assert(tabs@.take(i + 1).drop_last() =~= tabs@.take(i as int));
        assert(tabs@.take(i + 1).last() == tabs@[i as int]);
        let nv = chars_of(tabs[i].name.as_str());
        match strip_prefix_exec(&nv, &pv) {
            Some(leaf) => match parse_i64_chars(&leaf) {
                Some(n) => {
                    best = match best {
                        Some(m) => if n > m {
                            Some(n)
                        } else {
                            Some(m)
                        },
                        None => Some(n),
                    };
                },
                None => {},
            },
            None => {},
        }
        i = i + 1;
    }
    assert(tabs@.take(tabs.len() as int) =~= tabs@);
    match best {
        Some(m) => m.wrapping_add(1),
        None => 1,
    }
}

/// The tab name of a new window: `-n` or the next free index, scoped to the
/// `-t` session when given (`window` when neither is given).
pub open spec fn window_tab_name(inv: InvocationView, tabs: Seq<TabInfo>) -> Seq<char> {
    let leaf = match flag_value(inv.flags, 'n') {
        Some(n) => n,
        None => match flag_value(inv.flags, 't') {
            Some(session) => int_str(next_window_index_of(tabs, session) as int),
            None => "window"@,
        },
    };
    match flag_value(inv.flags, 't') {
        Some(session) => spec_session_prefix(session) + leaf,
        None => leaf,
    }
}

/// The new window needs the tab list to pick its index.
pub open spec fn needs_index(inv: InvocationView) -> bool {
    flag_value(inv.flags, 'n') is None && flag_value(inv.flags, 't') is Some
}

/// `new-window`: list the tabs when an index must be picked, then open the tab.
pub open spec fn new_window_step(
    inv: InvocationView,
    c: Client,
    session: Seq<char>,
    replies: Seq<Reply>,
) -> StepView<OutputView> {
    if needs_index(inv) {
        if replies.len() == 0 {
            StepView::Call(list_tabs_req(c))
        } else {
            match tabs_reply(replies[0]) {
                Err(e) => StepView::Done(Err(e)),
                Ok(tabs) => new_tab_step(
                    inv,
                    c,
                    session,
                    seq!["--name"@, window_tab_name(inv, tabs)] + command_args(inv),
                    replies.skip(1),
                ),
            }
        }
    } else {
        new_tab_step(
            inv,
            c,
            session,
            seq!["--name"@, window_tab_name(inv, seq![])] + command_args(inv),
            replies,
        )
    }
}

fn window_name(inv: &ParsedInvocation, tabs: &[TabInfo]) -> (r: String)
    ensures
        r@ == window_tab_name(inv@, tabs@),
{
    let leaf = match inv.value('n') {
        Some(n) => String::from_str(n),
        None => match inv.value('t') {
            Some(session) => int_string(next_window_index(tabs, session)),
            None => String::from_str("window"),
        },
    };
    match inv.value('t') {
        Some(session) => compose_session_tab_name(session, leaf.as_str()),
        None => leaf,
    }
}

fn new_window_tab(
    inv: &ParsedInvocation,
    client: &Client,
    ctx: &Ctx,
    tabs: &[TabInfo],
    replies: &[Reply],
    start: usize,
) -> (s: Step<Output>)
    requires
        start <= replies.len(),
    ensures
        s@ == new_tab_step(
            inv@,
            *client,
            ctx.session@,
            seq!["--name"@, window_tab_name(inv@, tabs@)] + command_args(inv@),
            replies@.skip(start as int),
        ),
{
    let name = window_name(inv, tabs);
    let mut args = strs(&["--name"]);
    let ghost prev = args@;
    args.push(name);
    assert(["--name"]@.map_values(|s: &str| s@) =~= seq!["--name"@]);
    assert(views(args@) =~= views(prev).push(name@));
    assert(views(args@) =~= seq!["--name"@, window_tab_name(inv@, tabs@)]);
    let args = append_command(args, inv);
    new_tab_pane(inv, client, ctx, args.as_slice(), replies, start)
}

fn new_window(inv: &ParsedInvocation, client: &Client, ctx: &Ctx, replies: &[Reply]) -> (s: Step<
    Output,
>)
    ensures
        s@ == new_window_step(inv@, *client, ctx.session@, replies@),
{
    let needs = inv.value('n').is_none() && inv.value('t').is_some();
    if needs {
        if replies.len() == 0 {
            return Step::Call(client.list_tabs());
        }
        let tabs = match tabs_of(&replies[0]) {
            Ok(t) => t,
            Err(e) => return Step::Done(Err(e)),
        };
        new_window_tab(inv, client, ctx, tabs.as_slice(), replies, 1)
    } else {
        let none: Vec<TabInfo> = Vec::new();
        assert(none@ =~= Seq::<TabInfo>::empty());
        assert(replies@.skip(0) =~= replies@);
        new_window_tab(inv, client, ctx, none.as_slice(), replies, 0)
    }
}

// ---------------------------------------------------------------------------
// Window and pane targets
// ---------------------------------------------------------------------------

/// A required `-t` is missing.
pub open spec fn requires_t(cmd: Seq<char>) -> ErrView {
    ErrView::BadArgs(cmd + " requires -t"@)
}

/// `go-to-tab-by-id` / `close-tab-by-id` style request on tab `tab`.
pub open spec fn tab_action(c: Client, verb: Seq<char>, tab: i64) -> RequestView {
    zellij(c.scope() + seq!["action"@, verb, int_str(tab as int)], Expect::Text)
}

/// A single action on the window the `-t` target names.
pub open spec fn window_action_step(
    inv: InvocationView,
    c: Client,
    cmd: Seq<char>,
    verb: Seq<char>,
    replies: Seq<Reply>,
) -> StepView<OutputView> {
    match flag_value(inv.flags, 't') {
        None => StepView::Done(Err(requires_t(cmd))),
        Some(target) => match parse_window(target) {
            None => StepView::Done(Err(ErrView::BadArgs("invalid window target: "@ + target))),
            Some(tab) => run_actions(replies, 0, seq![tab_action(c, verb, tab)]),
        },
    }
}

fn missing_t(cmd: &str) -> (e: ShimError)
    ensures
        e@ == requires_t(cmd@),
{
    ShimError::BadArgs(cat(cmd, " requires -t"))
}

fn window_action(
    inv: &ParsedInvocation,
    client: &Client,
    cmd: &str,
    close: bool,
    replies: &[Reply],
) -> (s: Step<Output>)
    ensures
        s@ == window_action_step(
            inv@,
            *client,
            cmd@,
            if close {
                "close-tab-by-id"@
            } else {
                "go-to-tab-by-id"@
            },
            replies@,
        ),
{
    let target = match inv.value('t') {
        Some(t) => t,
        None => return Step::Done(Err(missing_t(cmd))),
    };
    let tab = match zellij_tab_from_window(target) {
        Ok(t) => t,
        Err(e) => return Step::Done(Err(e)),
    };
    let req = if close {
        client.close_tab_by_id(tab)
    } else {
        client.go_to_tab_by_id(tab)
    };
    let mut reqs: Vec<Request> = Vec::new();
    reqs.push(req);
    assert(request_views(reqs@) =~= seq![req@]);
    perform_actions(replies, 0, reqs)
}

/// `rename-window [-t @N] <name>`: rename the target tab (the active tab
/// without `-t`, listing the tabs to find it).
pub open spec fn rename_window_step(inv: InvocationView, c: Client, replies: Seq<Reply>) -> StepView<
    OutputView,
> {
    if inv.operands.len() == 0 {
        StepView::Done(Err(ErrView::BadArgs("rename-window requires a name"@)))
    } else {
        let name = inv.operands[0];
        match flag_value(inv.flags, 't') {
            Some(target) => match parse_window(target) {
                None => StepView::Done(Err(ErrView::BadArgs("invalid window target: "@ + target))),
                Some(tab) => run_actions(
                    replies,
                    0,
                    seq![
                        zellij(
                            c.scope() + seq!["action"@, "rename-tab-by-id"@, int_str(tab as int), name],
                            Expect::Text,
                        ),
                    ],
                ),
            },
            None => if replies.len() == 0 {
                StepView::Call(list_tabs_req(c))
            } else {
                match tabs_reply(replies[0]) {
                    Err(e) => StepView::Done(Err(e)),
                    Ok(tabs) => match first_where(tabs, is_active_tab()) {
                        None => StepView::Done(Err(no_active_tab())),
                        Some(t) => run_actions(
                            replies,
                            1,
                            seq![
                                zellij(
                                    c.scope() + seq![
                                        "action"@,
                                        "rename-tab-by-id"@,
                                        int_str(t.tab_id as int),
                                        name,
                                    ],
                                    Expect::Text,
                                ),
                            ],
                        ),
                    },
                }
            },
        }
    }
}

fn rename_window(inv: &ParsedInvocation, client: &Client, replies: &[Reply]) -> (s: Step<Output>)
    ensures
        s@ == rename_window_step(inv@, *client, replies@),
{
    let ops = inv.operands();
    if ops.len() == 0 {
        return Step::Done(
            Err(ShimError::BadArgs(String::from_str("rename-window requires a name"))),
        );
    }
    let name = ops[0].as_str();
    let (tab_id, start) = match inv.value('t') {
        Some(target) => match zellij_tab_from_window(target) {
            Ok(t) => (t, 0usize),
            Err(e) => return Step::Done(Err(e)),
        },
        None => {
            if replies.len() == 0 {
                return Step::Call(client.list_tabs());
            }
            let tabs = match tabs_of(&replies[0]) {
                Ok(t) => t,
                Err(e) => return Step::Done(Err(e)),
            };
            match active_tab(tabs.as_slice()) {
                Some(t) => (t.tab_id, 1usize),
                None => return Step::Done(
                    Err(ShimError::BadArgs(String::from_str("no active tab"))),
                ),
            }
        },
    };
    let req = client.rename_tab_by_id(tab_id, name);
    let mut reqs: Vec<Request> = Vec::new();
    reqs.push(req);
    assert(request_views(reqs@) =~= seq![req@]);
    perform_actions(replies, start, reqs)
}

/// The checks before `kill-pane -t %N` / `respawn-pane -t %N` act: a
/// required, valid `-t`, then the pane list, where a missing target exits 1
/// with tmux's message. `Some` with the step to return while a check is
/// pending or failed; `None` once the target pane is known to exist.
pub open spec fn pane_guard(
    inv: InvocationView,
    c: Client,
    cmd: Seq<char>,
    replies: Seq<Reply>,
) -> Option<StepView<OutputView>> {
    match flag_value(inv.flags, 't') {
        None => Some(StepView::Done(Err(requires_t(cmd)))),
        Some(target) => match parse_pane_int(target) {
            None => Some(StepView::Done(Err(ErrView::BadArgs("invalid pane target: "@ + target)))),
            Some(n) => if replies.len() == 0 {
                Some(StepView::Call(list_panes_req(c)))
            } else {
                match panes_reply(replies[0]) {
                    Err(e) => Some(StepView::Done(Err(e))),
                    Ok(panes) => if first_where(panes, is_terminal_with_id(n)) is None {
                        Some(StepView::Done(Ok(stderr_out("can't find pane: "@ + target, 1))))
                    } else {
                        None
                    },
                }
            },
        },
    }
}

/// The zellij id of the `-t` pane.
pub open spec fn guarded_pane(inv: InvocationView) -> Seq<char> {
    spec_terminal_id(parse_pane_int(flag_value(inv.flags, 't').unwrap()).unwrap())
}

/// `kill-pane -t %N`: close the pane.
pub open spec fn kill_pane_step(inv: InvocationView, c: Client, replies: Seq<Reply>) -> StepView<
    OutputView,
> {
    match pane_guard(inv, c, "kill-pane"@, replies) {
        Some(s) => s,
        None => run_actions(
            replies,
            1,
            seq![
                zellij(
                    c.scope() + seq!["action"@, "close-pane"@, "--pane-id"@, guarded_pane(inv)],
                    Expect::Text,
                ),
            ],
        ),
    }
}

/// The target pane checks of kill-pane and respawn-pane: `Ok` with the zellij
/// pane id to act on, or the step to return.
fn guard_pane(inv: &ParsedInvocation, client: &Client, cmd: &str, replies: &[Reply]) -> (r: Result<
    String,
    Step<Output>,
>)
    ensures
        match r {
            Ok(pane) => pane_guard(inv@, *client, cmd@, replies@) is None && pane@ == guarded_pane(
                inv@,
            ) && replies@.len() > 0,
            Err(s) => pane_guard(inv@, *client, cmd@, replies@) == Some(s@),
        },
{
    let target = match inv.value('t') {
        Some(t) => t,
        None => return Err(Step::Done(Err(missing_t(cmd)))),
    };
    let pane = match zellij_pane_target(target) {
        Ok(p) => p,
        Err(e) => return Err(Step::Done(Err(e))),
    };
    let id = match pane_int_from_env(target) {
        Some(id) => id,
        None => return Err(Step::Done(Err(ShimError::BadArgs(cat("invalid pane target: ", target))))),
    };
    if replies.len() == 0 {
        return Err(Step::Call(client.list_panes()));
    }
    let panes = match panes_of(&replies[0]) {
        Ok(p) => p,
        Err(e) => return Err(Step::Done(Err(e))),
    };
    if pane_by_terminal_id(panes.as_slice(), id).is_none() {
        let msg = cat("can't find pane: ", target);
        return Err(Step::Done(Ok(Output::stderr_line(msg.as_str(), 1))));
    }
    Ok(pane)
}

fn kill_pane(inv: &ParsedInvocation, client: &Client, replies: &[Reply]) -> (s: Step<Output>)
    ensures
        s@ == kill_pane_step(inv@, *client, replies@),
{
    let pane = match guard_pane(inv, client, "kill-pane", replies) {
        Ok(p) => p,
        Err(s) => return s,
    };
    let req = client.close_pane(pane.as_str());
    let mut reqs: Vec<Request> = Vec::new();
    reqs.push(req);
    assert(request_views(reqs@) =~= seq![req@]);
    perform_actions(replies, 1, reqs)
}

/// `respawn-pane -t %N [command]`: focus the pane (ignoring the outcome), then
/// replace it in place with a fresh pane running the command (after `--`).
pub open spec fn respawn_pane_step(inv: InvocationView, c: Client, replies: Seq<Reply>) -> StepView<
    OutputView,
> {
    match pane_guard(inv, c, "respawn-pane"@, replies) {
        Some(s) => s,
        None => if replies.len() == 1 {
            StepView::Call(
                zellij(
                    c.scope() + seq!["action"@, "focus-pane-id"@, guarded_pane(inv)],
                    Expect::Text,
                ),
            )
        } else if replies.len() == 2 {
            StepView::Call(
                zellij(
                    c.scope() + seq![
                        "action"@,
                        "new-pane"@,
                        "--in-place"@,
                        "--close-replaced-pane"@,
                    ] + command_args(inv),
                    Expect::Text,
                ),
            )
        } else {
            match new_pane_outcome(replies[2]) {
                Err(e) => StepView::Done(Err(e)),
                Ok(_) => StepView::Done(Ok(ok_out())),
            }
        },
    }
}

fn respawn_pane(inv: &ParsedInvocation, client: &Client, replies: &[Reply]) -> (s: Step<Output>)
    ensures
        s@ == respawn_pane_step(inv@, *client, replies@),
{
    let pane = match guard_pane(inv, client, "respawn-pane", replies) {
        Ok(p) => p,
        Err(s) => return s,
    };
    if replies.len() == 1 {
        return Step::Call(client.focus_pane(pane.as_str()));
    }
    if replies.len() == 2 {
        let command = append_command(Vec::new(), inv);
        assert(views(command@) =~= command_args(inv@));
        return Step::Call(client.new_pane_in_place(command.as_slice()));
    }
    match new_pane_result(&replies[2]) {
        Ok(_) => Step::Done(Ok(Output::ok())),
        Err(e) => Step::Done(Err(e)),
    }
}

/// `kill-session -t <name>`: list the tabs, then close every tab of the session.
pub open spec fn kill_session_step(inv: InvocationView, c: Client, replies: Seq<Reply>) -> StepView<
    OutputView,
> {
    match flag_value(inv.flags, 't') {
        None => StepView::Done(Err(requires_t("kill-session"@))),
        Some(target) => if replies.len() == 0 {
            StepView::Call(list_tabs_req(c))
        } else {
            match tabs_reply(replies[0]) {
                Err(e) => StepView::Done(Err(e)),
                Ok(tabs) => run_actions(
                    replies,
                    1,
                    keep(tabs, super::query::of_session(target)).map_values(
                        |t: TabInfo| tab_action(c, "close-tab-by-id"@, t.tab_id),
                    ),
                ),
            }
        },
    }
}

fn kill_session(inv: &ParsedInvocation, client: &Client, replies: &[Reply]) -> (s: Step<Output>)
    ensures
        s@ == kill_session_step(inv@, *client, replies@),
{
    let target = match inv.value('t') {
        Some(t) => t,
        None => return Step::Done(Err(missing_t("kill-session"))),
    };
    if replies.len() == 0 {
        return Step::Call(client.list_tabs());
    }
    let tabs = match tabs_of(&replies[0]) {
        Ok(t) => t,
        Err(e) => return Step::Done(Err(e)),
    };
    let ghost p = super::query::of_session(target@);
    let ghost want = keep(tabs@, p).map_values(
        |t: TabInfo| tab_action(*client, "close-tab-by-id"@, t.tab_id),
    );
    let mut reqs: Vec<Request> = Vec::new();
    let mut i: usize = 0;
    while i < tabs.len()
        invariant
            i <= tabs.len(),
            p == super::query::of_session(target@),
            request_views(reqs@) == keep(tabs@.take(i as int), p).map_values(
                |t: TabInfo| tab_action(*client, "close-tab-by-id"@, t.tab_id),
            ),
        decreases tabs.len() - i,
    {
        proof {
            lemma_keep_take(tabs@, p, i as int);
        }
        if is_session_tab(target, tabs[i].name.as_str()) {
            let req = client.close_tab_by_id(tabs[i].tab_id);
            let ghost prev = reqs@;
            reqs.push(req);
            assert(request_views(reqs@) =~= request_views(prev).push(req@));
        }
        i = i + 1;
        assert(request_views(reqs@) =~= keep(tabs@.take(i as int), p).map_values(
            |t: TabInfo| tab_action(*client, "close-tab-by-id"@, t.tab_id),
        ));
    }
    proof {
        lemma_take_full(tabs@);
    }
    perform_actions(replies, 1, reqs)
}

// ---------------------------------------------------------------------------
// dispatch
// ---------------------------------------------------------------------------

/// The lifecycle handlers, by subcommand.
pub open spec fn lifecycle_step(inv: InvocationView, c: Client, ctx: Ctx, replies: Seq<Reply>) -> StepView<
    OutputView,
> {
    let sub = inv.subcommand;
    if sub == "split-window"@ {
        split_window_step(inv, c, ctx, replies)
    } else if sub == "new-session"@ {
        new_session_step(inv, c, ctx.session@, replies)
    } else if sub == "new-window"@ {
        new_window_step(inv, c, ctx.session@, replies)
    } else if sub == "select-window"@ {
        window_action_step(inv, c, "select-window"@, "go-to-tab-by-id"@, replies)
    } else if sub == "rename-window"@ {
        rename_window_step(inv, c, replies)
    } else if sub == "kill-pane"@ {
        kill_pane_step(inv, c, replies)
    } else if sub == "kill-window"@ {
        window_action_step(inv, c, "kill-window"@, "close-tab-by-id"@, replies)
    } else if sub == "kill-session"@ {
        kill_session_step(inv, c, replies)
    } else if sub == "respawn-pane"@ {
        respawn_pane_step(inv, c, replies)
    } else {
        StepView::Done(Err(ErrView::BadArgs("lifecycle: unhandled command "@ + sub)))
    }
}

/// The next step of a lifecycle command, given the replies so far.
pub fn handle(inv: &ParsedInvocation, client: &Client, ctx: &Ctx, replies: &[Reply]) -> (s: Step<
    Output,
>)
    ensures
        s@ == lifecycle_step(inv@, *client, *ctx, replies@),
{
    let sub = chars_of(inv.subcommand.as_str());
    if is(&sub, "split-window") {
        split_window(inv, client, ctx, replies)
    } else if is(&sub, "new-session") {
        new_session(inv, client, ctx, replies)
    } else if is(&sub, "new-window") {
        new_window(inv, client, ctx, replies)
    } else if is(&sub, "select-window") {
        window_action(inv, client, "select-window", false, replies)
    } else if is(&sub, "rename-window") {
        rename_window(inv, client, replies)
    } else if is(&sub, "kill-pane") {
        kill_pane(inv, client, replies)
    } else if is(&sub, "kill-window") {
        window_action(inv, client, "kill-window", true, replies)
    } else if is(&sub, "kill-session") {
        kill_session(inv, client, replies)
    } else if is(&sub, "respawn-pane") {
        respawn_pane(inv, client, replies)
    } else {
        Step::Done(
            Err(ShimError::BadArgs(cat("lifecycle: unhandled command ", inv.subcommand.as_str()))),
        )
    }
}

// ---------------------------------------------------------------------------
// laws
// ---------------------------------------------------------------------------

/// A session created with `new-session -s X` is found by `has-session -t X`:
/// new-session asks zellij for a tab named `X:1`, and whenever the tab list
/// holds a tab of that name, has-session succeeds with exit 0.
pub proof fn law_new_session_is_found(
    new_inv: InvocationView,
    has_inv: InvocationView,
    c: Client,
    session: Seq<char>,
    x: Seq<char>,
    r: Reply,
    k: int,
)
    requires
        flag_value(new_inv.flags, 's') == Some(x),
        flag_value(has_inv.flags, 't') == Some(x),
        tabs_reply(r) matches Ok(tabs) && 0 <= k < tabs.len() && tabs[k].name@ == spec_session_prefix(x) + "1"@,
    ensures
        new_session_step(new_inv, c, session, seq![]) == StepView::<OutputView>::Call(
            zellij(
                c.scope() + seq!["action"@, "new-tab"@] + (seq![
                    "--name"@,
                    spec_session_prefix(x) + "1"@,
                ] + command_args(new_inv)),
                Expect::Text,
            ),
        ),
        super::query::has_session_step(has_inv, c, seq![r]) == StepView::<OutputView>::Done(
            Ok(ok_out()),
        ),
{
    let tabs = tabs_reply(r)->Ok_0;
    crate::idmap::law_session_namespace(x, "1"@);
    assert(spec_is_session_tab(x, tabs[k].name@));
    assert(super::query::session_exists(tabs, x));
}

/// A window opened with `new-window -t X` lands in session `X`'s namespace:
/// its tab name starts with `X:`, whatever name or index it gets.
pub proof fn law_new_window_in_session(inv: InvocationView, tabs: Seq<TabInfo>, x: Seq<char>)
    requires
        flag_value(inv.flags, 't') == Some(x),
    ensures
        spec_is_session_tab(x, window_tab_name(inv, tabs)),
{
    let leaf = match flag_value(inv.flags, 'n') {
        Some(n) => n,
        None => int_str(next_window_index_of(tabs, x) as int),
    };
    crate::idmap::law_session_namespace(x, leaf);
}

proof fn lemma_min_id(s: Seq<PaneInfo>)
    ensures
        min_id(s) matches Some(m) ==> (exists|k: int| 0 <= k < s.len() && #[trigger] s[k].id == m)
            && forall|k: int| 0 <= k < s.len() ==> m <= #[trigger] s[k].id,
        min_id(s) is None <==> s.len() == 0,
    decreases s.len(),
{
    if s.len() > 0 {
        lemma_min_id(s.drop_last());
        let r = s.drop_last();
        assert forall|k: int| 0 <= k < r.len() implies #[trigger] r[k] == s[k] by {}
        match min_id(s) {
            Some(m) => {
                if m == s.last().id {
                    assert(s[s.len() - 1].id == m);
                } else {
                    let k = choose|k: int| 0 <= k < r.len() && #[trigger] r[k].id == m;
                    assert(s[k].id == m);
                }
                assert forall|k: int| 0 <= k < s.len() implies m <= #[trigger] s[k].id by {
                    if k < r.len() {
                        assert(r[k] == s[k]);
                    }
                }
            },
            None => {},
        }
    }
}

/// The pane a new tab reports is a terminal pane of that very tab, the one
/// with the smallest id there; there is none exactly when the tab holds no
/// terminal pane. No pane of another tab is ever chosen.
pub proof fn law_first_pane_is_in_the_tab(panes: Seq<PaneInfo>, tab_id: i64)
    ensures
        tab_first_pane(panes, tab_id) matches Some(id) ==> exists|k: int|
            0 <= k < panes.len() && #[trigger] panes[k].id == id && !panes[k].is_plugin && panes[k].tab_id
                == tab_id,
        tab_first_pane(panes, tab_id) matches Some(id) ==> forall|k: int|
            0 <= k < panes.len() && !panes[k].is_plugin && panes[k].tab_id == tab_id ==> id
                <= #[trigger] panes[k].id,
        tab_first_pane(panes, tab_id) is None <==> forall|k: int|
            0 <= k < panes.len() ==> !(!(#[trigger] panes[k]).is_plugin && panes[k].tab_id == tab_id),
{
    let p = crate::format::context::in_tab(tab_id);
    let t = keep(panes, p);
    lemma_min_id(t);
    crate::search::lemma_keep_members(panes, p);
    match tab_first_pane(panes, tab_id) {
        Some(id) => {
            let k = choose|k: int| 0 <= k < t.len() && #[trigger] t[k].id == id;
            assert(p(t[k]) && panes.contains(t[k]));
            let j = choose|j: int| 0 <= j < panes.len() && panes[j] == t[k];
            assert(panes[j].id == id);
            assert forall|k: int| 0 <= k < panes.len() && !panes[k].is_plugin && panes[k].tab_id == tab_id
                implies id <= #[trigger] panes[k].id by {
                assert(panes.contains(panes[k]));
                crate::search::lemma_keep_contains(panes, p, panes[k]);
                let m = choose|m: int| 0 <= m < t.len() && t[m] == panes[k];
                assert(id <= t[m].id);
            }
        },
        None => {
            assert forall|k: int| 0 <= k < panes.len() implies !(!(#[trigger] panes[k]).is_plugin
                && panes[k].tab_id == tab_id) by {
                assert(panes.contains(panes[k]));
                crate::search::lemma_keep_contains(panes, p, panes[k]);
            }
        },
    }
    if forall|k: int| 0 <= k < panes.len() ==> !(!(#[trigger] panes[k]).is_plugin && panes[k].tab_id == tab_id) {
        if t.len() > 0 {
            assert(p(t[0]) && panes.contains(t[0]));
            let j = choose|j: int| 0 <= j < panes.len() && panes[j] == t[0];
            assert(!(!panes[j].is_plugin && panes[j].tab_id == tab_id));
        }
    }
}

/// `-P` after `new-session` / `new-window` prints the id of a terminal pane
/// of the tab zellij just created (the one it answered `new-tab` with), never
/// a pane of another tab.
pub proof fn law_new_tab_prints_its_own_pane(
    inv: InvocationView,
    c: Client,
    session: Seq<char>,
    tab_args: Seq<Seq<char>>,
    replies: Seq<Reply>,
    tab_id: i64,
    panes: Seq<PaneInfo>,
)
    requires
        replies.len() >= 2,
        new_tab_outcome(replies[0]) == Ok::<i64, ErrView>(tab_id),
        panes_reply(replies[1]) == Ok::<Seq<PaneInfo>, ErrView>(panes),
        has_flag(inv.flags, 'P'),
        flag_value(inv.flags, 'F') is None || flag_value(inv.flags, 'F') == Some("#{pane_id}"@),
    ensures
        new_tab_step(inv, c, session, tab_args, replies) matches StepView::Done(Ok(out)) ==> exists|k: int|
            0 <= k < panes.len() && !panes[k].is_plugin && panes[k].tab_id == tab_id && out == line_out(
                spec_tmux_pane_id(#[trigger] panes[k].id),
            ),
{
    law_first_pane_is_in_the_tab(panes, tab_id);
}

} // verus!
