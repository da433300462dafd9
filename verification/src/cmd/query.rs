//! Query handlers: display-message, list-panes/-windows/-sessions, has-session,
//! capture-pane. Each reads live zellij state and renders a tmux format string.
use super::select::{
    format_arg, format_given, format_of, format_or, resolve_pane, resolve_tab_id, tab_for,
    tab_or_active, target_or_empty, target_pane, target_tab_id, target_text,
};
use super::{line_out, lines_out, ok_out, stderr_out, Output, OutputView, Ctx};
use crate::cli::args::{flag_value, has_flag, InvocationView, ParsedInvocation};
use crate::error::{cat, ErrView, ShimError};
use crate::exchange::{output_of, output_reply, panes_of, panes_reply, tabs_of, tabs_reply, zellij, Expect, Reply, Request, RequestView, Step, StepView};
use crate::format::context::{build, build_session, build_window, pane_context, session_vars, window_context};
use crate::format::render::{render, spec_render};
use crate::idmap::{is_session_tab, session_of_tab_name, spec_is_session_tab, spec_session_of_tab_name, spec_terminal_id, terminal_id};
use crate::search::{keep, lemma_keep_take, lemma_take_full};
use crate::text::{chars_of, extend, is, join, lines, lines_exec, parse_i64, parse_i64_str, string_of, views};
use crate::zellij::client::Client;
use crate::zellij::types::{is_terminal, terminal_panes, PaneInfo, TabInfo};
use vstd::prelude::*;
use vstd::string::*;
use vstd::utf8::encode_utf8;

verus! {

/// `zellij [--session s] action list-panes --all --json`.
pub open spec fn list_panes_req(c: Client) -> RequestView {
    zellij(c.scope() + seq!["action"@, "list-panes"@, "--all"@, "--json"@], Expect::Panes)
}

/// `zellij [--session s] action list-tabs --all --json`.
pub open spec fn list_tabs_req(c: Client) -> RequestView {
    zellij(c.scope() + seq!["action"@, "list-tabs"@, "--all"@, "--json"@], Expect::Tabs)
}

/// The error when no tab can be found for a pane.
pub open spec fn no_active_tab() -> ErrView {
    ErrView::BadArgs("no active tab"@)
}

// ---------------------------------------------------------------------------
// display-message
// ---------------------------------------------------------------------------

/// `display-message`: with a format, list the panes, then the tabs, then print
/// the format rendered for the target pane; without one, do nothing.
pub open spec fn display_message_step(
    inv: InvocationView,
    c: Client,
    session: Seq<char>,
    replies: Seq<Reply>,
) -> StepView<OutputView> {
    match format_arg(inv) {
        None => StepView::Done(Ok(ok_out())),
        Some(format) => if replies.len() == 0 {
            StepView::Call(list_panes_req(c))
        } else {
            match panes_reply(replies[0]) {
                Err(e) => StepView::Done(Err(e)),
                Ok(panes) => if replies.len() == 1 {
                    StepView::Call(list_tabs_req(c))
                } else {
                    match tabs_reply(replies[1]) {
                        Err(e) => StepView::Done(Err(e)),
                        Ok(tabs) => match target_pane(inv, panes) {
                            None => StepView::Done(Err(ErrView::NoSuchPane(target_text(inv)))),
                            Some(pane) => match tab_for(tabs, pane.tab_id) {
                                None => StepView::Done(Err(no_active_tab())),
                                Some(tab) => StepView::Done(
                                    Ok(
                                        line_out(
                                            spec_render(
                                                format,
                                                pane_context(pane, tab, panes, session),
                                            ),
                                        ),
                                    ),
                                ),
                            },
                        },
                    }
                },
            }
        },
    }
}

fn no_tab_error() -> (e: ShimError)
    ensures
        e@ == no_active_tab(),
{
    ShimError::BadArgs(String::from_str("no active tab"))
}

fn display_message(inv: &ParsedInvocation, client: &Client, ctx: &Ctx, replies: &[Reply]) -> (s:
    Step<Output>)
    ensures
        s@ == display_message_step(inv@, *client, ctx.session@, replies@),
{
    let format = match format_given(inv) {
        Some(f) => f,
        None => return Step::Done(Ok(Output::ok())),
    };
    if replies.len() == 0 {
        return Step::Call(client.list_panes());
    }
    let panes = match panes_of(&replies[0]) {
        Ok(p) => p,
        Err(e) => return Step::Done(Err(e)),
    };
    if replies.len() == 1 {
        return Step::Call(client.list_tabs());
    }
    let tabs = match tabs_of(&replies[1]) {
        Ok(t) => t,
        Err(e) => return Step::Done(Err(e)),
    };
    let pane = match resolve_pane(inv, panes.as_slice()) {
        Some(p) => p,
        None => return Step::Done(Err(ShimError::NoSuchPane(target_or_empty(inv)))),
    };
    let tab = match tab_or_active(tabs.as_slice(), pane.tab_id) {
        Some(t) => t,
        None => return Step::Done(Err(no_tab_error())),
    };
    let fctx = build(pane, tab, panes.as_slice(), ctx.session.as_str());
    let text = render(format.as_str(), &fctx);
    Step::Done(Ok(Output::line(text.as_str())))
}

// ---------------------------------------------------------------------------
// list-panes
// ---------------------------------------------------------------------------

/// `x` placed after the last element of `s` whose id is not above its own.
pub open spec fn insert_by_id(s: Seq<PaneInfo>, x: PaneInfo) -> Seq<PaneInfo>
    decreases s.len(),
{
    if s.len() == 0 {
        seq![x]
    } else if s.last().id <= x.id {
        s.push(x)
    } else {
        insert_by_id(s.drop_last(), x).push(s.last())
    }
}

/// `s` stably sorted by pane id.
pub open spec fn sort_by_id(s: Seq<PaneInfo>) -> Seq<PaneInfo>
    decreases s.len(),
{
    if s.len() == 0 {
        seq![]
    } else {
        insert_by_id(sort_by_id(s.drop_last()), s.last())
    }
}

/// The values behind a sequence of pane references.
pub open spec fn derefs(s: Seq<&PaneInfo>) -> Seq<PaneInfo> {
    s.map_values(|p: &PaneInfo| *p)
}

proof fn lemma_insert_by_id(s: Seq<PaneInfo>, x: PaneInfo, j: int)
    requires
        0 <= j <= s.len(),
        forall|k: int| j <= k < s.len() ==> s[k].id > x.id,
        j == 0 || s[j - 1].id <= x.id,
    ensures
        insert_by_id(s, x) == s.insert(j, x),
    decreases s.len(),
{
    if s.len() == 0 {
        assert(s.insert(0, x) =~= seq![x]);
    } else if s.last().id <= x.id {
        assert(j == s.len());
        assert(s.insert(j, x) =~= s.push(x));
    } else {
        assert(j < s.len());
        lemma_insert_by_id(s.drop_last(), x, j);
        assert(s.drop_last().insert(j, x).push(s.last()) =~= s.insert(j, x));
    }
}

fn sort_panes<'a>(v: Vec<&'a PaneInfo>) -> (r: Vec<&'a PaneInfo>)
    ensures
        derefs(r@) == sort_by_id(derefs(v@)),
{
    let mut sorted: Vec<&PaneInfo> = Vec::new();
    let mut i: usize = 0;
    while i < v.len()
        invariant
            i <= v.len(),
            derefs(sorted@) == sort_by_id(derefs(v@).take(i as int)),
        decreases v.len() - i,
    {
        let x = v[i];
        let mut j = sorted.len();
        while j > 0 && sorted[j - 1].id > x.id
            invariant
                j <= sorted.len(),
                forall|k: int| j <= k < sorted.len() ==> sorted@[k].id > x.id,
            decreases j,
        {
            j = j - 1;
        }
        proof {
            lemma_insert_by_id(derefs(sorted@), *x, j as int);
            assert(derefs(v@).take(i + 1).drop_last() =~= derefs(v@).take(i as int));
            assert(derefs(v@).take(i + 1).last() == *x);
        }
        let ghost before = sorted@;
        sorted.insert(j, x);
        assert(derefs(sorted@) =~= derefs(before).insert(j as int, *x));
        i = i + 1;
    }
    assert(derefs(v@).take(v.len() as int) =~= derefs(v@));
    sorted
}

/// A pane of tab `t` (`None` matches nothing).
pub open spec fn in_tab_opt(t: Option<i64>) -> spec_fn(PaneInfo) -> bool {
    |p: PaneInfo| t == Some(p.tab_id)
}

/// The panes `list-panes` reports: every terminal pane with `-a`/`-s`, else
/// those of the target tab; ordered by pane id.
pub open spec fn listed_panes(inv: InvocationView, tabs: Seq<TabInfo>, panes: Seq<PaneInfo>) -> Seq<
    PaneInfo,
> {
    if has_flag(inv.flags, 'a') || has_flag(inv.flags, 's') {
        sort_by_id(keep(panes, is_terminal()))
    } else {
        sort_by_id(keep(keep(panes, is_terminal()), in_tab_opt(target_tab_id(inv, tabs, panes))))
    }
}

/// The rendered line of each listed pane that has a tab.
pub open spec fn pane_lines(
    listed: Seq<PaneInfo>,
    tabs: Seq<TabInfo>,
    all: Seq<PaneInfo>,
    session: Seq<char>,
    format: Seq<char>,
) -> Seq<Seq<char>>
    decreases listed.len(),
{
    if listed.len() == 0 {
        seq![]
    } else {
        let rest = pane_lines(listed.drop_last(), tabs, all, session, format);
        match tab_for(tabs, listed.last().tab_id) {
            Some(t) => rest.push(spec_render(format, pane_context(listed.last(), t, all, session))),
            None => rest,
        }
    }
}

/// The default `list-panes` format.
pub open spec fn list_panes_default() -> Seq<char> {
    "#{pane_index}: [#{pane_width}x#{pane_height}] #{pane_id}"@
}

/// `list-panes`: list the panes, then the tabs, then print one rendered line
/// per listed pane.
pub open spec fn list_panes_step(
    inv: InvocationView,
    c: Client,
    session: Seq<char>,
    replies: Seq<Reply>,
) -> StepView<OutputView> {
    if replies.len() == 0 {
        StepView::Call(list_panes_req(c))
    } else {
        match panes_reply(replies[0]) {
            Err(e) => StepView::Done(Err(e)),
            Ok(panes) => if replies.len() == 1 {
                StepView::Call(list_tabs_req(c))
            } else {
                match tabs_reply(replies[1]) {
                    Err(e) => StepView::Done(Err(e)),
                    Ok(tabs) => StepView::Done(
                        Ok(
                            lines_out(
                                pane_lines(
                                    listed_panes(inv, tabs, panes),
                                    tabs,
                                    panes,
                                    session,
                                    format_or(inv, list_panes_default()),
                                ),
                            ),
                        ),
                    ),
                }
            },
        }
    }
}

fn filter_tab<'a>(v: Vec<&'a PaneInfo>, t: Option<i64>) -> (r: Vec<&'a PaneInfo>)
    ensures
        derefs(r@) == keep(derefs(v@), in_tab_opt(t)),
{
    let mut r: Vec<&PaneInfo> = Vec::new();
    let mut i: usize = 0;
    while i < v.len()
        invariant
            i <= v.len(),
            derefs(r@) == keep(derefs(v@).take(i as int), in_tab_opt(t)),
        decreases v.len() - i,
    {
        proof {
            lemma_keep_take(derefs(v@), in_tab_opt(t), i as int);
        }
        let p = v[i];
        let hit = match t {
            Some(id) => p.tab_id == id,
            None => false,
        };
        if hit {
            r.push(p);
        }
        i = i + 1;
        assert(derefs(r@) =~= keep(derefs(v@).take(i as int), in_tab_opt(t)));
    }
    proof {
        lemma_take_full(derefs(v@));
    }
    r
}

fn render_pane_lines(
    listed: &Vec<&PaneInfo>,
    tabs: &[TabInfo],
    all: &[PaneInfo],
    session: &str,
    format: &str,
) -> (r: Vec<String>)
    ensures
        views(r@) == pane_lines(derefs(listed@), tabs@, all@, session@, format@),
{
    let mut r: Vec<String> = Vec::new();
    let mut i: usize = 0;
    while i < listed.len()
        invariant
            i <= listed.len(),
            views(r@) == pane_lines(derefs(listed@).take(i as int), tabs@, all@, session@, format@),
        decreases listed.len() - i,
    {
        let p = listed[i];
        let ghost prev = r@;
        assert(derefs(listed@).take(i + 1).drop_last() =~= derefs(listed@).take(i as int));
        assert(derefs(listed@).take(i + 1).last() == *p);
        match tab_or_active(tabs, p.tab_id) {
            Some(t) => {
                let line = render(format, &build(p, t, all, session));
                r.push(line);
                assert(views(r@) =~= views(prev).push(line@));
            },
            None => {},
        }
        i = i + 1;
    }
    assert(derefs(listed@).take(listed.len() as int) =~= derefs(listed@));
    r
}

fn list_panes(inv: &ParsedInvocation, client: &Client, ctx: &Ctx, replies: &[Reply]) -> (s: Step<
    Output,
>)
    ensures
        s@ == list_panes_step(inv@, *client, ctx.session@, replies@),
{
    let format = format_of(inv, "#{pane_index}: [#{pane_width}x#{pane_height}] #{pane_id}");
    if replies.len() == 0 {
        return Step::Call(client.list_panes());
    }
    let panes = match panes_of(&replies[0]) {
        Ok(p) => p,
        Err(e) => return Step::Done(Err(e)),
    };
    if replies.len() == 1 {
        return Step::Call(client.list_tabs());
    }
    let tabs = match tabs_of(&replies[1]) {
        Ok(t) => t,
        Err(e) => return Step::Done(Err(e)),
    };
    let terms = terminal_panes(panes.as_slice());
    let selected = if inv.has('a') || inv.has('s') {
        terms
    } else {
        let tab_id = resolve_tab_id(inv, tabs.as_slice(), panes.as_slice());
        filter_tab(terms, tab_id)
    };
    let listed = sort_panes(selected);
    let lines = render_pane_lines(
        &listed,
        tabs.as_slice(),
        panes.as_slice(),
        ctx.session.as_str(),
        format.as_str(),
    );
    Step::Done(Ok(Output::lines(lines.as_slice())))
}

// ---------------------------------------------------------------------------
// list-windows
// ---------------------------------------------------------------------------

/// A tab of tmux session `session`.
pub open spec fn of_session(session: Seq<char>) -> spec_fn(TabInfo) -> bool {
    |t: TabInfo| spec_is_session_tab(session, t.name@)
}

/// The tabs `list-windows` reports: those of the `-t` session when it has
/// any, else every tab.
pub open spec fn listed_tabs(inv: InvocationView, tabs: Seq<TabInfo>) -> Seq<TabInfo> {
    match flag_value(inv.flags, 't') {
        Some(session) => if keep(tabs, of_session(session)).len() == 0 {
            tabs
        } else {
            keep(tabs, of_session(session))
        },
        None => tabs,
    }
}

/// The default `list-windows` format.
pub open spec fn list_windows_default() -> Seq<char> {
    "#{window_index}: #{window_name}"@
}

/// `list-windows`: list the tabs, then the panes, then print one rendered line
/// per listed tab.
pub open spec fn list_windows_step(
    inv: InvocationView,
    c: Client,
    session: Seq<char>,
    replies: Seq<Reply>,
) -> StepView<OutputView> {
    if replies.len() == 0 {
        StepView::Call(list_tabs_req(c))
    } else {
        match tabs_reply(replies[0]) {
            Err(e) => StepView::Done(Err(e)),
            Ok(tabs) => if replies.len() == 1 {
                StepView::Call(list_panes_req(c))
            } else {
                match panes_reply(replies[1]) {
                    Err(e) => StepView::Done(Err(e)),
                    Ok(panes) => StepView::Done(
                        Ok(
                            lines_out(
                                listed_tabs(inv, tabs).map_values(
                                    |t: TabInfo|
                                        spec_render(
                                            format_or(inv, list_windows_default()),
                                            window_context(t, panes, session),
                                        ),
                                ),
                            ),
                        ),
                    ),
                }
            },
        }
    }
}

fn session_tabs<'a>(tabs: &'a [TabInfo], session: &str) -> (r: Vec<&'a TabInfo>)
    ensures
        r@.map_values(|t: &TabInfo| *t) == keep(tabs@, of_session(session@)),
{
    let mut r: Vec<&TabInfo> = Vec::new();
    let mut i: usize = 0;
    while i < tabs.len()
        invariant
            i <= tabs.len(),
            r@.map_values(|t: &TabInfo| *t) == keep(tabs@.take(i as int), of_session(session@)),
        decreases tabs.len() - i,
    {
        proof {
            lemma_keep_take(tabs@, of_session(session@), i as int);
        }
        if is_session_tab(session, tabs[i].name.as_str()) {
            r.push(&tabs[i]);
        }
        i = i + 1;
        assert(r@.map_values(|t: &TabInfo| *t) =~= keep(tabs@.take(i as int), of_session(session@)));
    }
    proof {
        lemma_take_full(tabs@);
    }
    r
}

fn all_tabs<'a>(tabs: &'a [TabInfo]) -> (r: Vec<&'a TabInfo>)
    ensures
        r@.map_values(|t: &TabInfo| *t) == tabs@,
{
    let mut r: Vec<&TabInfo> = Vec::new();
    let mut i: usize = 0;
    while i < tabs.len()
        invariant
            i <= tabs.len(),
            r@.map_values(|t: &TabInfo| *t) == tabs@.take(i as int),
        decreases tabs.len() - i,
    {
        let ghost prev = r@;
        r.push(&tabs[i]);
        assert(r@.map_values(|t: &TabInfo| *t) =~= prev.map_values(|t: &TabInfo| *t).push(tabs@[i as int]));
        assert(tabs@.take(i + 1) =~= tabs@.take(i as int).push(tabs@[i as int]));
        i = i + 1;
    }
    proof {
        lemma_take_full(tabs@);
    }
    r
}

fn list_windows(inv: &ParsedInvocation, client: &Client, ctx: &Ctx, replies: &[Reply]) -> (s:
    Step<Output>)
    ensures
        s@ == list_windows_step(inv@, *client, ctx.session@, replies@),
{
    let format = format_of(inv, "#{window_index}: #{window_name}");
    if replies.len() == 0 {
        return Step::Call(client.list_tabs());
    }
    let tabs = match tabs_of(&replies[0]) {
        Ok(t) => t,
        Err(e) => return Step::Done(Err(e)),
    };
    if replies.len() == 1 {
        return Step::Call(client.list_panes());
    }
    let panes = match panes_of(&replies[1]) {
        Ok(p) => p,
        Err(e) => return Step::Done(Err(e)),
    };
    let selected = match inv.value('t') {
        Some(session) => {
            let scoped = session_tabs(tabs.as_slice(), session);
            if scoped.len() == 0 {
                all_tabs(tabs.as_slice())
            } else {
                scoped
            }
        },
        None => all_tabs(tabs.as_slice()),
    };
    let ghost listed = listed_tabs(inv@, tabs@);
    let ghost f = format_or(inv@, list_windows_default());
    let mut lines: Vec<String> = Vec::new();
    let mut i: usize = 0;
    while i < selected.len()
        invariant
            i <= selected.len(),
            listed == selected@.map_values(|t: &TabInfo| *t),
            format@ == f,
            views(lines@) == listed.take(i as int).map_values(
                |t: TabInfo| spec_render(f, window_context(t, panes@, ctx.session@)),
            ),
        decreases selected.len() - i,
    {
        let t = selected[i];
        let line = render(format.as_str(), &build_window(t, panes.as_slice(), ctx.session.as_str()));
        let ghost prev = lines@;
        lines.push(line);
        assert(views(lines@) =~= views(prev).push(line@));
        i = i + 1;
        assert(listed.take(i as int) =~= listed.take(i - 1).push(listed[i - 1]));
    }
    assert(listed.take(selected.len() as int) =~= listed);
    Step::Done(Ok(Output::lines(lines.as_slice())))
}

// ---------------------------------------------------------------------------
// list-sessions
// ---------------------------------------------------------------------------

/// The sessions `list-sessions` reports: `base`, then each distinct tab-name
/// namespace in tab order.
pub open spec fn session_names(tabs: Seq<TabInfo>, base: Seq<char>) -> Seq<Seq<char>>
    decreases tabs.len(),
{
    if tabs.len() == 0 {
        seq![base]
    } else {
        let names = session_names(tabs.drop_last(), base);
        match spec_session_of_tab_name(tabs.last().name@) {
            Some(s) => if names.contains(s) {
                names
            } else {
                names.push(s)
            },
            None => names,
        }
    }
}

/// `list-sessions`: list the tabs, then print one rendered line per session.
pub open spec fn list_sessions_step(
    inv: InvocationView,
    c: Client,
    session: Seq<char>,
    replies: Seq<Reply>,
) -> StepView<OutputView> {
    if replies.len() == 0 {
        StepView::Call(list_tabs_req(c))
    } else {
        match tabs_reply(replies[0]) {
            Err(e) => StepView::Done(Err(e)),
            Ok(tabs) => StepView::Done(
                Ok(
                    lines_out(
                        session_names(tabs, session).map_values(
                            |n: Seq<char>|
                                spec_render(format_or(inv, "#{session_name}"@), session_vars(n)),
                        ),
                    ),
                ),
            ),
        }
    }
}

fn contains_name(names: &Vec<String>, s: &str) -> (b: bool)
    ensures
        b == views(names@).contains(s@),
{
    let sv = chars_of(s);
    let mut i: usize = 0;
    while i < names.len()
        invariant
            i <= names.len(),
            sv@ == s@,
            forall|j: int| 0 <= j < i ==> names@[j]@ != s@,
        decreases names.len() - i,
    {
        let nv = chars_of(names[i].as_str());
        if crate::text::eq_chars(&nv, &sv) {
            assert(views(names@)[i as int] == s@);
            return true;
        }
        i = i + 1;
    }
    assert forall|j: int| 0 <= j < views(names@).len() implies views(names@)[j] != s@ by {
        assert(views(names@)[j] == names@[j]@);
    }
    false
}

fn list_sessions(inv: &ParsedInvocation, client: &Client, ctx: &Ctx, replies: &[Reply]) -> (s:
    Step<Output>)
    ensures
        s@ == list_sessions_step(inv@, *client, ctx.session@, replies@),
{
    let format = format_of(inv, "#{session_name}");
    if replies.len() == 0 {
        return Step::Call(client.list_tabs());
    }
    let tabs = match tabs_of(&replies[0]) {
        Ok(t) => t,
        Err(e) => return Step::Done(Err(e)),
    };
    let mut names: Vec<String> = Vec::new();
    names.push(ctx.session.clone());
    let mut i: usize = 0;
    assert(views(names@) =~= seq![ctx.session@]);
    while i < tabs.len()
        invariant
            i <= tabs.len(),
            views(names@) == session_names(tabs@.take(i as int), ctx.session@),
        decreases tabs.len() - i,
    {
        assert(tabs@.take(i + 1).drop_last() =~= tabs@.take(i as int));
        assert(tabs@.take(i + 1).last() == tabs@[i as int]);
        match session_of_tab_name(tabs[i].name.as_str()) {
            Some(sn) => {
                if !contains_name(&names, sn.as_str()) {
                    let ghost prev = names@;
                    names.push(sn);
                    assert(views(names@) =~= views(prev).push(sn@));
                }
            },
            None => {},
        }
        i = i + 1;
    }
    assert(tabs@.take(tabs.len() as int) =~= tabs@);
    let ghost f = format_or(inv@, "#{session_name}"@);
    let ghost ns = views(names@);
    let mut lines: Vec<String> = Vec::new();
    let mut j: usize = 0;
    while j < names.len()
        invariant
            j <= names.len(),
            ns == views(names@),
            format@ == f,
            views(lines@) == ns.take(j as int).map_values(
                |n: Seq<char>| spec_render(f, session_vars(n)),
            ),
        decreases names.len() - j,
    {
        let line = render(format.as_str(), &build_session(names[j].as_str()));
        let ghost prev = lines@;
        lines.push(line);
        assert(views(lines@) =~= views(prev).push(line@));
        j = j + 1;
        assert(ns.take(j as int) =~= ns.take(j - 1).push(ns[j - 1]));
    }
    assert(ns.take(names.len() as int) =~= ns);
    Step::Done(Ok(Output::lines(lines.as_slice())))
}

// ---------------------------------------------------------------------------
// has-session
// ---------------------------------------------------------------------------

/// Some tab belongs to session `target`.
pub open spec fn session_exists(tabs: Seq<TabInfo>, target: Seq<char>) -> bool {
    exists|i: int| 0 <= i < tabs.len() && spec_is_session_tab(target, #[trigger] tabs[i].name@)
}

/// `has-session`: without `-t`, succeed at once; else list the tabs and
/// succeed iff one belongs to the target, otherwise exit 1 with tmux's message.
pub open spec fn has_session_step(inv: InvocationView, c: Client, replies: Seq<Reply>) -> StepView<
    OutputView,
> {
    match flag_value(inv.flags, 't') {
        None => StepView::Done(Ok(ok_out())),
        Some(target) => if replies.len() == 0 {
            StepView::Call(list_tabs_req(c))
        } else {
            match tabs_reply(replies[0]) {
                Err(e) => StepView::Done(Err(e)),
                Ok(tabs) => if session_exists(tabs, target) {
                    StepView::Done(Ok(ok_out()))
                } else {
                    StepView::Done(Ok(stderr_out("can't find session: "@ + target, 1)))
                },
            }
        },
    }
}

fn has_session(inv: &ParsedInvocation, client: &Client, replies: &[Reply]) -> (s: Step<Output>)
    ensures
        s@ == has_session_step(inv@, *client, replies@),
{
    let target = match inv.value('t') {
        Some(t) => t,
        None => return Step::Done(Ok(Output::ok())),
    };
    if replies.len() == 0 {
        return Step::Call(client.list_tabs());
    }
    let tabs = match tabs_of(&replies[0]) {
        Ok(t) => t,
        Err(e) => return Step::Done(Err(e)),
    };
    let mut i: usize = 0;
    while i < tabs.len()
        invariant
            i <= tabs.len(),
            forall|j: int| 0 <= j < i ==> !spec_is_session_tab(target@, #[trigger] tabs@[j].name@),
            replies@.len() > 0,
            tabs_reply(replies@[0]) == Ok::<Seq<TabInfo>, ErrView>(tabs@),
            flag_value(inv@.flags, 't') == Some(target@),
        decreases tabs.len() - i,
    {
        if is_session_tab(target, tabs[i].name.as_str()) {
            assert(spec_is_session_tab(target@, tabs@[i as int].name@));
            assert(session_exists(tabs@, target@));
            return Step::Done(Ok(Output::ok()));
        }
        i = i + 1;
    }
    let msg = cat("can't find session: ", target);
    Step::Done(Ok(Output::stderr_line(msg.as_str(), 1)))
}

// ---------------------------------------------------------------------------
// capture-pane
// ---------------------------------------------------------------------------

/// The last `-start` lines of `content` when `start` is a negative number
/// (keeping a final newline), else `content` unchanged.
pub open spec fn tail_text(content: Seq<char>, start: Seq<char>) -> Seq<char> {
    match parse_i64(start) {
        Some(n) => if n < 0 {
            let ls = lines(content);
            let from = if -n >= ls.len() {
                0
            } else {
                ls.len() + n
            };
            let joined = join(ls.skip(from), "\n"@);
            if content.len() > 0 && content.last() == '\n' && joined.len() > 0 {
                joined.push('\n')
            } else {
                joined
            }
        } else {
            content
        },
        None => content,
    }
}

/// The last `-start` lines of `content` when `start` is a negative number.
pub fn tail_lines(content: &str, start: &str) -> (r: String)
    ensures
        r@ == tail_text(content@, start@),
{
    match parse_i64_str(start) {
        Some(n) => {
            if n < 0 {
                let cv = chars_of(content);
                let ls = lines_exec(&cv);
                let ghost lv = ls@.map_values(|l: Vec<char>| l@);
                let want: i128 = 0 - (n as i128);
                let from: usize = if want >= ls.len() as i128 {
                    0
                } else {
                    (ls.len() as i128 - want) as usize
                };
                let nl = chars_of("\n");
                let mut joined: Vec<char> = Vec::new();
                let mut k = from;
                assert(lv.skip(from as int).take(0) =~= Seq::<Seq<char>>::empty());
                while k < ls.len()
                    invariant
                        from <= k <= ls.len(),
                        lv == ls@.map_values(|l: Vec<char>| l@),
                        nl@ == "\n"@,
                        joined@ == join(lv.skip(from as int).take(k - from), "\n"@),
                    decreases ls.len() - k,
                {
                    let ghost t = lv.skip(from as int).take(k - from + 1);
                    assert(t.drop_last() =~= lv.skip(from as int).take(k - from));
                    assert(t.last() == ls@[k as int]@);
                    if k > from {
                        extend(&mut joined, &nl);
                    }
                    extend(&mut joined, &ls[k]);
                    k = k + 1;
                }
                assert(lv.skip(from as int).take(ls.len() - from) =~= lv.skip(from as int));
                if cv.len() > 0 && cv[cv.len() - 1] == '\n' && joined.len() > 0 {
                    joined.push('\n');
                }
                return string_of(&joined);
            }
            String::from_str(content)
        },
        None => String::from_str(content),
    }
}

/// `capture-pane`: list the panes, dump the target pane's full scrollback,
/// then print it (its tail with `-S -N`).
pub open spec fn capture_pane_step(inv: InvocationView, c: Client, replies: Seq<Reply>) -> StepView<
    OutputView,
> {
    if replies.len() == 0 {
        StepView::Call(list_panes_req(c))
    } else {
        match panes_reply(replies[0]) {
            Err(e) => StepView::Done(Err(e)),
            Ok(panes) => match target_pane(inv, panes) {
                None => StepView::Done(Err(ErrView::NoSuchPane(target_text(inv)))),
                Some(pane) => if replies.len() == 1 {
                    StepView::Call(
                        zellij(
                            c.scope() + seq![
                                "action"@,
                                "dump-screen"@,
                                "--full"@,
                                "--pane-id"@,
                                spec_terminal_id(pane.id),
                            ],
                            Expect::Text,
                        ),
                    )
                } else {
                    match output_reply(replies[1]) {
                        Err(e) => StepView::Done(Err(e)),
                        Ok(o) => {
                            let text = match flag_value(inv.flags, 'S') {
                                Some(start) => tail_text(o.stdout@, start),
                                None => o.stdout@,
                            };
                            StepView::Done(
                                Ok(OutputView { stdout: encode_utf8(text), stderr: seq![], code: 0 }),
                            )
                        },
                    }
                },
            },
        }
    }
}

fn capture_pane(inv: &ParsedInvocation, client: &Client, replies: &[Reply]) -> (s: Step<Output>)
    ensures
        s@ == capture_pane_step(inv@, *client, replies@),
{
    if replies.len() == 0 {
        return Step::Call(client.list_panes());
    }
    let panes = match panes_of(&replies[0]) {
        Ok(p) => p,
        Err(e) => return Step::Done(Err(e)),
    };
    let pane = match resolve_pane(inv, panes.as_slice()) {
        Some(p) => p,
        None => return Step::Done(Err(ShimError::NoSuchPane(target_or_empty(inv)))),
    };
    if replies.len() == 1 {
        let id = terminal_id(pane.id);
        return Step::Call(client.dump_screen_full(id.as_str()));
    }
    let content = match crate::zellij::client::dump_result(&replies[1]) {
        Ok(c) => c,
        Err(e) => return Step::Done(Err(e)),
    };
    let out = match inv.value('S') {
        Some(start) => tail_lines(content.as_str(), start),
        None => content,
    };
    Step::Done(Ok(Output::bytes(out.as_str().as_bytes_vec())))
}

// ---------------------------------------------------------------------------
// dispatch
// ---------------------------------------------------------------------------

/// The query handlers, by subcommand.
pub open spec fn query_step(
    inv: InvocationView,
    c: Client,
    session: Seq<char>,
    replies: Seq<Reply>,
) -> StepView<OutputView> {
    let sub = inv.subcommand;
    if sub == "display-message"@ {
        display_message_step(inv, c, session, replies)
    } else if sub == "list-panes"@ {
        list_panes_step(inv, c, session, replies)
    } else if sub == "list-windows"@ {
        list_windows_step(inv, c, session, replies)
    } else if sub == "list-sessions"@ {
        list_sessions_step(inv, c, session, replies)
    } else if sub == "has-session"@ {
        has_session_step(inv, c, replies)
    } else if sub == "capture-pane"@ {
        capture_pane_step(inv, c, replies)
    } else {
        StepView::Done(Err(ErrView::BadArgs("query: unhandled command "@ + sub)))
    }
}

/// The next step of a query command, given the replies so far.
pub fn handle(inv: &ParsedInvocation, client: &Client, ctx: &Ctx, replies: &[Reply]) -> (s: Step<
    Output,
>)
    ensures
        s@ == query_step(inv@, *client, ctx.session@, replies@),
{
    let sub = chars_of(inv.subcommand.as_str());
    if is(&sub, "display-message") {
        display_message(inv, client, ctx, replies)
    } else if is(&sub, "list-panes") {
        list_panes(inv, client, ctx, replies)
    } else if is(&sub, "list-windows") {
        list_windows(inv, client, ctx, replies)
    } else if is(&sub, "list-sessions") {
        list_sessions(inv, client, ctx, replies)
    } else if is(&sub, "has-session") {
        has_session(inv, client, replies)
    } else if is(&sub, "capture-pane") {
        capture_pane(inv, client, replies)
    } else {
        Step::Done(
            Err(ShimError::BadArgs(cat("query: unhandled command ", inv.subcommand.as_str()))),
        )
    }
}

// ---------------------------------------------------------------------------
// laws
// ---------------------------------------------------------------------------

proof fn lemma_insert_by_id_contains(s: Seq<PaneInfo>, x: PaneInfo, y: PaneInfo)
    ensures
        insert_by_id(s, x).contains(y) <==> (s.contains(y) || y == x),
    decreases s.len(),
{
    if s.len() == 0 {
        assert(insert_by_id(s, x)[0] == x);
    } else if s.last().id <= x.id {
        let r = s.push(x);
        if s.contains(y) {
            let k = choose|k: int| 0 <= k < s.len() && s[k] == y;
            assert(r[k] == y);
        }
        if y == x {
            assert(r[s.len() as int] == x);
        }
        if r.contains(y) {
            let k = choose|k: int| 0 <= k < r.len() && r[k] == y;
            if k < s.len() {
                assert(s[k] == y);
            }
        }
    } else {
        let d = s.drop_last();
        lemma_insert_by_id_contains(d, x, y);
        let i = insert_by_id(d, x);
        let r = i.push(s.last());
        if s.contains(y) {
            let k = choose|k: int| 0 <= k < s.len() && s[k] == y;
            if k == s.len() - 1 {
                assert(r[i.len() as int] == y);
            } else {
                assert(d[k] == y);
                let m = choose|m: int| 0 <= m < i.len() && i[m] == y;
                assert(r[m] == y);
            }
        }
        if y == x {
            let m = choose|m: int| 0 <= m < i.len() && i[m] == y;
            assert(r[m] == y);
        }
        if r.contains(y) {
            let k = choose|k: int| 0 <= k < r.len() && r[k] == y;
            if k < i.len() {
                assert(i[k] == y);
                if d.contains(y) {
                    let m = choose|m: int| 0 <= m < d.len() && d[m] == y;
                    assert(s[m] == y);
                }
            } else {
                assert(s[s.len() - 1] == y);
            }
        }
    }
}

proof fn lemma_sort_by_id_contains(s: Seq<PaneInfo>, y: PaneInfo)
    ensures
        sort_by_id(s).contains(y) <==> s.contains(y),
    decreases s.len(),
{
    if s.len() > 0 {
        let d = s.drop_last();
        lemma_sort_by_id_contains(d, y);
        lemma_insert_by_id_contains(sort_by_id(d), s.last(), y);
        if s.contains(y) && y != s.last() {
            let k = choose|k: int| 0 <= k < s.len() && s[k] == y;
            assert(d[k] == y);
        }
        if d.contains(y) {
            let k = choose|k: int| 0 <= k < d.len() && d[k] == y;
            assert(s[k] == y);
        }
        if y == s.last() {
            assert(s[s.len() - 1] == y);
        }
    }
}

/// `list-panes` reports the terminal panes of one window: without `-a` or
/// `-s` a pane is listed exactly when it is a terminal pane of the target
/// window (the `-t` window, else the window of the `-t` pane, else the active
/// window); with `-a` or `-s`, exactly when it is a terminal pane.
pub proof fn law_list_panes_scope(inv: InvocationView, tabs: Seq<TabInfo>, panes: Seq<PaneInfo>, p: PaneInfo)
    ensures
        !has_flag(inv.flags, 'a') && !has_flag(inv.flags, 's') ==> (listed_panes(inv, tabs, panes).contains(p)
            <==> (panes.contains(p) && !p.is_plugin && target_tab_id(inv, tabs, panes) == Some(p.tab_id))),
        has_flag(inv.flags, 'a') || has_flag(inv.flags, 's') ==> (listed_panes(inv, tabs, panes).contains(p)
            <==> (panes.contains(p) && !p.is_plugin)),
{
    let t = keep(panes, is_terminal());
    crate::search::lemma_keep_contains(panes, is_terminal(), p);
    let q = in_tab_opt(target_tab_id(inv, tabs, panes));
    crate::search::lemma_keep_contains(t, q, p);
    lemma_sort_by_id_contains(t, p);
    lemma_sort_by_id_contains(keep(t, q), p);
}

/// `list-sessions` names each session once: the base session first, then
/// every namespace that some tab name carries, and nothing else.
pub proof fn law_session_names_distinct(tabs: Seq<TabInfo>, base: Seq<char>)
    ensures
        session_names(tabs, base).len() > 0 && session_names(tabs, base)[0] == base,
        forall|i: int, j: int| 0 <= i < j < session_names(tabs, base).len() ==> #[trigger] session_names(
            tabs,
            base,
        )[i] != #[trigger] session_names(tabs, base)[j],
        forall|i: int| 0 < i < session_names(tabs, base).len() ==> exists|k: int|
            0 <= k < tabs.len() && spec_session_of_tab_name(#[trigger] tabs[k].name@) == Some(
                #[trigger] session_names(tabs, base)[i],
            ),
        forall|k: int| 0 <= k < tabs.len() && #[trigger] spec_session_of_tab_name(tabs[k].name@) is Some
            ==> session_names(tabs, base).contains(spec_session_of_tab_name(tabs[k].name@).unwrap()),
    decreases tabs.len(),
{
    let n = session_names(tabs, base);
    if tabs.len() > 0 {
        let d = tabs.drop_last();
        law_session_names_distinct(d, base);
        let r = session_names(d, base);
        assert forall|k: int| 0 <= k < d.len() implies #[trigger] d[k] == tabs[k] by {}
        match spec_session_of_tab_name(tabs.last().name@) {
            Some(x) => {
                if !r.contains(x) {
                    assert(n == r.push(x));
                    assert forall|i: int, j: int| 0 <= i < j < n.len() implies #[trigger] n[i] != #[trigger] n[j] by {
                        if j == r.len() {
                            assert(n[i] == r[i]);
                        } else {
                            assert(n[i] == r[i] && n[j] == r[j]);
                        }
                    }
                    assert forall|i: int| 0 < i < n.len() implies exists|k: int|
                        0 <= k < tabs.len() && spec_session_of_tab_name(#[trigger] tabs[k].name@) == Some(#[trigger] n[i]) by {
                        if i == r.len() {
                            assert(spec_session_of_tab_name(tabs[tabs.len() - 1].name@) == Some(n[i]));
                        } else {
                            assert(n[i] == r[i]);
                            let k = choose|k: int| 0 <= k < d.len() && spec_session_of_tab_name(#[trigger] d[k].name@) == Some(r[i]);
                            assert(tabs[k] == d[k]);
                        }
                    }
                    assert forall|k: int| 0 <= k < tabs.len() && #[trigger] spec_session_of_tab_name(tabs[k].name@) is Some
                        implies n.contains(spec_session_of_tab_name(tabs[k].name@).unwrap()) by {
                        if k == tabs.len() - 1 {
                            assert(n[r.len() as int] == x);
                        } else {
                            assert(tabs[k] == d[k]);
                            let y = spec_session_of_tab_name(d[k].name@).unwrap();
                            assert(r.contains(y));
                            let m = choose|m: int| 0 <= m < r.len() && r[m] == y;
                            assert(n[m] == y);
                        }
                    }
                } else {
                    assert(n == r);
                    assert forall|i: int| 0 < i < n.len() implies exists|k: int|
                        0 <= k < tabs.len() && spec_session_of_tab_name(#[trigger] tabs[k].name@) == Some(#[trigger] n[i]) by {
                        let k = choose|k: int| 0 <= k < d.len() && spec_session_of_tab_name(#[trigger] d[k].name@) == Some(r[i]);
                        assert(tabs[k] == d[k]);
                    }
                    assert forall|k: int| 0 <= k < tabs.len() && #[trigger] spec_session_of_tab_name(tabs[k].name@) is Some
                        implies n.contains(spec_session_of_tab_name(tabs[k].name@).unwrap()) by {
                        if k < tabs.len() - 1 {
                            assert(tabs[k] == d[k]);
                        }
                    }
                }
            },
            None => {
                assert(n == r);
                assert forall|i: int| 0 < i < n.len() implies exists|k: int|
                    0 <= k < tabs.len() && spec_session_of_tab_name(#[trigger] tabs[k].name@) == Some(#[trigger] n[i]) by {
                    let k = choose|k: int| 0 <= k < d.len() && spec_session_of_tab_name(#[trigger] d[k].name@) == Some(r[i]);
                    assert(tabs[k] == d[k]);
                }
                assert forall|k: int| 0 <= k < tabs.len() && #[trigger] spec_session_of_tab_name(tabs[k].name@) is Some
                    implies n.contains(spec_session_of_tab_name(tabs[k].name@).unwrap()) by {
                    if k < tabs.len() - 1 {
                        assert(tabs[k] == d[k]);
                    }
                }
            },
        }
    } else {
        assert(n == seq![base]);
    }
}

} // verus!
