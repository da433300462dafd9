//! Resolution of tmux targets (`-t`) and format strings (`-F`) against live
//! zellij panes and tabs, shared by the command handlers.
use crate::cli::args::{flag_value, InvocationView, ParsedInvocation};
use crate::idmap::{pane_int_from_env, parse_pane_int, parse_window, zellij_tab_from_window};
use crate::search::first_where;
use crate::text::views;
use crate::zellij::types::{
    active_tab, active_terminal, deref_opt, is_active_tab, is_active_terminal, is_tab_with_id,
    is_terminal_with_id, pane_by_terminal_id, tab_by_id, PaneInfo, TabInfo,
};
use vstd::prelude::*;
use vstd::string::*;

verus! {

/// The focused tiled terminal pane.
pub open spec fn active_terminal_of(panes: Seq<PaneInfo>) -> Option<PaneInfo> {
    first_where(panes, is_active_terminal())
}

/// The pane a `-t` target names, falling back to the active terminal pane.
pub open spec fn target_pane(inv: InvocationView, panes: Seq<PaneInfo>) -> Option<PaneInfo> {
    match flag_value(inv.flags, 't') {
        Some(target) => match parse_pane_int(target) {
            Some(id) => match first_where(panes, is_terminal_with_id(id)) {
                Some(p) => Some(p),
                None => active_terminal_of(panes),
            },
            None => active_terminal_of(panes),
        },
        None => active_terminal_of(panes),
    }
}

/// The tab with id `id`, falling back to the active tab.
pub open spec fn tab_for(tabs: Seq<TabInfo>, id: i64) -> Option<TabInfo> {
    match first_where(tabs, is_tab_with_id(id)) {
        Some(t) => Some(t),
        None => first_where(tabs, is_active_tab()),
    }
}

/// The id of the active tab.
pub open spec fn active_tab_id(tabs: Seq<TabInfo>) -> Option<i64> {
    match first_where(tabs, is_active_tab()) {
        Some(t) => Some(t.tab_id),
        None => None,
    }
}

/// The tab a `-t` target names — a window `@N` that exists, else the tab of a
/// pane `%N` that exists — falling back to the active tab.
pub open spec fn target_tab_id(inv: InvocationView, tabs: Seq<TabInfo>, panes: Seq<PaneInfo>) -> Option<
    i64,
> {
    match flag_value(inv.flags, 't') {
        Some(target) => {
            let w = parse_window(target);
            let p = parse_pane_int(target);
            if w is Some && first_where(tabs, is_tab_with_id(w.unwrap())) is Some {
                w
            } else if p is Some && first_where(panes, is_terminal_with_id(p.unwrap())) is Some {
                Some(first_where(panes, is_terminal_with_id(p.unwrap())).unwrap().tab_id)
            } else {
                active_tab_id(tabs)
            }
        },
        None => active_tab_id(tabs),
    }
}

/// The format given with `-F`, else the first operand.
pub open spec fn format_arg(inv: InvocationView) -> Option<Seq<char>> {
    match flag_value(inv.flags, 'F') {
        Some(f) => Some(f),
        None => if inv.operands.len() > 0 {
            Some(inv.operands[0])
        } else {
            None
        },
    }
}

/// The format given with `-F` or as the first operand, else `default`.
pub open spec fn format_or(inv: InvocationView, default: Seq<char>) -> Seq<char> {
    match format_arg(inv) {
        Some(f) => f,
        None => default,
    }
}

/// The `-t` target text, empty when absent.
pub open spec fn target_text(inv: InvocationView) -> Seq<char> {
    match flag_value(inv.flags, 't') {
        Some(t) => t,
        None => Seq::<char>::empty(),
    }
}

/// The pane a `-t` target names, falling back to the active terminal pane.
pub fn resolve_pane<'a>(inv: &ParsedInvocation, panes: &'a [PaneInfo]) -> (r: Option<
    &'a PaneInfo,
>)
    ensures
        deref_opt(r) == target_pane(inv@, panes@),
{
    match inv.value('t') {
        Some(target) => match pane_int_from_env(target) {
            Some(id) => match pane_by_terminal_id(panes, id) {
                Some(p) => Some(p),
                None => active_terminal(panes),
            },
            None => active_terminal(panes),
        },
        None => active_terminal(panes),
    }
}

/// The tab with id `id`, falling back to the active tab.
pub fn tab_or_active<'a>(tabs: &'a [TabInfo], id: i64) -> (r: Option<&'a TabInfo>)
    ensures
        deref_opt(r) == tab_for(tabs@, id),
{
    match tab_by_id(tabs, id) {
        Some(t) => Some(t),
        None => active_tab(tabs),
    }
}

/// The tab a `-t` target names, falling back to the active tab.
pub fn resolve_tab_id(inv: &ParsedInvocation, tabs: &[TabInfo], panes: &[PaneInfo]) -> (r:
    Option<i64>)
    ensures
        r == target_tab_id(inv@, tabs@, panes@),
{
    let active = match active_tab(tabs) {
        Some(t) => Some(t.tab_id),
        None => None,
    };
    match inv.value('t') {
        Some(target) => {
            match zellij_tab_from_window(target) {
                Ok(tab_id) => {
                    if tab_by_id(tabs, tab_id).is_some() {
                        return Some(tab_id);
                    }
                },
                Err(_) => {},
            }
            match pane_int_from_env(target) {
                Some(id) => match pane_by_terminal_id(panes, id) {
                    Some(p) => Some(p.tab_id),
                    None => active,
                },
                None => active,
            }
        },
        None => active,
    }
}

/// The format given with `-F` or as the first operand.
pub fn format_given(inv: &ParsedInvocation) -> (r: Option<String>)
    ensures
        crate::text::opt_view(r) == format_arg(inv@),
{
    match inv.value('F') {
        Some(f) => Some(String::from_str(f)),
        None => {
            let ops = inv.operands();
            if ops.len() > 0 {
                Some(ops[0].clone())
            } else {
                None
            }
        },
    }
}

/// The format given with `-F` or as the first operand, else `default`.
pub fn format_of(inv: &ParsedInvocation, default: &str) -> (r: String)
    ensures
        r@ == format_or(inv@, default@),
{
    match format_given(inv) {
        Some(f) => f,
        None => String::from_str(default),
    }
}

/// The `-t` target text, empty when absent.
pub fn target_or_empty(inv: &ParsedInvocation) -> (r: String)
    ensures
        r@ == target_text(inv@),
{
    match inv.value('t') {
        Some(t) => String::from_str(t),
        None => String::new(),
    }
}

/// A `-t %N` that names an existing terminal pane selects that pane, not the
/// focused one; the pane selected is always a terminal pane of the list.
pub proof fn law_target_pane_is_named_pane(inv: InvocationView, panes: Seq<PaneInfo>, target: Seq<char>, id: i64)
    ensures
        flag_value(inv.flags, 't') == Some(target) && parse_pane_int(target) == Some(id) && (exists|k: int|
            0 <= k < panes.len() && #[trigger] panes[k].id == id && !panes[k].is_plugin) ==> (target_pane(
            inv,
            panes,
        ) matches Some(p) && p.id == id && !p.is_plugin && panes.contains(p)),
        target_pane(inv, panes) matches Some(p) ==> !p.is_plugin && panes.contains(p),
{
    crate::search::lemma_first_index(panes, is_terminal_with_id(id));
    crate::search::lemma_first_index(panes, is_active_terminal());
    match flag_value(inv.flags, 't') {
        Some(t) => match parse_pane_int(t) {
            Some(i) => crate::search::lemma_first_index(panes, is_terminal_with_id(i)),
            None => {},
        },
        None => {},
    }
    if flag_value(inv.flags, 't') == Some(target) && parse_pane_int(target) == Some(id) && (exists|k: int|
        0 <= k < panes.len() && #[trigger] panes[k].id == id && !panes[k].is_plugin) {
        let k = choose|k: int| 0 <= k < panes.len() && #[trigger] panes[k].id == id && !panes[k].is_plugin;
        assert(is_terminal_with_id(id)(panes[k]));
    }
}

} // verus!
