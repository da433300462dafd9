//! Models of `zellij action list-panes --json` and `list-tabs --json`, plus the
//! pure selectors the handlers use to resolve a tmux target to a zellij pane/tab.
//!
//! `id` is per-layer in zellij (a plugin pane and a terminal pane can both be
//! `id: 0`), so every pane selector filters `is_plugin == false` — tmux only
//! ever sees terminal panes.
use crate::search::{first_index, first_where, keep, lemma_first_index_is, lemma_first_index_none, lemma_keep_take, lemma_take_full};
use vstd::prelude::*;

verus! {

/// One pane as zellij reports it.
#[derive(Debug, Clone)]
pub struct PaneInfo {
    pub id: i64,
    pub is_plugin: bool,
    pub is_focused: bool,
    pub is_floating: bool,
    pub is_suppressed: bool,
    pub title: String,
    pub pane_x: i64,
    pub pane_y: i64,
    pub pane_rows: i64,
    pub pane_columns: i64,
    pub cursor_coordinates_in_pane: Option<[i64; 2]>,
    pub pane_command: Option<String>,
    pub pane_cwd: Option<String>,
    pub tab_id: i64,
    pub tab_position: i64,
    pub tab_name: String,
    pub exited: bool,
    pub exit_status: Option<i64>,
}

/// One tab as zellij reports it.
#[derive(Debug, Clone)]
pub struct TabInfo {
    pub position: i64,
    pub name: String,
    pub active: bool,
    pub viewport_rows: i64,
    pub viewport_columns: i64,
    pub tab_id: i64,
}

/// The focused, tiled terminal pane.
pub open spec fn is_active_terminal() -> spec_fn(PaneInfo) -> bool {
    |p: PaneInfo| p.is_focused && !p.is_plugin && !p.is_floating
}

/// A terminal (non-plugin) pane.
pub open spec fn is_terminal() -> spec_fn(PaneInfo) -> bool {
    |p: PaneInfo| !p.is_plugin
}

/// The terminal pane with integer id `id`.
pub open spec fn is_terminal_with_id(id: i64) -> spec_fn(PaneInfo) -> bool {
    |p: PaneInfo| !p.is_plugin && p.id == id
}

/// The active tab.
pub open spec fn is_active_tab() -> spec_fn(TabInfo) -> bool {
    |t: TabInfo| t.active
}

/// The tab with id `id`.
pub open spec fn is_tab_with_id(id: i64) -> spec_fn(TabInfo) -> bool {
    |t: TabInfo| t.tab_id == id
}

/// The value behind an optional reference.
pub open spec fn deref_opt<T>(r: Option<&T>) -> Option<T> {
    match r {
        Some(x) => Some(*x),
        None => None,
    }
}

/// The first pane satisfying `p` (its index among `panes`).
fn find_pane(panes: &[PaneInfo], Ghost(p): Ghost<spec_fn(PaneInfo) -> bool>, id: i64, mode: u8) -> (r: Option<usize>)
    requires
        mode == 0 ==> p == is_active_terminal(),
        mode == 1 ==> p == is_terminal_with_id(id),
        mode <= 1,
    ensures
        match r {
            Some(i) => i < panes@.len() && first_index(panes@, p) == Some(i as int),
            None => first_index(panes@, p) is None,
        },
{
    let mut i: usize = 0;
    while i < panes.len()
        invariant
            i <= panes.len(),
            mode == 0 ==> p == is_active_terminal(),
            mode == 1 ==> p == is_terminal_with_id(id),
            mode <= 1,
            forall|j: int| 0 <= j < i ==> !p(#[trigger] panes@[j]),
        decreases panes.len() - i,
    {
        let q = &panes[i];
        let hit = if mode == 0 {
            q.is_focused && !q.is_plugin && !q.is_floating
        } else {
            !q.is_plugin && q.id == id
        };
        if hit {
            proof {
                lemma_first_index_is(panes@, p, i as int);
            }
            return Some(i);
        }
        i = i + 1;
    }
    proof {
        lemma_first_index_none(panes@, p);
    }
    None
}

/// The focused terminal pane that is not floating.
pub fn active_terminal(panes: &[PaneInfo]) -> (r: Option<&PaneInfo>)
    ensures
        deref_opt(r) == first_where(panes@, is_active_terminal()),
{
    match find_pane(panes, Ghost(is_active_terminal()), 0, 0) {
        Some(i) => Some(&panes[i]),
        None => None,
    }
}

/// The terminal pane with integer id `id` (plugin panes never match).
pub fn pane_by_terminal_id(panes: &[PaneInfo], id: i64) -> (r: Option<&PaneInfo>)
    ensures
        deref_opt(r) == first_where(panes@, is_terminal_with_id(id)),
{
    match find_pane(panes, Ghost(is_terminal_with_id(id)), id, 1) {
        Some(i) => Some(&panes[i]),
        None => None,
    }
}

/// The terminal (non-plugin) panes, in order.
pub fn terminal_panes(panes: &[PaneInfo]) -> (r: Vec<&PaneInfo>)
    ensures
        r@.map_values(|p: &PaneInfo| *p) == keep(panes@, is_terminal()),
{
    let mut r: Vec<&PaneInfo> = Vec::new();
    let mut i: usize = 0;
    while i < panes.len()
        invariant
            i <= panes.len(),
            r@.map_values(|p: &PaneInfo| *p) == keep(panes@.take(i as int), is_terminal()),
        decreases panes.len() - i,
    {
        proof {
            lemma_keep_take(panes@, is_terminal(), i as int);
        }
        if !panes[i].is_plugin {
            r.push(&panes[i]);
        }
        i = i + 1;
        assert(r@.map_values(|p: &PaneInfo| *p) =~= keep(panes@.take(i as int), is_terminal()));
    }
    proof {
        lemma_take_full(panes@);
    }
    r
}

fn find_tab(tabs: &[TabInfo], Ghost(p): Ghost<spec_fn(TabInfo) -> bool>, id: i64, by_id: bool) -> (r: Option<usize>)
    requires
        !by_id ==> p == is_active_tab(),
        by_id ==> p == is_tab_with_id(id),
    ensures
        match r {
            Some(i) => i < tabs@.len() && first_index(tabs@, p) == Some(i as int),
            None => first_index(tabs@, p) is None,
        },
{
    let mut i: usize = 0;
    while i < tabs.len()
        invariant
            i <= tabs.len(),
            !by_id ==> p == is_active_tab(),
            by_id ==> p == is_tab_with_id(id),
            forall|j: int| 0 <= j < i ==> !p(#[trigger] tabs@[j]),
        decreases tabs.len() - i,
    {
        let hit = if by_id {
            tabs[i].tab_id == id
        } else {
            tabs[i].active
        };
        if hit {
            proof {
                lemma_first_index_is(tabs@, p, i as int);
            }
            return Some(i);
        }
        i = i + 1;
    }
    proof {
        lemma_first_index_none(tabs@, p);
    }
    None
}

/// The active tab.
pub fn active_tab(tabs: &[TabInfo]) -> (r: Option<&TabInfo>)
    ensures
        deref_opt(r) == first_where(tabs@, is_active_tab()),
{
    match find_tab(tabs, Ghost(is_active_tab()), 0, false) {
        Some(i) => Some(&tabs[i]),
        None => None,
    }
}

/// The tab with id `id`.
pub fn tab_by_id(tabs: &[TabInfo], id: i64) -> (r: Option<&TabInfo>)
    ensures
        deref_opt(r) == first_where(tabs@, is_tab_with_id(id)),
{
    match find_tab(tabs, Ghost(is_tab_with_id(id)), id, true) {
        Some(i) => Some(&tabs[i]),
        None => None,
    }
}

/// tmux only ever sees terminal panes: neither pane selector can return a
/// plugin pane, even where a plugin pane shares the id or holds the focus.
pub proof fn law_selectors_skip_plugins(panes: Seq<PaneInfo>, id: i64)
    ensures
        first_where(panes, is_active_terminal()) matches Some(p) ==> !p.is_plugin && p.is_focused,
        first_where(panes, is_terminal_with_id(id)) matches Some(p) ==> !p.is_plugin && p.id == id,
{
    crate::search::lemma_first_index(panes, is_active_terminal());
    crate::search::lemma_first_index(panes, is_terminal_with_id(id));
}

} // verus!
