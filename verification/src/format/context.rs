//! The tmux format-variable context for one pane, window or session, built
//! from live zellij data.
//!
//! Maps zellij's pane/tab fields onto the tmux `#{...}` variables that agent
//! tools read. Variables with no zellij equivalent (uuids) are present but
//! empty; the render engine simply substitutes whatever is here.
use crate::error::cat;
use crate::idmap::{spec_tmux_pane_id, spec_tmux_window_id, tmux_pane_id, tmux_window_id};
use crate::search::{first_index, keep, lemma_first_index_is, lemma_first_index_none, lemma_keep_take, lemma_take_full};
use crate::text::{chars_of, eq_chars, int_str, int_string, uint_string};
use crate::zellij::types::{PaneInfo, TabInfo};
use vstd::prelude::*;
use vstd::string::*;

verus! {

/// A variable binding: name and value.
pub type Binding = (Seq<char>, Seq<char>);

/// The format variables available to a template.
pub struct FormatContext {
    pub vars: Vec<(String, String)>,
}

/// The views of a list of bindings.
pub open spec fn bindings(v: Seq<(String, String)>) -> Seq<Binding> {
    v.map_values(|kv: (String, String)| (kv.0@, kv.1@))
}

impl View for FormatContext {
    type V = Seq<Binding>;

    open spec fn view(&self) -> Seq<Binding> {
        bindings(self.vars@)
    }
}

/// The binding of `name`.
pub open spec fn is_binding_of(name: Seq<char>) -> spec_fn(Binding) -> bool {
    |b: Binding| b.0 == name
}

/// The value bound to `name` (the first binding wins).
pub open spec fn lookup(vars: Seq<Binding>, name: Seq<char>) -> Option<Seq<char>> {
    match first_index(vars, is_binding_of(name)) {
        Some(i) => Some(vars[i].1),
        None => None,
    }
}

/// `1` or `0`.
pub open spec fn bit(b: bool) -> Seq<char> {
    if b {
        "1"@
    } else {
        "0"@
    }
}

/// The session variables.
pub open spec fn session_vars(session: Seq<char>) -> Seq<Binding> {
    seq![
        ("session_id"@, "$0"@),
        ("session_name"@, session),
        ("session_attached"@, "1"@),
        ("socket_path"@, "/tmp/zellij-tmux-shim/"@ + session),
    ]
}

/// The window variables of `tab`, which holds `window_panes` terminal panes.
pub open spec fn window_vars(tab: TabInfo, window_panes: int) -> Seq<Binding> {
    seq![
        ("window_id"@, spec_tmux_window_id(tab.tab_id)),
        ("window_uuid"@, Seq::<char>::empty()),
        ("window_index"@, int_str(tab.position as int)),
        ("window_name"@, tab.name@),
        ("window_width"@, int_str(tab.viewport_columns as int)),
        ("window_height"@, int_str(tab.viewport_rows as int)),
        ("window_active"@, bit(tab.active)),
        ("window_flags"@, if tab.active {
            "*"@
        } else {
            Seq::<char>::empty()
        }),
        ("window_panes"@, int_str(window_panes)),
    ]
}

/// The text of an optional string, empty when absent.
pub open spec fn or_empty(o: Option<String>) -> Seq<char> {
    match o {
        Some(s) => s@,
        None => Seq::<char>::empty(),
    }
}

/// The cursor column and row, `(0, 0)` when unknown.
pub open spec fn cursor_of(pane: PaneInfo) -> (i64, i64) {
    match pane.cursor_coordinates_in_pane {
        Some(c) => (c[0], c[1]),
        None => (0, 0),
    }
}

/// The pane variables of `pane`, the `pane_index`-th terminal of its tab.
pub open spec fn pane_vars(pane: PaneInfo, pane_index: int) -> Seq<Binding> {
    seq![
        ("pane_id"@, spec_tmux_pane_id(pane.id)),
        ("pane_uuid"@, Seq::<char>::empty()),
        ("pane_width"@, int_str(pane.pane_columns as int)),
        ("pane_height"@, int_str(pane.pane_rows as int)),
        ("pane_left"@, int_str(pane.pane_x as int)),
        ("pane_top"@, int_str(pane.pane_y as int)),
        ("pane_index"@, int_str(pane_index)),
        ("pane_active"@, bit(pane.is_focused)),
        ("pane_title"@, pane.title@),
        ("pane_current_path"@, or_empty(pane.pane_cwd)),
        ("pane_current_command"@, or_empty(pane.pane_command)),
        ("cursor_x"@, int_str(cursor_of(pane).0 as int)),
        ("cursor_y"@, int_str(cursor_of(pane).1 as int)),
    ]
}

/// A terminal pane of tab `tab_id`.
pub open spec fn in_tab(tab_id: i64) -> spec_fn(PaneInfo) -> bool {
    |p: PaneInfo| !p.is_plugin && p.tab_id == tab_id
}

/// The terminal panes of tab `tab_id`.
pub open spec fn tab_terminals(all: Seq<PaneInfo>, tab_id: i64) -> Seq<PaneInfo> {
    keep(all, in_tab(tab_id))
}

/// A pane with integer id below `id`.
pub open spec fn id_below(id: i64) -> spec_fn(PaneInfo) -> bool {
    |p: PaneInfo| p.id < id
}

/// A pane with integer id `id`.
pub open spec fn id_is(id: i64) -> spec_fn(PaneInfo) -> bool {
    |p: PaneInfo| p.id == id
}

/// The position of `pane` among the terminal panes of its tab ordered by id,
/// or 0 when it is not one of them.
pub open spec fn pane_index(pane: PaneInfo, all: Seq<PaneInfo>) -> int {
    let ts = tab_terminals(all, pane.tab_id);
    if first_index(ts, id_is(pane.id)) is Some {
        keep(ts, id_below(pane.id)).len() as int
    } else {
        0
    }
}

/// The full context of one pane.
pub open spec fn pane_context(pane: PaneInfo, tab: TabInfo, all: Seq<PaneInfo>, session: Seq<
    char,
>) -> Seq<Binding> {
    session_vars(session) + window_vars(tab, tab_terminals(all, pane.tab_id).len() as int)
        + pane_vars(pane, pane_index(pane, all))
}

/// The context of one window.
pub open spec fn window_context(tab: TabInfo, all: Seq<PaneInfo>, session: Seq<char>) -> Seq<
    Binding,
> {
    session_vars(session) + window_vars(tab, tab_terminals(all, tab.tab_id).len() as int)
}

impl FormatContext {
    /// The value bound to `name`.
    pub fn lookup(&self, name: &str) -> (r: Option<&str>)
        ensures
            match r {
                Some(v) => lookup(self@, name@) == Some(v@),
                None => lookup(self@, name@) is None,
            },
    {
        let n = chars_of(name);
        let mut i: usize = 0;
        while i < self.vars.len()
            invariant
                i <= self.vars.len(),
                n@ == name@,
                forall|j: int| 0 <= j < i ==> !is_binding_of(name@)(#[trigger] self@[j]),
            decreases self.vars.len() - i,
        {
            let k = chars_of(self.vars[i].0.as_str());
            if eq_chars(&k, &n) {
                proof {
                    lemma_first_index_is(self@, is_binding_of(name@), i as int);
                }
                return Some(self.vars[i].1.as_str());
            }
            i = i + 1;
        }
        proof {
            lemma_first_index_none(self@, is_binding_of(name@));
        }
        None
    }

    /// A context holding exactly `pairs`.
    pub fn test_ctx(pairs: &[(&str, &str)]) -> (c: Self)
        ensures
            c@ == pairs@.map_values(|kv: (&str, &str)| (kv.0@, kv.1@)),
    {
        let mut vars: Vec<(String, String)> = Vec::new();
        let mut i: usize = 0;
        while i < pairs.len()
            invariant
                i <= pairs.len(),
                bindings(vars@) == pairs@.take(i as int).map_values(
                    |kv: (&str, &str)| (kv.0@, kv.1@),
                ),
            decreases pairs.len() - i,
        {
            let (k, v) = pairs[i];
            let ghost prev = vars@;
            vars.push((String::from_str(k), String::from_str(v)));
            assert(bindings(vars@) =~= bindings(prev).push((k@, v@)));
            assert(pairs@.take(i + 1) =~= pairs@.take(i as int).push(pairs@[i as int]));
            i = i + 1;
            assert(bindings(vars@) =~= pairs@.take(i as int).map_values(
                |kv: (&str, &str)| (kv.0@, kv.1@),
            ));
        }
        assert(pairs@.take(pairs.len() as int) =~= pairs@);
        FormatContext { vars }
    }
}

fn put(vars: &mut Vec<(String, String)>, key: &str, value: String)
    ensures
        bindings(final(vars)@) == bindings(old(vars)@).push((key@, value@)),
{
    vars.push((String::from_str(key), value));
    assert(bindings(final(vars)@) =~= bindings(old(vars)@).push((key@, value@)));
}

fn flag_text(b: bool, yes: &str) -> (s: String)
    ensures
        s@ == (if b {
            yes@
        } else {
            Seq::<char>::empty()
        }),
{
    if b {
        String::from_str(yes)
    } else {
        String::new()
    }
}

fn bit_text(b: bool) -> (s: String)
    ensures
        s@ == bit(b),
{
    if b {
        String::from_str("1")
    } else {
        String::from_str("0")
    }
}

fn text_or_empty(o: &Option<String>) -> (s: String)
    ensures
        s@ == or_empty(*o),
{
    match o {
        Some(t) => t.clone(),
        None => String::new(),
    }
}

fn insert_session(vars: &mut Vec<(String, String)>, session: &str)
    ensures
        bindings(final(vars)@) == bindings(old(vars)@) + session_vars(session@),
{
    put(vars, "session_id", String::from_str("$0"));
    put(vars, "session_name", String::from_str(session));
    put(vars, "session_attached", String::from_str("1"));
    put(vars, "socket_path", cat("/tmp/zellij-tmux-shim/", session));
    assert(bindings(final(vars)@) =~= bindings(old(vars)@) + session_vars(session@));
}

fn insert_window(vars: &mut Vec<(String, String)>, tab: &TabInfo, window_panes: usize)
    ensures
        bindings(final(vars)@) == bindings(old(vars)@) + window_vars(*tab, window_panes as int),
{
    put(vars, "window_id", tmux_window_id(tab.tab_id));
    put(vars, "window_uuid", String::new());
    put(vars, "window_index", int_string(tab.position));
    put(vars, "window_name", tab.name.clone());
    put(vars, "window_width", int_string(tab.viewport_columns));
    put(vars, "window_height", int_string(tab.viewport_rows));
    put(vars, "window_active", bit_text(tab.active));
    put(vars, "window_flags", flag_text(tab.active, "*"));
    put(vars, "window_panes", uint_string(window_panes as u64));
    assert(bindings(final(vars)@) =~= bindings(old(vars)@) + window_vars(
        *tab,
        window_panes as int,
    ));
}

fn insert_pane(vars: &mut Vec<(String, String)>, pane: &PaneInfo, pane_index: usize)
    ensures
        bindings(final(vars)@) == bindings(old(vars)@) + pane_vars(*pane, pane_index as int),
{
    let (cursor_x, cursor_y) = match pane.cursor_coordinates_in_pane {
        Some(c) => (c[0], c[1]),
        None => (0, 0),
    };
    put(vars, "pane_id", tmux_pane_id(pane.id));
    put(vars, "pane_uuid", String::new());
    put(vars, "pane_width", int_string(pane.pane_columns));
    put(vars, "pane_height", int_string(pane.pane_rows));
    put(vars, "pane_left", int_string(pane.pane_x));
    put(vars, "pane_top", int_string(pane.pane_y));
    put(vars, "pane_index", uint_string(pane_index as u64));
    put(vars, "pane_active", bit_text(pane.is_focused));
    put(vars, "pane_title", pane.title.clone());
    put(vars, "pane_current_path", text_or_empty(&pane.pane_cwd));
    put(vars, "pane_current_command", text_or_empty(&pane.pane_command));
    put(vars, "cursor_x", int_string(cursor_x));
    put(vars, "cursor_y", int_string(cursor_y));
    assert(bindings(final(vars)@) =~= bindings(old(vars)@) + pane_vars(*pane, pane_index as int));
}

/// The number of terminal panes of tab `tab_id`, the number of those with an id
/// below `id`, and whether one has id `id`.
fn tab_census(all: &[PaneInfo], tab_id: i64, id: i64) -> (r: (usize, usize, bool))
    ensures
        r.0 == tab_terminals(all@, tab_id).len(),
        r.1 == keep(tab_terminals(all@, tab_id), id_below(id)).len(),
        r.2 == (first_index(tab_terminals(all@, tab_id), id_is(id)) is Some),
{
    let mut total: usize = 0;
    let mut below: usize = 0;
    let mut found = false;
    let mut i: usize = 0;
    while i < all.len()
        invariant
            i <= all.len(),
            total == keep(all@.take(i as int), in_tab(tab_id)).len(),
            below == keep(keep(all@.take(i as int), in_tab(tab_id)), id_below(id)).len(),
            found == (first_index(keep(all@.take(i as int), in_tab(tab_id)), id_is(id)) is Some),
            total <= i,
            below <= total,
        decreases all.len() - i,
    {
        proof {
            lemma_keep_take(all@, in_tab(tab_id), i as int);
        }
        let ghost ts = keep(all@.take(i as int), in_tab(tab_id));
        let p = &all[i];
        if !p.is_plugin && p.tab_id == tab_id {
            let ghost ts2 = ts.push(*p);
            proof {
                assert(ts2.drop_last() =~= ts);
                assert(ts2.last() == *p);
                lemma_first_index_push(ts, id_is(id), *p);
            }
            total = total + 1;
            if p.id < id {
                below = below + 1;
            }
            if p.id == id {
                found = true;
            }
        }
        i = i + 1;
    }
    proof {
        lemma_take_full(all@);
    }
    (total, below, found)
}

/// Appending an element can only add a first match at the end.
proof fn lemma_first_index_push(s: Seq<PaneInfo>, p: spec_fn(PaneInfo) -> bool, x: PaneInfo)
    ensures
        (first_index(s.push(x), p) is Some) == (first_index(s, p) is Some || p(x)),
{
    crate::search::lemma_first_index(s, p);
    crate::search::lemma_first_index(s.push(x), p);
    if first_index(s, p) is Some {
        let i = first_index(s, p).unwrap();
        assert(s.push(x)[i] == s[i]);
    } else if p(x) {
        assert(s.push(x)[s.len() as int] == x);
    } else {
        assert forall|j: int| 0 <= j < s.push(x).len() implies !p(s.push(x)[j]) by {
            if j < s.len() {
                assert(s.push(x)[j] == s[j]);
            }
        }
        if first_index(s.push(x), p) is Some {
            let k = first_index(s.push(x), p).unwrap();
            assert(!p(s.push(x)[k]));
        }
    }
}

/// The full context of `pane` in `tab`, given every pane of the session.
pub fn build(pane: &PaneInfo, tab: &TabInfo, all_panes: &[PaneInfo], session: &str) -> (c:
    FormatContext)
    ensures
        c@ == pane_context(*pane, *tab, all_panes@, session@),
        distinct_keys(c@),
{
    let (window_panes, below, found) = tab_census(all_panes, pane.tab_id, pane.id);
    let pane_index = if found {
        below
    } else {
        0
    };
    let mut vars: Vec<(String, String)> = Vec::new();
    insert_session(&mut vars, session);
    insert_window(&mut vars, tab, window_panes);
    insert_pane(&mut vars, pane, pane_index);
    assert(bindings(vars@) =~= pane_context(*pane, *tab, all_panes@, session@));
    proof {
        law_context_names_distinct(*pane, *tab, all_panes@, session@);
    }
    FormatContext { vars }
}

/// The context of window `tab`, given every pane of the session.
pub fn build_window(tab: &TabInfo, all_panes: &[PaneInfo], session: &str) -> (c: FormatContext)
    ensures
        c@ == window_context(*tab, all_panes@, session@),
        distinct_keys(c@),
{
    let (window_panes, _, _) = tab_census(all_panes, tab.tab_id, 0);
    let mut vars: Vec<(String, String)> = Vec::new();
    insert_session(&mut vars, session);
    insert_window(&mut vars, tab, window_panes);
    assert(bindings(vars@) =~= window_context(*tab, all_panes@, session@));
    proof {
        law_context_names_distinct(arbitrary(), *tab, all_panes@, session@);
    }
    FormatContext { vars }
}

/// The context of session `session`.
pub fn build_session(session: &str) -> (c: FormatContext)
    ensures
        c@ == session_vars(session@),
        distinct_keys(c@),
{
    let mut vars: Vec<(String, String)> = Vec::new();
    insert_session(&mut vars, session);
    assert(bindings(vars@) =~= session_vars(session@));
    proof {
        law_context_names_distinct(arbitrary(), arbitrary(), seq![], session@);
    }
    FormatContext { vars }
}

/// No two bindings share a name, so the first binding of a name is its only
/// one.
pub open spec fn distinct_keys(vars: Seq<Binding>) -> bool {
    forall|i: int, j: int| 0 <= i < j < vars.len() ==> #[trigger] vars[i].0 != #[trigger] vars[j].0
}

/// Every variable name of a pane context, in order.
pub open spec fn context_names() -> Seq<Seq<char>> {
    seq![
        "session_id"@,
        "session_name"@,
        "session_attached"@,
        "socket_path"@,
        "window_id"@,
        "window_uuid"@,
        "window_index"@,
        "window_name"@,
        "window_width"@,
        "window_height"@,
        "window_active"@,
        "window_flags"@,
        "window_panes"@,
        "pane_id"@,
        "pane_uuid"@,
        "pane_width"@,
        "pane_height"@,
        "pane_left"@,
        "pane_top"@,
        "pane_index"@,
        "pane_active"@,
        "pane_title"@,
        "pane_current_path"@,
        "pane_current_command"@,
        "cursor_x"@,
        "cursor_y"@,
    ]
}

/// The position of a variable name in [`context_names`] (-1 when absent).
pub open spec fn name_position(name: Seq<char>) -> int {
    if name == "session_id"@ {
        0
    } else if name == "session_name"@ {
        1
    } else if name == "session_attached"@ {
        2
    } else if name == "socket_path"@ {
        3
    } else if name == "window_id"@ {
        4
    } else if name == "window_uuid"@ {
        5
    } else if name == "window_index"@ {
        6
    } else if name == "window_name"@ {
        7
    } else if name == "window_width"@ {
        8
    } else if name == "window_height"@ {
        9
    } else if name == "window_active"@ {
        10
    } else if name == "window_flags"@ {
        11
    } else if name == "window_panes"@ {
        12
    } else if name == "pane_id"@ {
        13
    } else if name == "pane_uuid"@ {
        14
    } else if name == "pane_width"@ {
        15
    } else if name == "pane_height"@ {
        16
    } else if name == "pane_left"@ {
        17
    } else if name == "pane_top"@ {
        18
    } else if name == "pane_index"@ {
        19
    } else if name == "pane_active"@ {
        20
    } else if name == "pane_title"@ {
        21
    } else if name == "pane_current_path"@ {
        22
    } else if name == "pane_current_command"@ {
        23
    } else if name == "cursor_x"@ {
        24
    } else if name == "cursor_y"@ {
        25
    } else {
        -1
    }
}

proof fn lemma_context_names_distinct()
    ensures
        forall|i: int, j: int| 0 <= i < j < context_names().len() ==> #[trigger] context_names()[i]
            != #[trigger] context_names()[j],
{
    reveal_strlit("session_id");
    reveal_strlit("session_name");
    reveal_strlit("session_attached");
    reveal_strlit("socket_path");
    reveal_strlit("window_id");
    reveal_strlit("window_uuid");
    reveal_strlit("window_index");
    reveal_strlit("window_name");
    reveal_strlit("window_width");
    reveal_strlit("window_height");
    reveal_strlit("window_active");
    reveal_strlit("window_flags");
    reveal_strlit("window_panes");
    reveal_strlit("pane_id");
    reveal_strlit("pane_uuid");
    reveal_strlit("pane_width");
    reveal_strlit("pane_height");
    reveal_strlit("pane_left");
    reveal_strlit("pane_top");
    reveal_strlit("pane_index");
    reveal_strlit("pane_active");
    reveal_strlit("pane_title");
    reveal_strlit("pane_current_path");
    reveal_strlit("pane_current_command");
    reveal_strlit("cursor_x");
    reveal_strlit("cursor_y");
    let k = context_names();
    assert(k[0] == "session_id"@ && "session_id"@.len() == 10);
    assert(k[1] == "session_name"@ && "session_name"@.len() == 12);
    assert(k[2] == "session_attached"@ && "session_attached"@.len() == 16);
    assert(k[3] == "socket_path"@ && "socket_path"@.len() == 11);
    assert(k[4] == "window_id"@ && "window_id"@.len() == 9);
    assert(k[5] == "window_uuid"@ && "window_uuid"@.len() == 11);
    assert(k[6] == "window_index"@ && "window_index"@.len() == 12);
    assert(k[7] == "window_name"@ && "window_name"@.len() == 11);
    assert(k[8] == "window_width"@ && "window_width"@.len() == 12);
    assert(k[9] == "window_height"@ && "window_height"@.len() == 13);
    assert(k[10] == "window_active"@ && "window_active"@.len() == 13);
    assert(k[11] == "window_flags"@ && "window_flags"@.len() == 12);
    assert(k[12] == "window_panes"@ && "window_panes"@.len() == 12);
    assert(k[13] == "pane_id"@ && "pane_id"@.len() == 7);
    assert(k[14] == "pane_uuid"@ && "pane_uuid"@.len() == 9);
    assert(k[15] == "pane_width"@ && "pane_width"@.len() == 10);
    assert(k[16] == "pane_height"@ && "pane_height"@.len() == 11);
    assert(k[17] == "pane_left"@ && "pane_left"@.len() == 9);
    assert(k[18] == "pane_top"@ && "pane_top"@.len() == 8);
    assert(k[19] == "pane_index"@ && "pane_index"@.len() == 10);
    assert(k[20] == "pane_active"@ && "pane_active"@.len() == 11);
    assert(k[21] == "pane_title"@ && "pane_title"@.len() == 10);
    assert(k[22] == "pane_current_path"@ && "pane_current_path"@.len() == 17);
    assert(k[23] == "pane_current_command"@ && "pane_current_command"@.len() == 20);
    assert(k[24] == "cursor_x"@ && "cursor_x"@.len() == 8);
    assert(k[25] == "cursor_y"@ && "cursor_y"@.len() == 8);
    assert("session_id"@ != "pane_width"@) by {
        assert("session_id"@[0] != "pane_width"@[0]);
    }
    assert("session_id"@ != "pane_index"@) by {
        assert("session_id"@[0] != "pane_index"@[0]);
    }
    assert("session_id"@ != "pane_title"@) by {
        assert("session_id"@[0] != "pane_title"@[0]);
    }
    assert("session_name"@ != "window_index"@) by {
        assert("session_name"@[0] != "window_index"@[0]);
    }
    assert("session_name"@ != "window_width"@) by {
        assert("session_name"@[0] != "window_width"@[0]);
    }
    assert("session_name"@ != "window_flags"@) by {
        assert("session_name"@[0] != "window_flags"@[0]);
    }
    assert("session_name"@ != "window_panes"@) by {
        assert("session_name"@[0] != "window_panes"@[0]);
    }
    assert("socket_path"@ != "window_uuid"@) by {
        assert("socket_path"@[0] != "window_uuid"@[0]);
    }
    assert("socket_path"@ != "window_name"@) by {
        assert("socket_path"@[0] != "window_name"@[0]);
    }
    assert("socket_path"@ != "pane_height"@) by {
        assert("socket_path"@[0] != "pane_height"@[0]);
    }
    assert("socket_path"@ != "pane_active"@) by {
        assert("socket_path"@[0] != "pane_active"@[0]);
    }
    assert("window_id"@ != "pane_uuid"@) by {
        assert("window_id"@[0] != "pane_uuid"@[0]);
    }
    assert("window_id"@ != "pane_left"@) by {
        assert("window_id"@[0] != "pane_left"@[0]);
    }
    assert("window_uuid"@ != "window_name"@) by {
        assert("window_uuid"@[7] != "window_name"@[7]);
    }
    assert("window_uuid"@ != "pane_height"@) by {
        assert("window_uuid"@[0] != "pane_height"@[0]);
    }
    assert("window_uuid"@ != "pane_active"@) by {
        assert("window_uuid"@[0] != "pane_active"@[0]);
    }
    assert("window_index"@ != "window_width"@) by {
        assert("window_index"@[7] != "window_width"@[7]);
    }
    assert("window_index"@ != "window_flags"@) by {
        assert("window_index"@[7] != "window_flags"@[7]);
    }
    assert("window_index"@ != "window_panes"@) by {
        assert("window_index"@[7] != "window_panes"@[7]);
    }
    assert("window_name"@ != "pane_height"@) by {
        assert("window_name"@[0] != "pane_height"@[0]);
    }
    assert("window_name"@ != "pane_active"@) by {
        assert("window_name"@[0] != "pane_active"@[0]);
    }
    assert("window_width"@ != "window_flags"@) by {
        assert("window_width"@[7] != "window_flags"@[7]);
    }
    assert("window_width"@ != "window_panes"@) by {
        assert("window_width"@[7] != "window_panes"@[7]);
    }
    assert("window_height"@ != "window_active"@) by {
        assert("window_height"@[7] != "window_active"@[7]);
    }
    assert("window_flags"@ != "window_panes"@) by {
        assert("window_flags"@[7] != "window_panes"@[7]);
    }
    assert("pane_uuid"@ != "pane_left"@) by {
        assert("pane_uuid"@[5] != "pane_left"@[5]);
    }
    assert("pane_width"@ != "pane_index"@) by {
        assert("pane_width"@[5] != "pane_index"@[5]);
    }
    assert("pane_width"@ != "pane_title"@) by {
        assert("pane_width"@[5] != "pane_title"@[5]);
    }
    assert("pane_height"@ != "pane_active"@) by {
        assert("pane_height"@[5] != "pane_active"@[5]);
    }
    assert("pane_top"@ != "cursor_x"@) by {
        assert("pane_top"@[0] != "cursor_x"@[0]);
    }
    assert("pane_top"@ != "cursor_y"@) by {
        assert("pane_top"@[0] != "cursor_y"@[0]);
    }
    assert("pane_index"@ != "pane_title"@) by {
        assert("pane_index"@[5] != "pane_title"@[5]);
    }
    assert("cursor_x"@ != "cursor_y"@) by {
        assert("cursor_x"@[7] != "cursor_y"@[7]);
    }
    assert(name_position(k[0]) == 0);
    assert(name_position(k[1]) == 1);
    assert(name_position(k[2]) == 2);
    assert(name_position(k[3]) == 3);
    assert(name_position(k[4]) == 4);
    assert(name_position(k[5]) == 5);
    assert(name_position(k[6]) == 6);
    assert(name_position(k[7]) == 7);
    assert(name_position(k[8]) == 8);
    assert(name_position(k[9]) == 9);
    assert(name_position(k[10]) == 10);
    assert(name_position(k[11]) == 11);
    assert(name_position(k[12]) == 12);
    assert(name_position(k[13]) == 13);
    assert(name_position(k[14]) == 14);
    assert(name_position(k[15]) == 15);
    assert(name_position(k[16]) == 16);
    assert(name_position(k[17]) == 17);
    assert(name_position(k[18]) == 18);
    assert(name_position(k[19]) == 19);
    assert(name_position(k[20]) == 20);
    assert(name_position(k[21]) == 21);
    assert(name_position(k[22]) == 22);
    assert(name_position(k[23]) == 23);
    assert(name_position(k[24]) == 24);
    assert(name_position(k[25]) == 25);
    assert forall|i: int| 0 <= i < k.len() implies #[trigger] name_position(k[i]) == i by {
        if i == 0 {
        } else if i == 1 {
        } else if i == 2 {
        } else if i == 3 {
        } else if i == 4 {
        } else if i == 5 {
        } else if i == 6 {
        } else if i == 7 {
        } else if i == 8 {
        } else if i == 9 {
        } else if i == 10 {
        } else if i == 11 {
        } else if i == 12 {
        } else if i == 13 {
        } else if i == 14 {
        } else if i == 15 {
        } else if i == 16 {
        } else if i == 17 {
        } else if i == 18 {
        } else if i == 19 {
        } else if i == 20 {
        } else if i == 21 {
        } else if i == 22 {
        } else if i == 23 {
        } else if i == 24 {
        } else if i == 25 {
        }
    }
    assert forall|i: int, j: int| 0 <= i < j < k.len() implies #[trigger] k[i] != #[trigger] k[j] by {
        assert(name_position(k[i]) == i);
        assert(name_position(k[j]) == j);
    }
}

/// Every context the shim builds binds each variable name once.
pub proof fn law_context_names_distinct(pane: PaneInfo, tab: TabInfo, all: Seq<PaneInfo>, session: Seq<char>)
    ensures
        distinct_keys(pane_context(pane, tab, all, session)),
        distinct_keys(window_context(tab, all, session)),
        distinct_keys(session_vars(session)),
{
    lemma_context_names_distinct();
    let names = context_names();
    let v = pane_context(pane, tab, all, session);
    assert(v.map_values(|b: Binding| b.0) =~= names);
    assert forall|i: int, j: int| 0 <= i < j < v.len() implies #[trigger] v[i].0 != #[trigger] v[j].0 by {
        assert(v.map_values(|b: Binding| b.0)[i] == v[i].0);
        assert(v.map_values(|b: Binding| b.0)[j] == v[j].0);
        assert(names[i] != names[j]);
    }
    let w = window_context(tab, all, session);
    assert(w.map_values(|b: Binding| b.0) =~= names.take(13));
    assert forall|i: int, j: int| 0 <= i < j < w.len() implies #[trigger] w[i].0 != #[trigger] w[j].0 by {
        assert(w.map_values(|b: Binding| b.0)[i] == w[i].0);
        assert(w.map_values(|b: Binding| b.0)[j] == w[j].0);
        assert(names[i] != names[j]);
    }
    let s = session_vars(session);
    assert(s.map_values(|b: Binding| b.0) =~= names.take(4));
    assert forall|i: int, j: int| 0 <= i < j < s.len() implies #[trigger] s[i].0 != #[trigger] s[j].0 by {
        assert(s.map_values(|b: Binding| b.0)[i] == s[i].0);
        assert(s.map_values(|b: Binding| b.0)[j] == s[j].0);
        assert(names[i] != names[j]);
    }
}

} // verus!
