use serde_json::Value;
use zellij_tmux_shim::cli::args::{parse, ParsedInvocation};
use zellij_tmux_shim::cmd::keys::key_to_byte;
use zellij_tmux_shim::cmd::query::tail_lines;
use zellij_tmux_shim::cmd::router::{dispatch, Env, Job};
use zellij_tmux_shim::cmd::{Ctx, Output};
use zellij_tmux_shim::error::ShimError;
use zellij_tmux_shim::exchange::{Expect, Reply, Request, Step};
use zellij_tmux_shim::format::context::build;
use zellij_tmux_shim::zellij::client::{new_pane_result, new_tab_result, Client, FakeRunner};
use zellij_tmux_shim::zellij::types::{
    active_tab, active_terminal, pane_by_terminal_id, tab_by_id, terminal_panes, PaneInfo, TabInfo,
};

// ---------------------------------------------------------------------------
// helpers: JSON decoding and a driver that answers requests from a fake
// ---------------------------------------------------------------------------

fn int_field(v: &Value, k: &str) -> Result<i64, String> {
    v.get(k)
        .and_then(Value::as_i64)
        .ok_or_else(|| format!("missing field `{k}`"))
}

fn bool_field(v: &Value, k: &str) -> bool {
    v.get(k).and_then(Value::as_bool).unwrap_or(false)
}

fn text_field(v: &Value, k: &str) -> Option<String> {
    v.get(k).and_then(Value::as_str).map(str::to_string)
}

fn pane_from(v: &Value) -> Result<PaneInfo, String> {
    let cursor = v
        .get("cursor_coordinates_in_pane")
        .and_then(Value::as_array)
        .and_then(|a| match (a.first().and_then(Value::as_i64), a.get(1).and_then(Value::as_i64)) {
            (Some(x), Some(y)) => Some([x, y]),
            _ => None,
        });
    Ok(PaneInfo {
        id: int_field(v, "id")?,
        is_plugin: bool_field(v, "is_plugin"),
        is_focused: bool_field(v, "is_focused"),
        is_floating: bool_field(v, "is_floating"),
        is_suppressed: bool_field(v, "is_suppressed"),
        title: text_field(v, "title").unwrap_or_default(),
        pane_x: int_field(v, "pane_x")?,
        pane_y: int_field(v, "pane_y")?,
        pane_rows: int_field(v, "pane_rows")?,
        pane_columns: int_field(v, "pane_columns")?,
        cursor_coordinates_in_pane: cursor,
        pane_command: text_field(v, "pane_command"),
        pane_cwd: text_field(v, "pane_cwd"),
        tab_id: int_field(v, "tab_id")?,
        tab_position: v.get("tab_position").and_then(Value::as_i64).unwrap_or(0),
        tab_name: text_field(v, "tab_name").unwrap_or_default(),
        exited: bool_field(v, "exited"),
        exit_status: v.get("exit_status").and_then(Value::as_i64),
    })
}

fn tab_from(v: &Value) -> Result<TabInfo, String> {
    Ok(TabInfo {
        position: int_field(v, "position")?,
        name: text_field(v, "name").unwrap_or_default(),
        active: bool_field(v, "active"),
        viewport_rows: int_field(v, "viewport_rows")?,
        viewport_columns: int_field(v, "viewport_columns")?,
        tab_id: int_field(v, "tab_id")?,
    })
}

fn decode_list<T>(text: &str, one: fn(&Value) -> Result<T, String>) -> Result<Vec<T>, String> {
    let v: Value = serde_json::from_str(text).map_err(|e| e.to_string())?;
    let items = v.as_array().ok_or_else(|| "expected an array".to_string())?;
    items.iter().map(one).collect()
}

fn decode_panes(text: &str) -> Vec<PaneInfo> {
    decode_list(text, pane_from).unwrap()
}

fn decode_tabs(text: &str) -> Vec<TabInfo> {
    decode_list(text, tab_from).unwrap()
}

fn answer(f: &mut FakeRunner, req: Request) -> Reply {
    match req {
        Request::Zellij { args, expect } => {
            let out = f.call(&args);
            match expect {
                Expect::Text => Reply::Output(out),
                Expect::Panes => match decode_list(&out.stdout, pane_from) {
                    Ok(p) => Reply::Panes(p),
                    Err(e) => Reply::Failed(ShimError::Json(e)),
                },
                Expect::Tabs => match decode_list(&out.stdout, tab_from) {
                    Ok(t) => Reply::Tabs(t),
                    Err(e) => Reply::Failed(ShimError::Json(e)),
                },
            }
        }
        Request::ReadCache { .. } => Reply::Cached(None),
        Request::WriteCache { .. } => Reply::Written,
        Request::Clock => Reply::Now(0),
        Request::Canonical { .. } => Reply::Canonical(None),
    }
}

fn drive<T>(
    f: &mut FakeRunner,
    mut step: impl FnMut(&[Reply]) -> Step<T>,
) -> Result<T, ShimError> {
    let mut replies: Vec<Reply> = Vec::new();
    loop {
        match step(&replies) {
            Step::Done(r) => return r,
            Step::Call(req) => {
                let reply = answer(f, req);
                replies.push(reply);
            }
        }
    }
}

fn perform(f: &mut FakeRunner, req: Request) -> Reply {
    answer(f, req)
}

fn inv(a: &[&str]) -> ParsedInvocation {
    parse(&a.iter().map(|s| (*s).to_string()).collect::<Vec<_>>()).unwrap()
}

fn keys(f: &mut FakeRunner, a: &[&str], c: &Client) -> Result<Output, ShimError> {
    let i = inv(a);
    let ctx = Ctx::test("s");
    drive(f, |r| zellij_tmux_shim::cmd::keys::handle(&i, c, &ctx, r))
}

fn query(f: &mut FakeRunner, a: &[&str], c: &Client, session: &str) -> Result<Output, ShimError> {
    let i = inv(a);
    let ctx = Ctx::test(session);
    drive(f, |r| zellij_tmux_shim::cmd::query::handle(&i, c, &ctx, r))
}

fn lifecycle(f: &mut FakeRunner, a: &[&str], c: &Client) -> Result<Output, ShimError> {
    let i = inv(a);
    let ctx = Ctx::test("s");
    drive(f, |r| zellij_tmux_shim::cmd::lifecycle::handle(&i, c, &ctx, r))
}

fn resize(f: &mut FakeRunner, a: &[&str], c: &Client) -> Result<Output, ShimError> {
    let i = inv(a);
    let ctx = Ctx::test("s");
    drive(f, |r| zellij_tmux_shim::cmd::resize::handle(&i, c, &ctx, r))
}

fn s(items: &[&str]) -> Vec<String> {
    items.iter().map(|x| (*x).to_string()).collect()
}

// ---------------------------------------------------------------------------
// client
// ---------------------------------------------------------------------------

#[test]
fn list_panes_uses_canonical_query_and_parses() {
    let mut fake = FakeRunner::ok(
        r#"[{"id":0,"is_plugin":false,"is_focused":true,"pane_x":0,"pane_y":0,
            "pane_rows":24,"pane_columns":80,"tab_id":0,"tab_position":0}]"#,
    );
    let client = Client::unscoped();
    let panes = match perform(&mut fake, client.list_panes()) {
        Reply::Panes(p) => p,
        _ => panic!("expected panes"),
    };
    assert_eq!(panes.len(), 1);
    assert_eq!(fake.last_call(), ["action", "list-panes", "--all", "--json"]);
}

#[test]
fn new_pane_parses_terminal_id() {
    let mut fake = FakeRunner::ok("terminal_7\n");
    let client = Client::unscoped();
    let reply = perform(&mut fake, client.new_pane(&s(&["--direction", "right"])));
    assert_eq!(new_pane_result(&reply).unwrap(), 7);
    assert_eq!(fake.last_call(), ["action", "new-pane", "--direction", "right"]);
}

#[test]
fn new_tab_parses_bare_int() {
    let mut fake = FakeRunner::ok("3\n");
    let client = Client::unscoped();
    let reply = perform(&mut fake, client.new_tab(&s(&["--name", "omo:1"])));
    assert_eq!(new_tab_result(&reply).unwrap(), 3);
}

#[test]
fn close_pane_targets_by_pane_id() {
    let mut fake = FakeRunner::ok("");
    let client = Client::unscoped();
    let reply = perform(&mut fake, client.close_pane("terminal_2"));
    assert!(zellij_tmux_shim::exchange::action_result(&reply).is_ok());
    assert_eq!(fake.last_call(), ["action", "close-pane", "--pane-id", "terminal_2"]);
}

#[test]
fn write_byte_renders_decimal() {
    let mut fake = FakeRunner::ok("");
    let client = Client::unscoped();
    let reply = perform(&mut fake, client.write_byte("terminal_1", 3));
    assert!(zellij_tmux_shim::exchange::action_result(&reply).is_ok());
    assert_eq!(fake.last_call(), ["action", "write", "--pane-id", "terminal_1", "3"]);
}

#[test]
fn failed_action_is_error() {
    let mut fake = FakeRunner::fail();
    let client = Client::unscoped();
    let reply = perform(&mut fake, client.close_pane("terminal_9"));
    match zellij_tmux_shim::exchange::action_result(&reply) {
        Err(ShimError::ZellijExit { code, stderr }) => {
            assert_eq!(code, 1);
            assert_eq!(stderr, "boom");
        }
        _ => panic!("expected ZellijExit"),
    }
}

#[test]
fn scoped_client_prefixes_session() {
    let mut fake = FakeRunner::ok("");
    let client = Client::new("work".to_string());
    perform(&mut fake, client.go_to_tab(2));
    assert_eq!(fake.last_call(), ["--session", "work", "action", "go-to-tab", "2"]);
    assert_eq!(fake.last_action(), ["action", "go-to-tab", "2"]);
}

#[test]
fn new_pane_rejects_unexpected_output() {
    let mut fake = FakeRunner::ok("garbage\n");
    let reply = perform(&mut fake, Client::unscoped().new_pane(&[]));
    match new_pane_result(&reply) {
        Err(ShimError::BadArgs(m)) => assert_eq!(m, "unexpected new-pane output: \"garbage\""),
        _ => panic!("expected BadArgs"),
    }
}

// ---------------------------------------------------------------------------
// pane and tab selectors
// ---------------------------------------------------------------------------

const PANES_JSON: &str = r#"[
  {"id":1,"is_plugin":true,"is_focused":true,"is_floating":true,"is_suppressed":false,
   "title":"About Zellij","pane_x":0,"pane_y":2,"pane_rows":20,"pane_columns":80,
   "cursor_coordinates_in_pane":null,"tab_id":0,"tab_position":0,"tab_name":"Tab #1"},
  {"id":0,"is_plugin":true,"is_focused":false,"is_floating":false,"is_suppressed":true,
   "title":"zellij:link","pane_x":20,"pane_y":6,"pane_rows":12,"pane_columns":40,
   "cursor_coordinates_in_pane":null,"tab_id":0,"tab_position":0,"tab_name":"Tab #1"},
  {"id":0,"is_plugin":false,"is_focused":true,"is_floating":false,"is_suppressed":false,
   "title":"prober","pane_x":0,"pane_y":0,"pane_rows":8,"pane_columns":80,
   "cursor_coordinates_in_pane":[1,1],"pane_command":"bash","pane_cwd":"/tmp",
   "tab_id":0,"tab_position":0,"tab_name":"Tab #1"},
  {"id":1,"is_plugin":false,"is_focused":false,"is_floating":false,"is_suppressed":false,
   "title":"/tmp","pane_x":0,"pane_y":8,"pane_rows":8,"pane_columns":80,
   "cursor_coordinates_in_pane":[3,3],"pane_command":"/bin/zsh","pane_cwd":"/tmp",
   "tab_id":0,"tab_position":0,"tab_name":"Tab #1"},
  {"id":2,"is_plugin":false,"is_focused":false,"is_floating":false,"is_suppressed":false,
   "title":"/tmp","pane_x":0,"pane_y":16,"pane_rows":8,"pane_columns":80,
   "cursor_coordinates_in_pane":[3,3],"pane_command":"/bin/zsh","pane_cwd":"/tmp",
   "tab_id":0,"tab_position":0,"tab_name":"Tab #1"}
]"#;

const TABS_JSON: &str = r#"[
  {"position":0,"name":"Tab #1","active":true,"viewport_rows":24,"viewport_columns":80,"tab_id":0}
]"#;

#[test]
fn terminal_panes_excludes_plugins() {
    let p = decode_panes(PANES_JSON);
    let terms = terminal_panes(&p);
    assert_eq!(terms.len(), 3);
    assert!(terms.iter().all(|t| !t.is_plugin));
}

#[test]
fn active_terminal_is_focused_nonplugin_nonfloating() {
    let p = decode_panes(PANES_JSON);
    let a = active_terminal(&p).unwrap();
    assert!(!a.is_plugin && !a.is_floating && a.is_focused);
    assert_eq!(a.id, 0);
    assert_eq!(a.pane_command.as_deref(), Some("bash"));
}

#[test]
fn pane_by_terminal_id_ignores_plugin_layer() {
    let p = decode_panes(PANES_JSON);
    let t0 = pane_by_terminal_id(&p, 0).unwrap();
    assert!(!t0.is_plugin);
    assert_eq!(t0.title, "prober");
    let t2 = pane_by_terminal_id(&p, 2).unwrap();
    assert_eq!(
        (t2.pane_columns, t2.pane_rows, t2.pane_x, t2.pane_y),
        (80, 8, 0, 16)
    );
}

#[test]
fn tabs_deserialize_and_select_active() {
    let tabs = decode_tabs(TABS_JSON);
    let a = active_tab(&tabs).unwrap();
    assert_eq!((a.viewport_columns, a.viewport_rows), (80, 24));
    assert_eq!(a.position, 0);
    assert!(tab_by_id(&tabs, 0).is_some());
}

// ---------------------------------------------------------------------------
// format context
// ---------------------------------------------------------------------------

const CTX_PANES: &str = r#"[
  {"id":0,"is_plugin":false,"is_focused":true,"is_floating":false,"title":"editor",
   "pane_x":0,"pane_y":0,"pane_rows":24,"pane_columns":120,"cursor_coordinates_in_pane":[4,9],
   "pane_command":"vim","pane_cwd":"/proj","tab_id":3,"tab_position":1,"tab_name":"work"},
  {"id":1,"is_plugin":false,"is_focused":false,"is_floating":false,"title":"shell",
   "pane_x":0,"pane_y":24,"pane_rows":24,"pane_columns":120,"cursor_coordinates_in_pane":null,
   "pane_command":"zsh","pane_cwd":"/proj","tab_id":3,"tab_position":1,"tab_name":"work"}
]"#;
const CTX_TAB: &str = r#"[{"position":1,"name":"work","active":true,"viewport_rows":48,
   "viewport_columns":120,"tab_id":3}]"#;

fn ctx_for(idx: usize) -> zellij_tmux_shim::format::context::FormatContext {
    let panes = decode_panes(CTX_PANES);
    let tabs = decode_tabs(CTX_TAB);
    build(&panes[idx], &tabs[0], &panes, "mysess")
}

#[test]
fn maps_pane_geometry_and_ids() {
    let c = ctx_for(0);
    assert_eq!(c.lookup("pane_id"), Some("%0"));
    assert_eq!(c.lookup("pane_width"), Some("120"));
    assert_eq!(c.lookup("pane_height"), Some("24"));
    assert_eq!(c.lookup("pane_top"), Some("0"));
    assert_eq!(c.lookup("pane_active"), Some("1"));
    assert_eq!(c.lookup("pane_current_command"), Some("vim"));
    assert_eq!(c.lookup("cursor_x"), Some("4"));
}

#[test]
fn maps_window_and_session() {
    let c = ctx_for(0);
    assert_eq!(c.lookup("window_id"), Some("@3"));
    assert_eq!(c.lookup("window_width"), Some("120"));
    assert_eq!(c.lookup("window_height"), Some("48"));
    assert_eq!(c.lookup("window_index"), Some("1"));
    assert_eq!(c.lookup("window_panes"), Some("2"));
    assert_eq!(c.lookup("window_flags"), Some("*"));
    assert_eq!(c.lookup("session_name"), Some("mysess"));
}

#[test]
fn nonfocused_pane_index_and_active() {
    let c = ctx_for(1);
    assert_eq!(c.lookup("pane_index"), Some("1"));
    assert_eq!(c.lookup("pane_active"), Some("0"));
    assert_eq!(c.lookup("cursor_x"), Some("0"));
}

#[test]
fn session_variables_are_synthesized() {
    let c = ctx_for(1);
    assert_eq!(c.lookup("session_id"), Some("$0"));
    assert_eq!(c.lookup("session_attached"), Some("1"));
    assert_eq!(c.lookup("socket_path"), Some("/tmp/zellij-tmux-shim/mysess"));
    assert_eq!(c.lookup("pane_uuid"), Some(""));
    assert_eq!(c.lookup("cursor_y"), Some("0"));
    assert_eq!(c.lookup("nope"), None);
}

// ---------------------------------------------------------------------------
// send-keys and select-pane
// ---------------------------------------------------------------------------

#[test]
fn send_keys_writes_text_then_enter() {
    let mut f = FakeRunner::ok("");
    keys(&mut f, &["send-keys", "-t", "%1", "echo hi", "Enter"], &Client::new("s".to_string())).unwrap();
    let calls = f.all_actions();
    assert_eq!(
        calls[0],
        ["action", "write-chars", "--pane-id", "terminal_1", "echo hi"]
    );
    assert_eq!(calls[1], ["action", "write", "--pane-id", "terminal_1", "13"]);
}

#[test]
fn send_keys_ctrl_c_writes_byte_3() {
    let mut f = FakeRunner::ok("");
    keys(&mut f, &["send-keys", "-t", "%1", "C-c"], &Client::new("s".to_string())).unwrap();
    assert_eq!(f.last_action(), ["action", "write", "--pane-id", "terminal_1", "3"]);
}

#[test]
fn select_pane_title_renames_and_bare_focuses() {
    let mut f = FakeRunner::ok("");
    keys(&mut f, &["select-pane", "-t", "%2", "-T", "omo-sub"], &Client::new("s".to_string())).unwrap();
    assert_eq!(
        f.last_action(),
        ["action", "rename-pane", "--pane-id", "terminal_2", "omo-sub"]
    );

    let mut g = FakeRunner::ok("");
    keys(&mut g, &["select-pane", "-t", "%2"], &Client::new("s".to_string())).unwrap();
    assert_eq!(g.last_action(), ["action", "focus-pane-id", "terminal_2"]);
}

#[test]
fn key_translation_table() {
    assert_eq!(key_to_byte("Enter"), Some(13));
    assert_eq!(key_to_byte("C-c"), Some(3));
    assert_eq!(key_to_byte("C-a"), Some(1));
    assert_eq!(key_to_byte("Tab"), Some(9));
    assert_eq!(key_to_byte("literal-text"), None);
}

#[test]
fn key_translation_covers_every_named_key() {
    assert_eq!(key_to_byte("Escape"), Some(27));
    assert_eq!(key_to_byte("Esc"), Some(27));
    assert_eq!(key_to_byte("Space"), Some(32));
    assert_eq!(key_to_byte("BSpace"), Some(127));
    assert_eq!(key_to_byte("C-m"), Some(13));
    assert_eq!(key_to_byte("Ctrl-Z"), Some(26));
    assert_eq!(key_to_byte("C-1"), None);
    assert_eq!(key_to_byte("C-ab"), None);
}

#[test]
fn send_keys_literal_flag_sends_text() {
    let mut f = FakeRunner::ok("");
    keys(&mut f, &["send-keys", "-l", "-t", "%1", "Enter"], &Client::new("s".to_string())).unwrap();
    assert_eq!(
        f.last_action(),
        ["action", "write-chars", "--pane-id", "terminal_1", "Enter"]
    );
}

#[test]
fn send_keys_stops_at_first_failed_write() {
    let mut f = FakeRunner::fail();
    let r = keys(&mut f, &["send-keys", "-t", "%1", "a", "b"], &Client::new("s".to_string()));
    assert!(matches!(r, Err(ShimError::ZellijExit { .. })));
    assert_eq!(f.all_calls().len(), 1);
}

#[test]
fn send_keys_without_target_is_bad_args() {
    let mut f = FakeRunner::ok("");
    match keys(&mut f, &["send-keys", "x"], &Client::new("s".to_string())) {
        Err(e) => assert_eq!(e.message(), "zellij-tmux-shim: send-keys requires -t"),
        Ok(_) => panic!("expected an error"),
    }
    assert!(f.all_calls().is_empty());
}

// ---------------------------------------------------------------------------
// query commands
// ---------------------------------------------------------------------------

const Q_PANES: &str = r#"[
  {"id":0,"is_plugin":true,"is_focused":true,"is_floating":true,"title":"About",
   "pane_x":0,"pane_y":0,"pane_rows":10,"pane_columns":10,"tab_id":0,"tab_position":0,"tab_name":"main"},
  {"id":0,"is_plugin":false,"is_focused":true,"is_floating":false,"title":"editor",
   "pane_x":0,"pane_y":0,"pane_rows":50,"pane_columns":120,"pane_command":"vim","pane_cwd":"/p",
   "tab_id":0,"tab_position":0,"tab_name":"main"},
  {"id":1,"is_plugin":false,"is_focused":false,"is_floating":false,"title":"shell",
   "pane_x":0,"pane_y":50,"pane_rows":50,"pane_columns":120,"pane_command":"zsh","pane_cwd":"/p",
   "tab_id":0,"tab_position":0,"tab_name":"main"}
]"#;
const Q_TABS: &str = r#"[
  {"position":0,"name":"main","active":true,"viewport_rows":100,"viewport_columns":120,"tab_id":0},
  {"position":1,"name":"omo-agents-9:1","active":false,"viewport_rows":100,"viewport_columns":120,"tab_id":1}
]"#;

fn qfake() -> FakeRunner {
    FakeRunner::routed(&[("list-panes", Q_PANES), ("list-tabs", Q_TABS)])
}

#[test]
fn display_pane_and_window_geometry_positional() {
    let mut f = qfake();
    let out = query(
        &mut f,
        &["display", "-p", "-t", "%1", "#{pane_width},#{window_width}"],
        &Client::unscoped(),
        "s",
    )
    .unwrap();
    assert_eq!(out.stdout, b"120,120\n");
}

#[test]
fn display_uses_active_terminal_when_untargeted() {
    let mut f = qfake();
    let out = query(
        &mut f,
        &["display-message", "-p", "-F", "#{pane_current_command}"],
        &Client::unscoped(),
        "s",
    )
    .unwrap();
    assert_eq!(out.stdout, b"vim\n");
}

#[test]
fn list_panes_emits_terminal_ids_only() {
    let mut f = qfake();
    let out = query(&mut f, &["list-panes", "-F", "#{pane_id}"], &Client::unscoped(), "s").unwrap();
    assert_eq!(out.stdout, b"%0\n%1\n");
}

#[test]
fn has_session_present_and_absent() {
    let present = query(
        &mut qfake(),
        &["has-session", "-t", "omo-agents-9"],
        &Client::unscoped(),
        "s",
    )
    .unwrap();
    assert_eq!(present.code, 0);
    assert!(present.stderr.is_empty());
    let absent = query(&mut qfake(), &["has-session", "-t", "nope"], &Client::unscoped(), "s").unwrap();
    assert_eq!(absent.code, 1);
    assert_eq!(absent.stderr, b"can't find session: nope\n");
}

#[test]
fn list_sessions_includes_base_and_namespaces() {
    let mut f = qfake();
    let out = query(
        &mut f,
        &["list-sessions", "-F", "#{session_name}"],
        &Client::unscoped(),
        "base",
    )
    .unwrap();
    assert_eq!(out.stdout, b"base\nomo-agents-9\n");
}

#[test]
fn tail_lines_takes_last_n() {
    let content = "1\n2\n3\n4\n5\n";
    assert_eq!(tail_lines(content, "-2"), "4\n5\n");
}

#[test]
fn tail_lines_keeps_content_for_other_starts() {
    assert_eq!(tail_lines("1\n2\n3", "-2"), "2\n3");
    assert_eq!(tail_lines("1\n2\n", "0"), "1\n2\n");
    assert_eq!(tail_lines("1\n2\n", "-9"), "1\n2\n");
}

#[test]
fn display_message_without_format_does_nothing() {
    let mut f = qfake();
    let out = query(&mut f, &["display-message"], &Client::unscoped(), "s").unwrap();
    assert!(out.stdout.is_empty() && out.code == 0);
    assert!(f.all_calls().is_empty());
}

#[test]
fn list_windows_renders_each_tab() {
    let mut f = qfake();
    let out = query(
        &mut f,
        &["list-windows", "-F", "#{window_id} #{window_name} #{window_panes}"],
        &Client::unscoped(),
        "s",
    )
    .unwrap();
    assert_eq!(out.stdout, b"@0 main 2\n@1 omo-agents-9:1 0\n");
}

#[test]
fn list_panes_of_unparseable_output_is_json_error() {
    let mut f = FakeRunner::ok("not json");
    let r = query(&mut f, &["list-panes"], &Client::unscoped(), "s");
    assert!(matches!(r, Err(ShimError::Json(_))));
}

// ---------------------------------------------------------------------------
// lifecycle commands
// ---------------------------------------------------------------------------

#[test]
fn split_window_h_returns_percent_id() {
    let mut f = FakeRunner::ok("terminal_7\n");
    let out = lifecycle(&mut f, &["split-window", "-h", "-P", "-F", "#{pane_id}"], &Client::unscoped()).unwrap();
    assert_eq!(out.stdout, b"%7\n");
    assert_eq!(f.last_call(), ["action", "new-pane", "--direction", "right"]);
}

#[test]
fn split_window_wraps_command_env() {
    let mut f = FakeRunner::ok("terminal_1\n");
    lifecycle(
        &mut f,
        &["split-window", "-v", "-c", "/w", "-e", "K=V", "--", "run", "me"],
        &Client::unscoped(),
    )
    .unwrap();
    let call = f.last_call();
    assert_eq!(&call[..5], ["action", "new-pane", "--direction", "down", "--cwd"]);
    assert!(call.contains(&"/bin/sh".to_string()));
    assert!(call.iter().any(|s| s.contains("K='V' exec")));
}

#[test]
fn split_window_cwd_without_command_spawns_login_shell() {
    let mut f = FakeRunner::ok("terminal_4\n");
    lifecycle(
        &mut f,
        &["split-window", "-h", "-c", "/work", "-P", "-F", "#{pane_id}"],
        &Client::unscoped(),
    )
    .unwrap();
    let call = f.last_call();
    assert_eq!(
        &call[..7],
        ["action", "new-pane", "--direction", "right", "--cwd", "/work", "--"]
    );
    assert_eq!(call[7], Ctx::test("s").login_shell);
}

#[test]
fn split_window_single_string_command_runs_via_shell() {
    let mut f = FakeRunner::ok("terminal_9\n");
    lifecycle(&mut f, &["split-window", "-h", "echo hello world"], &Client::unscoped()).unwrap();
    let call = f.last_call();
    assert_eq!(&call[call.len() - 4..], ["--", "/bin/sh", "-c", "echo hello world"]);
}

#[test]
fn new_window_single_string_command_runs_via_shell() {
    let panes = r#"[{"id":7,"is_plugin":false,"is_focused":true,"pane_x":0,"pane_y":0,
        "pane_rows":24,"pane_columns":80,"tab_id":4,"tab_position":0}]"#;
    let mut f = FakeRunner::routed(&[("new-tab", "4\n"), ("list-panes", panes)]);
    lifecycle(
        &mut f,
        &["new-window", "-n", "sub", "opencode attach http://x --dir /p"],
        &Client::unscoped(),
    )
    .unwrap();
    let new_tab = f
        .all_calls()
        .into_iter()
        .find(|c| c.contains(&"new-tab".to_string()))
        .unwrap();
    assert_eq!(
        &new_tab[new_tab.len() - 4..],
        ["--", "/bin/sh", "-c", "opencode attach http://x --dir /p"]
    );
}

#[test]
fn split_window_focuses_target_before_directional_split() {
    let mut f = FakeRunner::ok("terminal_7\n");
    lifecycle(
        &mut f,
        &["split-window", "-h", "-t", "%1", "-P", "-F", "#{pane_id}"],
        &Client::unscoped(),
    )
    .unwrap();
    let calls = f.all_calls();
    assert_eq!(calls[0], ["action", "focus-pane-id", "terminal_1"]);
    assert_eq!(calls[1], ["action", "new-pane", "--direction", "right"]);
}

#[test]
fn new_session_creates_prefixed_tab_and_resolves_pane() {
    let panes = r#"[{"id":5,"is_plugin":false,"is_focused":true,"pane_x":0,"pane_y":0,
        "pane_rows":24,"pane_columns":80,"tab_id":3,"tab_position":0}]"#;
    let mut f = FakeRunner::routed(&[("new-tab", "3\n"), ("list-panes", panes)]);
    let out = lifecycle(
        &mut f,
        &["new-session", "-d", "-s", "omo-1", "-P", "-F", "#{pane_id}"],
        &Client::unscoped(),
    )
    .unwrap();
    assert_eq!(out.stdout, b"%5\n");
    assert_eq!(f.all_calls()[0], ["action", "new-tab", "--name", "omo-1:1"]);
}

#[test]
fn kill_pane_and_select_window_target_correctly() {
    let panes = r#"[{"id":3,"is_plugin":false,"is_focused":true,"pane_x":0,"pane_y":0,
        "pane_rows":24,"pane_columns":80,"tab_id":0,"tab_position":0}]"#;
    let mut f = FakeRunner::routed(&[("list-panes", panes), ("close-pane", "")]);
    lifecycle(&mut f, &["kill-pane", "-t", "%3"], &Client::unscoped()).unwrap();
    assert_eq!(f.last_call(), ["action", "close-pane", "--pane-id", "terminal_3"]);

    let mut g = FakeRunner::ok("");
    lifecycle(&mut g, &["select-window", "-t", "@4"], &Client::unscoped()).unwrap();
    assert_eq!(g.last_call(), ["action", "go-to-tab-by-id", "4"]);
}

#[test]
fn kill_pane_missing_target_exits_1() {
    let panes = r#"[{"id":0,"is_plugin":false,"is_focused":true,"pane_x":0,"pane_y":0,
        "pane_rows":24,"pane_columns":80,"tab_id":0,"tab_position":0}]"#;
    let mut f = FakeRunner::routed(&[("list-panes", panes)]);
    let out = lifecycle(&mut f, &["kill-pane", "-t", "%9"], &Client::unscoped()).unwrap();
    assert_eq!(out.code, 1);
    assert_eq!(out.stderr, b"can't find pane: %9\n");
}

#[test]
fn respawn_pane_replaces_in_place() {
    let panes = r#"[{"id":3,"is_plugin":false,"is_focused":true,"pane_x":0,"pane_y":0,
        "pane_rows":24,"pane_columns":80,"tab_id":0,"tab_position":0}]"#;
    let mut f = FakeRunner::routed(&[
        ("list-panes", panes),
        ("focus-pane-id", ""),
        ("new-pane", "terminal_8\n"),
    ]);
    lifecycle(&mut f, &["respawn-pane", "-t", "%3"], &Client::unscoped()).unwrap();
    let calls = f.all_calls();
    assert!(calls.iter().any(|c| c == &["action", "focus-pane-id", "terminal_3"]));
    let new_pane = calls
        .iter()
        .find(|c| c.contains(&"new-pane".to_string()))
        .unwrap();
    assert!(new_pane.contains(&"--in-place".to_string()));
    assert!(new_pane.contains(&"--close-replaced-pane".to_string()));
}

#[test]
fn kill_session_closes_every_namespaced_tab() {
    let tabs = r#"[
      {"position":0,"name":"main","active":true,"viewport_rows":24,"viewport_columns":80,"tab_id":0},
      {"position":1,"name":"omo-9:1","active":false,"viewport_rows":24,"viewport_columns":80,"tab_id":1},
      {"position":2,"name":"omo-9:2","active":false,"viewport_rows":24,"viewport_columns":80,"tab_id":2}
    ]"#;
    let mut f = FakeRunner::routed(&[("list-tabs", tabs), ("close-tab-by-id", "")]);
    lifecycle(&mut f, &["kill-session", "-t", "omo-9"], &Client::unscoped()).unwrap();
    let closes = f
        .all_calls()
        .into_iter()
        .filter(|c| c.contains(&"close-tab-by-id".to_string()))
        .count();
    assert_eq!(closes, 2);
}

#[test]
fn new_window_index_avoids_collision_after_kill() {
    let tabs = r#"[
      {"position":0,"name":"s:1","active":false,"viewport_rows":24,"viewport_columns":80,"tab_id":0},
      {"position":1,"name":"s:3","active":true,"viewport_rows":24,"viewport_columns":80,"tab_id":1}
    ]"#;
    let panes = r#"[{"id":9,"is_plugin":false,"is_focused":true,"pane_x":0,"pane_y":0,
        "pane_rows":24,"pane_columns":80,"tab_id":5,"tab_position":0}]"#;
    let mut f = FakeRunner::routed(&[("list-tabs", tabs), ("new-tab", "5\n"), ("list-panes", panes)]);
    lifecycle(&mut f, &["new-window", "-t", "s", "-P", "-F", "#{pane_id}"], &Client::unscoped()).unwrap();
    let new_tab = f
        .all_calls()
        .into_iter()
        .find(|c| c.contains(&"new-tab".to_string()))
        .unwrap();
    assert!(new_tab.contains(&"s:4".to_string()), "expected s:4, got {new_tab:?}");
}

#[test]
fn new_session_then_has_session_finds_it() {
    let panes = r#"[{"id":5,"is_plugin":false,"is_focused":true,"pane_x":0,"pane_y":0,
        "pane_rows":24,"pane_columns":80,"tab_id":3,"tab_position":0}]"#;
    let mut f = FakeRunner::routed(&[("new-tab", "3\n"), ("list-panes", panes)]);
    lifecycle(&mut f, &["new-session", "-d", "-s", "omo-2"], &Client::unscoped()).unwrap();
    let name = f.all_calls()[0][3].clone();
    let tabs = format!(
        r#"[{{"position":0,"name":"{name}","active":true,"viewport_rows":24,"viewport_columns":80,"tab_id":3}}]"#
    );
    let mut g = FakeRunner::routed(&[("list-tabs", tabs.as_str())]);
    let out = query(&mut g, &["has-session", "-t", "omo-2"], &Client::unscoped(), "s").unwrap();
    assert_eq!(out.code, 0);
}

#[test]
fn kill_window_requires_target() {
    let mut f = FakeRunner::ok("");
    match lifecycle(&mut f, &["kill-window"], &Client::unscoped()) {
        Err(e) => assert_eq!(e.message(), "zellij-tmux-shim: kill-window requires -t"),
        Ok(_) => panic!("expected an error"),
    }
}

// ---------------------------------------------------------------------------
// resize-pane
// ---------------------------------------------------------------------------

const R_PANE: &str = r#"[{"id":1,"is_plugin":false,"is_focused":true,"pane_x":0,"pane_y":0,
    "pane_rows":24,"pane_columns":80,"tab_id":0,"tab_position":0}]"#;
const R_TABS: &str = r#"[{"position":0,"name":"m","active":true,"viewport_rows":48,
    "viewport_columns":160,"tab_id":0}]"#;

fn rfake() -> FakeRunner {
    FakeRunner::routed(&[
        ("list-panes", R_PANE),
        ("list-tabs", R_TABS),
        ("resize", ""),
        ("toggle-fullscreen", ""),
        ("focus-pane-id", ""),
    ])
}

fn resizes(f: &FakeRunner) -> Vec<Vec<String>> {
    f.all_actions()
        .into_iter()
        .filter(|c| c.contains(&"resize".to_string()))
        .collect()
}

#[test]
fn absolute_x_larger_grows_width_at_right_border() {
    let mut f = rfake();
    resize(&mut f, &["resize-pane", "-t", "%1", "-x", "120"], &Client::new("s".to_string())).unwrap();
    let r = resizes(&f);
    assert_eq!(
        r[0],
        ["action", "resize", "--pane-id", "terminal_1", "increase", "right"]
    );
}

#[test]
fn relative_l_shrinks_width() {
    let mut f = rfake();
    resize(&mut f, &["resize-pane", "-t", "%1", "-L", "5"], &Client::new("s".to_string())).unwrap();
    assert_eq!(
        resizes(&f)[0],
        ["action", "resize", "--pane-id", "terminal_1", "decrease", "right"]
    );
}

#[test]
fn absolute_percent_y_resolves_against_viewport() {
    let mut f = rfake();
    resize(&mut f, &["resize-pane", "-t", "%1", "-y", "25%"], &Client::new("s".to_string())).unwrap();
    assert_eq!(
        resizes(&f)[0],
        ["action", "resize", "--pane-id", "terminal_1", "decrease", "down"]
    );
}

#[test]
fn zoom_focuses_then_toggles_fullscreen() {
    let mut f = rfake();
    resize(&mut f, &["resize-pane", "-t", "%1", "-Z"], &Client::new("s".to_string())).unwrap();
    let calls = f.all_actions();
    assert!(calls.iter().any(|c| c == &["action", "focus-pane-id", "terminal_1"]));
    assert!(calls.iter().any(|c| c.contains(&"toggle-fullscreen".to_string())));
    assert!(resizes(&f).is_empty());
}

#[test]
fn unmovable_pane_tries_both_borders_then_stops() {
    // The fake pane never changes size: the right border is tried once, then
    // the left border once, then the approach gives up.
    let mut f = rfake();
    resize(&mut f, &["resize-pane", "-t", "%1", "-x", "120"], &Client::new("s".to_string())).unwrap();
    let r = resizes(&f);
    assert_eq!(r.len(), 2);
    assert_eq!(r[1], ["action", "resize", "--pane-id", "terminal_1", "increase", "left"]);
}

#[test]
fn reached_target_issues_no_resize() {
    let mut f = rfake();
    resize(&mut f, &["resize-pane", "-t", "%1", "-x", "80", "-y", "50%"], &Client::new("s".to_string()))
        .unwrap();
    assert!(resizes(&f).is_empty());
}

#[test]
fn resize_unknown_target_is_no_such_pane() {
    let mut f = rfake();
    match resize(&mut f, &["resize-pane", "-t", "%7", "-x", "10"], &Client::new("s".to_string())) {
        Err(e) => assert_eq!(e.message(), "can't find pane: %7"),
        Ok(_) => panic!("expected an error"),
    }
}

// ---------------------------------------------------------------------------
// dispatch
// ---------------------------------------------------------------------------

fn env(session: Option<&str>) -> Env {
    Env {
        session_name: session.map(str::to_string),
        current_pane: None,
        cwd: None,
        cache_dir: None,
        login_shell: "/bin/sh".to_string(),
    }
}

fn run_job(f: &mut FakeRunner, a: &[&str], e: Env) -> Result<Output, ShimError> {
    let mut job = Job::new(inv(a), e);
    loop {
        match dispatch(&mut job) {
            Step::Done(r) => return r,
            Step::Call(req) => {
                let reply = answer(f, req);
                job.feed(reply);
            }
        }
    }
}

#[test]
fn dispatch_version_and_noop_and_unknown_without_zellij() {
    let mut f = FakeRunner::fail();
    assert_eq!(run_job(&mut f, &["-V"], env(None)).unwrap().stdout, b"tmux 3.4\n");

    let noop = run_job(&mut f, &["source-file", "/etc/x"], env(None)).unwrap();
    assert_eq!(noop.code, 0);

    let unknown = run_job(&mut f, &["bogus-command"], env(None)).unwrap();
    assert_eq!(unknown.code, 1);
    assert_eq!(unknown.stderr, b"unknown command: bogus-command\n");
    assert!(f.all_calls().is_empty());
}

#[test]
fn dispatch_resolves_session_then_scopes_actions() {
    let mut f = FakeRunner::routed(&[
        ("list-sessions", "main [Created 1s ago] (current)\n"),
        ("list-tabs", Q_TABS),
    ]);
    let out = run_job(&mut f, &["has-session", "-t", "omo-agents-9"], env(Some("main"))).unwrap();
    assert_eq!(out.code, 0);
    let calls = f.all_calls();
    assert_eq!(calls[0], ["list-sessions", "-n"]);
    assert_eq!(
        calls[1],
        ["--session", "main", "action", "list-tabs", "--all", "--json"]
    );
}

#[test]
fn dispatch_routes_layout_commands_to_noops() {
    let mut f = FakeRunner::routed(&[("list-sessions", "")]);
    let out = run_job(&mut f, &["select-layout", "tiled"], env(None)).unwrap();
    assert_eq!(out.code, 0);
    assert_eq!(f.all_calls().len(), 1);
}

fn golden_env() -> Env {
    Env {
        session_name: Some("golden".to_string()),
        current_pane: None,
        cwd: None,
        cache_dir: Some("/cache".to_string()),
        login_shell: "/bin/sh".to_string(),
    }
}

fn golden_zellij() -> FakeRunner {
    FakeRunner::routed(&[
        ("list-sessions", "golden [Created 1s ago] \n"),
        (
            "",
            r#"[{"position":0,"name":"omo-9:1","active":true,"viewport_rows":24,"viewport_columns":80,"tab_id":0}]"#,
        ),
    ])
}

#[test]
fn version_is_byte_exact() {
    let out = run_job(&mut golden_zellij(), &["-V"], golden_env()).unwrap();
    assert_eq!(out.code, 0);
    assert_eq!(out.stdout, b"tmux 3.4\n");
}

#[test]
fn unknown_command_exits_1_with_tmux_wording() {
    let out = run_job(&mut golden_zellij(), &["bogus-xyz"], golden_env()).unwrap();
    assert_eq!(out.code, 1);
    assert_eq!(out.stderr, b"unknown command: bogus-xyz\n");
}

#[test]
fn has_session_exit_codes_against_fake_zellij() {
    let present = run_job(&mut golden_zellij(), &["has-session", "-t", "omo-9"], golden_env()).unwrap();
    assert_eq!(present.code, 0, "existing session exits 0");
    assert!(present.stdout.is_empty());

    let absent = run_job(&mut golden_zellij(), &["has-session", "-t", "nope"], golden_env()).unwrap();
    assert_eq!(absent.code, 1);
    assert_eq!(absent.stderr, b"can't find session: nope\n");
}

fn pane_with_width(cols: i64) -> Vec<PaneInfo> {
    let mut p = decode_panes(R_PANE);
    p[0].pane_columns = cols;
    p
}

#[test]
fn approach_is_bounded_by_the_step_budget() {
    // A pane that grows one column per resize but never reaches its target:
    // the approach stops after the step budget.
    let i = inv(&["resize-pane", "-t", "%1", "-x", "1000"]);
    let c = Client::new("s".to_string());
    let ctx = Ctx::test("s");
    let mut replies: Vec<Reply> = vec![
        Reply::Panes(pane_with_width(80)),
        Reply::Tabs(decode_tabs(R_TABS)),
        Reply::Panes(pane_with_width(80)),
    ];
    let mut resizes = 0;
    let mut width = 80;
    loop {
        match zellij_tmux_shim::cmd::resize::handle(&i, &c, &ctx, &replies) {
            Step::Done(r) => {
                assert!(r.is_ok());
                break;
            }
            Step::Call(Request::Zellij { args, .. }) => {
                if args.contains(&"resize".to_string()) {
                    resizes += 1;
                    assert!(args.contains(&"increase".to_string()));
                    replies.push(Reply::Output(zellij_tmux_shim::exchange::RunOutput {
                        stdout: String::new(),
                        stderr: String::new(),
                        success: true,
                    }));
                } else {
                    width += 1;
                    replies.push(Reply::Panes(pane_with_width(width)));
                }
            }
            Step::Call(_) => panic!("unexpected request"),
        }
    }
    assert_eq!(resizes, 24);
}

#[test]
fn approach_stops_when_it_crosses_the_target() {
    let i = inv(&["resize-pane", "-t", "%1", "-x", "85"]);
    let c = Client::new("s".to_string());
    let ctx = Ctx::test("s");
    let ok = || {
        Reply::Output(zellij_tmux_shim::exchange::RunOutput {
            stdout: String::new(),
            stderr: String::new(),
            success: true,
        })
    };
    let replies: Vec<Reply> = vec![
        Reply::Panes(pane_with_width(80)),
        Reply::Tabs(decode_tabs(R_TABS)),
        Reply::Panes(pane_with_width(80)),
        ok(),
        Reply::Panes(pane_with_width(88)),
    ];
    match zellij_tmux_shim::cmd::resize::handle(&i, &c, &ctx, &replies) {
        Step::Done(r) => assert!(r.is_ok()),
        Step::Call(_) => panic!("the approach should be over"),
    }
}

#[test]
fn respawn_pane_runs_command_after_separator() {
    let panes = r#"[{"id":3,"is_plugin":false,"is_focused":true,"pane_x":0,"pane_y":0,
        "pane_rows":24,"pane_columns":80,"tab_id":0,"tab_position":0}]"#;
    let mut f = FakeRunner::routed(&[
        ("list-panes", panes),
        ("focus-pane-id", ""),
        ("new-pane", "terminal_8\n"),
    ]);
    lifecycle(&mut f, &["respawn-pane", "-t", "%3", "htop"], &Client::unscoped()).unwrap();
    let call = f.last_call();
    assert_eq!(
        call,
        ["action", "new-pane", "--in-place", "--close-replaced-pane", "--", "/bin/sh", "-c", "htop"]
    );
}

#[test]
fn contexts_bind_each_name_once() {
    let c = ctx_for(0);
    let mut names: Vec<&String> = c.vars.iter().map(|(k, _)| k).collect();
    let n = names.len();
    names.sort();
    names.dedup();
    assert_eq!(names.len(), n);
    assert_eq!(n, 26);
}
