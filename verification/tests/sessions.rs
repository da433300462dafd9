use serde_json::Value;
use std::collections::HashMap;
use zellij_tmux_shim::error::ShimError;
use zellij_tmux_shim::exchange::{Expect, Reply, Request, Step};
use zellij_tmux_shim::session::cache::{
    file_for, fresh, record_in, recover, recover_in, tmp_for, Entry, TTL_SECS,
};
use zellij_tmux_shim::session::{
    list_live_sessions, list_sessions_request, parse_live_sessions, resolve_from,
    resolve_session_in,
};
use zellij_tmux_shim::zellij::client::FakeRunner;
use zellij_tmux_shim::zellij::types::PaneInfo;

// ---------------------------------------------------------------------------
// helpers
// ---------------------------------------------------------------------------

fn int_field(v: &Value, k: &str) -> Result<i64, String> {
    v.get(k)
        .and_then(Value::as_i64)
        .ok_or_else(|| format!("missing field `{k}`"))
}

fn pane_from(v: &Value) -> Result<PaneInfo, String> {
    let flag = |k: &str| v.get(k).and_then(Value::as_bool).unwrap_or(false);
    let text = |k: &str| v.get(k).and_then(Value::as_str).map(str::to_string);
    Ok(PaneInfo {
        id: int_field(v, "id")?,
        is_plugin: flag("is_plugin"),
        is_focused: flag("is_focused"),
        is_floating: flag("is_floating"),
        is_suppressed: flag("is_suppressed"),
        title: text("title").unwrap_or_default(),
        pane_x: int_field(v, "pane_x")?,
        pane_y: int_field(v, "pane_y")?,
        pane_rows: int_field(v, "pane_rows")?,
        pane_columns: int_field(v, "pane_columns")?,
        cursor_coordinates_in_pane: None,
        pane_command: text("pane_command"),
        pane_cwd: text("pane_cwd"),
        tab_id: int_field(v, "tab_id")?,
        tab_position: v.get("tab_position").and_then(Value::as_i64).unwrap_or(0),
        tab_name: text("tab_name").unwrap_or_default(),
        exited: flag("exited"),
        exit_status: None,
    })
}

fn decode_panes(text: &str) -> Result<Vec<PaneInfo>, String> {
    let v: Value = serde_json::from_str(text).map_err(|e| e.to_string())?;
    v.as_array()
        .ok_or_else(|| "expected an array".to_string())?
        .iter()
        .map(pane_from)
        .collect()
}

fn copy_entry(e: &Entry) -> Entry {
    Entry {
        env_name: e.env_name.clone(),
        snapshot: e.snapshot.clone(),
        ts: e.ts,
        resolved: e.resolved.clone(),
    }
}

/// An in-memory stand-in for the cache directory and the clock.
struct World {
    files: HashMap<String, Entry>,
    now: u64,
    writes: usize,
}

impl World {
    fn new(now: u64) -> Self {
        World { files: HashMap::new(), now, writes: 0 }
    }
}

fn answer(f: &mut FakeRunner, w: &mut World, req: Request) -> Reply {
    match req {
        Request::Zellij { args, expect } => {
            let out = f.call(&args);
            match expect {
                Expect::Panes => match decode_panes(&out.stdout) {
                    Ok(p) => Reply::Panes(p),
                    Err(e) => Reply::Failed(ShimError::Json(e)),
                },
                Expect::Tabs => Reply::Failed(ShimError::Json("unused".to_string())),
                Expect::Text => Reply::Output(out),
            }
        }
        Request::ReadCache { path } => Reply::Cached(w.files.get(&path).map(copy_entry)),
        Request::WriteCache { path, entry, .. } => {
            w.files.insert(path, entry);
            w.writes += 1;
            Reply::Written
        }
        Request::Clock => Reply::Now(w.now),
        Request::Canonical { .. } => Reply::Canonical(None),
    }
}

fn drive<T>(
    f: &mut FakeRunner,
    w: &mut World,
    mut step: impl FnMut(&[Reply]) -> Step<T>,
) -> Result<T, ShimError> {
    let mut replies: Vec<Reply> = Vec::new();
    loop {
        match step(&replies) {
            Step::Done(r) => return r,
            Step::Call(req) => {
                let reply = answer(f, w, req);
                replies.push(reply);
            }
        }
    }
}

fn resolve(
    f: &mut FakeRunner,
    env_name: Option<&str>,
    cache_dir: Option<&str>,
    pane_id: Option<i64>,
    cwd: Option<&str>,
) -> Result<String, ShimError> {
    let mut w = World::new(1_000_000);
    drive(f, &mut w, |r| resolve_session_in(env_name, cache_dir, pane_id, cwd, r))
}

fn strings(items: &[&str]) -> Vec<String> {
    items.iter().map(|s| (*s).to_string()).collect()
}

const FIXTURE: &str = "\
hyperinfer-master [Created 5days 46m 17s ago] \n\
wise-mountain [Created 14h 33m 26s ago] \n\
zellij-master [Created 5h 53m 3s ago] \n\
brave-tomato [Created 8m 3s ago] (current)\n\
quiet-capsicum [Created 5days 16h 14m 34s ago] (EXITED - attach to resurrect)\n";

// ---------------------------------------------------------------------------
// parse_live_sessions
// ---------------------------------------------------------------------------

#[test]
fn parse_live_sessions_returns_four_live_names_from_fixture() {
    assert_eq!(
        parse_live_sessions(FIXTURE),
        ["hyperinfer-master", "wise-mountain", "zellij-master", "brave-tomato"]
    );
}

#[test]
fn parse_live_sessions_empty_input_yields_empty_vec() {
    assert!(parse_live_sessions("").is_empty());
}

#[test]
fn parse_live_sessions_lone_exited_line_yields_empty_vec() {
    let only_dead = "quiet-capsicum [Created 5days 16h ago] (EXITED - attach to resurrect)\n";
    assert!(parse_live_sessions(only_dead).is_empty());
}

#[test]
fn parse_live_sessions_bare_name_with_trailing_space() {
    let line = "name [Created 1s ago] \n";
    assert_eq!(parse_live_sessions(line), ["name"]);
}

#[test]
fn parse_live_sessions_handles_crlf_and_blank_lines() {
    assert_eq!(parse_live_sessions("a [Created 1s ago]\r\n\n  \nb\n"), ["a", "b"]);
}

// ---------------------------------------------------------------------------
// resolve_from
// ---------------------------------------------------------------------------

#[test]
fn resolve_from_fast_path_env_in_live_returns_env() {
    let live = strings(&["a", "b", "c"]);
    assert_eq!(resolve_from(Some("b"), &live).unwrap(), "b");
}

#[test]
fn resolve_from_single_live_stale_env_recovers_that_one() {
    let live = strings(&["only"]);
    assert_eq!(resolve_from(Some("ghost"), &live).unwrap(), "only");
}

#[test]
fn resolve_from_multi_live_stale_env_errors_matching_no_such_session() {
    let live = strings(&["a", "b"]);
    let err = resolve_from(Some("ghost"), &live).unwrap_err();
    assert!(matches!(err, ShimError::NoSuchSession(ref s) if s == "ghost"));
    assert_eq!(err.message(), "can't find session: ghost");
}

#[test]
fn resolve_from_env_none_single_live_recovers_that_one() {
    let live = strings(&["only"]);
    assert_eq!(resolve_from(None, &live).unwrap(), "only");
}

#[test]
fn resolve_from_env_none_multi_live_errors() {
    let live = strings(&["a", "b"]);
    let err = resolve_from(None, &live).unwrap_err();
    assert!(matches!(err, ShimError::NoSuchSession(ref s) if s.is_empty()));
}

#[test]
fn resolve_from_env_in_live_is_fast_path_not_recovery() {
    let live = strings(&["env", "other"]);
    assert_eq!(resolve_from(Some("env"), &live).unwrap(), "env");
}

// ---------------------------------------------------------------------------
// list_live_sessions
// ---------------------------------------------------------------------------

#[test]
fn list_live_sessions_parses_fixture_via_routed_fake_runner() {
    let mut f = FakeRunner::routed(&[("list-sessions", FIXTURE)]);
    let mut w = World::new(0);
    let reply = answer(&mut f, &mut w, list_sessions_request());
    let live = list_live_sessions(&reply).unwrap();
    assert_eq!(
        live,
        ["hyperinfer-master", "wise-mountain", "zellij-master", "brave-tomato"]
    );
    assert_eq!(f.last_call(), ["list-sessions", "-n"]);
}

#[test]
fn list_live_sessions_fail_runner_propagates_error() {
    let mut f = FakeRunner::fail();
    let mut w = World::new(0);
    let reply = answer(&mut f, &mut w, list_sessions_request());
    assert!(list_live_sessions(&reply).is_err());
    assert_eq!(f.last_call(), ["list-sessions", "-n"]);
}

// ---------------------------------------------------------------------------
// resolve_session_in
// ---------------------------------------------------------------------------

#[test]
fn resolve_session_fast_path_env_in_fixture_returns_env() {
    let mut f = FakeRunner::routed(&[("list-sessions", FIXTURE)]);
    assert_eq!(resolve(&mut f, Some("zellij-master"), None, None, None).unwrap(), "zellij-master");
}

#[test]
fn resolve_session_stale_env_multi_live_errors() {
    let mut f = FakeRunner::routed(&[("list-sessions", FIXTURE)]);
    let err = resolve(&mut f, Some("ghost"), None, None, None).unwrap_err();
    assert!(matches!(err, ShimError::NoSuchSession(ref s) if s == "ghost"));
    assert_eq!(err.message(), "can't find session: ghost");
}

#[test]
fn resolve_session_fail_runner_degrades_to_env() {
    let mut f = FakeRunner::fail();
    assert_eq!(resolve(&mut f, Some("whatever"), None, None, None).unwrap(), "whatever");
}

#[test]
fn resolve_session_empty_stdout_env_none_degrades_to_default_zellij() {
    let mut f = FakeRunner::ok("");
    assert_eq!(resolve(&mut f, None, None, None, None).unwrap(), "zellij");
}

#[test]
fn resolve_session_in_multi_stale_recovers_via_cache() {
    let fixture = "alpha [Created 1s ago] \nbeta [Created 2s ago] \n";
    let mut f = FakeRunner::routed(&[("list-sessions", fixture)]);
    let mut w = World::new(1_000);
    // Seed: env "old", snapshot ["old","beta"], resolved "old".
    drive(&mut f, &mut w, |r| record_in("/c", "old", &strings(&["old", "beta"]), "old", r)).unwrap();
    // Live now: "old" is gone, "alpha" appeared (exactly one new), "beta" stayed.
    let got = drive(&mut f, &mut w, |r| resolve_session_in(Some("old"), Some("/c"), None, None, r));
    assert_eq!(got.unwrap(), "alpha");
}

#[test]
fn resolve_session_in_multi_stale_without_cache_errors() {
    let fixture = "alpha [Created 1s ago] \nbeta [Created 2s ago] \n";
    let mut f = FakeRunner::routed(&[("list-sessions", fixture)]);
    let err = resolve(&mut f, Some("ghost"), None, None, None).unwrap_err();
    assert!(matches!(err, ShimError::NoSuchSession(ref s) if s == "ghost"));
    assert_eq!(err.message(), "can't find session: ghost");
}

#[test]
fn resolve_session_fast_path_records_the_live_set() {
    let fixture = "alpha [Created 1s ago] \nbeta [Created 2s ago] \n";
    let mut f = FakeRunner::routed(&[("list-sessions", fixture)]);
    let mut w = World::new(77);
    let got = drive(&mut f, &mut w, |r| resolve_session_in(Some("beta"), Some("/c/"), None, None, r));
    assert_eq!(got.unwrap(), "beta");
    let e = w.files.get("/c/beta.json").expect("recorded");
    assert_eq!(e.snapshot, ["alpha", "beta"]);
    assert_eq!(e.ts, 77);
    assert_eq!(e.resolved.as_deref(), Some("beta"));
}

// ---------------------------------------------------------------------------
// the pane probe
// ---------------------------------------------------------------------------

fn term_pane(id: i64, cwd: &str) -> String {
    format!(
        "[{{\"id\":{id},\"is_plugin\":false,\"is_floating\":false,\"pane_x\":0,\
         \"pane_y\":0,\"pane_rows\":24,\"pane_columns\":80,\"pane_cwd\":\"{cwd}\",\"tab_id\":0}}]"
    )
}

fn probe_runner(alpha_panes: &str, beta_panes: &str) -> FakeRunner {
    FakeRunner::routed(&[
        ("list-sessions", "alpha [Created 1s ago] \nbeta [Created 2s ago] \n"),
        ("--session alpha action list-panes", alpha_panes),
        ("--session beta action list-panes", beta_panes),
    ])
}

#[test]
fn probe_unique_id_and_cwd_match_recovers_that_session() {
    let mut f = probe_runner(&term_pane(0, "/other"), &term_pane(0, "/work"));
    assert_eq!(resolve(&mut f, Some("ghost"), None, Some(0), Some("/work")).unwrap(), "beta");
}

#[test]
fn probe_no_pane_matches_falls_through_to_error() {
    let mut f = probe_runner(&term_pane(0, "/other"), &term_pane(0, "/elsewhere"));
    assert!(resolve(&mut f, Some("ghost"), None, Some(0), Some("/work")).is_err());
}

#[test]
fn probe_two_sessions_match_is_ambiguous_and_errors() {
    let mut f = probe_runner(&term_pane(0, "/work"), &term_pane(0, "/work"));
    assert!(resolve(&mut f, Some("ghost"), None, Some(0), Some("/work")).is_err());
}

#[test]
fn probe_ignores_plugin_pane_with_matching_id() {
    let alpha_plugin = "[{\"id\":0,\"is_plugin\":true,\"is_floating\":false,\"pane_x\":0,\
         \"pane_y\":0,\"pane_rows\":24,\"pane_columns\":80,\"pane_cwd\":\"/work\",\"tab_id\":0}]";
    let mut f = probe_runner(alpha_plugin, &term_pane(0, "/work"));
    assert_eq!(resolve(&mut f, Some("ghost"), None, Some(0), Some("/work")).unwrap(), "beta");
}

#[test]
fn probe_skipped_when_pane_id_unset() {
    let mut f = probe_runner(&term_pane(0, "/work"), &term_pane(0, "/work"));
    assert!(resolve(&mut f, Some("ghost"), None, None, Some("/work")).is_err());
}

#[test]
fn probe_skipped_when_cwd_unset() {
    let mut f = probe_runner(&term_pane(0, "/work"), &term_pane(0, "/work"));
    assert!(resolve(&mut f, Some("ghost"), None, Some(0), None).is_err());
}

#[test]
fn probe_seeds_cache_under_stale_env_for_next_call() {
    let mut f = probe_runner(&term_pane(0, "/other"), &term_pane(0, "/work"));
    let mut w = World::new(5);
    let got = drive(&mut f, &mut w, |r| {
        resolve_session_in(Some("ghost"), Some("/c"), Some(0), Some("/work"), r)
    });
    assert_eq!(got.unwrap(), "beta");
    let entry = w.files.get("/c/ghost.json").expect("probe seeded the cache");
    assert_eq!(entry.resolved.as_deref(), Some("beta"));
}

#[test]
fn probe_matches_cwd_up_to_trailing_slashes() {
    let mut f = probe_runner(&term_pane(0, "/other"), &term_pane(0, "/work//"));
    assert_eq!(resolve(&mut f, Some("ghost"), None, Some(0), Some("/work/")).unwrap(), "beta");
}

#[test]
fn probe_survives_a_session_that_cannot_be_listed() {
    let mut f = probe_runner("not json", &term_pane(3, "/w"));
    assert_eq!(resolve(&mut f, None, None, Some(3), Some("/w")).unwrap(), "beta");
}

// ---------------------------------------------------------------------------
// the rename-recovery cache
// ---------------------------------------------------------------------------

fn seed(w: &mut World, env_name: &str, snapshot: &[&str], ts: u64, resolved: Option<&str>) {
    w.files.insert(
        file_for("/c", env_name),
        Entry {
            env_name: env_name.to_string(),
            snapshot: strings(snapshot),
            ts,
            resolved: resolved.map(str::to_string),
        },
    );
}

fn recover_now(w: &mut World, env_name: &str, live: &[&str]) -> Option<String> {
    let mut f = FakeRunner::fail();
    let live = strings(live);
    drive(&mut f, w, |r| recover_in("/c", env_name, &live, r)).unwrap()
}

#[test]
fn write_in_then_read_in_returns_the_entry() {
    let mut f = FakeRunner::fail();
    let mut w = World::new(10);
    drive(&mut f, &mut w, |r| record_in("/c", "X", &strings(&["X", "A"]), "X", r)).unwrap();
    let got = w.files.get(&file_for("/c", "X")).expect("entry present");
    assert_eq!(got.env_name, "X");
    assert_eq!(got.snapshot, vec!["X".to_string(), "A".to_string()]);
    assert_eq!(got.resolved.as_deref(), Some("X"));
    assert_eq!(got.ts, 10);
}

#[test]
fn read_in_returns_none_when_stored_env_name_differs_from_key() {
    let mut w = World::new(10);
    // "a/b" and "a_b" share a file; an entry stored for "a/b" is a miss for "a_b".
    w.files.insert(
        file_for("/c", "a_b"),
        Entry {
            env_name: "a/b".to_string(),
            snapshot: strings(&["a/b"]),
            ts: 10,
            resolved: Some("a/b".to_string()),
        },
    );
    assert_eq!(recover_now(&mut w, "a_b", &["a/b"]), None);
    assert_eq!(recover_now(&mut w, "a/b", &["a/b"]).as_deref(), Some("a/b"));
}

#[test]
fn recover_in_ledger_hit_reuses_last_resolved_when_still_live() {
    let mut w = World::new(10);
    seed(&mut w, "X", &["X", "A"], 10, Some("Y"));
    assert_eq!(recover_now(&mut w, "X", &["Y", "A"]).as_deref(), Some("Y"));
    assert_eq!(w.writes, 0);
}

#[test]
fn recover_in_diff_discovery_finds_renamed_and_persists_for_next_call() {
    let mut w = World::new(10);
    seed(&mut w, "X", &["X", "A", "B"], 10, Some("X"));
    let first = recover_now(&mut w, "X", &["Y", "A", "B"]);
    assert_eq!(first.as_deref(), Some("Y"));
    assert_eq!(w.writes, 1);
    let second = recover_now(&mut w, "X", &["Y", "A", "B"]);
    assert_eq!(second.as_deref(), Some("Y"));
    assert_eq!(w.writes, 1);
}

#[test]
fn recover_in_ambiguous_two_appeared_returns_none() {
    let mut w = World::new(10);
    seed(&mut w, "X", &["X", "A"], 10, Some("X"));
    assert_eq!(recover_now(&mut w, "X", &["Y", "Z", "A"]), None);
}

#[test]
fn recover_in_stale_ttl_skips_diff_and_returns_none() {
    let mut w = World::new(200_000);
    seed(&mut w, "X", &["X", "A"], 100_000, Some("X"));
    assert_eq!(recover_now(&mut w, "X", &["Y", "A"]), None);
}

#[test]
fn recover_in_missing_file_returns_none() {
    let mut w = World::new(10);
    assert_eq!(recover_now(&mut w, "ghost", &["A"]), None);
}

#[test]
fn recover_in_known_not_in_prior_snapshot_returns_none() {
    let mut w = World::new(10);
    seed(&mut w, "X", &["A", "B"], 10, Some("X"));
    assert_eq!(recover_now(&mut w, "X", &["A", "B", "Y"]), None);
}

#[test]
fn file_for_sanitizes_unsafe_chars_to_underscore() {
    assert_eq!(file_for("/tmp/x", "alpha-1_2"), "/tmp/x/alpha-1_2.json");
    assert_eq!(file_for("/tmp/x", "a/b c"), "/tmp/x/a_b_c.json");
}

#[test]
fn cache_paths_join_like_the_file_system() {
    assert_eq!(file_for("/tmp/x/", "s"), "/tmp/x/s.json");
    assert_eq!(file_for("", "s"), "s.json");
    assert_eq!(tmp_for("/d", "s"), "/d/s.json.tmp");
    assert_eq!(tmp_for("/d", ""), "/d/.json.json.tmp");
}

#[test]
fn freshness_window_is_one_hour() {
    assert_eq!(TTL_SECS, 3600);
    assert!(fresh(100, 100 + 3600));
    assert!(!fresh(100, 100 + 3601));
    assert!(fresh(500, 100));
}

#[test]
fn recover_without_cache_dir_is_none() {
    let mut f = FakeRunner::fail();
    let mut w = World::new(0);
    let live = strings(&["a"]);
    assert_eq!(drive(&mut f, &mut w, |r| recover(None, "x", &live, r)).unwrap(), None);
    assert!(f.all_calls().is_empty());
}
