use zellij_tmux_shim::cli::args::{parse, ParsedInvocation};
use zellij_tmux_shim::cmd::control::{is_noop, is_version, version};
use zellij_tmux_shim::cmd::Ctx;
use zellij_tmux_shim::env::{synth_tmux, wrap_command};
use zellij_tmux_shim::error::ShimError;
use zellij_tmux_shim::format::context::FormatContext;
use zellij_tmux_shim::format::render::render;
use zellij_tmux_shim::idmap::{
    compose_session_tab_name, is_session_tab, pane_int_from_env, session_of_tab_name,
    session_tab_prefix, terminal_id, tmux_pane_id, tmux_window_id, zellij_pane_target,
    zellij_tab_from_window,
};
use zellij_tmux_shim::text::int_string;

fn parse_v(a: &[&str]) -> ParsedInvocation {
    let owned: Vec<String> = a.iter().map(|s| (*s).to_string()).collect();
    parse(&owned).unwrap()
}

// ---- argument parsing ----

#[test]
fn clustered_booleans() {
    let p = parse_v(&["split-window", "-dP"]);
    assert_eq!(p.subcommand, "split-window");
    assert!(p.has('d') && p.has('P'));
}

#[test]
fn split_window_flags_and_command() {
    let p = parse_v(&[
        "split-window",
        "-h",
        "-c",
        "/tmp",
        "-F",
        "#{pane_id}",
        "echo",
        "hi",
    ]);
    assert!(p.has('h'));
    assert_eq!(p.value('c'), Some("/tmp"));
    assert_eq!(p.value('F'), Some("#{pane_id}"));
    assert_eq!(p.operands(), ["echo".to_string(), "hi".to_string()]);
}

#[test]
fn display_positional_format_after_flags() {
    let p = parse_v(&["display", "-p", "-t", "%3", "#{pane_width},#{window_width}"]);
    assert_eq!(p.subcommand, "display-message");
    assert!(p.has('p'));
    assert_eq!(p.value('t'), Some("%3"));
    assert_eq!(p.operands(), ["#{pane_width},#{window_width}".to_string()]);
}

#[test]
fn attached_flag_values() {
    let p = parse_v(&["display-message", "-F#{session_id}", "-t%2"]);
    assert_eq!(p.value('F'), Some("#{session_id}"));
    assert_eq!(p.value('t'), Some("%2"));
}

#[test]
fn clustered_flag_then_negative_value() {
    let p = parse_v(&["capture-pane", "-pt", "omo", "-S", "-200"]);
    assert!(p.has('p'));
    assert_eq!(p.value('t'), Some("omo"));
    assert_eq!(p.value('S'), Some("-200"));
}

#[test]
fn repeatable_env_flags_collected() {
    let p = parse_v(&["new-session", "-d", "-s", "omo-1", "-e", "A=1", "-e", "B=2"]);
    assert!(p.has('d'));
    assert_eq!(p.value('s'), Some("omo-1"));
    assert_eq!(p.values_of('e'), ["A=1", "B=2"]);
}

#[test]
fn percentage_size_value() {
    assert_eq!(
        parse_v(&["split-window", "-l", "70%"]).value('l'),
        Some("70%")
    );
}

#[test]
fn double_dash_forces_operands() {
    let p = parse_v(&["send-keys", "-t", "%1", "--", "-n", "Enter"]);
    assert_eq!(p.value('t'), Some("%1"));
    assert_eq!(p.operands(), ["-n".to_string(), "Enter".to_string()]);
}

#[test]
fn aliases_are_normalized() {
    assert_eq!(parse_v(&["splitw", "-h"]).subcommand, "split-window");
    assert_eq!(parse_v(&["lsp"]).subcommand, "list-panes");
    assert_eq!(parse_v(&["has", "-t", "x"]).subcommand, "has-session");
}

#[test]
fn errors_on_missing_value_and_missing_subcommand() {
    let missing_val: Vec<String> = ["display-message", "-F"]
        .iter()
        .map(|s| s.to_string())
        .collect();
    assert!(parse(&missing_val).is_err());
    assert!(parse(&[]).is_err());
}

#[test]
fn canonical_names_are_fixed_points() {
    for name in ["split-window", "display-message", "resize-pane", "has-session"] {
        assert_eq!(parse_v(&[name]).subcommand, name);
    }
    assert_eq!(parse_v(&["resizep"]).subcommand, "resize-pane");
    assert_eq!(parse_v(&["setw"]).subcommand, "set-window-option");
}

#[test]
fn missing_value_error_names_the_flag() {
    let args: Vec<String> = ["split-window", "-c"].iter().map(|s| s.to_string()).collect();
    match parse(&args) {
        Err(ShimError::BadArgs(m)) => assert!(m.contains("-c")),
        _ => panic!("expected BadArgs"),
    }
}

// ---- version and no-ops ----

#[test]
fn version_is_tmux_3_4_with_single_newline() {
    assert_eq!(version().stdout, b"tmux 3.4\n");
    assert_eq!(version().code, 0);
}

#[test]
fn detects_version_flags() {
    assert!(is_version(&parse_v(&["-V"])));
    assert!(is_version(&parse_v(&["-v"])));
    assert!(!is_version(&parse_v(&["list-panes"])));
}

#[test]
fn detects_noops() {
    assert!(is_noop(&parse_v(&["source-file", "/x"])));
    assert!(is_noop(&parse_v(&["refresh-client"])));
    assert!(!is_noop(&parse_v(&["split-window"])));
}

// ---- layout ----

#[test]
fn layout_and_option_commands_are_noop_exit0() {
    for cmd in [
        "select-layout",
        "set-option",
        "set-window-option",
        "resize-pane",
    ] {
        let out = zellij_tmux_shim::cmd::layout::handle(&parse_v(&[cmd, "-t", "%1"]), &Ctx::test("s"))
            .unwrap();
        assert_eq!(out.code, 0);
        assert!(out.stdout.is_empty() && out.stderr.is_empty());
    }
}

#[test]
fn layout_rejects_other_commands() {
    match zellij_tmux_shim::cmd::layout::handle(&parse_v(&["list-panes"]), &Ctx::test("s")) {
        Err(e) => assert_eq!(e.message(), "zellij-tmux-shim: layout: unhandled command list-panes"),
        Ok(_) => panic!("expected an error"),
    }
}

// ---- identifier mapping ----

#[test]
fn pane_bijection_roundtrip() {
    assert_eq!(tmux_pane_id(7), "%7");
    assert_eq!(zellij_pane_target("%7").unwrap(), "terminal_7");
}

#[test]
fn pane_target_accepts_percent_bare_and_terminal_forms() {
    assert_eq!(zellij_pane_target("7").unwrap(), "terminal_7");
    assert_eq!(zellij_pane_target("terminal_7").unwrap(), "terminal_7");
    assert_eq!(zellij_pane_target("  %7 ").unwrap(), "terminal_7");
    assert!(zellij_pane_target("nope").is_err());
}

#[test]
fn pane_int_from_env_handles_bare_and_prefixed() {
    assert_eq!(pane_int_from_env("0"), Some(0));
    assert_eq!(pane_int_from_env("terminal_3"), Some(3));
    assert_eq!(pane_int_from_env(""), None);
}

#[test]
fn window_bijection() {
    assert_eq!(tmux_window_id(2), "@2");
    assert_eq!(zellij_tab_from_window("@2").unwrap(), 2);
    assert_eq!(zellij_tab_from_window("2").unwrap(), 2);
    assert!(zellij_tab_from_window("@x").is_err());
}

#[test]
fn session_namespace_rules() {
    assert_eq!(session_tab_prefix("omo-agents-1"), "omo-agents-1:");
    assert_eq!(
        compose_session_tab_name("omo-agents-1", "2"),
        "omo-agents-1:2"
    );
    assert!(is_session_tab("omo-agents-1", "omo-agents-1:2"));
    assert!(!is_session_tab("omo-agents-1", "other:2"));
    assert_eq!(session_of_tab_name("omo-agents-1:2").as_deref(), Some("omo-agents-1"));
    assert_eq!(session_of_tab_name("plain"), None);
}

#[test]
fn pane_and_window_ids_roundtrip_at_the_extremes() {
    for n in [0i64, 1, 42, i64::MAX, -1, i64::MIN] {
        assert_eq!(pane_int_from_env(&tmux_pane_id(n)), Some(n));
        assert_eq!(pane_int_from_env(&terminal_id(n)), Some(n));
        assert_eq!(zellij_tab_from_window(&tmux_window_id(n)).unwrap(), n);
    }
    assert_eq!(int_string(i64::MIN), "-9223372036854775808");
}

#[test]
fn composed_tab_name_names_its_session() {
    let name = compose_session_tab_name("omo", "7");
    assert!(is_session_tab("omo", &name));
    assert_eq!(session_of_tab_name(&name).as_deref(), Some("omo"));
}

// ---- environment helpers ----

#[test]
fn synth_tmux_has_three_fields() {
    let v = synth_tmux("mysess", 4321);
    let parts: Vec<&str> = v.split(',').collect();
    assert_eq!(parts.len(), 3);
    assert!(parts[0].contains("mysess"));
    assert_eq!(parts[2], "0");
}

#[test]
fn synth_tmux_exact_value() {
    assert_eq!(synth_tmux("mysess", 4321), "/tmp/zellij-tmux-shim/mysess,4321,0");
}

#[test]
fn wrap_command_injects_env_via_sh() {
    let cmd = vec!["opencode".to_string(), "attach".to_string()];
    let out = wrap_command(&["A=1", "B=two"], &cmd);
    assert_eq!(out[0], "/bin/sh");
    assert_eq!(out[1], "-c");
    assert_eq!(out[2], "A='1' B='two' exec \"$@\"");
    assert_eq!(&out[3..], ["sh", "opencode", "attach"]);
}

#[test]
fn wrap_command_without_env_is_raw() {
    let cmd = vec!["htop".to_string()];
    assert_eq!(wrap_command(&[], &cmd), cmd);
}

#[test]
fn wrap_command_skips_invalid_env_keys() {
    let cmd = vec!["run".to_string()];
    let out = wrap_command(&["OK=1", "bad key=2", "9NUM=3", "$(x)=4"], &cmd);
    assert_eq!(out[2], "OK='1' exec \"$@\"");
}

#[test]
fn wrap_command_quotes_single_quotes_in_values() {
    let cmd = vec!["run".to_string()];
    let out = wrap_command(&["A=it's"], &cmd);
    assert_eq!(out[2], "A='it'\\''s' exec \"$@\"");
    assert!(wrap_command(&["A=1"], &[]).is_empty());
}

// ---- format rendering ----

fn ctx() -> FormatContext {
    FormatContext::test_ctx(&[
        ("pane_id", "%3"),
        ("pane_width", "80"),
        ("pane_height", "24"),
        ("window_width", "80"),
        ("empty_var", ""),
    ])
}

#[test]
fn single_variable() {
    assert_eq!(render("#{pane_width}", &ctx()), "80");
}

#[test]
fn multiple_variables_with_literals() {
    assert_eq!(render("#{pane_width}x#{pane_height}", &ctx()), "80x24");
    assert_eq!(render("#{pane_width},#{window_width}", &ctx()), "80,80");
    assert_eq!(render("id=#{pane_id}!", &ctx()), "id=%3!");
}

#[test]
fn unknown_variable_is_stripped() {
    assert_eq!(render("a#{nope}b", &ctx()), "ab");
}

#[test]
fn known_empty_variable_renders_empty() {
    assert_eq!(render("[#{empty_var}]", &ctx()), "[]");
}

#[test]
fn unterminated_brace_is_literal() {
    assert_eq!(render("#{unclosed", &ctx()), "#{unclosed");
}

#[test]
fn plain_text_passthrough() {
    assert_eq!(render("no vars here", &ctx()), "no vars here");
}

#[test]
fn lone_hash_and_brace_are_literal() {
    assert_eq!(render("# {x} #{pane_id}#", &ctx()), "# {x} %3#");
}

// ---- errors ----

#[test]
fn no_such_session_matches_tmux_wording() {
    assert_eq!(
        ShimError::NoSuchSession("omo-agents-1".into()).message(),
        "can't find session: omo-agents-1"
    );
}

#[test]
fn bad_args_is_namespaced() {
    assert_eq!(
        ShimError::BadArgs("unknown flag -Z".into()).message(),
        "zellij-tmux-shim: unknown flag -Z"
    );
}

#[test]
fn every_variant_has_nonempty_display() {
    let variants: Vec<ShimError> = vec![
        ShimError::ZellijSpawn("x".into()),
        ShimError::ZellijTimeout,
        ShimError::ZellijExit {
            code: 2,
            stderr: "boom".into(),
        },
        ShimError::Json("expected value".into()),
        ShimError::BadArgs("m".into()),
        ShimError::NoSuchSession("s".into()),
        ShimError::NoSuchPane("%1".into()),
        ShimError::NotInZellij,
        ShimError::RealTmuxMissing,
    ];
    for v in &variants {
        assert!(!v.message().is_empty());
        assert_eq!(v.exit_code(), 1);
    }
}

#[test]
fn error_messages_are_exact() {
    assert_eq!(
        ShimError::ZellijExit { code: -2, stderr: "boom".into() }.message(),
        "zellij-tmux-shim: zellij exited -2: boom"
    );
    assert_eq!(ShimError::NoSuchPane("%9".into()).message(), "can't find pane: %9");
    assert_eq!(
        ShimError::Json("eof".into()).message(),
        "zellij-tmux-shim: failed to parse zellij output: eof"
    );
}

#[test]
fn value_flags_carry_values_and_others_do_not() {
    let p = parse_v(&["split-window", "-hl", "30", "-d", "a", "--", "-x", "b"]);
    assert_eq!(p.value('l'), Some("30"));
    assert_eq!(p.value('h'), None);
    assert!(p.has('h') && p.has('d'));
    assert_eq!(p.operands(), ["a".to_string(), "-x".to_string(), "b".to_string()]);
}

// ---- runner decisions and passthrough choice ----

use zellij_tmux_shim::env::{pick_real_tmux, tmux_candidate};
use zellij_tmux_shim::exchange::RunOutput;
use zellij_tmux_shim::zellij::runner::{
    debug_enabled, debug_line, poll_decision, timeout_secs, Poll, PollAction,
};

#[test]
fn debug_mode_needs_a_non_empty_setting() {
    assert!(debug_enabled(Some("1")));
    assert!(!debug_enabled(Some("")));
    assert!(!debug_enabled(None));
}

#[test]
fn debug_line_matches_the_documented_format() {
    let args: Vec<String> = ["action", "new-pane", "--direction", "right"]
        .iter()
        .map(|s| s.to_string())
        .collect();
    let out = RunOutput {
        stdout: "terminal_7\n".to_string(),
        stderr: String::new(),
        success: true,
    };
    assert_eq!(
        debug_line(&args, &out),
        "zellij action new-pane --direction right -> ok=true out=\"terminal_7\" err=\"\""
    );
    let failed = RunOutput {
        stdout: String::new(),
        stderr: " say \"no\"\n".to_string(),
        success: false,
    };
    assert_eq!(
        debug_line(&args[..1], &failed),
        "zellij action -> ok=false out=\"\" err=\"say \\\"no\\\"\""
    );
}

#[test]
fn timeout_setting_defaults_to_five_seconds() {
    assert_eq!(timeout_secs(None), 5);
    assert_eq!(timeout_secs(Some("10")), 10);
    assert_eq!(timeout_secs(Some("+7")), 7);
    assert_eq!(timeout_secs(Some("0")), 5);
    assert_eq!(timeout_secs(Some("-3")), 5);
    assert_eq!(timeout_secs(Some("ten")), 5);
    assert_eq!(timeout_secs(Some("18446744073709551615")), u64::MAX);
    assert_eq!(timeout_secs(Some("18446744073709551616")), 5);
}

#[test]
fn poll_kills_only_after_the_whole_timeout() {
    assert_eq!(poll_decision(5, Poll::Exited), PollAction::Collect);
    assert_eq!(poll_decision(5, Poll::Running { elapsed_ms: 4999 }), PollAction::Sleep { ms: 10 });
    assert_eq!(poll_decision(5, Poll::Running { elapsed_ms: 5000 }), PollAction::KillTimedOut);
    assert_eq!(
        poll_decision(u64::MAX, Poll::Running { elapsed_ms: u64::MAX }),
        PollAction::Sleep { ms: 10 }
    );
}

#[test]
fn real_tmux_skips_own_dir_and_non_executables() {
    let cands = vec![
        ("/shim".to_string(), true, true),
        ("/nope/".to_string(), false, false),
        ("/real/".to_string(), false, true),
        ("/later".to_string(), false, true),
    ];
    assert_eq!(pick_real_tmux(&cands).as_deref(), Some("/real/tmux"));
    assert_eq!(pick_real_tmux(&cands[..2]), None);
    assert_eq!(tmux_candidate("/usr/bin"), "/usr/bin/tmux");
    assert_eq!(tmux_candidate(""), "tmux");
}
