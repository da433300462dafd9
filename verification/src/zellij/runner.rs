//! The decisions behind running the `zellij` binary: how long a call may
//! take, when to give up on it, and the line the debug log records for it.
//! Spawning the process and writing the log are left to the executable.
use crate::exchange::RunOutput;
use crate::text::{debug_quoted, debug_str, join, parse_u64, parse_u64_str, string_of, trim, trim_str, views};
use crate::zellij::client::join_spaced;
use vstd::prelude::*;
use vstd::string::*;

verus! {

/// The per-call timeout in seconds when none is configured.
pub const DEFAULT_TIMEOUT_SECS: u64 = 5;

/// How long the runner waits between two looks at a running call.
pub const POLL_INTERVAL_MS: u64 = 10;

/// Debug logging is on when its setting (`TMUX_SHIM_DEBUG`) has any
/// non-empty value.
pub open spec fn spec_debug_enabled(setting: Option<Seq<char>>) -> bool {
    setting is Some && setting->0.len() > 0
}

/// Whether debug logging is on for this setting.
pub fn debug_enabled(setting: Option<&str>) -> (b: bool)
    ensures
        b == spec_debug_enabled(crate::cli::args::opt_str_view(setting)),
{
    match setting {
        Some(s) => s.unicode_len() > 0,
        None => false,
    }
}

/// The debug-log line of one call: the arguments, whether it succeeded, and
/// its trimmed stdout and stderr in `Debug` quoting.
pub open spec fn spec_debug_line(args: Seq<Seq<char>>, out: RunOutput) -> Seq<char> {
    "zellij "@ + join(args, " "@) + " -> ok="@ + (if out.success {
        "true"@
    } else {
        "false"@
    }) + " out="@ + debug_str(trim(out.stdout@)) + " err="@ + debug_str(trim(out.stderr@))
}

/// The debug-log line of one call.
pub fn debug_line(args: &[String], out: &RunOutput) -> (line: String)
    ensures
        line@ == spec_debug_line(views(args@), *out),
{
    let joined = join_spaced(args);
    let mut line = String::from_str("zellij ");
    let j = string_of(&joined);
    line.append(j.as_str());
    line.append(" -> ok=");
    if out.success {
        line.append("true");
    } else {
        line.append("false");
    }
    line.append(" out=");
    let so = trim_str(out.stdout.as_str());
    let qo = debug_quoted(so.as_str());
    line.append(qo.as_str());
    line.append(" err=");
    let se = trim_str(out.stderr.as_str());
    let qe = debug_quoted(se.as_str());
    line.append(qe.as_str());
    line
}

/// The per-call timeout in seconds for a setting (`TMUX_SHIM_TIMEOUT`): the
/// setting when it is a positive whole number, else the default.
pub open spec fn spec_timeout_secs(setting: Option<Seq<char>>) -> u64 {
    match setting {
        Some(s) => match parse_u64(s) {
            Some(n) => if n > 0 {
                n
            } else {
                DEFAULT_TIMEOUT_SECS
            },
            None => DEFAULT_TIMEOUT_SECS,
        },
        None => DEFAULT_TIMEOUT_SECS,
    }
}

/// The per-call timeout in seconds for a setting.
pub fn timeout_secs(setting: Option<&str>) -> (s: u64)
    ensures
        s == spec_timeout_secs(crate::cli::args::opt_str_view(setting)),
{
    match setting {
        Some(t) => match parse_u64_str(t) {
            Some(n) => if n > 0 {
                n
            } else {
                DEFAULT_TIMEOUT_SECS
            },
            None => DEFAULT_TIMEOUT_SECS,
        },
        None => DEFAULT_TIMEOUT_SECS,
    }
}

/// What a look at a call in progress finds.
pub enum Poll {
    /// The process has exited.
    Exited,
    /// The process is still running, this many milliseconds after it started.
    Running { elapsed_ms: u64 },
}

/// What to do after a look at a call in progress.
#[derive(PartialEq, Eq, Structural, Debug)]
pub enum PollAction {
    /// Collect its output and exit status.
    Collect,
    /// Kill it and report a timeout.
    KillTimedOut,
    /// Look again after this many milliseconds.
    Sleep { ms: u64 },
}

/// The decision after a look: collect an exited call; kill a call that has run
/// for the whole timeout; else wait a little and look again.
pub open spec fn spec_poll_decision(timeout_secs: u64, p: Poll) -> PollAction {
    match p {
        Poll::Exited => PollAction::Collect,
        Poll::Running { elapsed_ms } => if elapsed_ms >= timeout_secs * 1000 {
            PollAction::KillTimedOut
        } else {
            PollAction::Sleep { ms: POLL_INTERVAL_MS }
        },
    }
}

/// The decision after a look at a call in progress.
pub fn poll_decision(timeout_secs: u64, p: Poll) -> (a: PollAction)
    ensures
        a == spec_poll_decision(timeout_secs, p),
{
    match p {
        Poll::Exited => PollAction::Collect,
        Poll::Running { elapsed_ms } => {
            if (elapsed_ms as u128) >= (timeout_secs as u128) * 1000 {
                PollAction::KillTimedOut
            } else {
                PollAction::Sleep { ms: POLL_INTERVAL_MS }
            }
        },
    }
}

} // verus!
