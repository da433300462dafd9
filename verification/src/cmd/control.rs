//! Version reporting and accepted-but-ignored (no-op) tmux commands.
use super::{line_out, ok_out, Output};
use crate::cli::args::ParsedInvocation;
use crate::text::{chars_of, is};
use vstd::prelude::*;

verus! {

/// `-V` / `-v`: a version query.
pub open spec fn spec_is_version(sub: Seq<char>) -> bool {
    sub == "-V"@ || sub == "-v"@
}

/// Commands accepted and ignored.
pub open spec fn spec_is_noop(sub: Seq<char>) -> bool {
    ||| sub == "source-file"@
    ||| sub == "refresh-client"@
    ||| sub == "attach-session"@
    ||| sub == "detach-client"@
    ||| sub == "next-window"@
    ||| sub == "previous-window"@
    ||| sub == "set-hook"@
    ||| sub == "set-buffer"@
    ||| sub == "list-buffers"@
}

/// The invocation asks for the version.
pub fn is_version(inv: &ParsedInvocation) -> (b: bool)
    ensures
        b == spec_is_version(inv@.subcommand),
{
    let s = chars_of(inv.subcommand.as_str());
    is(&s, "-V") || is(&s, "-v")
}

/// The invocation is a command the shim accepts and ignores.
pub fn is_noop(inv: &ParsedInvocation) -> (b: bool)
    ensures
        b == spec_is_noop(inv@.subcommand),
{
    let s = chars_of(inv.subcommand.as_str());
    is(&s, "source-file") || is(&s, "refresh-client") || is(&s, "attach-session") || is(
        &s,
        "detach-client",
    ) || is(&s, "next-window") || is(&s, "previous-window") || is(&s, "set-hook") || is(
        &s,
        "set-buffer",
    ) || is(&s, "list-buffers")
}

/// `tmux 3.4` and a newline.
pub fn version() -> (o: Output)
    ensures
        o@ == line_out("tmux 3.4"@),
{
    Output::line("tmux 3.4")
}

/// Success with no output.
pub fn noop() -> (o: Output)
    ensures
        o@ == ok_out(),
{
    Output::ok()
}

} // verus!
