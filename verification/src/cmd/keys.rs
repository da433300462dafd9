//! Input handlers: send-keys (translating tmux key names to bytes) and
//! select-pane (focus, or rename without stealing focus when `-T` is given —
//! agents use `-T` to label a just-created detached pane).
use super::{perform_actions, request_views, run_actions, Ctx, Output, OutputView};
use crate::cli::args::{flag_value, has_flag, InvocationView, ParsedInvocation};
use crate::error::{cat, ErrView, ShimError};
use crate::exchange::{zellij, Expect, Reply, Request, RequestView, Step, StepView};
use crate::idmap::{parse_pane_int, spec_terminal_id, zellij_pane_target};
use crate::text::{chars_of, int_str, is, strip_prefix, strip_prefix_exec, views};
use crate::zellij::client::Client;
use vstd::prelude::*;
use vstd::string::*;

verus! {

/// The control code of `C-<letter>` / `Ctrl-<letter>` (case-insensitive).
pub open spec fn ctrl_code(name: Seq<char>) -> Option<u8> {
    let rest = match strip_prefix(name, "C-"@) {
        Some(r) => Some(r),
        None => strip_prefix(name, "Ctrl-"@),
    };
    match rest {
        Some(r) => if r.len() == 1 && 'a' <= r[0] && r[0] <= 'z' {
            Some((r[0] as int - 'a' as int + 1) as u8)
        } else if r.len() == 1 && 'A' <= r[0] && r[0] <= 'Z' {
            Some((r[0] as int - 'A' as int + 1) as u8)
        } else {
            None
        },
        None => None,
    }
}

/// The byte a tmux key name stands for, if it names one.
pub open spec fn key_byte(name: Seq<char>) -> Option<u8> {
    if name == "Enter"@ || name == "C-m"@ || name == "C-M"@ {
        Some(13u8)
    } else if name == "Tab"@ || name == "C-i"@ || name == "C-I"@ {
        Some(9u8)
    } else if name == "Escape"@ || name == "Esc"@ {
        Some(27u8)
    } else if name == "Space"@ {
        Some(32u8)
    } else if name == "BSpace"@ {
        Some(127u8)
    } else {
        ctrl_code(name)
    }
}

/// The control code of `C-<letter>` / `Ctrl-<letter>`.
pub fn ctrl_letter(name: &str) -> (r: Option<u8>)
    ensures
        r == ctrl_code(name@),
{
    let v = chars_of(name);
    let c1 = chars_of("C-");
    let c2 = chars_of("Ctrl-");
    let rest = match strip_prefix_exec(&v, &c1) {
        Some(r) => r,
        None => match strip_prefix_exec(&v, &c2) {
            Some(r) => r,
            None => return None,
        },
    };
    if rest.len() != 1 {
        return None;
    }
    let c = rest[0];
    if 'a' <= c && c <= 'z' {
        Some(((c as u32) - ('a' as u32) + 1) as u8)
    } else if 'A' <= c && c <= 'Z' {
        Some(((c as u32) - ('A' as u32) + 1) as u8)
    } else {
        None
    }
}

/// The byte a tmux key name stands for.
pub fn key_to_byte(name: &str) -> (r: Option<u8>)
    ensures
        r == key_byte(name@),
{
    let v = chars_of(name);
    if is(&v, "Enter") || is(&v, "C-m") || is(&v, "C-M") {
        Some(13)
    } else if is(&v, "Tab") || is(&v, "C-i") || is(&v, "C-I") {
        Some(9)
    } else if is(&v, "Escape") || is(&v, "Esc") {
        Some(27)
    } else if is(&v, "Space") {
        Some(32)
    } else if is(&v, "BSpace") {
        Some(127)
    } else {
        ctrl_letter(name)
    }
}

/// The request that types `key` into `pane`: its byte with `write`, or the
/// text itself with `write-chars` (always the text when `literal`).
pub open spec fn key_request(c: Client, pane: Seq<char>, literal: bool, key: Seq<char>) -> RequestView {
    if !literal && key_byte(key) is Some {
        zellij(
            c.scope() + seq!["action"@, "write"@, "--pane-id"@, pane, int_str(key_byte(key).unwrap() as int)],
            Expect::Text,
        )
    } else {
        zellij(c.scope() + seq!["action"@, "write-chars"@, "--pane-id"@, pane, key], Expect::Text)
    }
}

/// `send-keys -t <pane> <keys...>`: one write per key, in order.
pub open spec fn send_keys_step(inv: InvocationView, c: Client, replies: Seq<Reply>) -> StepView<
    OutputView,
> {
    match flag_value(inv.flags, 't') {
        None => StepView::Done(Err(ErrView::BadArgs("send-keys requires -t"@))),
        Some(target) => match parse_pane_int(target) {
            None => StepView::Done(Err(ErrView::BadArgs("invalid pane target: "@ + target))),
            Some(n) => run_actions(
                replies,
                0,
                inv.operands.map_values(
                    |k: Seq<char>| key_request(c, spec_terminal_id(n), has_flag(inv.flags, 'l'), k),
                ),
            ),
        },
    }
}

fn send_keys(inv: &ParsedInvocation, client: &Client, replies: &[Reply]) -> (s: Step<Output>)
    ensures
        s@ == send_keys_step(inv@, *client, replies@),
{
    let target = match inv.value('t') {
        Some(t) => t,
        None => return Step::Done(Err(ShimError::BadArgs(String::from_str("send-keys requires -t")))),
    };
    let pane = match zellij_pane_target(target) {
        Ok(p) => p,
        Err(e) => return Step::Done(Err(e)),
    };
    let literal = inv.has('l');
    let ops = inv.operands();
    let ghost n = parse_pane_int(target@).unwrap();
    let ghost want = inv@.operands.map_values(
        |k: Seq<char>| key_request(*client, spec_terminal_id(n), literal, k),
    );
    let mut reqs: Vec<Request> = Vec::new();
    let mut i: usize = 0;
    while i < ops.len()
        invariant
            i <= ops.len(),
            views(ops@) == inv@.operands,
            pane@ == spec_terminal_id(n),
            want == inv@.operands.map_values(
                |k: Seq<char>| key_request(*client, spec_terminal_id(n), literal, k),
            ),
            request_views(reqs@) == want.take(i as int),
        decreases ops.len() - i,
    {
        let key = ops[i].as_str();
        let req = match if literal {
            None
        } else {
            key_to_byte(key)
        } {
            Some(byte) => client.write_byte(pane.as_str(), byte),
            None => client.write_chars(pane.as_str(), key),
        };
        assert(req@ == want[i as int]);
        let ghost prev = reqs@;
        reqs.push(req);
        assert(request_views(reqs@) =~= request_views(prev).push(want[i as int]));
        i = i + 1;
        assert(want.take(i as int) =~= want.take(i - 1).push(want[i - 1]));
    }
    assert(want.take(ops.len() as int) =~= want);
    perform_actions(replies, 0, reqs)
}

/// `select-pane -t <pane>`: rename it with `-T <title>`, else focus it.
pub open spec fn select_pane_step(inv: InvocationView, c: Client, replies: Seq<Reply>) -> StepView<
    OutputView,
> {
    match flag_value(inv.flags, 't') {
        None => StepView::Done(Err(ErrView::BadArgs("select-pane requires -t"@))),
        Some(target) => match parse_pane_int(target) {
            None => StepView::Done(Err(ErrView::BadArgs("invalid pane target: "@ + target))),
            Some(n) => run_actions(
                replies,
                0,
                seq![
                    match flag_value(inv.flags, 'T') {
                        Some(title) => zellij(
                            c.scope() + seq![
                                "action"@,
                                "rename-pane"@,
                                "--pane-id"@,
                                spec_terminal_id(n),
                                title,
                            ],
                            Expect::Text,
                        ),
                        None => zellij(
                            c.scope() + seq!["action"@, "focus-pane-id"@, spec_terminal_id(n)],
                            Expect::Text,
                        ),
                    },
                ],
            ),
        },
    }
}

fn select_pane(inv: &ParsedInvocation, client: &Client, replies: &[Reply]) -> (s: Step<Output>)
    ensures
        s@ == select_pane_step(inv@, *client, replies@),
{
    let target = match inv.value('t') {
        Some(t) => t,
        None => return Step::Done(
            Err(ShimError::BadArgs(String::from_str("select-pane requires -t"))),
        ),
    };
    let pane = match zellij_pane_target(target) {
        Ok(p) => p,
        Err(e) => return Step::Done(Err(e)),
    };
    let req = match inv.value('T') {
        Some(title) => client.rename_pane(pane.as_str(), title),
        None => client.focus_pane(pane.as_str()),
    };
    let mut reqs: Vec<Request> = Vec::new();
    reqs.push(req);
    assert(request_views(reqs@) =~= seq![req@]);
    perform_actions(replies, 0, reqs)
}

/// The input handlers, by subcommand.
pub open spec fn keys_step(inv: InvocationView, c: Client, replies: Seq<Reply>) -> StepView<
    OutputView,
> {
    if inv.subcommand == "send-keys"@ {
        send_keys_step(inv, c, replies)
    } else if inv.subcommand == "select-pane"@ {
        select_pane_step(inv, c, replies)
    } else {
        StepView::Done(Err(ErrView::BadArgs("keys: unhandled command "@ + inv.subcommand)))
    }
}

/// The next step of an input command, given the replies so far.
pub fn handle(inv: &ParsedInvocation, client: &Client, _ctx: &Ctx, replies: &[Reply]) -> (s: Step<
    Output,
>)
    ensures
        s@ == keys_step(inv@, *client, replies@),
{
    let sub = chars_of(inv.subcommand.as_str());
    if is(&sub, "send-keys") {
        send_keys(inv, client, replies)
    } else if is(&sub, "select-pane") {
        select_pane(inv, client, replies)
    } else {
        Step::Done(
            Err(ShimError::BadArgs(cat("keys: unhandled command ", inv.subcommand.as_str()))),
        )
    }
}

} // verus!
