//! resize-pane: tmux's absolute (`-x`/`-y`, cells or `N%`) and relative
//! (`-U`/`-D`/`-L`/`-R [N]`) resizing, plus `-Z` zoom, mapped onto zellij's
//! coarse relative resize. Absolute targets are approached with a bounded
//! feedback loop — zellij's step is ~5% of the dimension, so exact cell parity
//! is impossible; `-R`/`-D` grow and `-L`/`-U` shrink; `-Z` toggles fullscreen.
use super::query::{list_panes_req, list_tabs_req};
use super::select::target_text;
use super::{ok_out, Ctx, Output, OutputView};
use crate::cli::args::{flag_value, has_flag, opt_str_view, InvocationView, ParsedInvocation};
use crate::error::{ErrView, ShimError};
use crate::exchange::{action_outcome, action_result, panes_of, panes_reply, tabs_of, tabs_reply, zellij, Expect, Reply, Request, RequestView, Step, StepView};
use crate::idmap::{pane_int_from_env, parse_pane_int, spec_terminal_id, terminal_id};
use crate::search::first_where;
use crate::text::{chars_of, parse_i64, parse_i64_chars, parse_i64_str, slice};
use crate::zellij::client::Client;
use crate::zellij::types::{
    active_terminal, deref_opt, is_active_terminal, is_tab_with_id, is_terminal_with_id,
    pane_by_terminal_id, tab_by_id, PaneInfo,
};
use vstd::prelude::*;
use vstd::string::*;

verus! {

/// The most resize requests issued while approaching one target: zellij's
/// step is coarse, so the loop is bounded even when a target is unreachable
/// (a pane pinned to a screen edge).
pub const MAX_STEPS: u64 = 24;

// ---------------------------------------------------------------------------
// targets
// ---------------------------------------------------------------------------

/// The pane to resize: a `-t %N` / `-t N` that names a pane selects exactly
/// that pane (or none); otherwise the caller's own pane, else the active one.
pub open spec fn resize_target(inv: InvocationView, panes: Seq<PaneInfo>, caller: Option<i64>) -> Option<
    PaneInfo,
> {
    let named = match flag_value(inv.flags, 't') {
        Some(t) => parse_pane_int(t),
        None => None,
    };
    match named {
        Some(id) => first_where(panes, is_terminal_with_id(id)),
        None => {
            let own = match caller {
                Some(id) => first_where(panes, is_terminal_with_id(id)),
                None => None,
            };
            match own {
                Some(p) => Some(p),
                None => first_where(panes, is_active_terminal()),
            }
        },
    }
}

/// `p` percent of `viewport` cells (the product wrapping as `i64` does),
/// at least one cell.
pub open spec fn percent_of(viewport: i64, p: i64) -> i64 {
    let prod = vstd::wrapping::i64_specs::wrapping_mul(viewport, p);
    if prod >= 100 {
        (prod / 100) as i64
    } else {
        1
    }
}

/// An absolute size argument: `N%` of the viewport, or a positive cell count.
pub open spec fn size_target(raw: Option<Seq<char>>, viewport: i64) -> Option<i64> {
    match raw {
        None => None,
        Some(r) => if r.len() > 0 && r.last() == '%' {
            match parse_i64(r.drop_last()) {
                Some(p) => Some(percent_of(viewport, p)),
                None => None,
            }
        } else {
            match parse_i64(r) {
                Some(n) => if n > 0 {
                    Some(n)
                } else {
                    None
                },
                None => None,
            }
        },
    }
}

/// The relative step: the first operand when it is a positive integer, else 1.
pub open spec fn adjustment(inv: InvocationView) -> i64 {
    if inv.operands.len() > 0 && parse_i64(inv.operands[0]) is Some && parse_i64(
        inv.operands[0],
    ).unwrap() > 0 {
        parse_i64(inv.operands[0]).unwrap()
    } else {
        1
    }
}

/// `size + delta` (wrapping as `i64` does), at least one cell.
pub open spec fn shifted(size: i64, delta: i64) -> i64 {
    let s = vstd::wrapping::i64_specs::wrapping_add(size, delta);
    if s >= 1 {
        s
    } else {
        1
    }
}

/// The target size along one axis: the absolute flag (`abs`) when it parses,
/// else the current size grown by `grow` or shrunk by `shrink`, else none.
pub open spec fn axis_target(
    inv: InvocationView,
    abs: char,
    grow: char,
    shrink: char,
    size: i64,
    viewport: i64,
) -> Option<i64> {
    match size_target(flag_value(inv.flags, abs), viewport) {
        Some(t) => Some(t),
        None => if has_flag(inv.flags, grow) {
            Some(shifted(size, adjustment(inv)))
        } else if has_flag(inv.flags, shrink) {
            Some(shifted(size, (-adjustment(inv)) as i64))
        } else {
            None
        },
    }
}

/// The target width.
pub open spec fn width_target(inv: InvocationView, pane: PaneInfo, vp_cols: i64) -> Option<i64> {
    axis_target(inv, 'x', 'R', 'L', pane.pane_columns, vp_cols)
}

/// The target height.
pub open spec fn height_target(inv: InvocationView, pane: PaneInfo, vp_rows: i64) -> Option<i64> {
    axis_target(inv, 'y', 'D', 'U', pane.pane_rows, vp_rows)
}

/// The viewport `(columns, rows)` of tab `tab_id`, `(0, 0)` when it is gone.
pub open spec fn viewport_of(tabs: Seq<crate::zellij::types::TabInfo>, tab_id: i64) -> (i64, i64) {
    match first_where(tabs, is_tab_with_id(tab_id)) {
        Some(t) => (t.viewport_columns, t.viewport_rows),
        None => (0, 0),
    }
}

fn resolve<'a>(inv: &ParsedInvocation, panes: &'a [PaneInfo], caller: Option<i64>) -> (r: Option<
    &'a PaneInfo,
>)
    ensures
        deref_opt(r) == resize_target(inv@, panes@, caller),
{
    match inv.value('t') {
        Some(target) => match pane_int_from_env(target) {
            Some(id) => return pane_by_terminal_id(panes, id),
            None => {},
        },
        None => {},
    }
    let own = match caller {
        Some(id) => pane_by_terminal_id(panes, id),
        None => None,
    };
    match own {
        Some(p) => Some(p),
        None => active_terminal(panes),
    }
}

fn percent(viewport: i64, p: i64) -> (r: i64)
    ensures
        r == percent_of(viewport, p),
{
    let prod = viewport.wrapping_mul(p);
    if prod >= 100 {
        prod / 100
    } else {
        1
    }
}

fn size_arg(raw: Option<&str>, viewport: i64) -> (r: Option<i64>)
    ensures
        r == size_target(opt_str_view(raw), viewport),
{
    let raw = match raw {
        Some(r) => r,
        None => return None,
    };
    let v = chars_of(raw);
    if v.len() > 0 && v[v.len() - 1] == '%' {
        let body = slice(&v, 0, v.len() - 1);
        assert(body@ =~= v@.drop_last());
        match parse_i64_chars(&body) {
            Some(p) => Some(percent(viewport, p)),
            None => None,
        }
    } else {
        match parse_i64_chars(&v) {
            Some(n) => if n > 0 {
                Some(n)
            } else {
                None
            },
            None => None,
        }
    }
}

fn adjust(inv: &ParsedInvocation) -> (r: i64)
    ensures
        r == adjustment(inv@),
        r > 0,
{
    let ops = inv.operands();
    if ops.len() > 0 {
        match parse_i64_str(ops[0].as_str()) {
            Some(n) => if n > 0 {
                return n;
            },
            None => {},
        }
    }
    1
}

fn shift(size: i64, delta: i64) -> (r: i64)
    ensures
        r == shifted(size, delta),
{
    let s = size.wrapping_add(delta);
    if s >= 1 {
        s
    } else {
        1
    }
}

fn target_along(
    inv: &ParsedInvocation,
    abs: char,
    grow: char,
    shrink: char,
    size: i64,
    viewport: i64,
) -> (r: Option<i64>)
    ensures
        r == axis_target(inv@, abs, grow, shrink, size, viewport),
{
    match size_arg(inv.value(abs), viewport) {
        Some(t) => Some(t),
        None => if inv.has(grow) {
            Some(shift(size, adjust(inv)))
        } else if inv.has(shrink) {
            let a = adjust(inv);
            Some(shift(size, -a))
        } else {
            None
        },
    }
}

// ---------------------------------------------------------------------------
// convergence
// ---------------------------------------------------------------------------

/// Where one approach to a target size stands, given the replies so far.
pub enum Phase {
    /// The next request to make.
    Ask(RequestView),
    /// The approach failed.
    Fail(ErrView),
    /// The approach is over; the next phase reads replies from this index.
    Reached(int),
}

/// The border names of an axis: the first is tried until it stops moving.
pub open spec fn border_name(width: bool, border: int) -> Seq<char> {
    if width {
        if border == 0 {
            "right"@
        } else {
            "left"@
        }
    } else if border == 0 {
        "down"@
    } else {
        "up"@
    }
}

/// `action resize --pane-id <zid> <increase|decrease> <border>`.
pub open spec fn resize_req(c: Client, zid: Seq<char>, grow: bool, width: bool, border: int) -> RequestView {
    zellij(
        c.scope() + seq![
            "action"@,
            "resize"@,
            "--pane-id"@,
            zid,
            if grow {
                "increase"@
            } else {
                "decrease"@
            },
            border_name(width, border),
        ],
        Expect::Text,
    )
}

/// The size of pane `pane_id` along the axis in a pane-list reply.
pub open spec fn measured(r: Reply, pane_id: i64, width: bool) -> Result<i64, ErrView> {
    match panes_reply(r) {
        Err(e) => Err(e),
        Ok(panes) => match first_where(panes, is_terminal_with_id(pane_id)) {
            Some(p) => Ok(
                if width {
                    p.pane_columns
                } else {
                    p.pane_rows
                },
            ),
            None => Err(ErrView::NoSuchPane(spec_terminal_id(pane_id))),
        },
    }
}

/// The approach loop from size `cur` with `fuel` resize steps left, reading
/// replies from `pos`: resize toward `target` on the current border and
/// re-measure. A border that does not move gives way to the other one; when
/// neither moves, or the size crosses the target, or it is reached, or the
/// steps run out, the approach is over.
pub open spec fn approach(
    replies: Seq<Reply>,
    pos: int,
    c: Client,
    zid: Seq<char>,
    pane_id: i64,
    width: bool,
    target: i64,
    border: int,
    cur: i64,
    fuel: nat,
) -> Phase
    decreases fuel,
{
    if fuel == 0 || cur == target {
        Phase::Reached(pos)
    } else if replies.len() <= pos {
        Phase::Ask(resize_req(c, zid, cur < target, width, border))
    } else {
        match action_outcome(replies[pos]) {
            Err(e) => Phase::Fail(e),
            Ok(_) => if replies.len() <= pos + 1 {
                Phase::Ask(list_panes_req(c))
            } else {
                match measured(replies[pos + 1], pane_id, width) {
                    Err(e) => Phase::Fail(e),
                    Ok(now) => if now == cur {
                        if border >= 1 {
                            Phase::Reached(pos + 2)
                        } else {
                            approach(
                                replies,
                                pos + 2,
                                c,
                                zid,
                                pane_id,
                                width,
                                target,
                                border + 1,
                                cur,
                                (fuel - 1) as nat,
                            )
                        }
                    } else if (cur < target) != (now < target) {
                        Phase::Reached(pos + 2)
                    } else {
                        approach(
                            replies,
                            pos + 2,
                            c,
                            zid,
                            pane_id,
                            width,
                            target,
                            border,
                            now,
                            (fuel - 1) as nat,
                        )
                    },
                }
            },
        }
    }
}

/// One approach to `target` along an axis, reading replies from `pos`: measure
/// the pane, then run the loop with [`MAX_STEPS`] steps.
pub open spec fn converge_phase(
    replies: Seq<Reply>,
    pos: int,
    c: Client,
    zid: Seq<char>,
    pane_id: i64,
    width: bool,
    target: i64,
) -> Phase {
    if replies.len() <= pos {
        Phase::Ask(list_panes_req(c))
    } else {
        match measured(replies[pos], pane_id, width) {
            Err(e) => Phase::Fail(e),
            Ok(cur) => approach(
                replies,
                pos + 1,
                c,
                zid,
                pane_id,
                width,
                target,
                0,
                cur,
                MAX_STEPS as nat,
            ),
        }
    }
}

/// The step a phase that is not over stands for.
pub open spec fn phase_step(ph: Phase) -> StepView<OutputView> {
    match ph {
        Phase::Ask(q) => StepView::Call(q),
        Phase::Fail(e) => StepView::Done(Err(e)),
        Phase::Reached(_) => StepView::Done(Ok(ok_out())),
    }
}

fn measure(r: &Reply, pane_id: i64, width: bool) -> (m: Result<i64, ShimError>)
    ensures
        match m {
            Ok(v) => measured(*r, pane_id, width) == Ok::<i64, ErrView>(v),
            Err(e) => measured(*r, pane_id, width) == Err::<i64, ErrView>(e@),
        },
{
    let panes = match panes_of(r) {
        Ok(p) => p,
        Err(e) => return Err(e),
    };
    match pane_by_terminal_id(panes.as_slice(), pane_id) {
        Some(p) => Ok(
            if width {
                p.pane_columns
            } else {
                p.pane_rows
            },
        ),
        None => Err(ShimError::NoSuchPane(terminal_id(pane_id))),
    }
}

fn resize_request(client: &Client, zid: &str, grow: bool, width: bool, border: usize) -> (r: Request)
    requires
        border <= 1,
    ensures
        r@ == resize_req(*client, zid@, grow, width, border as int),
{
    let verb = if grow {
        "increase"
    } else {
        "decrease"
    };
    let side = if width {
        if border == 0 {
            "right"
        } else {
            "left"
        }
    } else if border == 0 {
        "down"
    } else {
        "up"
    };
    let tail = [verb, side];
    let r = client.resize(zid, &tail);
    proof {
        assert(tail@.map_values(|s: &str| s@) =~= seq![verb@, side@]);
        assert(seq!["action"@, "resize"@, "--pane-id"@, zid@] + seq![verb@, side@] =~= seq![
            "action"@,
            "resize"@,
            "--pane-id"@,
            zid@,
            verb@,
            side@,
        ]);
        assert(client.scope() + seq!["action"@, "resize"@, "--pane-id"@, zid@] + seq![verb@, side@]
            =~= client.scope() + (seq!["action"@, "resize"@, "--pane-id"@, zid@] + seq![verb@, side@]));
    }
    r
}

/// Approach `target` along one axis, reading replies from `start`: `Ok` with
/// the index of the first reply of the next phase, or the step to return.
fn converge(
    client: &Client,
    zid: &str,
    pane_id: i64,
    width: bool,
    target: i64,
    replies: &[Reply],
    start: usize,
) -> (r: Result<usize, Step<Output>>)
    requires
        start <= replies.len(),
    ensures
        match r {
            Ok(p) => converge_phase(replies@, start as int, *client, zid@, pane_id, width, target)
                == Phase::Reached(p as int) && p <= replies.len(),
            Err(s) => !(converge_phase(replies@, start as int, *client, zid@, pane_id, width, target) is Reached)
                && s@ == phase_step(converge_phase(replies@, start as int, *client, zid@, pane_id, width, target)),
        },
{
    let ghost whole = converge_phase(replies@, start as int, *client, zid@, pane_id, width, target);
    if replies.len() <= start {
        return Err(Step::Call(client.list_panes()));
    }
    let mut cur = match measure(&replies[start], pane_id, width) {
        Ok(v) => v,
        Err(e) => return Err(Step::Done(Err(e))),
    };
    let mut pos: usize = start + 1;
    let mut border: usize = 0;
    let mut steps: u64 = 0;
    while steps < MAX_STEPS
        invariant
            steps <= MAX_STEPS,
            pos <= replies.len(),
            border <= 1,
            whole == converge_phase(replies@, start as int, *client, zid@, pane_id, width, target),
            whole == approach(
                replies@,
                pos as int,
                *client,
                zid@,
                pane_id,
                width,
                target,
                border as int,
                cur,
                (MAX_STEPS - steps) as nat,
            ),
        decreases MAX_STEPS - steps,
    {
        if cur == target {
            return Ok(pos);
        }
        if replies.len() <= pos {
            return Err(Step::Call(resize_request(client, zid, cur < target, width, border)));
        }
        match action_result(&replies[pos]) {
            Ok(()) => {},
            Err(e) => return Err(Step::Done(Err(e))),
        }
        if replies.len() <= pos + 1 {
            return Err(Step::Call(client.list_panes()));
        }
        let now = match measure(&replies[pos + 1], pane_id, width) {
            Ok(v) => v,
            Err(e) => return Err(Step::Done(Err(e))),
        };
        pos = pos + 2;
        steps = steps + 1;
        if now == cur {
            if border >= 1 {
                return Ok(pos);
            }
            border = border + 1;
        } else if (cur < target) != (now < target) {
            return Ok(pos);
        } else {
            cur = now;
        }
    }
    Ok(pos)
}

// ---------------------------------------------------------------------------
// resize-pane
// ---------------------------------------------------------------------------

/// The width phase then the height phase, reading replies from index 2.
pub open spec fn axes_step(
    inv: InvocationView,
    c: Client,
    pane: PaneInfo,
    vp: (i64, i64),
    replies: Seq<Reply>,
) -> StepView<OutputView> {
    let zid = spec_terminal_id(pane.id);
    let w = match width_target(inv, pane, vp.0) {
        Some(t) => converge_phase(replies, 2, c, zid, pane.id, true, t),
        None => Phase::Reached(2),
    };
    match w {
        Phase::Reached(p) => match height_target(inv, pane, vp.1) {
            Some(t) => phase_step(converge_phase(replies, p, c, zid, pane.id, false, t)),
            None => StepView::Done(Ok(ok_out())),
        },
        _ => phase_step(w),
    }
}

/// `resize-pane`: list the panes and pick the target; with `-Z` focus it
/// (whatever the outcome) and toggle fullscreen; otherwise list the tabs for
/// its viewport, then approach the width target, then the height target.
pub open spec fn resize_step(inv: InvocationView, c: Client, caller: Option<i64>, replies: Seq<Reply>) -> StepView<
    OutputView,
> {
    if replies.len() == 0 {
        StepView::Call(list_panes_req(c))
    } else {
        match panes_reply(replies[0]) {
            Err(e) => StepView::Done(Err(e)),
            Ok(panes) => match resize_target(inv, panes, caller) {
                None => StepView::Done(Err(ErrView::NoSuchPane(target_text(inv)))),
                Some(pane) => if has_flag(inv.flags, 'Z') {
                    if replies.len() == 1 {
                        StepView::Call(
                            zellij(
                                c.scope() + seq![
                                    "action"@,
                                    "focus-pane-id"@,
                                    spec_terminal_id(pane.id),
                                ],
                                Expect::Text,
                            ),
                        )
                    } else if replies.len() == 2 {
                        StepView::Call(
                            zellij(c.scope() + seq!["action"@, "toggle-fullscreen"@], Expect::Text),
                        )
                    } else {
                        match action_outcome(replies[2]) {
                            Err(e) => StepView::Done(Err(e)),
                            Ok(_) => StepView::Done(Ok(ok_out())),
                        }
                    }
                } else if replies.len() == 1 {
                    StepView::Call(list_tabs_req(c))
                } else {
                    match tabs_reply(replies[1]) {
                        Err(e) => StepView::Done(Err(e)),
                        Ok(tabs) => axes_step(inv, c, pane, viewport_of(tabs, pane.tab_id), replies),
                    }
                },
            },
        }
    }
}

fn no_such_target(inv: &ParsedInvocation) -> (e: ShimError)
    ensures
        e@ == ErrView::NoSuchPane(target_text(inv@)),
{
    ShimError::NoSuchPane(super::select::target_or_empty(inv))
}

fn resize_axes(
    inv: &ParsedInvocation,
    client: &Client,
    pane: &PaneInfo,
    vp_cols: i64,
    vp_rows: i64,
    replies: &[Reply],
) -> (s: Step<Output>)
    requires
        2 <= replies.len(),
    ensures
        s@ == axes_step(inv@, *client, *pane, (vp_cols, vp_rows), replies@),
{
    let zid = terminal_id(pane.id);
    let next = match target_along(inv, 'x', 'R', 'L', pane.pane_columns, vp_cols) {
        Some(t) => match converge(client, zid.as_str(), pane.id, true, t, replies, 2) {
            Ok(p) => p,
            Err(s) => return s,
        },
        None => 2,
    };
    match target_along(inv, 'y', 'D', 'U', pane.pane_rows, vp_rows) {
        Some(t) => match converge(client, zid.as_str(), pane.id, false, t, replies, next) {
            Ok(_) => Step::Done(Ok(Output::ok())),
            Err(s) => s,
        },
        None => Step::Done(Ok(Output::ok())),
    }
}

/// The next step of `resize-pane`, given the replies so far.
pub fn handle(inv: &ParsedInvocation, client: &Client, ctx: &Ctx, replies: &[Reply]) -> (s: Step<
    Output,
>)
    ensures
        s@ == resize_step(inv@, *client, ctx.current_pane, replies@),
{
    if replies.len() == 0 {
        return Step::Call(client.list_panes());
    }
    let panes = match panes_of(&replies[0]) {
        Ok(p) => p,
        Err(e) => return Step::Done(Err(e)),
    };
    let pane = match resolve(inv, panes.as_slice(), ctx.current_pane) {
        Some(p) => p,
        None => return Step::Done(Err(no_such_target(inv))),
    };
    if inv.has('Z') {
        if replies.len() == 1 {
            let zid = terminal_id(pane.id);
            return Step::Call(client.focus_pane(zid.as_str()));
        }
        if replies.len() == 2 {
            return Step::Call(client.toggle_fullscreen());
        }
        return match action_result(&replies[2]) {
            Ok(()) => Step::Done(Ok(Output::ok())),
            Err(e) => Step::Done(Err(e)),
        };
    }
    if replies.len() == 1 {
        return Step::Call(client.list_tabs());
    }
    let tabs = match tabs_of(&replies[1]) {
        Ok(t) => t,
        Err(e) => return Step::Done(Err(e)),
    };
    let (vp_cols, vp_rows) = match tab_by_id(tabs.as_slice(), pane.tab_id) {
        Some(t) => (t.viewport_columns, t.viewport_rows),
        None => (0, 0),
    };
    resize_axes(inv, client, pane, vp_cols, vp_rows, replies)
}

// ---------------------------------------------------------------------------
// laws
// ---------------------------------------------------------------------------

proof fn lemma_approach_bounded(
    replies: Seq<Reply>,
    pos: int,
    c: Client,
    zid: Seq<char>,
    pane_id: i64,
    width: bool,
    target: i64,
    border: int,
    cur: i64,
    fuel: nat,
)
    ensures
        approach(replies, pos, c, zid, pane_id, width, target, border, cur, fuel) is Ask
            ==> replies.len() < pos + 2 * fuel,
        approach(replies, pos, c, zid, pane_id, width, target, border, cur, fuel) matches Phase::Reached(p)
            ==> pos <= p <= pos + 2 * fuel,
    decreases fuel,
{
    if fuel > 0 && cur != target && replies.len() > pos + 1 {
        match measured(replies[pos + 1], pane_id, width) {
            Ok(now) => {
                if now == cur {
                    lemma_approach_bounded(replies, pos + 2, c, zid, pane_id, width, target, border + 1, cur, (fuel - 1) as nat);
                } else {
                    lemma_approach_bounded(replies, pos + 2, c, zid, pane_id, width, target, border, now, (fuel - 1) as nat);
                }
            },
            Err(_) => {},
        }
    }
}

/// Approaching a size target terminates within a fixed budget, whatever
/// zellij answers: one measurement and at most [`MAX_STEPS`] rounds of one
/// resize and one measurement. So the phase never asks for a reply beyond
/// that budget, and when it is over it has read no more than that.
pub proof fn law_converge_bounded(
    replies: Seq<Reply>,
    pos: int,
    c: Client,
    zid: Seq<char>,
    pane_id: i64,
    width: bool,
    target: i64,
)
    ensures
        converge_phase(replies, pos, c, zid, pane_id, width, target) is Ask
            ==> replies.len() < pos + 1 + 2 * MAX_STEPS,
        converge_phase(replies, pos, c, zid, pane_id, width, target) matches Phase::Reached(p)
            ==> pos < p <= pos + 1 + 2 * MAX_STEPS,
{
    if replies.len() > pos {
        match measured(replies[pos], pane_id, width) {
            Ok(cur) => lemma_approach_bounded(replies, pos + 1, c, zid, pane_id, width, target, 0, cur, MAX_STEPS as nat),
            Err(_) => {},
        }
    }
}

/// `resize-pane` always finishes: whatever zellij answers, it makes at most
/// two requests before the width phase and two bounded phases after, so it
/// never asks for more than `2 + 2 * (1 + 2 * MAX_STEPS)` replies.
pub proof fn law_resize_bounded(inv: InvocationView, c: Client, caller: Option<i64>, replies: Seq<Reply>)
    ensures
        resize_step(inv, c, caller, replies) is Call ==> replies.len() < 2 + 2 * (1 + 2 * MAX_STEPS),
{
    if replies.len() >= 2 {
        match panes_reply(replies[0]) {
            Ok(panes) => match resize_target(inv, panes, caller) {
                Some(pane) => match tabs_reply(replies[1]) {
                    Ok(tabs) => {
                        let vp = viewport_of(tabs, pane.tab_id);
                        let zid = spec_terminal_id(pane.id);
                        let next = match width_target(inv, pane, vp.0) {
                            Some(t) => {
                                law_converge_bounded(replies, 2, c, zid, pane.id, true, t);
                                converge_phase(replies, 2, c, zid, pane.id, true, t)
                            },
                            None => Phase::Reached(2),
                        };
                        match next {
                            Phase::Reached(p) => match height_target(inv, pane, vp.1) {
                                Some(t) => law_converge_bounded(replies, p, c, zid, pane.id, false, t),
                                None => {},
                            },
                            _ => {},
                        }
                    },
                    Err(_) => {},
                },
                None => {},
            },
            Err(_) => {},
        }
    }
}

/// Relative resizing: `-R`/`-D N` grow and `-L`/`-U N` shrink, by the first
/// operand when it is a positive number, else by one cell. Without `-x`, the
/// width target is the current width plus `N` for `-R` (always above the
/// current width), else the current width minus `N` for `-L`; without `-y`,
/// likewise for the height with `-D` and `-U`. Every target is at least one
/// cell. (Sizes are taken where the sum stays in range.)
pub proof fn law_relative_resize_direction(inv: InvocationView, pane: PaneInfo, vp_cols: i64, vp_rows: i64, n: i64)
    requires
        (inv.operands.len() > 0 && parse_i64(inv.operands[0]) == Some(n) && n > 0) || (
        inv.operands.len() == 0 && n == 1),
    ensures
        flag_value(inv.flags, 'y') is None && has_flag(inv.flags, 'D') && pane.pane_rows + n
            <= i64::MAX ==> height_target(inv, pane, vp_rows) == Some(
            (if pane.pane_rows + n >= 1 {
                pane.pane_rows + n
            } else {
                1
            }) as i64,
        ) && height_target(inv, pane, vp_rows).unwrap() > pane.pane_rows,
        flag_value(inv.flags, 'y') is None && !has_flag(inv.flags, 'D') && has_flag(inv.flags, 'U')
            && pane.pane_rows - n >= i64::MIN ==> height_target(inv, pane, vp_rows) == Some(
            (if pane.pane_rows - n >= 1 {
                pane.pane_rows - n
            } else {
                1
            }) as i64,
        ),
        flag_value(inv.flags, 'x') is None && has_flag(inv.flags, 'R') && pane.pane_columns + n
            <= i64::MAX ==> width_target(inv, pane, vp_cols) == Some(
            (if pane.pane_columns + n >= 1 {
                pane.pane_columns + n
            } else {
                1
            }) as i64,
        ) && width_target(inv, pane, vp_cols).unwrap() > pane.pane_columns,
        flag_value(inv.flags, 'x') is None && !has_flag(inv.flags, 'R') && has_flag(inv.flags, 'L')
            && pane.pane_columns - n >= i64::MIN ==> width_target(inv, pane, vp_cols) == Some(
            (if pane.pane_columns - n >= 1 {
                pane.pane_columns - n
            } else {
                1
            }) as i64,
        ),
        flag_value(inv.flags, 'y') is None && !has_flag(inv.flags, 'D') && !has_flag(inv.flags, 'U')
            ==> height_target(inv, pane, vp_rows) is None,
        flag_value(inv.flags, 'x') is None && !has_flag(inv.flags, 'R') && !has_flag(inv.flags, 'L')
            ==> width_target(inv, pane, vp_cols) is None,
{
    assert(adjustment(inv) == n);
}

} // verus!
