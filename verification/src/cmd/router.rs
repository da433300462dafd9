//! Dispatches a parsed tmux invocation to the handler that implements it.
//!
//! A [`Job`] carries one invocation through its whole exchange with the
//! environment: first the live session is resolved, then the command's own
//! handler runs against a client scoped to that session. Version queries,
//! no-op commands and unknown commands are answered before anything is asked,
//! so they never spawn `zellij`.
use super::control::{is_noop, is_version, noop, spec_is_noop, spec_is_version, version};
use super::keys::keys_step;
use super::layout::layout_result;
use super::lifecycle::lifecycle_step;
use super::query::query_step;
use super::resize::resize_step;
use super::{line_out, ok_out, stderr_out, Ctx, Output, OutputView};
use crate::cli::args::{opt_str_view, InvocationView, ParsedInvocation};
use crate::error::{cat, ErrView, ShimError};
use crate::exchange::{Reply, Step, StepView};
use crate::session::{resolve_session_in, resolve_stage};
use crate::text::{chars_of, is};
use crate::zellij::client::Client;
use vstd::prelude::*;
use vstd::string::*;

verus! {

/// What the process environment tells the shim.
pub struct Env {
    /// `$ZELLIJ_SESSION_NAME`, when set and not empty.
    pub session_name: Option<String>,
    /// `$ZELLIJ_PANE_ID` as a pane integer, when it parses.
    pub current_pane: Option<i64>,
    /// The working directory, when it can be read.
    pub cwd: Option<String>,
    /// The session cache directory, when one resolves.
    pub cache_dir: Option<String>,
    /// The user's login shell.
    pub login_shell: String,
}

/// The query commands.
pub open spec fn is_query(sub: Seq<char>) -> bool {
    ||| sub == "display-message"@
    ||| sub == "list-panes"@
    ||| sub == "list-windows"@
    ||| sub == "list-sessions"@
    ||| sub == "has-session"@
    ||| sub == "capture-pane"@
}

/// The lifecycle commands.
pub open spec fn is_lifecycle(sub: Seq<char>) -> bool {
    ||| sub == "split-window"@
    ||| sub == "new-session"@
    ||| sub == "new-window"@
    ||| sub == "select-window"@
    ||| sub == "rename-window"@
    ||| sub == "kill-pane"@
    ||| sub == "kill-window"@
    ||| sub == "kill-session"@
    ||| sub == "respawn-pane"@
}

/// The input commands.
pub open spec fn is_input(sub: Seq<char>) -> bool {
    sub == "send-keys"@ || sub == "select-pane"@
}

/// The layout and option commands.
pub open spec fn is_layout(sub: Seq<char>) -> bool {
    sub == "select-layout"@ || sub == "set-option"@ || sub == "set-window-option"@
}

/// The subcommands the router implements.
pub open spec fn spec_is_known(sub: Seq<char>) -> bool {
    is_query(sub) || is_lifecycle(sub) || is_input(sub) || sub == "resize-pane"@ || is_layout(sub)
}

/// tmux's answer to a command it does not know.
pub open spec fn unknown_out(sub: Seq<char>) -> OutputView {
    stderr_out("unknown command: "@ + sub, 1)
}

/// A result as the final step.
pub open spec fn done(r: Result<OutputView, ErrView>) -> StepView<OutputView> {
    StepView::Done(r)
}

/// The handler of the subcommand, against session client `c` in `ctx`.
pub open spec fn route_step(inv: InvocationView, c: Client, ctx: Ctx, replies: Seq<Reply>) -> StepView<
    OutputView,
> {
    let sub = inv.subcommand;
    if is_query(sub) {
        query_step(inv, c, ctx.session@, replies)
    } else if is_lifecycle(sub) {
        lifecycle_step(inv, c, ctx, replies)
    } else if is_input(sub) {
        keys_step(inv, c, replies)
    } else if sub == "resize-pane"@ {
        resize_step(inv, c, ctx.current_pane, replies)
    } else if is_layout(sub) {
        done(layout_result(inv))
    } else {
        StepView::Done(Ok(unknown_out(sub)))
    }
}

/// Whether the router implements `name`; checked before the session is
/// resolved so unknown commands never spawn `zellij`.
pub fn is_known_subcommand(name: &str) -> (b: bool)
    ensures
        b == spec_is_known(name@),
{
    let s = chars_of(name);
    is(&s, "display-message") || is(&s, "list-panes") || is(&s, "list-windows") || is(
        &s,
        "list-sessions",
    ) || is(&s, "has-session") || is(&s, "capture-pane") || is(&s, "split-window") || is(
        &s,
        "new-session",
    ) || is(&s, "new-window") || is(&s, "select-window") || is(&s, "rename-window") || is(
        &s,
        "kill-pane",
    ) || is(&s, "kill-window") || is(&s, "kill-session") || is(&s, "respawn-pane") || is(
        &s,
        "send-keys",
    ) || is(&s, "select-pane") || is(&s, "resize-pane") || is(&s, "select-layout") || is(
        &s,
        "set-option",
    ) || is(&s, "set-window-option")
}

fn unknown(sub: &str) -> (o: Output)
    ensures
        o@ == unknown_out(sub@),
{
    let msg = cat("unknown command: ", sub);
    Output::stderr_line(msg.as_str(), 1)
}

/// The next step of the command's handler, against session client `client`.
pub fn route(inv: &ParsedInvocation, client: &Client, ctx: &Ctx, replies: &[Reply]) -> (s: Step<Output>)
    ensures
        s@ == route_step(inv@, *client, *ctx, replies@),
{
    let sub = chars_of(inv.subcommand.as_str());
    if is(&sub, "display-message") || is(&sub, "list-panes") || is(&sub, "list-windows") || is(
        &sub,
        "list-sessions",
    ) || is(&sub, "has-session") || is(&sub, "capture-pane") {
        super::query::handle(inv, client, ctx, replies)
    } else if is(&sub, "split-window") || is(&sub, "new-session") || is(&sub, "new-window") || is(
        &sub,
        "select-window",
    ) || is(&sub, "rename-window") || is(&sub, "kill-pane") || is(&sub, "kill-window") || is(
        &sub,
        "kill-session",
    ) || is(&sub, "respawn-pane") {
        super::lifecycle::handle(inv, client, ctx, replies)
    } else if is(&sub, "send-keys") || is(&sub, "select-pane") {
        super::keys::handle(inv, client, ctx, replies)
    } else if is(&sub, "resize-pane") {
        super::resize::handle(inv, client, ctx, replies)
    } else if is(&sub, "select-layout") || is(&sub, "set-option") || is(&sub, "set-window-option") {
        Step::Done(super::layout::handle(inv, ctx))
    } else {
        Step::Done(Ok(unknown(inv.subcommand.as_str())))
    }
}

/// The answer given before any request: the version, a no-op's success, or
/// the unknown-command error; `None` for a command that needs zellij.
pub open spec fn early_out(inv: InvocationView) -> Option<OutputView> {
    if spec_is_version(inv.subcommand) {
        Some(line_out("tmux 3.4"@))
    } else if spec_is_noop(inv.subcommand) {
        Some(ok_out())
    } else if !spec_is_known(inv.subcommand) {
        Some(unknown_out(inv.subcommand))
    } else {
        None
    }
}

/// The answer to the invocation given before any request, if it needs none.
pub fn early(inv: &ParsedInvocation) -> (r: Option<Output>)
    ensures
        match r {
            Some(o) => early_out(inv@) == Some(o@),
            None => early_out(inv@) is None,
        },
{
    if is_version(inv) {
        return Some(version());
    }
    if is_noop(inv) {
        return Some(noop());
    }
    if !is_known_subcommand(inv.subcommand.as_str()) {
        return Some(unknown(inv.subcommand.as_str()));
    }
    None
}

/// One invocation carried through its exchange with the environment.
pub struct Job {
    pub inv: ParsedInvocation,
    pub env: Env,
    /// The replies to the session-resolution requests.
    pub resolving: Vec<Reply>,
    /// The resolved session, once known.
    pub session: Option<String>,
    /// The replies to the command handler's requests.
    pub replies: Vec<Reply>,
}

/// The resolution of the job's session from its env and replies.
pub open spec fn job_resolution(env: Env, resolving: Seq<Reply>) -> StepView<Seq<char>> {
    resolve_stage(
        crate::text::opt_view(env.session_name),
        crate::text::opt_view(env.cache_dir),
        env.current_pane,
        crate::text::opt_view(env.cwd),
        resolving,
    )
}

/// The context a command runs in once its session is `session`.
pub open spec fn job_ctx(env: Env, session: String) -> Ctx {
    Ctx { session, current_pane: env.current_pane, login_shell: env.login_shell }
}

impl Job {
    /// A job for `inv` in environment `env`, with nothing asked yet.
    pub fn new(inv: ParsedInvocation, env: Env) -> (j: Job)
        ensures
            j.inv == inv,
            j.env == env,
            j.resolving@.len() == 0,
            j.session is None,
            j.replies@.len() == 0,
    {
        Job { inv, env, resolving: Vec::new(), session: None, replies: Vec::new() }
    }

    /// Hand the reply to the last request in: to the session resolution while
    /// the session is unknown, else to the command's handler.
    pub fn feed(&mut self, reply: Reply)
        ensures
            final(self).inv == old(self).inv,
            final(self).env == old(self).env,
            final(self).session == old(self).session,
            old(self).session is None ==> final(self).resolving@ == old(self).resolving@.push(reply)
                && final(self).replies@ == old(self).replies@,
            old(self).session is Some ==> final(self).replies@ == old(self).replies@.push(reply)
                && final(self).resolving@ == old(self).resolving@,
    {
        if self.session.is_none() {
            self.resolving.push(reply);
        } else {
            self.replies.push(reply);
        }
    }
}

/// The next step: an answer that needs no request; else the next request
/// of the session resolution, or its failure; else, with the session
/// resolved (and recorded in the job), the next step of the command's
/// handler against a client scoped to that session.
pub fn dispatch(job: &mut Job) -> (s: Step<Output>)
    ensures
        final(job).inv == old(job).inv,
        final(job).env == old(job).env,
        final(job).resolving == old(job).resolving,
        final(job).replies == old(job).replies,
        match early_out(old(job).inv@) {
            Some(o) => s@ == StepView::<OutputView>::Done(Ok(o)) && final(job).session == old(job).session,
            None => match job_resolution(old(job).env, old(job).resolving@) {
                StepView::Call(q) => s@ == StepView::<OutputView>::Call(q) && final(job).session is None,
                StepView::Done(Err(e)) => s@ == StepView::<OutputView>::Done(Err(e)) && final(job).session is None,
                StepView::Done(Ok(name)) => match final(job).session {
                    Some(x) => x@ == name && s@ == route_step(
                        old(job).inv@,
                        Client { session: Some(x) },
                        job_ctx(old(job).env, x),
                        old(job).replies@,
                    ),
                    None => false,
                },
            },
        },
{
    match early(&job.inv) {
        Some(o) => return Step::Done(Ok(o)),
        None => {},
    }
    let resolved = resolve_session_in(
        opt_ref(&job.env.session_name),
        opt_ref(&job.env.cache_dir),
        job.env.current_pane,
        opt_ref(&job.env.cwd),
        job.resolving.as_slice(),
    );
    let name = match resolved {
        Step::Call(q) => {
            job.session = None;
            return Step::Call(q);
        },
        Step::Done(Err(e)) => {
            job.session = None;
            return Step::Done(Err(e));
        },
        Step::Done(Ok(n)) => n,
    };
    job.session = Some(name.clone());
    let client = Client::new(name.clone());
    let ctx = Ctx::new(name, job.env.current_pane, job.env.login_shell.clone());
    route(&job.inv, &client, &ctx, job.replies.as_slice())
}

fn opt_ref(o: &Option<String>) -> (r: Option<&str>)
    ensures
        opt_str_view(r) == crate::text::opt_view(*o),
{
    match o {
        Some(s) => Some(s.as_str()),
        None => None,
    }
}

/// A command the shim does not implement is answered at once, before any
/// request to zellij, with tmux's wording on stderr and exit code 1; the
/// version query is answered at once with `tmux 3.4`.
pub proof fn law_answered_without_zellij(inv: InvocationView)
    ensures
        spec_is_version(inv.subcommand) ==> early_out(inv) == Some(line_out("tmux 3.4"@)),
        !spec_is_version(inv.subcommand) && !spec_is_noop(inv.subcommand) && !spec_is_known(
            inv.subcommand,
        ) ==> early_out(inv) == Some(unknown_out(inv.subcommand)) && unknown_out(inv.subcommand).code
            == 1,
{
}

} // verus!
