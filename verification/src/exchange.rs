//! The protocol between the shim's decision functions and the environment
//! that carries out their requests.
//!
//! Every tmux command alternates between asking zellij (or the file system, or
//! the clock) for something and deciding what to do with the answer. The
//! decisions are pure functions from the command and the replies received so
//! far to the next [`Step`]: either one more [`Request`], or the final result.
//! A driver performs each request, appends the [`Reply`], and asks again.
use crate::error::{res_view, ErrView, ShimError};
use crate::zellij::types::{PaneInfo, TabInfo};
use crate::session::cache::{Entry, EntryView};
use crate::text::views;
use vstd::prelude::*;
use vstd::string::*;

verus! {

/// Raw output of one `zellij` invocation.
pub struct RunOutput {
    pub stdout: String,
    pub stderr: String,
    pub success: bool,
}

/// How the stdout of a `zellij` invocation is to be handed back.
#[derive(PartialEq, Eq, Structural, Clone, Copy, Debug)]
pub enum Expect {
    /// As raw text ([`Reply::Output`]).
    Text,
    /// Decoded as the JSON pane list ([`Reply::Panes`]).
    Panes,
    /// Decoded as the JSON tab list ([`Reply::Tabs`]).
    Tabs,
}

/// Something the decision functions need done.
pub enum Request {
    /// Run `zellij <args>`.
    Zellij { args: Vec<String>, expect: Expect },
    /// Read the session cache file `path` ([`Reply::Cached`]).
    ReadCache { path: String },
    /// Create `dir`, write `entry` to `tmp`, then rename it over `path`
    /// ([`Reply::Written`]); failures are ignored.
    WriteCache { dir: String, tmp: String, path: String, entry: Entry },
    /// The current time in Unix seconds ([`Reply::Now`]).
    Clock,
    /// The canonical form of a file-system path ([`Reply::Canonical`]).
    Canonical { path: String },
}

/// The answer to a [`Request`].
pub enum Reply {
    /// The output of a `zellij` run.
    Output(RunOutput),
    /// The decoded pane list.
    Panes(Vec<PaneInfo>),
    /// The decoded tab list.
    Tabs(Vec<TabInfo>),
    /// The request could not be carried out (spawn failure, timeout, or
    /// undecodable JSON).
    Failed(ShimError),
    /// The cache entry read, `None` on a miss or any read/decode failure.
    Cached(Option<Entry>),
    /// The cache write was attempted.
    Written,
    /// Unix seconds (0 when the clock is before the epoch).
    Now(u64),
    /// The canonical path, `None` when the path cannot be resolved.
    Canonical(Option<String>),
}

/// The next step of a decision function.
pub enum Step<T> {
    /// Perform this request and ask again with its reply appended.
    Call(Request),
    /// The final result.
    Done(Result<T, ShimError>),
}

/// A sub-exchange inside a larger decision: the request to make next, or its
/// result together with the index of the first reply that follows it.
pub enum Progress<T> {
    Ask(Request),
    Over(T, usize),
}

/// The mathematical counterpart of [`Progress`].
pub enum Stage<V> {
    Ask(RequestView),
    Over(V, int),
}

/// The error for a reply that does not answer the request that was made.
pub open spec fn is_unexpected(e: ShimError) -> bool {
    e matches ShimError::BadArgs(m) && m@ == "unexpected reply from zellij"@
}

/// The error for a reply that does not answer the request that was made.
pub fn unexpected() -> (e: ShimError)
    ensures
        is_unexpected(e),
{
    ShimError::BadArgs(String::from_str("unexpected reply from zellij"))
}

/// What a reply to a text request carries.
pub open spec fn output_reply(r: Reply) -> Result<RunOutput, ErrView> {
    match r {
        Reply::Output(o) => Ok(o),
        Reply::Failed(e) => Err(e@),
        _ => Err(ErrView::BadArgs("unexpected reply from zellij"@)),
    }
}

/// What a reply to a pane-list request carries.
pub open spec fn panes_reply(r: Reply) -> Result<Seq<PaneInfo>, ErrView> {
    match r {
        Reply::Panes(v) => Ok(v@),
        Reply::Failed(e) => Err(e@),
        _ => Err(ErrView::BadArgs("unexpected reply from zellij"@)),
    }
}

/// What a reply to a tab-list request carries.
pub open spec fn tabs_reply(r: Reply) -> Result<Seq<TabInfo>, ErrView> {
    match r {
        Reply::Tabs(v) => Ok(v@),
        Reply::Failed(e) => Err(e@),
        _ => Err(ErrView::BadArgs("unexpected reply from zellij"@)),
    }
}

/// The raw output of a reply to a text request.
pub fn output_of(r: &Reply) -> (o: Result<&RunOutput, ShimError>)
    ensures
        match o {
            Ok(x) => output_reply(*r) == Ok::<RunOutput, ErrView>(*x),
            Err(e) => output_reply(*r) == Err::<RunOutput, ErrView>(e@),
        },
{
    match r {
        Reply::Output(x) => Ok(x),
        Reply::Failed(e) => Err(e.clone_error()),
        _ => Err(unexpected()),
    }
}

/// The panes of a reply to a pane-list request.
pub fn panes_of(r: &Reply) -> (o: Result<&Vec<PaneInfo>, ShimError>)
    ensures
        match o {
            Ok(x) => panes_reply(*r) == Ok::<Seq<PaneInfo>, ErrView>(x@),
            Err(e) => panes_reply(*r) == Err::<Seq<PaneInfo>, ErrView>(e@),
        },
{
    match r {
        Reply::Panes(x) => Ok(x),
        Reply::Failed(e) => Err(e.clone_error()),
        _ => Err(unexpected()),
    }
}

/// The tabs of a reply to a tab-list request.
pub fn tabs_of(r: &Reply) -> (o: Result<&Vec<TabInfo>, ShimError>)
    ensures
        match o {
            Ok(x) => tabs_reply(*r) == Ok::<Seq<TabInfo>, ErrView>(x@),
            Err(e) => tabs_reply(*r) == Err::<Seq<TabInfo>, ErrView>(e@),
        },
{
    match r {
        Reply::Tabs(x) => Ok(x),
        Reply::Failed(e) => Err(e.clone_error()),
        _ => Err(unexpected()),
    }
}

/// The outcome of a zellij action: success, or `ZellijExit` with its stderr.
pub open spec fn action_outcome(r: Reply) -> Result<(), ErrView> {
    match r {
        Reply::Output(o) => if o.success {
            Ok(())
        } else {
            Err(ErrView::ZellijExit { code: 1, stderr: o.stderr@ })
        },
        Reply::Failed(e) => Err(e@),
        _ => Err(ErrView::BadArgs("unexpected reply from zellij"@)),
    }
}

/// The outcome of a zellij action.
pub fn action_result(r: &Reply) -> (o: Result<(), ShimError>)
    ensures
        res_view(o) == action_outcome(*r),
{
    match r {
        Reply::Output(x) => if x.success {
            Ok(())
        } else {
            Err(ShimError::ZellijExit { code: 1, stderr: x.stderr.clone() })
        },
        Reply::Failed(e) => Err(e.clone_error()),
        _ => Err(unexpected()),
    }
}

/// The mathematical view of a request.
pub enum RequestView {
    Zellij { args: Seq<Seq<char>>, expect: Expect },
    ReadCache { path: Seq<char> },
    WriteCache { dir: Seq<char>, tmp: Seq<char>, path: Seq<char>, entry: EntryView },
    Clock,
    Canonical { path: Seq<char> },
}

impl View for Request {
    type V = RequestView;

    open spec fn view(&self) -> RequestView {
        match *self {
            Request::Zellij { args, expect } => RequestView::Zellij { args: views(args@), expect },
            Request::ReadCache { path } => RequestView::ReadCache { path: path@ },
            Request::WriteCache { dir, tmp, path, entry } => RequestView::WriteCache {
                dir: dir@,
                tmp: tmp@,
                path: path@,
                entry: entry@,
            },
            Request::Clock => RequestView::Clock,
            Request::Canonical { path } => RequestView::Canonical { path: path@ },
        }
    }
}

/// The mathematical view of a step.
pub enum StepView<V> {
    Call(RequestView),
    Done(Result<V, ErrView>),
}

impl<T: View> View for Step<T> {
    type V = StepView<T::V>;

    open spec fn view(&self) -> StepView<T::V> {
        match *self {
            Step::Call(r) => StepView::Call(r@),
            Step::Done(Ok(x)) => StepView::Done(Ok(x@)),
            Step::Done(Err(e)) => StepView::Done(Err(e@)),
        }
    }
}

/// A `zellij` request with exactly these arguments.
pub open spec fn zellij(args: Seq<Seq<char>>, expect: Expect) -> RequestView {
    RequestView::Zellij { args, expect }
}

} // verus!
