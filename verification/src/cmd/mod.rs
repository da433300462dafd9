//! tmux subcommand handlers: each translates a parsed invocation into zellij
//! requests and a tmux-faithful [`Output`] (stdout/stderr bytes + exit code).
pub mod control;
pub mod keys;
pub mod layout;
pub mod lifecycle;
pub mod query;
pub mod resize;
pub mod router;
pub mod select;

use vstd::prelude::*;
use vstd::string::*;
use vstd::utf8::encode_utf8;
use crate::text::views;
use crate::error::{res_view, ErrView, ShimError};
use crate::exchange::{action_outcome, action_result, Reply, Request, RequestView, Step, StepView};
use crate::search::{first_index, lemma_first_index_is, lemma_first_index_none};

verus! {

/// What the shim writes and the exit code it returns.
pub struct Output {
    pub stdout: Vec<u8>,
    pub stderr: Vec<u8>,
    pub code: u8,
}

/// The mathematical view of an output.
pub struct OutputView {
    pub stdout: Seq<u8>,
    pub stderr: Seq<u8>,
    pub code: u8,
}

impl View for Output {
    type V = OutputView;

    open spec fn view(&self) -> OutputView {
        OutputView { stdout: self.stdout@, stderr: self.stderr@, code: self.code }
    }
}

/// The UTF-8 bytes of `text` followed by a newline.
pub open spec fn line_bytes(text: Seq<char>) -> Seq<u8> {
    encode_utf8(text).push(10u8)
}

/// Each of `items` as a newline-terminated line.
pub open spec fn lines_bytes(items: Seq<Seq<char>>) -> Seq<u8>
    decreases items.len(),
{
    if items.len() == 0 {
        seq![]
    } else {
        lines_bytes(items.drop_last()) + line_bytes(items.last())
    }
}

/// Success with nothing written.
pub open spec fn ok_out() -> OutputView {
    OutputView { stdout: seq![], stderr: seq![], code: 0 }
}

/// Success printing one line.
pub open spec fn line_out(text: Seq<char>) -> OutputView {
    OutputView { stdout: line_bytes(text), stderr: seq![], code: 0 }
}

/// Success printing the given lines.
pub open spec fn lines_out(items: Seq<Seq<char>>) -> OutputView {
    OutputView { stdout: lines_bytes(items), stderr: seq![], code: 0 }
}

/// Failure with exit code `code` and one line on stderr.
pub open spec fn stderr_out(text: Seq<char>, code: u8) -> OutputView {
    OutputView { stdout: seq![], stderr: line_bytes(text), code }
}

fn append_line(buf: &mut Vec<u8>, text: &str)
    ensures
        final(buf)@ == old(buf)@ + line_bytes(text@),
{
    let mut b = text.as_bytes_vec();
    b.push(10u8);
    buf.append(&mut b);
}

impl Output {
    /// Success with nothing written.
    pub fn ok() -> (o: Output)
        ensures
            o@ == ok_out(),
    {
        Output { stdout: Vec::new(), stderr: Vec::new(), code: 0 }
    }

    /// Success printing `text` and a newline.
    pub fn line(text: &str) -> (o: Output)
        ensures
            o@ == line_out(text@),
    {
        let mut stdout: Vec<u8> = Vec::new();
        append_line(&mut stdout, text);
        assert(stdout@ =~= line_bytes(text@));
        Output { stdout, stderr: Vec::new(), code: 0 }
    }

    /// Success printing each item as a line.
    pub fn lines(items: &[String]) -> (o: Output)
        ensures
            o@ == lines_out(views(items@)),
    {
        let mut stdout: Vec<u8> = Vec::new();
        let mut i: usize = 0;
        while i < items.len()
            invariant
                i <= items.len(),
                stdout@ == lines_bytes(views(items@).take(i as int)),
            decreases items.len() - i,
        {
            append_line(&mut stdout, items[i].as_str());
            i = i + 1;
            assert(views(items@).take(i as int).drop_last() =~= views(items@).take(i - 1));
        }
        assert(views(items@).take(items.len() as int) =~= views(items@));
        Output { stdout, stderr: Vec::new(), code: 0 }
    }

    /// Success printing `stdout` verbatim.
    pub fn bytes(stdout: Vec<u8>) -> (o: Output)
        ensures
            o@ == (OutputView { stdout: stdout@, stderr: seq![], code: 0 }),
    {
        Output { stdout, stderr: Vec::new(), code: 0 }
    }

    /// Exit code `code` with `text` and a newline on stderr.
    pub fn stderr_line(text: &str, code: u8) -> (o: Output)
        ensures
            o@ == stderr_out(text@, code),
    {
        let mut stderr: Vec<u8> = Vec::new();
        append_line(&mut stderr, text);
        assert(stderr@ =~= line_bytes(text@));
        Output { stdout: Vec::new(), stderr, code }
    }
}

/// The environment a command runs in.
pub struct Ctx {
    /// The resolved zellij session name.
    pub session: String,
    /// The caller's own pane integer (`$ZELLIJ_PANE_ID`), when known.
    pub current_pane: Option<i64>,
    /// The user's login shell, spawned for panes that get a working directory
    /// but no command.
    pub login_shell: String,
}

impl Ctx {
    /// A context for `session`.
    pub fn new(session: String, current_pane: Option<i64>, login_shell: String) -> (c: Ctx)
        ensures
            c.session == session,
            c.current_pane == current_pane,
            c.login_shell == login_shell,
    {
        Ctx { session, current_pane, login_shell }
    }

    /// A context for `session` with no caller pane and `/bin/sh` as the shell.
    pub fn test(session: &str) -> (c: Ctx)
        ensures
            c.session@ == session@,
            c.current_pane is None,
            c.login_shell@ == "/bin/sh"@,
    {
        Ctx {
            session: String::from_str(session),
            current_pane: None,
            login_shell: String::from_str("/bin/sh"),
        }
    }
}

/// A reply reporting a failed action.
pub open spec fn failed_action() -> spec_fn(Reply) -> bool {
    |r: Reply| action_outcome(r) is Err
}

/// The replies to a sequence of `reqs` actions, the first `start` replies
/// being for earlier requests: stop at the first failure, else issue the next
/// request, else succeed with no output.
pub open spec fn run_actions(replies: Seq<Reply>, start: int, reqs: Seq<RequestView>) -> StepView<
    OutputView,
> {
    let got = replies.skip(start);
    let n: int = if got.len() < reqs.len() {
        got.len() as int
    } else {
        reqs.len() as int
    };
    match first_index(got.take(n), failed_action()) {
        Some(i) => StepView::Done(Err(action_outcome(got[i])->Err_0)),
        None => if got.len() < reqs.len() {
            StepView::Call(reqs[got.len() as int])
        } else {
            StepView::Done(Ok(ok_out()))
        },
    }
}

/// The views of a list of requests.
pub open spec fn request_views(r: Seq<Request>) -> Seq<RequestView> {
    r.map_values(|q: Request| q@)
}

/// Issue `reqs` in turn (the first `start` replies answer earlier requests),
/// stopping at the first failed action.
pub fn perform_actions(replies: &[Reply], start: usize, mut reqs: Vec<Request>) -> (s: Step<Output>)
    requires
        start <= replies.len(),
    ensures
        s@ == run_actions(replies@, start as int, request_views(reqs@)),
{
    let ghost got = replies@.skip(start as int);
    let ghost rv = request_views(reqs@);
    let got_len = replies.len() - start;
    let n = if got_len < reqs.len() {
        got_len
    } else {
        reqs.len()
    };
    let mut i: usize = 0;
    while i < n
        invariant
            i <= n,
            n <= got.len(),
            got == replies@.skip(start as int),
            start + got.len() == replies.len(),
            rv == request_views(reqs@),
            got == replies@.skip(start as int),
            n == (if got.len() < reqs@.len() {
                got.len()
            } else {
                reqs@.len()
            }),
            forall|j: int| 0 <= j < i ==> !failed_action()(#[trigger] got.take(n as int)[j]),
        decreases n - i,
    {
        match action_result(&replies[start + i]) {
            Err(e) => {
                assert(got[i as int] == replies@[start + i]);
                assert(got.take(n as int)[i as int] == got[i as int]);
                proof {
                    lemma_first_index_is(got.take(n as int), failed_action(), i as int);
                }
                return Step::Done(Err(e));
            },
            Ok(()) => {
                assert(got.take(n as int)[i as int] == replies@[start + i]);
            },
        }
        i = i + 1;
    }
    proof {
        lemma_first_index_none(got.take(n as int), failed_action());
    }
    if got_len < reqs.len() {
        let r = reqs.remove(got_len);
        Step::Call(r)
    } else {
        Step::Done(Ok(Output::ok()))
    }
}

} // verus!
