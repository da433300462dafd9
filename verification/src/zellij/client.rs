//! The typed `zellij action ...` requests the command handlers issue, the
//! interpretation of their replies, and the runner seam with its test fake.
//!
//! [`ZellijRunner`] is the low-level "run these args, get output" seam;
//! [`Client`] builds the exact argument vectors of each zellij primitive,
//! scoped to a session with `--session <name>` when one is known.
use crate::error::{cat, res_view, ErrView, ShimError};
use crate::exchange::{action_outcome, output_of, output_reply, zellij, Expect, Reply, Request, RunOutput};
use crate::idmap::{parse_pane_int, pane_int_from_env};
use crate::search::{first_index, lemma_first_index_is, lemma_first_index_none};
use crate::text::{
    chars_of, concat_strings, contains, contains_exec, debug_quoted, debug_str, int_str, int_string,
    join, parse_i64, parse_i64_str, strs, trim, trim_str, uint_string, views,
};
use vstd::prelude::*;
use vstd::string::*;

verus! {

/// Runs `zellij <args...>` and captures its output.
pub trait ZellijRunner {
    /// Run `zellij <args...>`.
    ///
    /// # Errors
    /// `ZellijSpawn` / `ZellijTimeout` when the process cannot be run to completion.
    fn run(&mut self, args: &[String]) -> Result<RunOutput, ShimError>;
}

/// Builds the argument vectors of zellij primitives, optionally scoped to a
/// session.
pub struct Client {
    pub session: Option<String>,
}

impl Client {
    /// A client whose actions target session `session`.
    pub fn new(session: String) -> (c: Client)
        ensures
            c.session == Some(session),
    {
        Client { session: Some(session) }
    }

    /// A client whose actions target the current session implicitly.
    pub fn unscoped() -> (c: Client)
        ensures
            c.session is None,
    {
        Client { session: None }
    }

    /// The `--session <name>` arguments, if any.
    pub open spec fn scope(self) -> Seq<Seq<char>> {
        match self.session {
            Some(s) => seq!["--session"@, s@],
            None => seq![],
        }
    }

    /// The request `zellij [--session s] <tail>`.
    fn request(&self, tail: &[&str], expect: Expect) -> (r: Request)
        ensures
            r@ == zellij(self.scope() + tail@.map_values(|s: &str| s@), expect),
    {
        let head = match &self.session {
            Some(s) => strs(&["--session", s.as_str()]),
            None => Vec::new(),
        };
        proof {
            if self.session is None {
                assert(views(head@) =~= Seq::<Seq<char>>::empty());
            } else {
                assert(views(head@) =~= self.scope());
            }
        }
        let t = strs(tail);
        let args = concat_strings(head, &t);
        Request::Zellij { args, expect }
    }

    /// `action list-panes --all --json`, decoded.
    pub fn list_panes(&self) -> (r: Request)
        ensures
            r@ == zellij(
                self.scope() + seq!["action"@, "list-panes"@, "--all"@, "--json"@],
                Expect::Panes,
            ),
    {
        let r = self.request(&["action", "list-panes", "--all", "--json"], Expect::Panes);
        assert(r@ == zellij(self.scope() + seq!["action"@, "list-panes"@, "--all"@, "--json"@], Expect::Panes)) by {
            assert(["action", "list-panes", "--all", "--json"]@.map_values(|s: &str| s@) =~= seq!["action"@, "list-panes"@, "--all"@, "--json"@]);
        }
        r
    }

    /// `action list-tabs --all --json`, decoded.
    pub fn list_tabs(&self) -> (r: Request)
        ensures
            r@ == zellij(
                self.scope() + seq!["action"@, "list-tabs"@, "--all"@, "--json"@],
                Expect::Tabs,
            ),
    {
        let arr = ["action", "list-tabs", "--all", "--json"];
        proof {
            assert(arr@.map_values(|s: &str| s@) =~= seq!["action"@, "list-tabs"@, "--all"@, "--json"@]);
        }
        self.request(&arr, Expect::Tabs)
    }

    /// `action focus-pane-id <pane>`.
    pub fn focus_pane(&self, pane_id: &str) -> (r: Request)
        ensures
            r@ == zellij(self.scope() + seq!["action"@, "focus-pane-id"@, pane_id@], Expect::Text),
    {
        let arr = ["action", "focus-pane-id", pane_id];
        proof {
            assert(arr@.map_values(|s: &str| s@) =~= seq!["action"@, "focus-pane-id"@, pane_id@]);
        }
        self.request(&arr, Expect::Text)
    }

    /// `action close-pane --pane-id <pane>`.
    pub fn close_pane(&self, pane_id: &str) -> (r: Request)
        ensures
            r@ == zellij(
                self.scope() + seq!["action"@, "close-pane"@, "--pane-id"@, pane_id@],
                Expect::Text,
            ),
    {
        let arr = ["action", "close-pane", "--pane-id", pane_id];
        proof {
            assert(arr@.map_values(|s: &str| s@) =~= seq!["action"@, "close-pane"@, "--pane-id"@, pane_id@]);
        }
        self.request(&arr, Expect::Text)
    }

    /// `action rename-pane --pane-id <pane> <name>`.
    pub fn rename_pane(&self, pane_id: &str, name: &str) -> (r: Request)
        ensures
            r@ == zellij(
                self.scope() + seq!["action"@, "rename-pane"@, "--pane-id"@, pane_id@, name@],
                Expect::Text,
            ),
    {
        let arr = ["action", "rename-pane", "--pane-id", pane_id, name];
        proof {
            assert(arr@.map_values(|s: &str| s@) =~= seq!["action"@, "rename-pane"@, "--pane-id"@, pane_id@, name@]);
        }
        self.request(&arr, Expect::Text)
    }

    /// `action write-chars --pane-id <pane> <text>`.
    pub fn write_chars(&self, pane_id: &str, text: &str) -> (r: Request)
        ensures
            r@ == zellij(
                self.scope() + seq!["action"@, "write-chars"@, "--pane-id"@, pane_id@, text@],
                Expect::Text,
            ),
    {
        let arr = ["action", "write-chars", "--pane-id", pane_id, text];
        proof {
            assert(arr@.map_values(|s: &str| s@) =~= seq!["action"@, "write-chars"@, "--pane-id"@, pane_id@, text@]);
        }
        self.request(&arr, Expect::Text)
    }

    /// `action write --pane-id <pane> <byte in decimal>`.
    pub fn write_byte(&self, pane_id: &str, byte: u8) -> (r: Request)
        ensures
            r@ == zellij(
                self.scope() + seq![
                    "action"@,
                    "write"@,
                    "--pane-id"@,
                    pane_id@,
                    int_str(byte as int),
                ],
                Expect::Text,
            ),
    {
        let b = uint_string(byte as u64);
        let arr = ["action", "write", "--pane-id", pane_id, b.as_str()];
        proof {
            assert(arr@.map_values(|s: &str| s@) =~= seq!["action"@, "write"@, "--pane-id"@, pane_id@, b@]);
        }
        self.request(&arr, Expect::Text)
    }

    /// `action send-keys --pane-id <pane> <keys...>`.
    pub fn send_keys(&self, pane_id: &str, keys: &[&str]) -> (r: Request)
        ensures
            r@ == zellij(
                self.scope() + seq!["action"@, "send-keys"@, "--pane-id"@, pane_id@]
                    + keys@.map_values(|s: &str| s@),
                Expect::Text,
            ),
    {
        let arr = ["action", "send-keys", "--pane-id", pane_id];
        proof {
            assert(arr@.map_values(|s: &str| s@) =~= seq!["action"@, "send-keys"@, "--pane-id"@, pane_id@]);
        }
        self.with_tail(&arr, keys)
    }

    /// `action resize --pane-id <pane> <increase|decrease> <border>`.
    pub fn resize(&self, pane_id: &str, resize_and_dir: &[&str]) -> (r: Request)
        ensures
            r@ == zellij(
                self.scope() + seq!["action"@, "resize"@, "--pane-id"@, pane_id@]
                    + resize_and_dir@.map_values(|s: &str| s@),
                Expect::Text,
            ),
    {
        let arr = ["action", "resize", "--pane-id", pane_id];
        proof {
            assert(arr@.map_values(|s: &str| s@) =~= seq!["action"@, "resize"@, "--pane-id"@, pane_id@]);
        }
        self.with_tail(&arr, resize_and_dir)
    }

    fn with_tail(&self, head: &[&str], tail: &[&str]) -> (r: Request)
        ensures
            r@ == zellij(
                self.scope() + head@.map_values(|s: &str| s@) + tail@.map_values(|s: &str| s@),
                Expect::Text,
            ),
    {
        let r = self.request(head, Expect::Text);
        match r {
            Request::Zellij { args, expect } => {
                let t = strs(tail);
                let args = concat_strings(args, &t);
                Request::Zellij { args, expect }
            },
            _ => r,
        }
    }

    fn with_strings(&self, head: &[&str], tail: &[String]) -> (r: Request)
        ensures
            r@ == zellij(
                self.scope() + head@.map_values(|s: &str| s@) + views(tail@),
                Expect::Text,
            ),
    {
        let r = self.request(head, Expect::Text);
        match r {
            Request::Zellij { args, expect } => {
                let args = concat_strings(args, &crate::text::clone_strings(tail));
                Request::Zellij { args, expect }
            },
            _ => r,
        }
    }

    /// `action toggle-fullscreen` (acts on the focused pane).
    pub fn toggle_fullscreen(&self) -> (r: Request)
        ensures
            r@ == zellij(self.scope() + seq!["action"@, "toggle-fullscreen"@], Expect::Text),
    {
        let arr = ["action", "toggle-fullscreen"];
        proof {
            assert(arr@.map_values(|s: &str| s@) =~= seq!["action"@, "toggle-fullscreen"@]);
        }
        self.request(&arr, Expect::Text)
    }

    /// `action dump-screen --full --pane-id <pane>` (full scrollback on stdout).
    pub fn dump_screen_full(&self, pane_id: &str) -> (r: Request)
        ensures
            r@ == zellij(
                self.scope() + seq!["action"@, "dump-screen"@, "--full"@, "--pane-id"@, pane_id@],
                Expect::Text,
            ),
    {
        let arr = ["action", "dump-screen", "--full", "--pane-id", pane_id];
        proof {
            assert(arr@.map_values(|s: &str| s@) =~= seq!["action"@, "dump-screen"@, "--full"@, "--pane-id"@, pane_id@]);
        }
        self.request(&arr, Expect::Text)
    }

    /// `action new-pane <extra...>`.
    pub fn new_pane(&self, extra: &[String]) -> (r: Request)
        ensures
            r@ == zellij(self.scope() + seq!["action"@, "new-pane"@] + views(extra@), Expect::Text),
    {
        let arr = ["action", "new-pane"];
        proof {
            assert(arr@.map_values(|s: &str| s@) =~= seq!["action"@, "new-pane"@]);
        }
        self.with_strings(&arr, extra)
    }

    /// `action new-pane --in-place --close-replaced-pane [-- <command...>]`:
    /// replace the focused pane with a fresh one.
    pub fn new_pane_in_place(&self, command: &[String]) -> (r: Request)
        ensures
            r@ == zellij(
                self.scope() + seq![
                    "action"@,
                    "new-pane"@,
                    "--in-place"@,
                    "--close-replaced-pane"@,
                ] + views(command@),
                Expect::Text,
            ),
    {
        let arr = ["action", "new-pane", "--in-place", "--close-replaced-pane"];
        proof {
            assert(arr@.map_values(|s: &str| s@) =~= seq!["action"@, "new-pane"@, "--in-place"@, "--close-replaced-pane"@]);
        }
        self.with_strings(&arr, command)
    }

    /// `action new-tab <extra...>`.
    pub fn new_tab(&self, extra: &[String]) -> (r: Request)
        ensures
            r@ == zellij(self.scope() + seq!["action"@, "new-tab"@] + views(extra@), Expect::Text),
    {
        let arr = ["action", "new-tab"];
        proof {
            assert(arr@.map_values(|s: &str| s@) =~= seq!["action"@, "new-tab"@]);
        }
        self.with_strings(&arr, extra)
    }

    /// `action go-to-tab <position>`.
    pub fn go_to_tab(&self, position: i64) -> (r: Request)
        ensures
            r@ == zellij(
                self.scope() + seq!["action"@, "go-to-tab"@, int_str(position as int)],
                Expect::Text,
            ),
    {
        let p = int_string(position);
        let arr = ["action", "go-to-tab", p.as_str()];
        proof {
            assert(arr@.map_values(|s: &str| s@) =~= seq!["action"@, "go-to-tab"@, p@]);
        }
        self.request(&arr, Expect::Text)
    }

    /// `action go-to-tab-by-id <tab>`.
    pub fn go_to_tab_by_id(&self, tab_id: i64) -> (r: Request)
        ensures
            r@ == zellij(
                self.scope() + seq!["action"@, "go-to-tab-by-id"@, int_str(tab_id as int)],
                Expect::Text,
            ),
    {
        let p = int_string(tab_id);
        let arr = ["action", "go-to-tab-by-id", p.as_str()];
        proof {
            assert(arr@.map_values(|s: &str| s@) =~= seq!["action"@, "go-to-tab-by-id"@, p@]);
        }
        self.request(&arr, Expect::Text)
    }

    /// `action rename-tab-by-id <tab> <name>`.
    pub fn rename_tab_by_id(&self, tab_id: i64, name: &str) -> (r: Request)
        ensures
            r@ == zellij(
                self.scope() + seq!["action"@, "rename-tab-by-id"@, int_str(tab_id as int), name@],
                Expect::Text,
            ),
    {
        let p = int_string(tab_id);
        let arr = ["action", "rename-tab-by-id", p.as_str(), name];
        proof {
            assert(arr@.map_values(|s: &str| s@) =~= seq!["action"@, "rename-tab-by-id"@, p@, name@]);
        }
        self.request(&arr, Expect::Text)
    }

    /// `action close-tab-by-id <tab>`.
    pub fn close_tab_by_id(&self, tab_id: i64) -> (r: Request)
        ensures
            r@ == zellij(
                self.scope() + seq!["action"@, "close-tab-by-id"@, int_str(tab_id as int)],
                Expect::Text,
            ),
    {
        let p = int_string(tab_id);
        let arr = ["action", "close-tab-by-id", p.as_str()];
        proof {
            assert(arr@.map_values(|s: &str| s@) =~= seq!["action"@, "close-tab-by-id"@, p@]);
        }
        self.request(&arr, Expect::Text)
    }
}

/// What a `new-pane` reply yields: the `terminal_N` integer printed on stdout.
pub open spec fn new_pane_outcome(r: Reply) -> Result<i64, ErrView> {
    match r {
        Reply::Output(o) => match parse_pane_int(trim(o.stdout@)) {
            Some(n) => Ok(n),
            None => Err(
                ErrView::BadArgs("unexpected new-pane output: "@ + debug_str(trim(o.stdout@))),
            ),
        },
        Reply::Failed(e) => Err(e@),
        _ => Err(ErrView::BadArgs("unexpected reply from zellij"@)),
    }
}

/// What a `new-tab` reply yields: the bare tab id printed on stdout.
pub open spec fn new_tab_outcome(r: Reply) -> Result<i64, ErrView> {
    match r {
        Reply::Output(o) => match parse_i64(trim(o.stdout@)) {
            Some(n) => Ok(n),
            None => Err(
                ErrView::BadArgs("unexpected new-tab output: "@ + debug_str(trim(o.stdout@))),
            ),
        },
        Reply::Failed(e) => Err(e@),
        _ => Err(ErrView::BadArgs("unexpected reply from zellij"@)),
    }
}

/// The pane id a `new-pane` reply reports.
pub fn new_pane_result(r: &Reply) -> (o: Result<i64, ShimError>)
    ensures
        res_view(o) == new_pane_outcome(*r),
{
    let out = match output_of(r) {
        Ok(x) => x,
        Err(e) => return Err(e),
    };
    let t = trim_str(out.stdout.as_str());
    match pane_int_from_env(t.as_str()) {
        Some(n) => {
            proof {
                crate::text::lemma_trim_idempotent(out.stdout@);
            }
            Ok(n)
        },
        None => {
            proof {
                crate::text::lemma_trim_idempotent(out.stdout@);
            }
            let d = debug_quoted(t.as_str());
            Err(ShimError::BadArgs(cat("unexpected new-pane output: ", d.as_str())))
        },
    }
}

/// The tab id a `new-tab` reply reports.
pub fn new_tab_result(r: &Reply) -> (o: Result<i64, ShimError>)
    ensures
        res_view(o) == new_tab_outcome(*r),
{
    let out = match output_of(r) {
        Ok(x) => x,
        Err(e) => return Err(e),
    };
    let t = trim_str(out.stdout.as_str());
    match parse_i64_str(t.as_str()) {
        Some(n) => Ok(n),
        None => {
            let d = debug_quoted(t.as_str());
            Err(ShimError::BadArgs(cat("unexpected new-tab output: ", d.as_str())))
        },
    }
}

/// The screen text a `dump-screen` reply carries.
pub fn dump_result(r: &Reply) -> (o: Result<String, ShimError>)
    ensures
        match o {
            Ok(s) => output_reply(*r) is Ok && s@ == output_reply(*r)->Ok_0.stdout@,
            Err(e) => output_reply(*r) == Err::<RunOutput, ErrView>(e@),
        },
{
    match output_of(r) {
        Ok(x) => Ok(x.stdout.clone()),
        Err(e) => Err(e),
    }
}

/// A scripted stand-in for zellij: answers each call with the response of the
/// first route whose key occurs in the space-joined arguments (empty when none
/// matches), and records every call.
pub struct FakeRunner {
    pub routes: Vec<(String, String)>,
    pub success: bool,
    pub calls: Vec<Vec<String>>,
}

/// The views of a list of routes.
pub open spec fn route_views(r: Seq<(String, String)>) -> Seq<(Seq<char>, Seq<char>)> {
    r.map_values(|kv: (String, String)| (kv.0@, kv.1@))
}

/// A route whose key occurs in `joined`.
pub open spec fn route_matches(joined: Seq<char>) -> spec_fn((Seq<char>, Seq<char>)) -> bool {
    |kv: (Seq<char>, Seq<char>)| contains(joined, kv.0)
}

/// The scripted response to a call with arguments `args`.
pub open spec fn fake_response(routes: Seq<(Seq<char>, Seq<char>)>, args: Seq<Seq<char>>) -> Seq<
    char,
> {
    match first_index(routes, route_matches(join(args, " "@))) {
        Some(i) => routes[i].1,
        None => Seq::<char>::empty(),
    }
}

/// A recorded call without its leading `--session <name>` scope.
pub open spec fn unscoped_call(c: Seq<Seq<char>>) -> Seq<Seq<char>> {
    if c.len() >= 2 && c[0] == "--session"@ {
        c.skip(2)
    } else {
        c
    }
}

/// The views of the recorded calls.
pub open spec fn call_views(c: Seq<Vec<String>>) -> Seq<Seq<Seq<char>>> {
    c.map_values(|v: Vec<String>| views(v@))
}

/// `parts` joined with single spaces.
pub(crate) fn join_spaced(parts: &[String]) -> (r: Vec<char>)
    ensures
        r@ == join(views(parts@), " "@),
{
    let sp = chars_of(" ");
    let mut r: Vec<char> = Vec::new();
    let mut i: usize = 0;
    while i < parts.len()
        invariant
            i <= parts.len(),
            sp@ == " "@,
            r@ == join(views(parts@).take(i as int), " "@),
        decreases parts.len() - i,
    {
        let p = chars_of(parts[i].as_str());
        let ghost t = views(parts@).take(i + 1);
        assert(t.drop_last() =~= views(parts@).take(i as int));
        assert(t.last() == p@);
        if i > 0 {
            crate::text::extend(&mut r, &sp);
        } else {
            assert(t.len() == 1);
        }
        crate::text::extend(&mut r, &p);
        i = i + 1;
    }
    assert(views(parts@).take(parts.len() as int) =~= views(parts@));
    r
}

impl FakeRunner {
    /// Answers every call with `stdout`, successfully.
    pub fn ok(stdout: &str) -> (f: FakeRunner)
        ensures
            route_views(f.routes@) == seq![(Seq::<char>::empty(), stdout@)],
            f.success,
            f.calls@.len() == 0,
    {
        let mut routes: Vec<(String, String)> = Vec::new();
        routes.push((String::new(), String::from_str(stdout)));
        assert(route_views(routes@) =~= seq![(Seq::<char>::empty(), stdout@)]);
        FakeRunner { routes, success: true, calls: Vec::new() }
    }

    /// Answers each call with the response of its first matching route,
    /// successfully.
    pub fn routed(routes: &[(&str, &str)]) -> (f: FakeRunner)
        ensures
            route_views(f.routes@) == routes@.map_values(|kv: (&str, &str)| (kv.0@, kv.1@)),
            f.success,
            f.calls@.len() == 0,
    {
        let mut r: Vec<(String, String)> = Vec::new();
        let mut i: usize = 0;
        while i < routes.len()
            invariant
                i <= routes.len(),
                route_views(r@) == routes@.take(i as int).map_values(
                    |kv: (&str, &str)| (kv.0@, kv.1@),
                ),
            decreases routes.len() - i,
        {
            let (k, v) = routes[i];
            let ghost prev = r@;
            r.push((String::from_str(k), String::from_str(v)));
            assert(route_views(r@) =~= route_views(prev).push((k@, v@)));
            assert(routes@.take(i + 1) =~= routes@.take(i as int).push(routes@[i as int]));
            i = i + 1;
        }
        assert(routes@.take(routes.len() as int) =~= routes@);
        FakeRunner { routes: r, success: true, calls: Vec::new() }
    }

    /// Answers every call with empty output and failure.
    pub fn fail() -> (f: FakeRunner)
        ensures
            route_views(f.routes@) == seq![(Seq::<char>::empty(), Seq::<char>::empty())],
            !f.success,
            f.calls@.len() == 0,
    {
        let mut routes: Vec<(String, String)> = Vec::new();
        routes.push((String::new(), String::new()));
        assert(route_views(routes@) =~= seq![(Seq::<char>::empty(), Seq::<char>::empty())]);
        FakeRunner { routes, success: false, calls: Vec::new() }
    }

    /// The scripted response to `args`.
    fn resolve(&self, args: &[String]) -> (r: String)
        ensures
            r@ == fake_response(route_views(self.routes@), views(args@)),
    {
        let joined = join_spaced(args);
        let ghost rv = route_views(self.routes@);
        let mut i: usize = 0;
        while i < self.routes.len()
            invariant
                i <= self.routes.len(),
                rv == route_views(self.routes@),
                joined@ == join(views(args@), " "@),
                forall|j: int| 0 <= j < i ==> !route_matches(joined@)(#[trigger] rv[j]),
            decreases self.routes.len() - i,
        {
            let key = chars_of(self.routes[i].0.as_str());
            if contains_exec(&joined, &key) {
                proof {
                    lemma_first_index_is(rv, route_matches(joined@), i as int);
                }
                return self.routes[i].1.clone();
            }
            i = i + 1;
        }
        proof {
            lemma_first_index_none(rv, route_matches(joined@));
        }
        String::new()
    }

    /// Record a call and answer it.
    pub fn call(&mut self, args: &[String]) -> (out: RunOutput)
        ensures
            call_views(final(self).calls@) == call_views(old(self).calls@).push(views(args@)),
            final(self).routes == old(self).routes,
            final(self).success == old(self).success,
            out.stdout@ == fake_response(route_views(old(self).routes@), views(args@)),
            out.stderr@ == "boom"@,
            out.success == old(self).success,
    {
        let c = crate::text::clone_strings(args);
        let ghost prev = self.calls@;
        self.calls.push(c);
        assert(call_views(self.calls@) =~= call_views(prev).push(views(args@)));
        RunOutput { stdout: self.resolve(args), stderr: String::from_str("boom"), success: self.success }
    }

    /// The most recent call (empty when there was none).
    pub fn last_call(&self) -> (r: Vec<String>)
        ensures
            views(r@) == (if self.calls@.len() == 0 {
                Seq::<Seq<char>>::empty()
            } else {
                views(self.calls@.last()@)
            }),
    {
        if self.calls.len() == 0 {
            let r: Vec<String> = Vec::new();
            assert(views(r@) =~= Seq::<Seq<char>>::empty());
            r
        } else {
            crate::text::clone_strings(self.calls[self.calls.len() - 1].as_slice())
        }
    }

    /// Every call, in order.
    pub fn all_calls(&self) -> (r: Vec<Vec<String>>)
        ensures
            call_views(r@) == call_views(self.calls@),
    {
        let mut r: Vec<Vec<String>> = Vec::new();
        let mut i: usize = 0;
        while i < self.calls.len()
            invariant
                i <= self.calls.len(),
                call_views(r@) == call_views(self.calls@).take(i as int),
            decreases self.calls.len() - i,
        {
            let ghost prev = r@;
            r.push(crate::text::clone_strings(self.calls[i].as_slice()));
            assert(call_views(r@) =~= call_views(prev).push(views(self.calls@[i as int]@)));
            i = i + 1;
            assert(call_views(self.calls@).take(i as int) =~= call_views(self.calls@).take(
                i - 1,
            ).push(views(self.calls@[i - 1]@)));
        }
        assert(call_views(self.calls@).take(self.calls.len() as int) =~= call_views(self.calls@));
        r
    }

    /// Every call without its `--session <name>` scope, in order.
    pub fn all_actions(&self) -> (r: Vec<Vec<String>>)
        ensures
            call_views(r@) == call_views(self.calls@).map_values(
                |c: Seq<Seq<char>>| unscoped_call(c),
            ),
    {
        let mut r: Vec<Vec<String>> = Vec::new();
        let mut i: usize = 0;
        let ghost target = call_views(self.calls@).map_values(|c: Seq<Seq<char>>| unscoped_call(c));
        while i < self.calls.len()
            invariant
                i <= self.calls.len(),
                target == call_views(self.calls@).map_values(|c: Seq<Seq<char>>| unscoped_call(c)),
                call_views(r@) == target.take(i as int),
            decreases self.calls.len() - i,
        {
            let a = strip_scope(&self.calls[i]);
            let ghost prev = r@;
            r.push(a);
            assert(call_views(r@) =~= call_views(prev).push(target[i as int]));
            i = i + 1;
            assert(target.take(i as int) =~= target.take(i - 1).push(target[i - 1]));
        }
        assert(target.take(self.calls.len() as int) =~= target);
        r
    }

    /// The most recent call without its `--session <name>` scope.
    pub fn last_action(&self) -> (r: Vec<String>)
        ensures
            views(r@) == (if self.calls@.len() == 0 {
                Seq::<Seq<char>>::empty()
            } else {
                unscoped_call(views(self.calls@.last()@))
            }),
    {
        if self.calls.len() == 0 {
            let r: Vec<String> = Vec::new();
            assert(views(r@) =~= Seq::<Seq<char>>::empty());
            r
        } else {
            strip_scope(&self.calls[self.calls.len() - 1])
        }
    }
}

fn strip_scope(c: &Vec<String>) -> (r: Vec<String>)
    ensures
        views(r@) == unscoped_call(views(c@)),
{
    let scoped = c.len() >= 2 && {
        let v = chars_of(c[0].as_str());
        crate::text::is(&v, "--session")
    };
    if scoped {
        let mut r: Vec<String> = Vec::new();
        let mut j: usize = 2;
        while j < c.len()
            invariant
                2 <= j <= c.len(),
                views(r@) == views(c@).subrange(2, j as int),
            decreases c.len() - j,
        {
            let ghost prev = r@;
            r.push(c[j].clone());
            assert(views(r@) =~= views(prev).push(c@[j as int]@));
            j = j + 1;
            assert(views(c@).subrange(2, j as int) =~= views(c@).subrange(2, j - 1).push(
                c@[j - 1]@,
            ));
        }
        assert(views(c@).skip(2) =~= views(c@).subrange(2, c.len() as int));
        r
    } else {
        crate::text::clone_strings(c.as_slice())
    }
}

impl ZellijRunner for FakeRunner {
    fn run(&mut self, args: &[String]) -> (r: Result<RunOutput, ShimError>)
        ensures
            call_views(final(self).calls@) == call_views(old(self).calls@).push(views(args@)),
            r matches Ok(out) && out.stdout@ == fake_response(
                route_views(old(self).routes@),
                views(args@),
            ) && out.success == old(self).success,
    {
        Ok(self.call(args))
    }
}

} // verus!
