//! The shim's error conditions and their tmux-faithful messages and exit codes.
//!
//! Some messages match real tmux wording so that tools which parse stderr
//! behave identically. tmux exits `1` for essentially every failure.
use vstd::prelude::*;
use vstd::string::*;

verus! {

/// Every error condition the shim can surface.
///
/// Conditions that originate in the operating system or in a JSON decoder
/// carry that component's message as text.
#[derive(Debug)]
pub enum ShimError {
    /// The `zellij` subprocess could not be spawned at all.
    ZellijSpawn(String),
    /// A `zellij` subprocess exceeded its timeout budget.
    ZellijTimeout,
    /// A `zellij` subprocess exited non-zero.
    ZellijExit { code: i32, stderr: String },
    /// `zellij` JSON output could not be parsed.
    Json(String),
    /// The tmux argument vector was malformed.
    BadArgs(String),
    /// A referenced session does not exist (tmux-faithful wording).
    NoSuchSession(String),
    /// A referenced pane does not exist.
    NoSuchPane(String),
    /// Invoked outside a zellij session with no real tmux to fall back to.
    NotInZellij,
    /// Passthrough was required but the real `tmux` binary was not found.
    RealTmuxMissing,
}

/// The mathematical view of an error: its condition and text payloads.
pub enum ErrView {
    ZellijSpawn(Seq<char>),
    ZellijTimeout,
    ZellijExit { code: i32, stderr: Seq<char> },
    Json(Seq<char>),
    BadArgs(Seq<char>),
    NoSuchSession(Seq<char>),
    NoSuchPane(Seq<char>),
    NotInZellij,
    RealTmuxMissing,
}

impl View for ShimError {
    type V = ErrView;

    open spec fn view(&self) -> ErrView {
        match *self {
            ShimError::ZellijSpawn(m) => ErrView::ZellijSpawn(m@),
            ShimError::ZellijTimeout => ErrView::ZellijTimeout,
            ShimError::ZellijExit { code, stderr } => ErrView::ZellijExit { code, stderr: stderr@ },
            ShimError::Json(m) => ErrView::Json(m@),
            ShimError::BadArgs(m) => ErrView::BadArgs(m@),
            ShimError::NoSuchSession(m) => ErrView::NoSuchSession(m@),
            ShimError::NoSuchPane(m) => ErrView::NoSuchPane(m@),
            ShimError::NotInZellij => ErrView::NotInZellij,
            ShimError::RealTmuxMissing => ErrView::RealTmuxMissing,
        }
    }
}

/// The view of a result whose error is a [`ShimError`].
pub open spec fn res_view<T>(r: Result<T, ShimError>) -> Result<T, ErrView> {
    match r {
        Ok(x) => Ok(x),
        Err(e) => Err(e@),
    }
}

/// The text of an error, as the shim prints it on stderr.
pub open spec fn error_message(e: ShimError) -> Seq<char> {
    match e {
        ShimError::ZellijSpawn(m) => "zellij-tmux-shim: failed to spawn zellij: "@ + m@,
        ShimError::ZellijTimeout => "zellij-tmux-shim: zellij call timed out"@,
        ShimError::ZellijExit { code, stderr } => "zellij-tmux-shim: zellij exited "@
            + crate::text::int_str(code as int) + ": "@ + stderr@,
        ShimError::Json(m) => "zellij-tmux-shim: failed to parse zellij output: "@ + m@,
        ShimError::BadArgs(m) => "zellij-tmux-shim: "@ + m@,
        ShimError::NoSuchSession(s) => "can't find session: "@ + s@,
        ShimError::NoSuchPane(p) => "can't find pane: "@ + p@,
        ShimError::NotInZellij => "zellij-tmux-shim: not inside a zellij session"@,
        ShimError::RealTmuxMissing => "zellij-tmux-shim: real tmux not found on PATH"@,
    }
}

/// `a` followed by `b`.
pub fn cat(a: &str, b: &str) -> (r: String)
    ensures
        r@ == a@ + b@,
{
    let mut s = String::from_str(a);
    s.append(b);
    s
}

impl ShimError {
    /// A copy of this error.
    pub fn clone_error(&self) -> (r: ShimError)
        ensures
            r == *self,
    {
        match self {
            ShimError::ZellijSpawn(m) => ShimError::ZellijSpawn(m.clone()),
            ShimError::ZellijTimeout => ShimError::ZellijTimeout,
            ShimError::ZellijExit { code, stderr } => ShimError::ZellijExit {
                code: *code,
                stderr: stderr.clone(),
            },
            ShimError::Json(m) => ShimError::Json(m.clone()),
            ShimError::BadArgs(m) => ShimError::BadArgs(m.clone()),
            ShimError::NoSuchSession(m) => ShimError::NoSuchSession(m.clone()),
            ShimError::NoSuchPane(m) => ShimError::NoSuchPane(m.clone()),
            ShimError::NotInZellij => ShimError::NotInZellij,
            ShimError::RealTmuxMissing => ShimError::RealTmuxMissing,
        }
    }

    /// The process exit code tmux would use for this condition: always `1`.
    pub fn exit_code(&self) -> (code: u8)
        ensures
            code == 1,
    {
        1
    }

    /// The message printed on stderr for this condition.
    pub fn message(&self) -> (m: String)
        ensures
            m@ == error_message(*self),
    {
        match self {
            ShimError::ZellijSpawn(m) => cat("zellij-tmux-shim: failed to spawn zellij: ", m.as_str()),
            ShimError::ZellijTimeout => String::from_str("zellij-tmux-shim: zellij call timed out"),
            ShimError::ZellijExit { code, stderr } => {
                let mut s = String::from_str("zellij-tmux-shim: zellij exited ");
                let c = crate::text::int_string(*code as i64);
                s.append(c.as_str());
                s.append(": ");
                s.append(stderr.as_str());
                s
            },
            ShimError::Json(m) => cat(
                "zellij-tmux-shim: failed to parse zellij output: ",
                m.as_str(),
            ),
            ShimError::BadArgs(m) => cat("zellij-tmux-shim: ", m.as_str()),
            ShimError::NoSuchSession(s) => cat("can't find session: ", s.as_str()),
            ShimError::NoSuchPane(p) => cat("can't find pane: ", p.as_str()),
            ShimError::NotInZellij => String::from_str("zellij-tmux-shim: not inside a zellij session"),
            ShimError::RealTmuxMissing => String::from_str(
                "zellij-tmux-shim: real tmux not found on PATH",
            ),
        }
    }
}

} // verus!
