//! Per-lineage rename-recovery cache.
//!
//! Soundness rests on the invariant: *if the shim process is running, its
//! zellij session is alive*. So a stale `$ZELLIJ_SESSION_NAME` (not in the
//! live set) means a rename, and our session is present under a new name.
//! This cache persists, per env-name, the last live-set snapshot and the last
//! resolved target so a rename can be diffed exactly once and then served
//! from a stable ledger hit.
//!
//! All cache I/O is best-effort: a failed read is a miss, a failed write is
//! ignored.
use crate::exchange::{Progress, Reply, Request, RequestView, Stage, Step, StepView};
use crate::search::{keep, lemma_keep_members, lemma_keep_take, lemma_take_full};
use crate::error::ShimError;
use crate::text::{chars_of, clone_strings, is_alnum, is_alnum_char, string_of, views};
use vstd::prelude::*;
use vstd::string::*;

verus! {

/// A cache entry: the last live-set snapshot and resolved target for one
/// stale env name.
#[derive(Debug)]
pub struct Entry {
    /// The stale `$ZELLIJ_SESSION_NAME` this entry is keyed by.
    pub env_name: String,
    /// Live sessions observed at the last successful resolve.
    pub snapshot: Vec<String>,
    /// Unix seconds of that observation.
    pub ts: u64,
    /// Last name we believed we were: the env name on the fast path, or the
    /// new name after a one-time diff discovery recovery.
    pub resolved: Option<String>,
}

/// The mathematical view of a cache entry.
pub struct EntryView {
    pub env_name: Seq<char>,
    pub snapshot: Seq<Seq<char>>,
    pub ts: u64,
    pub resolved: Option<Seq<char>>,
}

impl View for Entry {
    type V = EntryView;

    open spec fn view(&self) -> EntryView {
        EntryView {
            env_name: self.env_name@,
            snapshot: views(self.snapshot@),
            ts: self.ts,
            resolved: crate::text::opt_view(self.resolved),
        }
    }
}

/// The diff-discovery window in seconds. The diff itself is sound regardless
/// of age (the prior resolved name must have been in the prior snapshot, and
/// exactly one new session must have appeared); the window only bounds
/// coincidental matches when many sessions churn, so one hour is generous.
pub const TTL_SECS: u64 = 3600;

/// `true` iff `ts` is within [`TTL_SECS`] of `now` (a `ts` in the future counts
/// as fresh).
pub open spec fn is_fresh(ts: u64, now: u64) -> bool {
    (if now >= ts {
        now - ts
    } else {
        0
    }) <= TTL_SECS
}

/// Whether an entry observed at `ts` is still fresh at `now`.
pub fn fresh(ts: u64, now: u64) -> (b: bool)
    ensures
        b == is_fresh(ts, now),
{
    now.saturating_sub(ts) <= TTL_SECS
}

/// A file-name-safe character: `[A-Za-z0-9_-]` is kept, anything else is `_`.
pub open spec fn safe_char(c: char) -> char {
    if is_alnum(c) || c == '_' || c == '-' {
        c
    } else {
        '_'
    }
}

/// An env name with every unsafe character replaced by `_`.
pub open spec fn sanitized(env_name: Seq<char>) -> Seq<char> {
    env_name.map_values(|c: char| safe_char(c))
}

/// `Path::join` of a relative file name: a `/` is inserted unless `dir` is
/// empty or already ends in one.
pub open spec fn path_join(dir: Seq<char>, name: Seq<char>) -> Seq<char> {
    if dir.len() == 0 {
        name
    } else if dir.last() == '/' {
        dir + name
    } else {
        dir + seq!['/'] + name
    }
}

/// The cache file of `env_name` inside `dir`: `<sanitized>.json`.
pub open spec fn cache_file(dir: Seq<char>, env_name: Seq<char>) -> Seq<char> {
    path_join(dir, sanitized(env_name) + ".json"@)
}

/// The temporary file a write goes through before it is renamed over the
/// cache file (the cache file with its extension replaced by `json.tmp`; a
/// name that sanitizes to nothing leaves `.json` with no extension to replace).
pub open spec fn cache_tmp(dir: Seq<char>, env_name: Seq<char>) -> Seq<char> {
    if sanitized(env_name).len() == 0 {
        path_join(dir, ".json.json.tmp"@)
    } else {
        cache_file(dir, env_name) + ".tmp"@
    }
}

pub(crate) fn join_path(dir: &str, name: Vec<char>) -> (r: Vec<char>)
    ensures
        r@ == path_join(dir@, name@),
{
    let mut v = chars_of(dir);
    if v.len() > 0 && v[v.len() - 1] != '/' {
        v.push('/');
    }
    let ghost head = v@;
    let mut i: usize = 0;
    while i < name.len()
        invariant
            i <= name.len(),
            v@ == head + name@.take(i as int),
        decreases name.len() - i,
    {
        v.push(name[i]);
        i = i + 1;
        assert(v@ =~= head + name@.take(i as int));
    }
    proof {
        assert(name@.take(name.len() as int) =~= name@);
        if dir@.len() == 0 {
            assert(head =~= Seq::<char>::empty());
            assert(v@ =~= name@);
        } else if dir@.last() == '/' {
            assert(head == dir@);
        } else {
            assert(head =~= dir@ + seq!['/']);
            assert(v@ =~= dir@ + seq!['/'] + name@);
        }
    }
    v
}

fn sanitize(env_name: &str) -> (r: Vec<char>)
    ensures
        r@ == sanitized(env_name@),
{
    let v = chars_of(env_name);
    let mut r: Vec<char> = Vec::new();
    let mut i: usize = 0;
    while i < v.len()
        invariant
            i <= v.len(),
            v@ == env_name@,
            r@ == sanitized(env_name@).take(i as int),
        decreases v.len() - i,
    {
        let c = v[i];
        if is_alnum_char(c) || c == '_' || c == '-' {
            r.push(c);
        } else {
            r.push('_');
        }
        i = i + 1;
        assert(r@ =~= sanitized(env_name@).take(i as int));
    }
    assert(sanitized(env_name@).take(v.len() as int) =~= sanitized(env_name@));
    r
}

fn append_str(v: &mut Vec<char>, s: &str)
    ensures
        final(v)@ == old(v)@ + s@,
{
    let w = chars_of(s);
    let ghost head = v@;
    let mut i: usize = 0;
    while i < w.len()
        invariant
            i <= w.len(),
            w@ == s@,
            v@ == head + w@.take(i as int),
        decreases w.len() - i,
    {
        v.push(w[i]);
        i = i + 1;
        assert(v@ =~= head + w@.take(i as int));
    }
    assert(w@.take(w.len() as int) =~= w@);
}

/// The cache file of `env_name` inside `dir`.
pub fn file_for(dir: &str, env_name: &str) -> (r: String)
    ensures
        r@ == cache_file(dir@, env_name@),
{
    let mut name = sanitize(env_name);
    append_str(&mut name, ".json");
    let v = join_path(dir, name);
    string_of(&v)
}

/// The temporary file of a write of `env_name`'s entry inside `dir`.
pub fn tmp_for(dir: &str, env_name: &str) -> (r: String)
    ensures
        r@ == cache_tmp(dir@, env_name@),
{
    let name = sanitize(env_name);
    if name.len() == 0 {
        let mut n: Vec<char> = Vec::new();
        append_str(&mut n, ".json.json.tmp");
        assert(n@ =~= ".json.json.tmp"@);
        let v = join_path(dir, n);
        string_of(&v)
    } else {
        let mut n = name;
        append_str(&mut n, ".json");
        let mut v = join_path(dir, n);
        append_str(&mut v, ".tmp");
        string_of(&v)
    }
}

/// The entry a resolution of stale `env_name` to `resolved` against the live
/// set `live` at `now` records.
pub open spec fn recorded(env_name: Seq<char>, live: Seq<Seq<char>>, now: u64, resolved: Seq<char>) -> EntryView {
    EntryView { env_name, snapshot: live, ts: now, resolved: Some(resolved) }
}

/// The write of `entry`'s file inside `dir`.
pub open spec fn write_req(dir: Seq<char>, entry: EntryView) -> RequestView {
    RequestView::WriteCache {
        dir,
        tmp: cache_tmp(dir, entry.env_name),
        path: cache_file(dir, entry.env_name),
        entry,
    }
}

/// The read of `env_name`'s file inside `dir`.
pub open spec fn read_req(dir: Seq<char>, env_name: Seq<char>) -> RequestView {
    RequestView::ReadCache { path: cache_file(dir, env_name) }
}

/// The entry a read reply carries for `env_name`: none on a miss, and none
/// when the stored entry belongs to another env name that sanitizes to the
/// same file (two env names can never cross-contaminate).
pub open spec fn cached_entry(r: Reply, env_name: Seq<char>) -> Option<EntryView> {
    match r {
        Reply::Cached(Some(e)) => if e.env_name@ == env_name {
            Some(e@)
        } else {
            None
        },
        _ => None,
    }
}

/// The time a clock reply carries (0 for anything else).
pub open spec fn now_of(r: Reply) -> u64 {
    match r {
        Reply::Now(t) => t,
        _ => 0,
    }
}

/// The request that writes `entry` inside `dir`.
pub fn write_request(dir: &str, entry: Entry) -> (r: Request)
    ensures
        r@ == write_req(dir@, entry@),
{
    let path = file_for(dir, entry.env_name.as_str());
    let tmp = tmp_for(dir, entry.env_name.as_str());
    Request::WriteCache { dir: String::from_str(dir), tmp, path, entry }
}

/// The request that reads `env_name`'s entry inside `dir`.
pub fn read_request(dir: &str, env_name: &str) -> (r: Request)
    ensures
        r@ == read_req(dir@, env_name@),
{
    Request::ReadCache { path: file_for(dir, env_name) }
}

/// The entry a read reply carries for `env_name`, with the collision guard.
pub fn entry_of<'a>(r: &'a Reply, env_name: &str) -> (e: Option<&'a Entry>)
    ensures
        match e {
            Some(x) => cached_entry(*r, env_name@) == Some(x@),
            None => cached_entry(*r, env_name@) is None,
        },
{
    match r {
        Reply::Cached(Some(e)) => {
            let a = chars_of(e.env_name.as_str());
            let b = chars_of(env_name);
            if crate::text::eq_chars(&a, &b) {
                Some(e)
            } else {
                None
            }
        },
        _ => None,
    }
}

/// The time a clock reply carries.
pub fn now_in(r: &Reply) -> (t: u64)
    ensures
        t == now_of(*r),
{
    match r {
        Reply::Now(t) => *t,
        _ => 0,
    }
}

/// The entry recording that `env_name` resolved to `resolved` among `live`.
pub fn entry(env_name: &str, live: &[String], now: u64, resolved: &str) -> (e: Entry)
    ensures
        e@ == recorded(env_name@, views(live@), now, resolved@),
{
    Entry {
        env_name: String::from_str(env_name),
        snapshot: clone_strings(live),
        ts: now,
        resolved: Some(String::from_str(resolved)),
    }
}

// ---------------------------------------------------------------------------
// record and recover
// ---------------------------------------------------------------------------

/// Recording a resolution, reading replies from `pos`: read the clock, then
/// write the entry; the write's outcome is ignored (the cache is best-effort).
pub open spec fn record_stage(
    replies: Seq<Reply>,
    pos: int,
    dir: Seq<char>,
    env_name: Seq<char>,
    live: Seq<Seq<char>>,
    resolved: Seq<char>,
) -> Stage<()> {
    if replies.len() <= pos {
        Stage::Ask(RequestView::Clock)
    } else if replies.len() <= pos + 1 {
        Stage::Ask(write_req(dir, recorded(env_name, live, now_of(replies[pos]), resolved)))
    } else {
        Stage::Over((), pos + 2)
    }
}

/// The sessions of `live` that are not in `snapshot`.
pub open spec fn not_in(snapshot: Seq<Seq<char>>) -> spec_fn(Seq<char>) -> bool {
    |s: Seq<char>| !snapshot.contains(s)
}

/// Recovery once the entry has been read, reading replies from `pos`.
///
/// A stable ledger hit — the last resolved name is still live — is reused.
/// Otherwise a one-time diff discovery, gated so it can never pick an
/// unrelated session: the entry must be fresh (a clock read), the last
/// resolved name must have been in its snapshot, and exactly one session must
/// have appeared since (`live` minus the snapshot, so our renamed session is
/// necessarily among them). A discovery is recorded so repeat calls hit the
/// ledger.
pub open spec fn recover_after_read(
    replies: Seq<Reply>,
    pos: int,
    dir: Seq<char>,
    env_name: Seq<char>,
    live: Seq<Seq<char>>,
    entry: Option<EntryView>,
) -> Stage<Option<Seq<char>>> {
    match entry {
        None => Stage::Over(None, pos),
        Some(e) => match e.resolved {
            None => Stage::Over(None, pos),
            Some(known) => if live.contains(known) {
                Stage::Over(Some(known), pos)
            } else if replies.len() <= pos {
                Stage::Ask(RequestView::Clock)
            } else if !is_fresh(e.ts, now_of(replies[pos])) || !e.snapshot.contains(known) {
                Stage::Over(None, pos + 1)
            } else {
                let appeared = keep(live, not_in(e.snapshot));
                if appeared.len() == 1 {
                    match record_stage(replies, pos + 1, dir, env_name, live, appeared[0]) {
                        Stage::Ask(q) => Stage::Ask(q),
                        Stage::Over(_, k) => Stage::Over(Some(appeared[0]), k),
                    }
                } else {
                    Stage::Over(None, pos + 1)
                }
            },
        },
    }
}

/// Recovery of the live name for stale `env_name`, reading replies from `pos`:
/// read its entry, then decide.
pub open spec fn recover_stage(
    replies: Seq<Reply>,
    pos: int,
    dir: Seq<char>,
    env_name: Seq<char>,
    live: Seq<Seq<char>>,
) -> Stage<Option<Seq<char>>> {
    if replies.len() <= pos {
        Stage::Ask(read_req(dir, env_name))
    } else {
        recover_after_read(replies, pos + 1, dir, env_name, live, cached_entry(replies[pos], env_name))
    }
}

/// Record a resolution, reading replies from `start`.
pub fn record_at(
    dir: &str,
    env_name: &str,
    live: &[String],
    resolved: &str,
    replies: &[Reply],
    start: usize,
) -> (p: Progress<()>)
    ensures
        match p {
            Progress::Ask(q) => record_stage(replies@, start as int, dir@, env_name@, views(live@), resolved@)
                == Stage::<()>::Ask(q@),
            Progress::Over(_, k) => record_stage(replies@, start as int, dir@, env_name@, views(live@), resolved@)
                == Stage::<()>::Over((), k as int) && k <= replies.len(),
        },
{
    if replies.len() <= start {
        return Progress::Ask(Request::Clock);
    }
    if replies.len() - start <= 1 {
        let now = now_in(&replies[start]);
        return Progress::Ask(write_request(dir, entry(env_name, live, now, resolved)));
    }
    Progress::Over((), start + 2)
}

/// Record that stale `env_name` resolved to `resolved` among `live`, so
/// future runs can diff against it or hit the ledger.
pub fn record_in(dir: &str, env_name: &str, live: &[String], resolved: &str, replies: &[Reply]) -> (s: Step<
    (),
>)
    ensures
        match record_stage(replies@, 0, dir@, env_name@, views(live@), resolved@) {
            Stage::Ask(q) => s@ == StepView::<()>::Call(q),
            Stage::Over(_, _) => s@ == StepView::<()>::Done(Ok(())),
        },
{
    match record_at(dir, env_name, live, resolved, replies, 0) {
        Progress::Ask(q) => Step::Call(q),
        Progress::Over(_, _) => Step::Done(Ok(())),
    }
}

fn appeared_since(live: &[String], snapshot: &[String]) -> (r: Vec<String>)
    ensures
        views(r@) == keep(views(live@), not_in(views(snapshot@))),
{
    let ghost p = not_in(views(snapshot@));
    let mut r: Vec<String> = Vec::new();
    let mut i: usize = 0;
    while i < live.len()
        invariant
            i <= live.len(),
            p == not_in(views(snapshot@)),
            views(r@) == keep(views(live@).take(i as int), p),
        decreases live.len() - i,
    {
        proof {
            lemma_keep_take(views(live@), p, i as int);
        }
        let ghost prev = r@;
        if !crate::session::is_live(snapshot, live[i].as_str()) {
            r.push(live[i].clone());
            assert(views(r@) =~= views(prev).push(live@[i as int]@));
        }
        i = i + 1;
    }
    proof {
        lemma_take_full(views(live@));
    }
    r
}

/// Recover the live name for stale `env_name`, reading replies from `start`.
pub fn recover_at(dir: &str, env_name: &str, live: &[String], replies: &[Reply], start: usize) -> (p:
    Progress<Option<String>>)
    ensures
        match p {
            Progress::Ask(q) => recover_stage(replies@, start as int, dir@, env_name@, views(live@))
                == Stage::<Option<Seq<char>>>::Ask(q@),
            Progress::Over(v, k) => recover_stage(replies@, start as int, dir@, env_name@, views(live@))
                == Stage::<Option<Seq<char>>>::Over(crate::text::opt_view(v), k as int) && k <= replies.len(),
        },
{
    if replies.len() <= start {
        return Progress::Ask(read_request(dir, env_name));
    }
    let pos = start + 1;
    let e = match entry_of(&replies[start], env_name) {
        Some(e) => e,
        None => return Progress::Over(None, pos),
    };
    let known = match &e.resolved {
        Some(k) => k,
        None => return Progress::Over(None, pos),
    };
    if crate::session::is_live(live, known.as_str()) {
        return Progress::Over(Some(known.clone()), pos);
    }
    if replies.len() <= pos {
        return Progress::Ask(Request::Clock);
    }
    let now = now_in(&replies[pos]);
    if !fresh(e.ts, now) || !crate::session::is_live(e.snapshot.as_slice(), known.as_str()) {
        return Progress::Over(None, pos + 1);
    }
    let appeared = appeared_since(live, e.snapshot.as_slice());
    if appeared.len() != 1 {
        return Progress::Over(None, pos + 1);
    }
    assert(views(appeared@)[0] == appeared@[0]@);
    match record_at(dir, env_name, live, appeared[0].as_str(), replies, pos + 1) {
        Progress::Ask(q) => Progress::Ask(q),
        Progress::Over(_, k) => Progress::Over(Some(appeared[0].clone()), k),
    }
}

/// Try to recover the live name for stale `env_name` given the live set:
/// `None` when it cannot recover safely.
pub fn recover_in(dir: &str, env_name: &str, live: &[String], replies: &[Reply]) -> (s: Step<
    Option<String>,
>)
    ensures
        match recover_stage(replies@, 0, dir@, env_name@, views(live@)) {
            Stage::Ask(q) => s is Call && s->Call_0@ == q,
            Stage::Over(v, _) => s is Done && s->Done_0 is Ok && crate::text::opt_view(
                s->Done_0->Ok_0,
            ) == v,
        },
{
    match recover_at(dir, env_name, live, replies, 0) {
        Progress::Ask(q) => Step::Call(q),
        Progress::Over(v, _) => Step::Done(Ok(v)),
    }
}

/// Record a resolution in `cache_dir`; nothing to do without one.
pub fn record(
    cache_dir: Option<&str>,
    env_name: &str,
    live: &[String],
    resolved: &str,
    replies: &[Reply],
) -> (s: Step<()>)
    ensures
        match cache_dir {
            None => s@ == StepView::<()>::Done(Ok(())),
            Some(d) => match record_stage(replies@, 0, d@, env_name@, views(live@), resolved@) {
                Stage::Ask(q) => s@ == StepView::<()>::Call(q),
                Stage::Over(_, _) => s@ == StepView::<()>::Done(Ok(())),
            },
        },
{
    match cache_dir {
        Some(d) => record_in(d, env_name, live, resolved, replies),
        None => Step::Done(Ok(())),
    }
}

/// Recover from `cache_dir`; `None` without one.
pub fn recover(cache_dir: Option<&str>, env_name: &str, live: &[String], replies: &[Reply]) -> (s: Step<
    Option<String>,
>)
    ensures
        match cache_dir {
            None => s is Done && s->Done_0 == Ok::<Option<String>, ShimError>(None),
            Some(d) => match recover_stage(replies@, 0, d@, env_name@, views(live@)) {
                Stage::Ask(q) => s is Call && s->Call_0@ == q,
                Stage::Over(v, _) => s is Done && s->Done_0 is Ok && crate::text::opt_view(
                    s->Done_0->Ok_0,
                ) == v,
            },
        },
{
    match cache_dir {
        Some(d) => recover_in(d, env_name, live, replies),
        None => Step::Done(Ok(None)),
    }
}

// ---------------------------------------------------------------------------
// laws
// ---------------------------------------------------------------------------

/// Recovery never names a dead session, and what it recovers is served from
/// a stable ledger hit from then on: once the entry recording it (at any
/// time) is read back against the same live set, recovery returns the same
/// name at once, with no further request.
pub proof fn law_recovery_is_live_and_stable(
    replies: Seq<Reply>,
    pos: int,
    dir: Seq<char>,
    env_name: Seq<char>,
    live: Seq<Seq<char>>,
    later: Seq<Reply>,
    later_pos: int,
    t: u64,
)
    ensures
        recover_stage(replies, pos, dir, env_name, live) matches Stage::Over(Some(r), _) ==> {
            &&& live.contains(r)
            &&& recover_after_read(later, later_pos, dir, env_name, live, Some(recorded(env_name, live, t, r)))
                == Stage::Over(Some(r), later_pos)
        },
{
    if replies.len() > pos {
        match cached_entry(replies[pos], env_name) {
            Some(e) => match e.resolved {
                Some(known) => {
                    lemma_keep_members(live, not_in(e.snapshot));
                    let appeared = keep(live, not_in(e.snapshot));
                    if appeared.len() == 1 {
                        assert(live.contains(appeared[0]));
                    }
                },
                None => {},
            },
            None => {},
        }
    }
}

/// An entry stored under another env name is never used, even when both
/// names map to the same file.
pub proof fn law_collision_guard(e: Entry, env_name: Seq<char>)
    requires
        e.env_name@ != env_name,
    ensures
        cached_entry(Reply::Cached(Some(e)), env_name) is None,
{
}

/// A recorded entry is read back from where it was written: the write of an
/// entry targets exactly the file a later read for its env name opens, and it
/// goes through a different temporary file that is then renamed over it.
pub proof fn law_written_where_read(dir: Seq<char>, e: EntryView)
    ensures
        write_req(dir, e) matches RequestView::WriteCache { tmp, path, .. } && read_req(
            dir,
            e.env_name,
        ) matches RequestView::ReadCache { path: read_path } && path == read_path && tmp != path,
{
    reveal_strlit(".json");
    reveal_strlit(".tmp");
    reveal_strlit(".json.json.tmp");
    let file = cache_file(dir, e.env_name);
    let tmp = cache_tmp(dir, e.env_name);
    if sanitized(e.env_name).len() == 0 {
        assert(sanitized(e.env_name) + ".json"@ =~= ".json"@);
        assert(tmp.len() != file.len());
    } else {
        assert(tmp.len() == file.len() + 4);
    }
}

/// A rename is discovered once and then served from the ledger. Say the entry
/// read for stale `env_name` last resolved to `known`, which is gone from the
/// live set but was in the entry's fresh snapshot, and exactly one live
/// session `y` is new since that snapshot. Then recovery, after a clock read
/// and with the write's clock read, asks to record `y` against the live set;
/// once that write is answered it recovers `y`; and any later recovery that
/// reads the recorded entry back against the same live set returns `y` at
/// once, with no request.
pub proof fn law_rename_discovered_then_ledger(
    replies: Seq<Reply>,
    pos: int,
    dir: Seq<char>,
    env_name: Seq<char>,
    live: Seq<Seq<char>>,
    e: EntryView,
    known: Seq<char>,
    y: Seq<char>,
    later: Seq<Reply>,
    later_pos: int,
)
    requires
        0 <= pos,
        replies.len() >= pos + 3,
        e.resolved == Some(known),
        !live.contains(known),
        e.snapshot.contains(known),
        is_fresh(e.ts, now_of(replies[pos])),
        keep(live, not_in(e.snapshot)) == seq![y],
    ensures
        recover_after_read(replies.take(pos + 2), pos, dir, env_name, live, Some(e)) == Stage::<
            Option<Seq<char>>,
        >::Ask(write_req(dir, recorded(env_name, live, now_of(replies[pos + 1]), y))),
        recover_after_read(replies, pos, dir, env_name, live, Some(e)) == Stage::Over(Some(y), pos + 3),
        recover_after_read(
            later,
            later_pos,
            dir,
            env_name,
            live,
            Some(recorded(env_name, live, now_of(replies[pos + 1]), y)),
        ) == Stage::Over(Some(y), later_pos),
{
    let short = replies.take(pos + 2);
    assert(short[pos] == replies[pos]);
    assert(short[pos + 1] == replies[pos + 1]);
    lemma_keep_members(live, not_in(e.snapshot));
    assert(keep(live, not_in(e.snapshot))[0] == y);
    assert(live.contains(y));
}

} // verus!
