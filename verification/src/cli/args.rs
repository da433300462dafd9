//! Hand-rolled tmux argument parser.
//!
//! tmux flags are case-sensitive and their arity is subcommand-dependent — for
//! example `-p` is a boolean "print" flag for `display-message` but takes a
//! percentage for `split-window`. The parser therefore carries a per-subcommand
//! set of value-taking flags and does clustered short-flag parsing (`-dP`,
//! `-pt sess`, `-F#{x}`) against it.
use crate::error::{cat, ShimError};
use crate::text::{chars_of, has_char, is, opt_view, slice, string_of, views};
use vstd::prelude::*;
use vstd::string::*;

verus! {

/// A parsed flag: its letter and, for value-taking flags, its value.
pub type Flag = (char, Option<String>);

/// The mathematical view of a flag.
pub type FlagView = (char, Option<Seq<char>>);

/// The views of a flag list.
pub open spec fn flag_views(f: Seq<Flag>) -> Seq<FlagView> {
    f.map_values(|p: Flag| (p.0, opt_view(p.1)))
}

/// A parsed tmux invocation: canonical subcommand, its flags, and operands.
#[derive(Debug, PartialEq, Eq)]
pub struct ParsedInvocation {
    pub subcommand: String,
    pub flags: Vec<Flag>,
    pub operands: Vec<String>,
}

/// The mathematical view of a parsed invocation.
pub struct InvocationView {
    pub subcommand: Seq<char>,
    pub flags: Seq<FlagView>,
    pub operands: Seq<Seq<char>>,
}

impl View for ParsedInvocation {
    type V = InvocationView;

    open spec fn view(&self) -> InvocationView {
        InvocationView {
            subcommand: self.subcommand@,
            flags: flag_views(self.flags@),
            operands: views(self.operands@),
        }
    }
}

/// The tmux aliases, mapped to their canonical subcommand names.
pub open spec fn canonical(s: Seq<char>) -> Seq<char> {
    if s == "new"@ {
        "new-session"@
    } else if s == "neww"@ {
        "new-window"@
    } else if s == "splitw"@ {
        "split-window"@
    } else if s == "selectw"@ {
        "select-window"@
    } else if s == "selectp"@ {
        "select-pane"@
    } else if s == "killw"@ {
        "kill-window"@
    } else if s == "killp"@ {
        "kill-pane"@
    } else if s == "send"@ {
        "send-keys"@
    } else if s == "capturep"@ {
        "capture-pane"@
    } else if s == "display"@ || s == "displayp"@ {
        "display-message"@
    } else if s == "lsw"@ {
        "list-windows"@
    } else if s == "lsp"@ {
        "list-panes"@
    } else if s == "ls"@ {
        "list-sessions"@
    } else if s == "renamew"@ {
        "rename-window"@
    } else if s == "resizep"@ {
        "resize-pane"@
    } else if s == "has"@ {
        "has-session"@
    } else if s == "set"@ {
        "set-option"@
    } else if s == "setw"@ {
        "set-window-option"@
    } else {
        s
    }
}

/// The flags of each subcommand that take a value.
pub open spec fn value_flags(sub: Seq<char>) -> Seq<char> {
    if sub == "split-window"@ {
        seq!['t', 'l', 'c', 'F', 'e', 'p']
    } else if sub == "new-session"@ {
        seq!['s', 't', 'x', 'y', 'F', 'e', 'c', 'n']
    } else if sub == "new-window"@ {
        seq!['t', 'n', 'F', 'e', 'c']
    } else if sub == "display-message"@ {
        seq!['t', 'F']
    } else if sub == "send-keys"@ {
        seq!['t', 'N']
    } else if sub == "list-panes"@ || sub == "list-windows"@ {
        seq!['t', 'F', 'f', 'O']
    } else if sub == "list-sessions"@ {
        seq!['F', 'f']
    } else if sub == "select-pane"@ {
        seq!['t', 'T']
    } else if sub == "resize-pane"@ {
        seq!['t', 'x', 'y']
    } else if sub == "respawn-pane"@ {
        seq!['t', 'c', 'e']
    } else if sub == "capture-pane"@ {
        seq!['t', 'S', 'E', 'b']
    } else if sub == "has-session"@ || sub == "kill-pane"@ || sub == "kill-window"@ || sub
        == "kill-session"@ || sub == "select-window"@ || sub == "select-layout"@ || sub
        == "rename-window"@ || sub == "set-option"@ || sub == "set-window-option"@ {
        seq!['t']
    } else {
        seq![]
    }
}

/// The flags of one `-xyz` cluster (`body` is the text after the dash), and the
/// value flag, if any, that ends the cluster and takes the next token as its value.
pub open spec fn cluster(vf: Seq<char>, body: Seq<char>) -> (Seq<FlagView>, Option<char>)
    decreases body.len(),
{
    if body.len() == 0 {
        (seq![], None)
    } else if vf.contains(body[0]) {
        if body.len() == 1 {
            (seq![], Some(body[0]))
        } else {
            (seq![(body[0], Some(body.drop_first()))], None)
        }
    } else {
        let rest = cluster(vf, body.drop_first());
        (seq![(body[0], None::<Seq<char>>)] + rest.0, rest.1)
    }
}

/// Flags and operands collected from a token suffix.
pub type Scanned = (Seq<FlagView>, Seq<Seq<char>>);

/// `r` with `f` and `o` placed in front of its flags and operands.
pub open spec fn prepend(r: Result<Scanned, char>, f: Seq<FlagView>, o: Seq<Seq<char>>) -> Result<
    Scanned,
    char,
> {
    match r {
        Ok(x) => Ok((f + x.0, o + x.1)),
        Err(c) => Err(c),
    }
}

/// A token that is an operand rather than a flag cluster.
pub open spec fn is_operand_token(tok: Seq<char>) -> bool {
    tok == "-"@ || !(tok.len() > 0 && tok[0] == '-')
}

/// The flags and operands of `toks[i..]`; once `only` holds every token is an
/// operand. `Err(c)` when value flag `c` ends the tokens without its value.
pub open spec fn scan(vf: Seq<char>, toks: Seq<Seq<char>>, i: int, only: bool) -> Result<
    Scanned,
    char,
>
    decreases toks.len() - i,
{
    if i < 0 || i >= toks.len() {
        Ok((seq![], seq![]))
    } else if only || is_operand_token(toks[i]) {
        prepend(scan(vf, toks, i + 1, only), seq![], seq![toks[i]])
    } else if toks[i] == "--"@ {
        scan(vf, toks, i + 1, true)
    } else {
        let c = cluster(vf, toks[i].drop_first());
        match c.1 {
            None => prepend(scan(vf, toks, i + 1, only), c.0, seq![]),
            Some(w) => if i + 1 < toks.len() {
                prepend(scan(vf, toks, i + 2, only), c.0 + seq![(w, Some(toks[i + 1]))], seq![])
            } else {
                Err(w)
            },
        }
    }
}

/// What `parse` yields: the invocation, or the `BadArgs` message.
pub open spec fn spec_parse(args: Seq<Seq<char>>) -> Result<InvocationView, Seq<char>> {
    if args.len() == 0 {
        Err("missing tmux command"@)
    } else {
        let sub = canonical(args[0]);
        match scan(value_flags(sub), args, 1, false) {
            Ok(x) => Ok(InvocationView { subcommand: sub, flags: x.0, operands: x.1 }),
            Err(c) => Err("option -"@ + seq![c] + " requires a value"@),
        }
    }
}

/// The index of the first flag `c`, if any.
pub open spec fn first_flag(f: Seq<FlagView>, c: char) -> Option<int>
    decreases f.len(),
{
    if f.len() == 0 {
        None
    } else if f[0].0 == c {
        Some(0)
    } else {
        match first_flag(f.drop_first(), c) {
            Some(i) => Some(i + 1),
            None => None,
        }
    }
}

/// The value of the first flag `c` (`None` when absent or boolean).
pub open spec fn flag_value(f: Seq<FlagView>, c: char) -> Option<Seq<char>> {
    match first_flag(f, c) {
        Some(i) => f[i].1,
        None => None,
    }
}

/// The values of every occurrence of flag `c`, in order.
pub open spec fn flag_values(f: Seq<FlagView>, c: char) -> Seq<Seq<char>>
    decreases f.len(),
{
    if f.len() == 0 {
        seq![]
    } else {
        let rest = flag_values(f.drop_first(), c);
        if f[0].0 == c && f[0].1 is Some {
            seq![f[0].1.unwrap()] + rest
        } else {
            rest
        }
    }
}

/// Flag `c` was given.
pub open spec fn has_flag(f: Seq<FlagView>, c: char) -> bool {
    exists|i: int| 0 <= i < f.len() && f[i].0 == c
}

/// The view of an optional string slice.
pub open spec fn opt_str_view(o: Option<&str>) -> Option<Seq<char>> {
    match o {
        Some(s) => Some(s@),
        None => None,
    }
}

proof fn lemma_first_flag(f: Seq<FlagView>, c: char, i: int)
    requires
        0 <= i <= f.len(),
        forall|j: int| 0 <= j < i ==> f[j].0 != c,
    ensures
        first_flag(f, c) == (match first_flag(f.skip(i), c) {
            Some(k) => Some(k + i),
            None => None::<int>,
        }),
    decreases i,
{
    if i > 0 {
        assert(f.skip(i) =~= f.drop_first().skip(i - 1));
        lemma_first_flag(f.drop_first(), c, i - 1);
    } else {
        assert(f.skip(0) =~= f);
    }
}

proof fn lemma_flag_values_split(f: Seq<FlagView>, c: char, i: int)
    requires
        0 <= i < f.len(),
    ensures
        flag_values(f.take(i + 1), c) == flag_values(f.take(i), c) + (if f[i].0 == c
            && f[i].1 is Some {
            seq![f[i].1.unwrap()]
        } else {
            seq![]
        }),
    decreases i,
{
    if i == 0 {
        assert(f.take(1).drop_first() =~= Seq::<FlagView>::empty());
        assert(f.take(0) =~= Seq::<FlagView>::empty());
    } else {
        assert(f.take(i + 1).drop_first() =~= f.drop_first().take(i));
        assert(f.take(i).drop_first() =~= f.drop_first().take(i - 1));
        lemma_flag_values_split(f.drop_first(), c, i - 1);
    }
}

impl ParsedInvocation {
    /// Flag `flag` was given.
    pub fn has(&self, flag: char) -> (b: bool)
        ensures
            b == has_flag(self@.flags, flag),
    {
        let mut i: usize = 0;
        while i < self.flags.len()
            invariant
                i <= self.flags.len(),
                forall|j: int| 0 <= j < i ==> self@.flags[j].0 != flag,
            decreases self.flags.len() - i,
        {
            if self.flags[i].0 == flag {
                assert(self@.flags[i as int].0 == flag);
                return true;
            }
            i = i + 1;
        }
        false
    }

    /// The value of the first occurrence of `flag`.
    pub fn value(&self, flag: char) -> (r: Option<&str>)
        ensures
            opt_str_view(r) == flag_value(self@.flags, flag),
    {
        let mut i: usize = 0;
        while i < self.flags.len()
            invariant
                i <= self.flags.len(),
                forall|j: int| 0 <= j < i ==> self@.flags[j].0 != flag,
            decreases self.flags.len() - i,
        {
            if self.flags[i].0 == flag {
                proof {
                    lemma_first_flag(self@.flags, flag, i as int);
                }
                return match &self.flags[i].1 {
                    Some(v) => Some(v.as_str()),
                    None => None,
                };
            }
            i = i + 1;
        }
        proof {
            lemma_first_flag(self@.flags, flag, i as int);
        }
        None
    }

    /// The values of every occurrence of `flag`, in order.
    pub fn values_of(&self, flag: char) -> (r: Vec<&str>)
        ensures
            r@.map_values(|s: &str| s@) == flag_values(self@.flags, flag),
    {
        let mut r: Vec<&str> = Vec::new();
        let mut i: usize = 0;
        while i < self.flags.len()
            invariant
                i <= self.flags.len(),
                r@.map_values(|s: &str| s@) == flag_values(self@.flags.take(i as int), flag),
            decreases self.flags.len() - i,
        {
            proof {
                lemma_flag_values_split(self@.flags, flag, i as int);
            }
            if self.flags[i].0 == flag {
                match &self.flags[i].1 {
                    Some(v) => {
                        r.push(v.as_str());
                    },
                    None => {},
                }
            }
            i = i + 1;
            assert(r@.map_values(|s: &str| s@) =~= flag_values(self@.flags.take(i as int), flag));
        }
        assert(self@.flags.take(self.flags.len() as int) =~= self@.flags);
        r
    }

    /// The operands (non-flag tokens), in order.
    pub fn operands(&self) -> (r: &[String])
        ensures
            views(r@) == self@.operands,
    {
        self.operands.as_slice()
    }
}

/// The canonical name of a tmux subcommand or alias.
pub fn canonical_subcommand(s: &Vec<char>) -> (r: String)
    ensures
        r@ == canonical(s@),
{
    let canon = if is(s, "new") {
        "new-session"
    } else if is(s, "neww") {
        "new-window"
    } else if is(s, "splitw") {
        "split-window"
    } else if is(s, "selectw") {
        "select-window"
    } else if is(s, "selectp") {
        "select-pane"
    } else if is(s, "killw") {
        "kill-window"
    } else if is(s, "killp") {
        "kill-pane"
    } else if is(s, "send") {
        "send-keys"
    } else if is(s, "capturep") {
        "capture-pane"
    } else if is(s, "display") || is(s, "displayp") {
        "display-message"
    } else if is(s, "lsw") {
        "list-windows"
    } else if is(s, "lsp") {
        "list-panes"
    } else if is(s, "ls") {
        "list-sessions"
    } else if is(s, "renamew") {
        "rename-window"
    } else if is(s, "resizep") {
        "resize-pane"
    } else if is(s, "has") {
        "has-session"
    } else if is(s, "set") {
        "set-option"
    } else if is(s, "setw") {
        "set-window-option"
    } else {
        return string_of(s);
    };
    String::from_str(canon)
}

/// The value-taking flags of subcommand `sub`.
pub fn value_flags_of(sub: &Vec<char>) -> (r: Vec<char>)
    ensures
        r@ == value_flags(sub@),
{
    if is(sub, "split-window") {
        vec!['t', 'l', 'c', 'F', 'e', 'p']
    } else if is(sub, "new-session") {
        vec!['s', 't', 'x', 'y', 'F', 'e', 'c', 'n']
    } else if is(sub, "new-window") {
        vec!['t', 'n', 'F', 'e', 'c']
    } else if is(sub, "display-message") {
        vec!['t', 'F']
    } else if is(sub, "send-keys") {
        vec!['t', 'N']
    } else if is(sub, "list-panes") || is(sub, "list-windows") {
        vec!['t', 'F', 'f', 'O']
    } else if is(sub, "list-sessions") {
        vec!['F', 'f']
    } else if is(sub, "select-pane") {
        vec!['t', 'T']
    } else if is(sub, "resize-pane") {
        vec!['t', 'x', 'y']
    } else if is(sub, "respawn-pane") {
        vec!['t', 'c', 'e']
    } else if is(sub, "capture-pane") {
        vec!['t', 'S', 'E', 'b']
    } else if is(sub, "has-session") || is(sub, "kill-pane") || is(sub, "kill-window") || is(
        sub,
        "kill-session",
    ) || is(sub, "select-window") || is(sub, "select-layout") || is(sub, "rename-window")
        || is(sub, "set-option") || is(sub, "set-window-option") {
        vec!['t']
    } else {
        vec![]
    }
}

/// The flags of one cluster (`body` is the token after its dash).
fn cluster_exec(vf: &Vec<char>, body: &Vec<char>) -> (r: (Vec<Flag>, Option<char>))
    ensures
        (flag_views(r.0@), r.1) == cluster(vf@, body@),
{
    let mut cf: Vec<Flag> = Vec::new();
    let mut j: usize = 0;
    assert(body@.skip(0) =~= body@);
    while j < body.len()
        invariant
            j <= body.len(),
            cluster(vf@, body@) == ({
                let rest = cluster(vf@, body@.skip(j as int));
                (flag_views(cf@) + rest.0, rest.1)
            }),
        decreases body.len() - j,
    {
        let c = body[j];
        let ghost b = body@.skip(j as int);
        assert(b[0] == c);
        if has_char(vf, c) {
            if j + 1 == body.len() {
                assert(b.len() == 1);
                assert(flag_views(cf@) + Seq::<FlagView>::empty() =~= flag_views(cf@));
                return (cf, Some(c));
            }
            let attached = slice(body, j + 1, body.len());
            assert(b.drop_first() =~= attached@);
            let ghost before = cf@;
            cf.push((c, Some(string_of(&attached))));
            assert(flag_views(cf@) =~= flag_views(before) + seq![(c, Some(attached@))]);
            return (cf, None);
        }
        let ghost before = cf@;
        cf.push((c, None));
        assert(flag_views(cf@) =~= flag_views(before) + seq![(c, None::<Seq<char>>)]);
        assert(b.drop_first() =~= body@.skip(j + 1));
        j = j + 1;
        assert(cluster(vf@, body@) == ({
            let rest = cluster(vf@, body@.skip(j as int));
            (flag_views(cf@) + rest.0, rest.1)
        })) by {
            let rest = cluster(vf@, body@.skip(j as int));
            assert(flag_views(before) + (seq![(c, None::<Seq<char>>)] + rest.0) =~= flag_views(
                cf@,
            ) + rest.0);
        }
    }
    assert(body@.skip(j as int) =~= Seq::<char>::empty());
    assert(flag_views(cf@) + Seq::<FlagView>::empty() =~= flag_views(cf@));
    (cf, None)
}

proof fn lemma_prepend_prepend(
    r: Result<Scanned, char>,
    f1: Seq<FlagView>,
    o1: Seq<Seq<char>>,
    f2: Seq<FlagView>,
    o2: Seq<Seq<char>>,
)
    ensures
        prepend(prepend(r, f2, o2), f1, o1) == prepend(r, f1 + f2, o1 + o2),
{
    match r {
        Ok(x) => {
            assert(f1 + (f2 + x.0) =~= (f1 + f2) + x.0);
            assert(o1 + (o2 + x.1) =~= (o1 + o2) + x.1);
        },
        Err(_) => {},
    }
}

/// Parse tmux arguments (the slice *after* the program name; `args[0]` is the
/// subcommand).
///
/// # Errors
/// `BadArgs` if there is no subcommand or a value flag is missing its value.
pub fn parse(args: &[String]) -> (r: Result<ParsedInvocation, ShimError>)
    ensures
        match spec_parse(views(args@)) {
            Ok(v) => r matches Ok(p) && p@ == v,
            Err(m) => r matches Err(ShimError::BadArgs(e)) && e@ == m,
        },
{
    let ghost toks = views(args@);
    if args.len() == 0 {
        return Err(ShimError::BadArgs(String::from_str("missing tmux command")));
    }
    let raw = chars_of(args[0].as_str());
    let subcommand = canonical_subcommand(&raw);
    let sub_chars = chars_of(subcommand.as_str());
    let vf = value_flags_of(&sub_chars);
    let mut flags: Vec<Flag> = Vec::new();
    let mut operands: Vec<String> = Vec::new();
    let mut operands_only = false;
    let mut i: usize = 1;
    assert(prepend(scan(vf@, toks, 1, false), seq![], seq![]) == scan(vf@, toks, 1, false)) by {
        match scan(vf@, toks, 1, false) {
            Ok(x) => {
                assert(Seq::<FlagView>::empty() + x.0 =~= x.0);
                assert(Seq::<Seq<char>>::empty() + x.1 =~= x.1);
            },
            Err(_) => {},
        }
    }
    while i < args.len()
        invariant
            toks == views(args@),
            1 <= i <= args.len(),
            vf@ == value_flags(canonical(toks[0])),
            subcommand@ == canonical(toks[0]),
            scan(vf@, toks, 1, false) == prepend(
                scan(vf@, toks, i as int, operands_only),
                flag_views(flags@),
                views(operands@),
            ),
        decreases args.len() - i,
    {
        let tok = &args[i];
        let tv = chars_of(tok.as_str());
        assert(tv@ == toks[i as int]);
        let is_operand = is(&tv, "-") || !(tv.len() > 0 && tv[0] == '-');
        if operands_only || is_operand {
            let ghost before = operands@;
            operands.push(tok.clone());
            assert(views(operands@) =~= views(before) + seq![toks[i as int]]);
            proof {
                lemma_prepend_prepend(
                    scan(vf@, toks, i + 1, operands_only),
                    flag_views(flags@),
                    views(before),
                    seq![],
                    seq![toks[i as int]],
                );
                assert(flag_views(flags@) + Seq::<FlagView>::empty() =~= flag_views(flags@));
            }
            i = i + 1;
        } else if is(&tv, "--") {
            operands_only = true;
            i = i + 1;
        } else {
            let body = slice(&tv, 1, tv.len());
            assert(body@ =~= toks[i as int].drop_first());
            let (mut cf, pending) = cluster_exec(&vf, &body);
            match pending {
                None => {
                    let ghost before = flags@;
                    let ghost clus = cf@;
                    flags.append(&mut cf);
                    assert(flag_views(flags@) =~= flag_views(before) + flag_views(clus));
                    proof {
                        lemma_prepend_prepend(
                            scan(vf@, toks, i + 1, operands_only),
                            flag_views(before),
                            views(operands@),
                            cluster(vf@, body@).0,
                            seq![],
                        );
                        assert(views(operands@) + Seq::<Seq<char>>::empty() =~= views(
                            operands@,
                        ));
                    }
                    i = i + 1;
                },
                Some(c) => {
                    if i + 1 >= args.len() {
                        let mut m = String::from_str("option -");
                        crate::text::push_char(&mut m, c);
                        m.append(" requires a value");
                        return Err(ShimError::BadArgs(m));
                    }
                    let val = args[i + 1].clone();
                    let ghost before = flags@;
                    let ghost clus = cf@;
                    cf.push((c, Some(val)));
                    flags.append(&mut cf);
                    assert(flag_views(flags@) =~= flag_views(before) + (cluster(vf@, body@).0
                        + seq![(c, Some(toks[i + 1]))]));
                    proof {
                        lemma_prepend_prepend(
                            scan(vf@, toks, i + 2, operands_only),
                            flag_views(before),
                            views(operands@),
                            cluster(vf@, body@).0 + seq![(c, Some(toks[i + 1]))],
                            seq![],
                        );
                        assert(views(operands@) + Seq::<Seq<char>>::empty() =~= views(
                            operands@,
                        ));
                    }
                    i = i + 2;
                },
            }
        }
    }
    assert(scan(vf@, toks, i as int, operands_only) == Ok::<Scanned, char>((seq![], seq![])));
    assert(flag_views(flags@) + Seq::<FlagView>::empty() =~= flag_views(flags@));
    assert(views(operands@) + Seq::<Seq<char>>::empty() =~= views(operands@));
    Ok(ParsedInvocation { subcommand, flags, operands })
}

/// Alias resolution is idempotent: no canonical subcommand name is itself an
/// alias (every alias is shorter than every name it stands for), so resolving
/// a resolved name changes nothing.
pub proof fn law_canonical_idempotent(s: Seq<char>)
    ensures
        canonical(canonical(s)) == canonical(s),
{
    reveal_strlit("new");
    reveal_strlit("neww");
    reveal_strlit("splitw");
    reveal_strlit("selectw");
    reveal_strlit("selectp");
    reveal_strlit("killw");
    reveal_strlit("killp");
    reveal_strlit("send");
    reveal_strlit("capturep");
    reveal_strlit("display");
    reveal_strlit("displayp");
    reveal_strlit("lsw");
    reveal_strlit("lsp");
    reveal_strlit("ls");
    reveal_strlit("renamew");
    reveal_strlit("resizep");
    reveal_strlit("has");
    reveal_strlit("set");
    reveal_strlit("setw");
    reveal_strlit("new-session");
    reveal_strlit("new-window");
    reveal_strlit("split-window");
    reveal_strlit("select-window");
    reveal_strlit("select-pane");
    reveal_strlit("kill-window");
    reveal_strlit("kill-pane");
    reveal_strlit("send-keys");
    reveal_strlit("capture-pane");
    reveal_strlit("display-message");
    reveal_strlit("list-windows");
    reveal_strlit("list-panes");
    reveal_strlit("list-sessions");
    reveal_strlit("rename-window");
    reveal_strlit("resize-pane");
    reveal_strlit("has-session");
    reveal_strlit("set-option");
    reveal_strlit("set-window-option");
    let t = canonical(s);
    assert(t == s || t.len() >= 9);
    if t.len() >= 9 {
        assert(t != "new"@) by { assert("new"@.len() < 9); }
        assert(t != "neww"@) by { assert("neww"@.len() < 9); }
        assert(t != "splitw"@) by { assert("splitw"@.len() < 9); }
        assert(t != "selectw"@) by { assert("selectw"@.len() < 9); }
        assert(t != "selectp"@) by { assert("selectp"@.len() < 9); }
        assert(t != "killw"@) by { assert("killw"@.len() < 9); }
        assert(t != "killp"@) by { assert("killp"@.len() < 9); }
        assert(t != "send"@) by { assert("send"@.len() < 9); }
        assert(t != "capturep"@) by { assert("capturep"@.len() < 9); }
        assert(t != "display"@) by { assert("display"@.len() < 9); }
        assert(t != "displayp"@) by { assert("displayp"@.len() < 9); }
        assert(t != "lsw"@) by { assert("lsw"@.len() < 9); }
        assert(t != "lsp"@) by { assert("lsp"@.len() < 9); }
        assert(t != "ls"@) by { assert("ls"@.len() < 9); }
        assert(t != "renamew"@) by { assert("renamew"@.len() < 9); }
        assert(t != "resizep"@) by { assert("resizep"@.len() < 9); }
        assert(t != "has"@) by { assert("has"@.len() < 9); }
        assert(t != "set"@) by { assert("set"@.len() < 9); }
        assert(t != "setw"@) by { assert("setw"@.len() < 9); }
    }
}

// ---------------------------------------------------------------------------
// the shape of a parse
// ---------------------------------------------------------------------------

/// The part a token plays in an argument vector.
pub enum TokenKind {
    /// An operand.
    Operand,
    /// A cluster of flags (`-dP`, `-t`, `-F#{x}`).
    Flags,
    /// The value of the value flag that ends the cluster before it.
    Value,
    /// The first `--`, after which every token is an operand.
    Separator,
}

/// The kinds of `toks[i..]` as the parser reads them; once `only` holds every
/// token is an operand. Stops early when a value flag ends the tokens.
pub open spec fn token_kinds(vf: Seq<char>, toks: Seq<Seq<char>>, i: int, only: bool) -> Seq<TokenKind>
    decreases toks.len() - i,
{
    if i < 0 || i >= toks.len() {
        seq![]
    } else if only || is_operand_token(toks[i]) {
        seq![TokenKind::Operand] + token_kinds(vf, toks, i + 1, only)
    } else if toks[i] == "--"@ {
        seq![TokenKind::Separator] + token_kinds(vf, toks, i + 1, true)
    } else {
        match cluster(vf, toks[i].drop_first()).1 {
            None => seq![TokenKind::Flags] + token_kinds(vf, toks, i + 1, only),
            Some(_) => if i + 1 < toks.len() {
                seq![TokenKind::Flags, TokenKind::Value] + token_kinds(vf, toks, i + 2, only)
            } else {
                seq![TokenKind::Flags]
            },
        }
    }
}

/// The tokens of `toks[i..]` whose kind is `Operand`, in order.
pub open spec fn operands_by_kind(toks: Seq<Seq<char>>, i: int, kinds: Seq<TokenKind>) -> Seq<Seq<char>>
    decreases kinds.len(),
{
    if kinds.len() == 0 {
        seq![]
    } else {
        (if kinds[0] is Operand {
            seq![toks[i]]
        } else {
            seq![]
        }) + operands_by_kind(toks, i + 1, kinds.drop_first())
    }
}

/// No flag has a value unless it is a value flag, and every value flag has one.
pub open spec fn flags_well_formed(vf: Seq<char>, f: Seq<FlagView>) -> bool {
    forall|k: int| 0 <= k < f.len() ==> (#[trigger] f[k].1 is Some <==> vf.contains(f[k].0))
}

proof fn lemma_cluster_well_formed(vf: Seq<char>, body: Seq<char>)
    ensures
        flags_well_formed(vf, cluster(vf, body).0),
        cluster(vf, body).1 matches Some(w) ==> vf.contains(w),
    decreases body.len(),
{
    if body.len() > 0 && !vf.contains(body[0]) {
        lemma_cluster_well_formed(vf, body.drop_first());
        let rest = cluster(vf, body.drop_first());
        let f = seq![(body[0], None::<Seq<char>>)] + rest.0;
        assert forall|k: int| 0 <= k < f.len() implies (#[trigger] f[k].1 is Some <==> vf.contains(f[k].0)) by {
            if k > 0 {
                assert(f[k] == rest.0[k - 1]);
            }
        }
    }
}

proof fn lemma_append_well_formed(vf: Seq<char>, a: Seq<FlagView>, b: Seq<FlagView>)
    requires
        flags_well_formed(vf, a),
        flags_well_formed(vf, b),
    ensures
        flags_well_formed(vf, a + b),
{
    assert forall|k: int| 0 <= k < (a + b).len() implies (#[trigger] (a + b)[k].1 is Some
        <==> vf.contains((a + b)[k].0)) by {
        if k < a.len() {
            assert((a + b)[k] == a[k]);
        } else {
            assert((a + b)[k] == b[k - a.len()]);
        }
    }
}

/// What a successful scan of `toks[i..]` yields: well-formed flags, and as
/// operands exactly the tokens of kind `Operand`, every token having a kind.
proof fn lemma_scan_shape(vf: Seq<char>, toks: Seq<Seq<char>>, i: int, only: bool)
    requires
        0 <= i,
    ensures
        scan(vf, toks, i, only) matches Ok(x) ==> {
            &&& flags_well_formed(vf, x.0)
            &&& x.1 == operands_by_kind(toks, i, token_kinds(vf, toks, i, only))
            &&& token_kinds(vf, toks, i, only).len() == (if i < toks.len() {
                toks.len() - i
            } else {
                0
            })
        },
    decreases toks.len() - i,
{
    if i >= toks.len() {
        assert(flags_well_formed(vf, Seq::<FlagView>::empty()));
    } else if only || is_operand_token(toks[i]) {
        lemma_scan_shape(vf, toks, i + 1, only);
        let k = token_kinds(vf, toks, i, only);
        assert(k.drop_first() =~= token_kinds(vf, toks, i + 1, only));
        if scan(vf, toks, i + 1, only) is Ok {
            let x = scan(vf, toks, i + 1, only)->Ok_0;
            assert(Seq::<FlagView>::empty() + x.0 =~= x.0);
        }
    } else if toks[i] == "--"@ {
        lemma_scan_shape(vf, toks, i + 1, true);
        let k = token_kinds(vf, toks, i, only);
        assert(k.drop_first() =~= token_kinds(vf, toks, i + 1, true));
        assert(Seq::<Seq<char>>::empty() + operands_by_kind(toks, i + 1, k.drop_first())
            =~= operands_by_kind(toks, i + 1, k.drop_first()));
    } else {
        let c = cluster(vf, toks[i].drop_first());
        lemma_cluster_well_formed(vf, toks[i].drop_first());
        let k = token_kinds(vf, toks, i, only);
        match c.1 {
            None => {
                lemma_scan_shape(vf, toks, i + 1, only);
                assert(k.drop_first() =~= token_kinds(vf, toks, i + 1, only));
                if scan(vf, toks, i + 1, only) is Ok {
                    let x = scan(vf, toks, i + 1, only)->Ok_0;
                    lemma_append_well_formed(vf, c.0, x.0);
                    assert(Seq::<Seq<char>>::empty() + x.1 =~= x.1);
                }
            },
            Some(w) => if i + 1 < toks.len() {
                lemma_scan_shape(vf, toks, i + 2, only);
                let r = token_kinds(vf, toks, i + 2, only);
                assert(k.drop_first() =~= seq![TokenKind::Value] + r);
                assert((seq![TokenKind::Value] + r).drop_first() =~= r);
                if scan(vf, toks, i + 2, only) is Ok {
                    let x = scan(vf, toks, i + 2, only)->Ok_0;
                    let last = seq![(w, Some(toks[i + 1]))];
                    assert(flags_well_formed(vf, last));
                    lemma_append_well_formed(vf, c.0, last);
                    lemma_append_well_formed(vf, c.0 + last, x.0);
                    assert(Seq::<Seq<char>>::empty() + x.1 =~= x.1);
                    assert(operands_by_kind(toks, i + 1, seq![TokenKind::Value] + r)
                        == Seq::<Seq<char>>::empty() + operands_by_kind(toks, i + 2, r));
                }
            } else {
            },
        }
    }
}

/// Some token of `k` before position `j` is the separator.
pub open spec fn separated_before(k: Seq<TokenKind>, j: int) -> bool {
    exists|m: int| 0 <= m < j && #[trigger] k[m] is Separator
}

/// Token `i + j` of `toks` has the kind `k[j]` that its text and its place
/// give it: an operand is `-`, a token without a leading dash, or a token after
/// the separator; a flag cluster is a dashed token before the separator; a
/// value follows a cluster that ends in a value flag; the separator is the
/// first `--`.
pub open spec fn kind_fits(
    vf: Seq<char>,
    toks: Seq<Seq<char>>,
    i: int,
    only: bool,
    k: Seq<TokenKind>,
    j: int,
) -> bool {
    let after = only || separated_before(k, j);
    &&& i + j < toks.len()
    &&& (k[j] is Operand ==> after || is_operand_token(toks[i + j]))
    &&& (k[j] is Flags ==> !after && !is_operand_token(toks[i + j]) && toks[i + j] != "--"@)
    &&& (k[j] is Separator ==> !after && toks[i + j] == "--"@)
    &&& (k[j] is Value ==> !after && j > 0 && k[j - 1] is Flags && cluster(
        vf,
        toks[i + j - 1].drop_first(),
    ).1 is Some)
}

proof fn lemma_separated_shift(p: Seq<TokenKind>, r: Seq<TokenKind>, j: int)
    requires
        p.len() <= j <= p.len() + r.len(),
    ensures
        separated_before(p + r, j) <==> (separated_before(p, p.len() as int) || separated_before(
            r,
            j - p.len(),
        )),
{
    let k = p + r;
    if separated_before(k, j) {
        let m = choose|m: int| 0 <= m < j && #[trigger] k[m] is Separator;
        if m < p.len() {
            assert(p[m] == k[m]);
        } else {
            assert(r[m - p.len()] == k[m]);
        }
    }
    if separated_before(p, p.len() as int) {
        let m = choose|m: int| 0 <= m < p.len() && #[trigger] p[m] is Separator;
        assert(k[m] == p[m]);
    }
    if separated_before(r, j - p.len()) {
        let m = choose|m: int| 0 <= m < j - p.len() && #[trigger] r[m] is Separator;
        assert(k[m + p.len()] == r[m]);
    }
}

#[verifier::spinoff_prover]
#[verifier::rlimit(60)]
proof fn lemma_token_kinds(vf: Seq<char>, toks: Seq<Seq<char>>, i: int, only: bool)
    requires
        0 <= i,
    ensures
        forall|j: int| 0 <= j < token_kinds(vf, toks, i, only).len() ==> #[trigger] kind_fits(
            vf,
            toks,
            i,
            only,
            token_kinds(vf, toks, i, only),
            j,
        ),
    decreases toks.len() - i,
{
    let k = token_kinds(vf, toks, i, only);
    if i >= toks.len() {
    } else if only || is_operand_token(toks[i]) {
        lemma_token_kinds(vf, toks, i + 1, only);
        let p = seq![TokenKind::Operand];
        let r = token_kinds(vf, toks, i + 1, only);
        assert(k == p + r);
        assert(!separated_before(p, 1));
        assert forall|j: int| 0 <= j < k.len() implies #[trigger] kind_fits(vf, toks, i, only, k, j) by {
            if j == 0 {
                assert(!separated_before(k, 0));
            } else {
                lemma_separated_shift(p, r, j);
                assert(kind_fits(vf, toks, i + 1, only, r, j - 1));
                assert(k[j] == r[j - 1]);
                if j > 1 {
                    assert(k[j - 1] == r[j - 2]);
                }
            }
        }
    } else if toks[i] == "--"@ {
        lemma_token_kinds(vf, toks, i + 1, true);
        let p = seq![TokenKind::Separator];
        let r = token_kinds(vf, toks, i + 1, true);
        assert(k == p + r);
        assert forall|j: int| 0 <= j < k.len() implies #[trigger] kind_fits(vf, toks, i, only, k, j) by {
            if j == 0 {
                assert(!separated_before(k, 0));
            } else {
                assert(k[0] is Separator);
                assert(separated_before(k, j));
                assert(kind_fits(vf, toks, i + 1, true, r, j - 1));
                assert(k[j] == r[j - 1]);
            }
        }
    } else {
        let c = cluster(vf, toks[i].drop_first());
        match c.1 {
            None => {
                lemma_token_kinds(vf, toks, i + 1, only);
                let p = seq![TokenKind::Flags];
                let r = token_kinds(vf, toks, i + 1, only);
                assert(k == p + r);
                assert(!separated_before(p, 1));
                assert forall|j: int| 0 <= j < k.len() implies #[trigger] kind_fits(vf, toks, i, only, k, j) by {
                    if j == 0 {
                        assert(!separated_before(k, 0));
                    } else {
                        lemma_separated_shift(p, r, j);
                        assert(kind_fits(vf, toks, i + 1, only, r, j - 1));
                        assert(k[j] == r[j - 1]);
                        if j > 1 {
                            assert(k[j - 1] == r[j - 2]);
                        }
                    }
                }
            },
            Some(_) => if i + 1 < toks.len() {
                lemma_token_kinds(vf, toks, i + 2, only);
                let p = seq![TokenKind::Flags, TokenKind::Value];
                let r = token_kinds(vf, toks, i + 2, only);
                assert(k == p + r);
                assert(!separated_before(p, 2));
                assert forall|j: int| 0 <= j < k.len() implies #[trigger] kind_fits(vf, toks, i, only, k, j) by {
                    if j < 2 {
                        assert(!separated_before(k, j));
                    } else {
                        lemma_separated_shift(p, r, j);
                        assert(kind_fits(vf, toks, i + 2, only, r, j - 2));
                        assert(k[j] == r[j - 2]);
                        if j > 2 {
                            assert(k[j - 1] == r[j - 3]);
                        }
                    }
                }
            } else {
                assert forall|j: int| 0 <= j < k.len() implies #[trigger] kind_fits(vf, toks, i, only, k, j) by {
                    assert(!separated_before(k, 0));
                }
            },
        }
    }
}

/// The shape of every successful parse: the subcommand is the canonical name
/// of the first argument; only value flags carry a value and every value flag
/// present carries one; and the operands are, in order, exactly the tokens of
/// `args[1..]` of kind `Operand` — every token getting a kind: `-` and tokens
/// without a leading dash, and every token after the first `--`, except the
/// tokens taken as the value of a value flag that ends a cluster.
pub proof fn law_parse_shape(args: Seq<Seq<char>>, c: char)
    ensures
        spec_parse(args) matches Ok(p) ==> {
            let vf = value_flags(p.subcommand);
            let kinds = token_kinds(vf, args, 1, false);
            &&& args.len() > 0
            &&& p.subcommand == canonical(args[0])
            &&& (flag_value(p.flags, c) is Some ==> vf.contains(c))
            &&& (has_flag(p.flags, c) && vf.contains(c) ==> flag_value(p.flags, c) is Some)
            &&& kinds.len() == args.len() - 1
            &&& p.operands == operands_by_kind(args, 1, kinds)
            &&& forall|j: int| 0 <= j < kinds.len() ==> #[trigger] kind_fits(vf, args, 1, false, kinds, j)
        },
{
    if args.len() > 0 {
        let vf = value_flags(canonical(args[0]));
        lemma_scan_shape(vf, args, 1, false);
        lemma_token_kinds(vf, args, 1, false);
        match spec_parse(args) {
            Ok(p) => {
                let f = p.flags;
                lemma_first_flag_found(f, c);
                if has_flag(f, c) {
                    let w = choose|w: int| 0 <= w < f.len() && f[w].0 == c;
                    lemma_first_flag_found(f, c);
                }
            },
            Err(_) => {},
        }
    }
}

proof fn lemma_first_flag_found(f: Seq<FlagView>, c: char)
    ensures
        first_flag(f, c) matches Some(i) ==> 0 <= i < f.len() && f[i].0 == c,
        has_flag(f, c) ==> first_flag(f, c) is Some,
    decreases f.len(),
{
    if f.len() > 0 {
        lemma_first_flag_found(f.drop_first(), c);
        if has_flag(f, c) && f[0].0 != c {
            let w = choose|w: int| 0 <= w < f.len() && f[w].0 == c;
            assert(f.drop_first()[w - 1].0 == c);
        }
        match first_flag(f.drop_first(), c) {
            Some(i) => {
                assert(f.drop_first()[i] == f[i + 1]);
            },
            None => {},
        }
    }
}

} // verus!
