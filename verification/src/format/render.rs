//! tmux format-string rendering: substitute `#{var}` from a format context.
//!
//! Deliberately not a full format engine (no conditionals or arithmetic) — the
//! agent tools the shim targets only use plain `#{var}` substitution.
//! Unresolved variables are stripped; an unterminated `#{` is kept literally.
use crate::format::context::{lookup, Binding, FormatContext};
use crate::text::{chars_of, contains, extend, find, find_char, find_char_exec, find_from_exec, slice, string_of};
use vstd::prelude::*;

verus! {

/// The opening of a variable reference.
pub open spec fn open_brace() -> Seq<char> {
    seq!['#', '{']
}

/// The text bound to `name`, or nothing.
pub open spec fn value_or_empty(vars: Seq<Binding>, name: Seq<char>) -> Seq<char> {
    match lookup(vars, name) {
        Some(v) => v,
        None => Seq::<char>::empty(),
    }
}

/// `format` with every `#{name}` replaced by its binding in `vars`.
pub open spec fn spec_render(format: Seq<char>, vars: Seq<Binding>) -> Seq<char>
    decreases format.len(),
{
    match find(format, open_brace()) {
        None => format,
        Some(pos) => if 0 <= pos && pos + 2 <= format.len() {
            let after = format.skip(pos + 2);
            match find_char(after, '}') {
                Some(end) => if 0 <= end < after.len() {
                    format.take(pos) + value_or_empty(vars, after.take(end)) + spec_render(
                        after.skip(end + 1),
                        vars,
                    )
                } else {
                    format
                },
                None => format.take(pos) + open_brace() + spec_render(after, vars),
            }
        } else {
            format
        },
    }
}

/// Render `format` against `ctx`.
pub fn render(format: &str, ctx: &FormatContext) -> (out: String)
    ensures
        out@ == spec_render(format@, ctx@),
{
    let f = chars_of(format);
    let pat: Vec<char> = vec!['#', '{'];
    let mut out: Vec<char> = Vec::new();
    let mut rest = f;
    loop
        invariant
            pat@ == open_brace(),
            spec_render(format@, ctx@) == out@ + spec_render(rest@, ctx@),
        decreases rest.len(),
    {
        match find_from_exec(&rest, &pat, 0) {
            None => {
                extend(&mut out, &rest);
                return string_of(&out);
            },
            Some(pos) => {
                proof {
                    crate::text::lemma_find_from_sound(rest@, pat@, 0);
                }
                let head = slice(&rest, 0, pos);
                let after = slice(&rest, pos + 2, rest.len());
                assert(after@ == rest@.skip(pos + 2));
                match find_char_exec(&after, '}', 0) {
                    Some(end) => {
                        proof {
                            crate::text::lemma_find_char_from_sound(after@, '}', 0);
                        }
                        let name = slice(&after, 0, end);
                        let name_s = string_of(&name);
                        extend(&mut out, &head);
                        match ctx.lookup(name_s.as_str()) {
                            Some(v) => {
                                let vc = chars_of(v);
                                extend(&mut out, &vc);
                            },
                            None => {},
                        }
                        let next = slice(&after, end + 1, after.len());
                        assert(next@ == after@.skip(end + 1));
                        assert(head@ == rest@.take(pos as int));
                        rest = next;
                    },
                    None => {
                        extend(&mut out, &head);
                        extend(&mut out, &pat);
                        assert(head@ == rest@.take(pos as int));
                        rest = after;
                    },
                }
            },
        }
    }
}

/// Text without a `#{` opener renders verbatim, whatever the bindings.
pub proof fn law_plain_text_verbatim(format: Seq<char>, vars: Seq<Binding>)
    requires
        !contains(format, open_brace()),
    ensures
        spec_render(format, vars) == format,
{
}

} // verus!
