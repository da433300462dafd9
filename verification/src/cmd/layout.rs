//! Layout and option handlers.
//!
//! zellij's tiling model cannot honor tmux's absolute layout and option
//! requests, so these are accepted (exit 0) as no-ops. Agent tools re-query
//! live geometry afterward and adapt.
use super::{ok_out, Ctx, Output, OutputView};
use crate::cli::args::{InvocationView, ParsedInvocation};
use crate::error::{cat, res_view, ErrView, ShimError};
use crate::text::{chars_of, is};
use vstd::prelude::*;

verus! {

/// The accepted layout and option commands succeed silently; anything else is
/// not a layout command.
pub open spec fn layout_result(inv: InvocationView) -> Result<OutputView, ErrView> {
    let sub = inv.subcommand;
    if sub == "select-layout"@ || sub == "set-option"@ || sub == "set-window-option"@ || sub
        == "resize-pane"@ {
        Ok(ok_out())
    } else {
        Err(ErrView::BadArgs("layout: unhandled command "@ + sub))
    }
}

/// Accept a layout or option command as a no-op.
pub fn handle(inv: &ParsedInvocation, _ctx: &Ctx) -> (r: Result<Output, ShimError>)
    ensures
        match r {
            Ok(o) => layout_result(inv@) == Ok::<OutputView, ErrView>(o@),
            Err(e) => layout_result(inv@) == Err::<OutputView, ErrView>(e@),
        },
{
    let sub = chars_of(inv.subcommand.as_str());
    if is(&sub, "select-layout") || is(&sub, "set-option") || is(&sub, "set-window-option") || is(
        &sub,
        "resize-pane",
    ) {
        Ok(Output::ok())
    } else {
        Err(ShimError::BadArgs(cat("layout: unhandled command ", inv.subcommand.as_str())))
    }
}

} // verus!
