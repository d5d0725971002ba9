//! Binding discipline for the pdfium library: its bindings can be set only
//! once per process, so binding is attempted at most once and its outcome
//! is remembered; every later request is answered from that outcome.

use vstd::prelude::*;

verus! {

/// Where the process stands with the pdfium bindings.
#[derive(Clone, Copy, PartialEq, Eq, Structural, Debug)]
pub enum PdfiumBindState {
    Unbound,
    Ready,
    Failed,
}

/// What to do with a request, given the binding state.
#[derive(Clone, Copy, PartialEq, Eq, Structural, Debug)]
pub enum PdfiumAction {
    /// Attempt the one binding, then ask again with its outcome recorded.
    Bind,
    /// Run the task against the bound library.
    Run,
    /// Binding failed earlier: the request has no answer.
    GiveUp,
}

pub open spec fn spec_action(state: PdfiumBindState) -> PdfiumAction {
    match state {
        PdfiumBindState::Unbound => PdfiumAction::Bind,
        PdfiumBindState::Ready => PdfiumAction::Run,
        PdfiumBindState::Failed => PdfiumAction::GiveUp,
    }
}

pub fn pdfium_action(state: PdfiumBindState) -> (a: PdfiumAction)
    ensures
        a == spec_action(state),
{
    match state {
        PdfiumBindState::Unbound => PdfiumAction::Bind,
        PdfiumBindState::Ready => PdfiumAction::Run,
        PdfiumBindState::Failed => PdfiumAction::GiveUp,
    }
}

pub open spec fn spec_after_bind(state: PdfiumBindState, bound: bool) -> PdfiumBindState {
    match state {
        PdfiumBindState::Unbound => if bound {
            PdfiumBindState::Ready
        } else {
            PdfiumBindState::Failed
        },
        other => other,
    }
}

/// Records the outcome of a binding attempt; a settled state is kept.
pub fn after_bind(state: PdfiumBindState, bound: bool) -> (s: PdfiumBindState)
    ensures
        s == spec_after_bind(state, bound),
{
    match state {
        PdfiumBindState::Unbound => if bound {
            PdfiumBindState::Ready
        } else {
            PdfiumBindState::Failed
        },
        other => other,
    }
}

/// Binding is attempted at most once: after an attempt the state is
/// settled, no further attempt is asked for, and no later outcome changes
/// it.
pub proof fn lemma_bind_at_most_once(state: PdfiumBindState, first: bool, later: bool)
    ensures
        spec_action(spec_after_bind(state, first)) != PdfiumAction::Bind,
        spec_after_bind(spec_after_bind(state, first), later) == spec_after_bind(state, first),
{
}

} // verus!
