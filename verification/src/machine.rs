//! Token-driven state machines: the outcome of a step, and the run of a
//! machine over a sequence of tokens up to the first refusal.

use vstd::prelude::*;
use crate::error::{Error, ErrorView};
use crate::tokens::Token;

verus! {

/// Where a token-driven machine stands after a run: the state in which it
/// came to a halt, and the refusal that stopped it, if one did. A step that
/// refuses a plain token leaves the state as it was; a step into a group may
/// stop inside the group.
pub struct Outcome<S> {
    pub state: S,
    pub error: Option<ErrorView>,
}

/// The outcome of a step that accepts its token and leads to `state`.
pub open spec fn accept<S>(state: S) -> Outcome<S> {
    Outcome { state, error: None }
}

/// The outcome of a step that refuses its token: the machine stays at
/// `state`.
pub open spec fn refuse<S>(state: S, error: ErrorView) -> Outcome<S> {
    Outcome { state, error: Some(error) }
}

/// The machine stands at `state` and reports `result`, as the outcome says.
pub open spec fn reaches<S>(outcome: Outcome<S>, state: S, result: Result<(), Error>) -> bool {
    &&& state == outcome.state
    &&& match result {
        Ok(_) => outcome.error is None,
        Err(error) => outcome.error == Some(error@),
    }
}

/// Feeds the tokens to `step` one after the other, from `state`, and stops
/// at the first refusal.
pub open spec fn run<S>(
    step: spec_fn(S, Token) -> Outcome<S>,
    state: S,
    tokens: Seq<Token>,
) -> Outcome<S>
    decreases tokens.len(),
{
    if tokens.len() == 0 {
        accept(state)
    } else {
        let before = run(step, state, tokens.drop_last());
        if before.error is Some {
            before
        } else {
            step(before.state, tokens.last())
        }
    }
}

/// A run that was refused on a prefix of the tokens is refused on all of
/// them, with the same outcome.
pub proof fn lemma_run_stops<S>(
    step: spec_fn(S, Token) -> Outcome<S>,
    state: S,
    tokens: Seq<Token>,
    k: int,
)
    requires
        0 <= k <= tokens.len(),
        run(step, state, tokens.take(k)).error is Some,
    ensures
        run(step, state, tokens) == run(step, state, tokens.take(k)),
    decreases tokens.len() - k,
{
    if k < tokens.len() {
        let shorter = tokens.drop_last();
        assert(shorter.take(k) =~= tokens.take(k));
        lemma_run_stops(step, state, shorter, k);
    } else {
        assert(tokens.take(k) =~= tokens);
    }
}

} // verus!
