//! The mathematical model of a transition table and its hierarchy, and of
//! the upward search that resolves an event.
use crate::transition::{ProcedureId, StateTransition};
use vstd::prelude::*;

verus! {

/// The rows of `rows` that begin in `state` on `event`, in table order.
pub open spec fn matching(rows: Seq<StateTransition>, state: Seq<char>, event: Seq<char>) -> Seq<
    StateTransition,
>
    decreases rows.len(),
{
    if rows.len() == 0 {
        Seq::empty()
    } else {
        let earlier = matching(rows.drop_last(), state, event);
        let t = rows.last();
        if t.begin_state@ == state && t.event@ == event {
            earlier.push(t)
        } else {
            earlier
        }
    }
}

/// The error handler declared at `state`: the first one set on a row that
/// begins there. No inheritance at this level.
pub open spec fn declared_handler(rows: Seq<StateTransition>, state: Seq<char>) -> Option<
    ProcedureId,
>
    decreases rows.len(),
{
    if rows.len() == 0 {
        None
    } else {
        let earlier = declared_handler(rows.drop_last(), state);
        if earlier is Some {
            earlier
        } else if rows.last().begin_state@ == state {
            rows.last().handle_error
        } else {
            None
        }
    }
}

/// Whether some row begins in `state`.
pub open spec fn is_declared_in(rows: Seq<StateTransition>, state: Seq<char>) -> bool {
    exists|i: int| 0 <= i < rows.len() && #[trigger] rows[i].begin_state@ == state
}

/// The parent of `state`: that of the first link `(child, parent)` whose
/// child it is.
pub open spec fn parent_in(links: Seq<(String, String)>, state: Seq<char>) -> Option<Seq<char>>
    decreases links.len(),
{
    if links.len() == 0 {
        None
    } else {
        let earlier = parent_in(links.drop_last(), state);
        if earlier is Some {
            earlier
        } else if links.last().0@ == state {
            Some(links.last().1@)
        } else {
            None
        }
    }
}

/// The upward search from `state` for `event`, visiting at most `fuel`
/// ancestors. `captured` is the handler met so far; the first one met is
/// kept. Gives the candidates of the first state that has any (empty when
/// none has) and the handler captured on the way.
pub open spec fn search(
    rows: Seq<StateTransition>,
    links: Seq<(String, String)>,
    state: Seq<char>,
    event: Seq<char>,
    captured: Option<ProcedureId>,
    fuel: nat,
) -> (Seq<StateTransition>, Option<ProcedureId>)
    decreases fuel,
{
    let handler = if captured is Some {
        captured
    } else {
        declared_handler(rows, state)
    };
    let found = matching(rows, state, event);
    if found.len() > 0 {
        (found, handler)
    } else if fuel > 0 && parent_in(links, state) is Some {
        search(rows, links, parent_in(links, state).unwrap(), event, handler, (fuel - 1) as nat)
    } else {
        (found, handler)
    }
}

/// The search as the machine runs it: an acyclic hierarchy of `n` links has
/// chains of at most `n` links, so `n` ancestors are enough; a cyclic one
/// cannot make the walk run forever.
pub open spec fn resolve(
    rows: Seq<StateTransition>,
    links: Seq<(String, String)>,
    state: Seq<char>,
    event: Seq<char>,
) -> (Seq<StateTransition>, Option<ProcedureId>) {
    search(rows, links, state, event, None, links.len())
}

/// Whether `choice` may select among the candidates for `event` at `state`:
/// any value when there are none, else an index among them.
pub open spec fn valid_choice(
    rows: Seq<StateTransition>,
    links: Seq<(String, String)>,
    state: Seq<char>,
    event: Seq<char>,
    choice: int,
) -> bool {
    let n = resolve(rows, links, state, event).0.len();
    n == 0 || 0 <= choice < n
}

/// Whether the candidate picked by `choice` is applied: there is one, and
/// its end state is declared.
pub open spec fn applies(
    rows: Seq<StateTransition>,
    links: Seq<(String, String)>,
    state: Seq<char>,
    event: Seq<char>,
    choice: int,
) -> bool {
    let found = resolve(rows, links, state, event).0;
    found.len() > 0 && is_declared_in(rows, found[choice].end_state@)
}

/// The state after `event` at `state`, with `choice` picking the candidate.
pub open spec fn next_state(
    rows: Seq<StateTransition>,
    links: Seq<(String, String)>,
    state: Seq<char>,
    event: Seq<char>,
    choice: int,
) -> Seq<char> {
    if applies(rows, links, state, event, choice) {
        resolve(rows, links, state, event).0[choice].end_state@
    } else {
        state
    }
}

/// The state after each of `events` in turn, `choices[i]` picking the
/// candidate for `events[i]`.
pub open spec fn run(
    rows: Seq<StateTransition>,
    links: Seq<(String, String)>,
    state: Seq<char>,
    events: Seq<Seq<char>>,
    choices: Seq<int>,
) -> Seq<char>
    decreases events.len(),
{
    if events.len() == 0 {
        state
    } else {
        run(
            rows,
            links,
            next_state(rows, links, state, events[0], choices[0]),
            events.drop_first(),
            choices.drop_first(),
        )
    }
}

} // verus!
