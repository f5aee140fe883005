//! Laws of the resolver, stated over the model and proved.
use crate::model::{declared_handler, is_declared_in, matching, next_state, parent_in, resolve, run, search};
use crate::transition::{ProcedureId, StateTransition};
use vstd::prelude::*;

verus! {

/// After any sequence of events, whatever candidates were picked, the
/// machine is in its initial state or in a declared state, never in an
/// undeclared one.
pub proof fn lemma_run_stays_declared(
    rows: Seq<StateTransition>,
    links: Seq<(String, String)>,
    state: Seq<char>,
    events: Seq<Seq<char>>,
    choices: Seq<int>,
)
    ensures
        run(rows, links, state, events, choices) == state || is_declared_in(
            rows,
            run(rows, links, state, events, choices),
        ),
    decreases events.len(),
{
    if events.len() > 0 {
        lemma_run_stays_declared(
            rows,
            links,
            next_state(rows, links, state, events[0], choices[0]),
            events.drop_first(),
            choices.drop_first(),
        );
    }
}

/// An event that matches no transition at the state or any of its
/// ancestors leaves the state as it is.
pub proof fn lemma_unmatched_event_keeps_state(
    rows: Seq<StateTransition>,
    links: Seq<(String, String)>,
    state: Seq<char>,
    event: Seq<char>,
    choice: int,
)
    requires
        resolve(rows, links, state, event).0.len() == 0,
    ensures
        next_state(rows, links, state, event, choice) == state,
{
}

/// A state's recorded parent comes from a link whose child it is.
proof fn lemma_parent_link(links: Seq<(String, String)>, state: Seq<char>) -> (i: int)
    requires
        parent_in(links, state) is Some,
    ensures
        0 <= i < links.len(),
        links[i].0@ == state,
        links[i].1@ == parent_in(links, state).unwrap(),
    decreases links.len(),
{
    if parent_in(links.drop_last(), state) is Some {
        lemma_parent_link(links.drop_last(), state)
    } else {
        links.len() - 1
    }
}

/// Two levels of fallback: from `child`, whose parent is `middle`, whose
/// parent is `root`, an event that only `root` has transitions for
/// resolves to `root`'s transitions.
pub proof fn lemma_fallback_two_levels(
    rows: Seq<StateTransition>,
    links: Seq<(String, String)>,
    child: Seq<char>,
    middle: Seq<char>,
    root: Seq<char>,
    event: Seq<char>,
)
    requires
        parent_in(links, child) == Some(middle),
        parent_in(links, middle) == Some(root),
        matching(rows, child, event).len() == 0,
        matching(rows, middle, event).len() == 0,
        matching(rows, root, event).len() > 0,
    ensures
        resolve(rows, links, child, event).0 == matching(rows, root, event),
{
    let i = lemma_parent_link(links, child);
    let j = lemma_parent_link(links, middle);
    assert(child != middle);
    assert(i != j);
    assert(links.len() >= 2);
    let h1 = declared_handler(rows, child);
    let h2 = if h1 is Some {
        h1
    } else {
        declared_handler(rows, middle)
    };
    assert(search(rows, links, child, event, None, links.len()) == search(
        rows,
        links,
        middle,
        event,
        h1,
        (links.len() - 1) as nat,
    ));
    assert(search(rows, links, middle, event, h1, (links.len() - 1) as nat) == search(
        rows,
        links,
        root,
        event,
        h2,
        (links.len() - 2) as nat,
    ));
}

/// Once a handler is captured, the rest of the walk keeps it.
proof fn lemma_captured_kept(
    rows: Seq<StateTransition>,
    links: Seq<(String, String)>,
    state: Seq<char>,
    event: Seq<char>,
    handler: ProcedureId,
    fuel: nat,
)
    ensures
        search(rows, links, state, event, Some(handler), fuel).1 == Some(handler),
    decreases fuel,
{
    if fuel > 0 && parent_in(links, state) is Some {
        lemma_captured_kept(rows, links, parent_in(links, state).unwrap(), event, handler, (fuel - 1) as nat);
    }
}

/// The handler reported is the nearest one: a state's own handler wins
/// over every ancestor's.
pub proof fn lemma_own_handler_first(
    rows: Seq<StateTransition>,
    links: Seq<(String, String)>,
    state: Seq<char>,
    event: Seq<char>,
)
    requires
        declared_handler(rows, state) is Some,
    ensures
        resolve(rows, links, state, event).1 == declared_handler(rows, state),
{
    let h = declared_handler(rows, state).unwrap();
    if links.len() > 0 && parent_in(links, state) is Some {
        lemma_captured_kept(rows, links, parent_in(links, state).unwrap(), event, h, (links.len() - 1) as nat);
    }
}

/// The handler reported is the nearest one: a state with no handler and no
/// transition for the event reports the handler that the walk from its
/// parent captures.
pub proof fn lemma_handler_from_parent(
    rows: Seq<StateTransition>,
    links: Seq<(String, String)>,
    state: Seq<char>,
    parent: Seq<char>,
    event: Seq<char>,
)
    requires
        declared_handler(rows, state) is None,
        matching(rows, state, event).len() == 0,
        parent_in(links, state) == Some(parent),
    ensures
        resolve(rows, links, state, event).1 == search(
            rows,
            links,
            parent,
            event,
            None,
            (links.len() - 1) as nat,
        ).1,
{
    lemma_parent_link(links, state);
}

} // verus!
