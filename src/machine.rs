//! The machine: a current state over a fixed transition table and
//! hierarchy, and the resolver that moves it.
use crate::choice::random_index;
use crate::model::{
    applies, declared_handler, is_declared_in, matching, next_state, parent_in, resolve, search,
    valid_choice,
};
use crate::transition::{ProcedureId, StateTransition};
use vstd::prelude::*;

verus! {

/// What one call of `transition` did. The caller runs the procedure it
/// names, if any; ignoring it leaves the machine in a consistent state.
#[derive(Debug, Clone, PartialEq, Eq)]
pub enum Outcome {
    /// A transition was applied; `action` is to be run.
    Applied { target: String, action: Option<ProcedureId> },
    /// The chosen transition leads to a state that no row begins in; the
    /// state is unchanged.
    UndefinedTargetState { begin_state: String, target: String },
    /// No transition matched at the current state or any ancestor;
    /// `handler` is to be run and the state is unchanged.
    UnhandledEvent { handler: ProcedureId },
    /// No transition matched and no handler was met on the way up.
    NoHandlerAvailable,
}

/// The mathematical value of an `Outcome`.
pub ghost enum OutcomeView {
    Applied { target: Seq<char>, action: Option<ProcedureId> },
    UndefinedTargetState { begin_state: Seq<char>, target: Seq<char> },
    UnhandledEvent { handler: ProcedureId },
    NoHandlerAvailable,
}

impl View for Outcome {
    type V = OutcomeView;

    open spec fn view(&self) -> OutcomeView {
        match self {
            Outcome::Applied { target, action } => OutcomeView::Applied {
                target: target@,
                action: *action,
            },
            Outcome::UndefinedTargetState { begin_state, target } =>
                OutcomeView::UndefinedTargetState { begin_state: begin_state@, target: target@ },
            Outcome::UnhandledEvent { handler } => OutcomeView::UnhandledEvent {
                handler: *handler,
            },
            Outcome::NoHandlerAvailable => OutcomeView::NoHandlerAvailable,
        }
    }
}

/// The outcome of `event` at `state`, with `choice` picking the candidate.
pub open spec fn outcome_of(
    rows: Seq<StateTransition>,
    links: Seq<(String, String)>,
    state: Seq<char>,
    event: Seq<char>,
    choice: int,
) -> OutcomeView {
    let (found, handler) = resolve(rows, links, state, event);
    if found.len() == 0 {
        match handler {
            Some(h) => OutcomeView::UnhandledEvent { handler: h },
            None => OutcomeView::NoHandlerAvailable,
        }
    } else if applies(rows, links, state, event, choice) {
        OutcomeView::Applied { target: found[choice].end_state@, action: found[choice].action }
    } else {
        OutcomeView::UndefinedTargetState {
            begin_state: found[choice].begin_state@,
            target: found[choice].end_state@,
        }
    }
}

/// A state machine driven by events.
pub trait StateMachine: Sized {
    type State;
    type Event;
    type Edge;
    type Outcome;

    spec fn current_state_spec(&self) -> Self::State;

    /// Whether `state` is declared, that is, has an outgoing transition.
    spec fn is_declared_spec(&self, state: Self::State) -> bool;

    /// A machine in `initial_state` over the given transition rows and
    /// `(child, parent)` links.
    fn new(
        initial_state: Self::State,
        transitions: Vec<Self::Edge>,
        parent: Vec<(Self::State, Self::State)>,
    ) -> (r: Self)
        ensures
            r.current_state_spec() == initial_state,
    ;

    /// Dispatches `event`. The state either stays or becomes a declared one.
    fn transition(&mut self, event: Self::Event) -> (r: Self::Outcome)
        ensures
            final(self).current_state_spec() == old(self).current_state_spec()
                || final(self).is_declared_spec(final(self).current_state_spec()),
    ;
}

/// A hierarchical machine over named states and events.
pub struct Machine {
    transitions: Vec<StateTransition>,
    parent: Vec<(String, String)>,
    current_state: String,
}

impl Machine {
    /// The transition rows, in table order.
    pub closed spec fn rows(&self) -> Seq<StateTransition> {
        self.transitions@
    }

    /// The `(child, parent)` links of the hierarchy.
    pub closed spec fn links(&self) -> Seq<(String, String)> {
        self.parent@
    }

    pub closed spec fn state(&self) -> String {
        self.current_state
    }

    pub fn current_state(&self) -> (r: &String)
        ensures
            *r == self.state(),
    {
        &self.current_state
    }

    /// The indices of the rows that begin in `state` on `event`.
    pub fn lookup(&self, state: &String, event: &String) -> (r: Vec<usize>)
        ensures
            r@.len() == matching(self.rows(), state@, event@).len(),
            forall|j: int|
                #![trigger r@[j]]
                0 <= j < r@.len() ==> r@[j] < self.rows().len() && self.rows()[r@[j] as int]
                    == matching(self.rows(), state@, event@)[j],
    {
        let mut r: Vec<usize> = Vec::new();
        let mut i: usize = 0;
        while i < self.transitions.len()
            invariant
                i <= self.transitions@.len(),
                r@.len() == matching(self.transitions@.take(i as int), state@, event@).len(),
                forall|j: int|
                    #![trigger r@[j]]
                    0 <= j < r@.len() ==> r@[j] < i && self.transitions@[r@[j] as int]
                        == matching(self.transitions@.take(i as int), state@, event@)[j],
            decreases self.transitions@.len() - i,
        {
            proof {
                assert(self.transitions@.take(i + 1).drop_last() =~= self.transitions@.take(
                    i as int,
                ));
            }
            let ghost prev = matching(self.transitions@.take(i as int), state@, event@);
            let ghost before = r@;
            let t = &self.transitions[i];
            if t.begin_state == *state && t.event == *event {
                r.push(i);
                proof {
                    let next = matching(self.transitions@.take(i + 1), state@, event@);
                    assert(next == prev.push(self.transitions@[i as int]));
                    assert forall|j: int| 0 <= j < r@.len() implies r@[j] < i + 1
                        && self.transitions@[r@[j] as int] == next[j] by {
                        if j < r@.len() - 1 {
                            assert(r@[j] == before[j]);
                            assert(next[j] == prev[j]);
                        } else {
                            assert(r@[j] == i);
                        }
                    }
                }
            } else {
                proof {
                    assert(matching(self.transitions@.take(i + 1), state@, event@) == prev);
                }
            }
            i += 1;
        }
        proof {
            assert(self.transitions@.take(i as int) =~= self.transitions@);
        }
        r
    }

    /// The handler declared at `state` itself.
    pub fn default_handler(&self, state: &String) -> (r: Option<ProcedureId>)
        ensures
            r == declared_handler(self.rows(), state@),
    {
        let mut r: Option<ProcedureId> = None;
        let mut i: usize = 0;
        while i < self.transitions.len()
            invariant
                i <= self.transitions@.len(),
                r == declared_handler(self.transitions@.take(i as int), state@),
            decreases self.transitions@.len() - i,
        {
            proof {
                assert(self.transitions@.take(i + 1).drop_last() =~= self.transitions@.take(
                    i as int,
                ));
            }
            let t = &self.transitions[i];
            if r.is_none() && t.begin_state == *state {
                r = t.handle_error;
            }
            i += 1;
        }
        proof {
            assert(self.transitions@.take(i as int) =~= self.transitions@);
        }
        r
    }

    /// Whether some row begins in `state`.
    pub fn is_declared(&self, state: &String) -> (r: bool)
        ensures
            r == is_declared_in(self.rows(), state@),
    {
        let mut i: usize = 0;
        while i < self.transitions.len()
            invariant
                i <= self.transitions@.len(),
                forall|j: int| 0 <= j < i ==> self.transitions@[j].begin_state@ != state@,
            decreases self.transitions@.len() - i,
        {
            if self.transitions[i].begin_state == *state {
                return true;
            }
            i += 1;
        }
        false
    }

    /// The parent of `state` in the hierarchy.
    pub fn parent_of(&self, state: &String) -> (r: Option<String>)
        ensures
            r matches Some(p) ==> parent_in(self.links(), state@) == Some(p@),
            r is None ==> parent_in(self.links(), state@) is None,
    {
        let mut i: usize = 0;
        while i < self.parent.len()
            invariant
                i <= self.parent@.len(),
                parent_in(self.parent@.take(i as int), state@) is None,
            decreases self.parent@.len() - i,
        {
            proof {
                assert(self.parent@.take(i + 1).drop_last() =~= self.parent@.take(i as int));
            }
            if self.parent[i].0 == *state {
                proof {
                    lemma_parent_in_prefix(self.parent@, state@, i + 1);
                }
                return Some(self.parent[i].1.clone());
            }
            i += 1;
        }
        proof {
            assert(self.parent@.take(i as int) =~= self.parent@);
        }
        None
    }
}

impl Machine {
    /// The upward search for `event` from the current state: the indices of
    /// the candidate rows and the handler captured on the way.
    pub fn candidates(&self, event: &String) -> (r: (Vec<usize>, Option<ProcedureId>))
        ensures
            r.0@.len() == resolve(self.rows(), self.links(), self.state()@, event@).0.len(),
            forall|j: int|
                #![trigger r.0@[j]]
                0 <= j < r.0@.len() ==> r.0@[j] < self.rows().len() && self.rows()[r.0@[j] as int]
                    == resolve(self.rows(), self.links(), self.state()@, event@).0[j],
            r.1 == resolve(self.rows(), self.links(), self.state()@, event@).1,
    {
        let mut at: String = self.current_state.clone();
        let mut handler: Option<ProcedureId> = None;
        let mut fuel: usize = self.parent.len();
        loop
            invariant
                search(self.rows(), self.links(), at@, event@, handler, fuel as nat) == resolve(
                    self.rows(),
                    self.links(),
                    self.state()@,
                    event@,
                ),
            decreases fuel,
        {
            if handler.is_none() {
                handler = self.default_handler(&at);
            }
            let found = self.lookup(&at, event);
            if found.len() > 0 || fuel == 0 {
                return (found, handler);
            }
            match self.parent_of(&at) {
                Some(p) => {
                    at = p;
                    fuel -= 1;
                },
                None => {
                    return (found, handler);
                },
            }
        }
    }

    /// The number of candidate transitions for `event` at the current state.
    pub fn candidate_count(&self, event: &String) -> (r: usize)
        ensures
            r == resolve(self.rows(), self.links(), self.state()@, event@).0.len(),
    {
        let (found, _) = self.candidates(event);
        found.len()
    }

    /// Acts on the result of the search for `event`: applies the candidate
    /// at `choice`, or reports why nothing was applied.
    fn settle(
        &mut self,
        event: Ghost<Seq<char>>,
        found: Vec<usize>,
        handler: Option<ProcedureId>,
        choice: usize,
    ) -> (r: Outcome)
        requires
            found@.len() == resolve(old(self).rows(), old(self).links(), old(self).state()@, event@).0.len(),
            forall|j: int|
                #![trigger found@[j]]
                0 <= j < found@.len() ==> found@[j] < old(self).rows().len()
                    && old(self).rows()[found@[j] as int] == resolve(
                    old(self).rows(),
                    old(self).links(),
                    old(self).state()@,
                    event@,
                ).0[j],
            handler == resolve(old(self).rows(), old(self).links(), old(self).state()@, event@).1,
            valid_choice(old(self).rows(), old(self).links(), old(self).state()@, event@, choice as int),
        ensures
            final(self).rows() == old(self).rows(),
            final(self).links() == old(self).links(),
            r@ == outcome_of(old(self).rows(), old(self).links(), old(self).state()@, event@, choice as int),
            final(self).state()@ == next_state(old(self).rows(), old(self).links(), old(self).state()@, event@, choice as int),
            !applies(old(self).rows(), old(self).links(), old(self).state()@, event@, choice as int)
                ==> final(self).state() == old(self).state(),
    {
        if found.len() == 0 {
            match handler {
                Some(h) => Outcome::UnhandledEvent { handler: h },
                None => Outcome::NoHandlerAvailable,
            }
        } else {
            let k = found[choice];
            let target = self.transitions[k].end_state.clone();
            if self.is_declared(&target) {
                let action = self.transitions[k].action;
                self.current_state = target.clone();
                Outcome::Applied { target, action }
            } else {
                let begin_state = self.transitions[k].begin_state.clone();
                Outcome::UndefinedTargetState { begin_state, target }
            }
        }
    }

    /// Dispatches `event`, with `choice` picking among several candidates:
    /// a deterministic stand-in for the random pick of `transition`.
    pub fn transition_with_choice(&mut self, event: &String, choice: usize) -> (r: Outcome)
        requires
            valid_choice(old(self).rows(), old(self).links(), old(self).state()@, event@, choice as int),
        ensures
            final(self).rows() == old(self).rows(),
            final(self).links() == old(self).links(),
            r@ == outcome_of(old(self).rows(), old(self).links(), old(self).state()@, event@, choice as int),
            final(self).state()@ == next_state(old(self).rows(), old(self).links(), old(self).state()@, event@, choice as int),
            !applies(old(self).rows(), old(self).links(), old(self).state()@, event@, choice as int)
                ==> final(self).state() == old(self).state(),
    {
        let (found, handler) = self.candidates(event);
        self.settle(Ghost(event@), found, handler, choice)
    }
}

impl StateMachine for Machine {
    type State = String;
    type Event = String;
    type Edge = StateTransition;
    type Outcome = Outcome;

    open spec fn current_state_spec(&self) -> String {
        self.state()
    }

    open spec fn is_declared_spec(&self, state: String) -> bool {
        is_declared_in(self.rows(), state@)
    }

    fn new(
        initial_state: String,
        transitions: Vec<StateTransition>,
        parent: Vec<(String, String)>,
    ) -> (r: Machine)
        ensures
            r.rows() == transitions@,
            r.links() == parent@,
    {
        Machine { transitions, parent, current_state: initial_state }
    }

    /// Several candidates are picked among uniformly at random.
    fn transition(&mut self, event: String) -> (r: Outcome)
        ensures
            final(self).rows() == old(self).rows(),
            final(self).links() == old(self).links(),
            exists|k: int|
                #![trigger next_state(old(self).rows(), old(self).links(), old(self).state()@, event@, k)]
                valid_choice(old(self).rows(), old(self).links(), old(self).state()@, event@, k)
                && r@ == outcome_of(old(self).rows(), old(self).links(), old(self).state()@, event@, k)
                && final(self).state()@ == next_state(old(self).rows(), old(self).links(), old(self).state()@, event@, k)
                && (!applies(old(self).rows(), old(self).links(), old(self).state()@, event@, k)
                    ==> final(self).state() == old(self).state()),
    {
        let (found, handler) = self.candidates(&event);
        let choice: usize = if found.len() > 1 {
            random_index(found.len())
        } else {
            0
        };
        let r = self.settle(Ghost(event@), found, handler, choice);
        r
    }
}

/// A parent found in a prefix of the links is the parent in all of them.
proof fn lemma_parent_in_prefix(links: Seq<(String, String)>, state: Seq<char>, n: int)
    requires
        0 <= n <= links.len(),
        parent_in(links.take(n), state) is Some,
    ensures
        parent_in(links, state) == parent_in(links.take(n), state),
    decreases links.len() - n,
{
    if n < links.len() {
        assert(links.take(n + 1).drop_last() =~= links.take(n));
        assert(parent_in(links.take(n + 1), state) == parent_in(links.take(n), state));
        lemma_parent_in_prefix(links, state, n + 1);
    } else {
        assert(links.take(n) =~= links);
    }
}

} // verus!
