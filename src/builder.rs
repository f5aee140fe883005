//! A data-driven builder for the transition table and the hierarchy.
use crate::machine::{Machine, StateMachine};
use crate::transition::{ProcedureId, StateTransition};
use vstd::prelude::*;

verus! {

/// Whether `row` is the edge `state --event--> target` with the given
/// action and the declaring state's handler.
pub open spec fn is_row(
    row: StateTransition,
    state: Seq<char>,
    event: Seq<char>,
    target: Seq<char>,
    action: Option<ProcedureId>,
    handler: Option<ProcedureId>,
) -> bool {
    &&& row.begin_state@ == state
    &&& row.event@ == event
    &&& row.end_state@ == target
    &&& row.action == action
    &&& row.handle_error == handler
}

/// Collects transition rows and `(child, parent)` links, then builds a
/// machine from them.
pub struct Builder {
    transitions: Vec<StateTransition>,
    parent: Vec<(String, String)>,
}

impl Builder {
    pub closed spec fn rows(&self) -> Seq<StateTransition> {
        self.transitions@
    }

    pub closed spec fn links(&self) -> Seq<(String, String)> {
        self.parent@
    }

    pub fn new() -> (r: Builder)
        ensures
            r.rows().len() == 0,
            r.links().len() == 0,
    {
        Builder { transitions: Vec::new(), parent: Vec::new() }
    }

    /// Declares that `state` goes on `event` to one of `targets`, running
    /// `action`; `handler` is `state`'s error handler. Adds one row per
    /// target, in order.
    pub fn on(
        &mut self,
        state: &String,
        event: &String,
        targets: &Vec<String>,
        action: Option<ProcedureId>,
        handler: Option<ProcedureId>,
    )
        ensures
            final(self).links() == old(self).links(),
            final(self).rows().len() == old(self).rows().len() + targets@.len(),
            final(self).rows().take(old(self).rows().len() as int) == old(self).rows(),
            forall|j: int|
                0 <= j < targets@.len() ==> is_row(
                    #[trigger] final(self).rows()[old(self).rows().len() + j],
                    state@,
                    event@,
                    targets@[j]@,
                    action,
                    handler,
                ),
    {
        let ghost start = self.transitions@;
        let mut i: usize = 0;
        while i < targets.len()
            invariant
                i <= targets@.len(),
                self.parent@ == old(self).parent@,
                start == old(self).transitions@,
                self.transitions@.len() == start.len() + i,
                self.transitions@.take(start.len() as int) == start,
                forall|j: int|
                    0 <= j < i ==> is_row(
                        #[trigger] self.transitions@[start.len() + j],
                        state@,
                        event@,
                        targets@[j]@,
                        action,
                        handler,
                    ),
            decreases targets@.len() - i,
        {
            let row = StateTransition {
                begin_state: state.clone(),
                end_state: targets[i].clone(),
                event: event.clone(),
                action,
                handle_error: handler,
            };
            let ghost before = self.transitions@;
            self.transitions.push(row);
            proof {
                assert(self.transitions@.take(start.len() as int) =~= before.take(
                    start.len() as int,
                ));
                assert forall|j: int| 0 <= j < i + 1 implies is_row(
                    #[trigger] self.transitions@[start.len() + j],
                    state@,
                    event@,
                    targets@[j]@,
                    action,
                    handler,
                ) by {
                    if j < i {
                        assert(self.transitions@[start.len() + j] == before[start.len() + j]);
                    }
                }
            }
            i += 1;
        }
    }

    /// Declares `child` as a child state of `parent`.
    pub fn child(&mut self, child: &String, parent: &String)
        ensures
            final(self).rows() == old(self).rows(),
            final(self).links().len() == old(self).links().len() + 1,
            final(self).links().drop_last() == old(self).links(),
            final(self).links().last().0@ == child@,
            final(self).links().last().1@ == parent@,
    {
        self.parent.push((child.clone(), parent.clone()));
        proof {
            assert(self.parent@.drop_last() =~= old(self).parent@);
        }
    }

    /// A machine in `initial_state` over what was declared.
    pub fn build(self, initial_state: String) -> (r: Machine)
        ensures
            r.rows() == self.rows(),
            r.links() == self.links(),
            r.state() == initial_state,
    {
        Machine::new(initial_state, self.transitions, self.parent)
    }
}

} // verus!
