//! Transition rows: one `(begin_state, event) -> end_state` edge each.
use vstd::prelude::*;

verus! {

/// Identifies a zero-argument procedure (an action or an error handler)
/// that the caller keeps and runs when the engine names it.
pub type ProcedureId = usize;

/// One edge of a transition table.
pub trait Transition: Sized {
    type State;
    type Event;
    type Action;
    type HandleError;

    spec fn begin_state_spec(&self) -> Self::State;

    spec fn end_state_spec(&self) -> Self::State;

    spec fn event_spec(&self) -> Self::Event;

    spec fn action_spec(&self) -> Option<Self::Action>;

    spec fn handle_error_spec(&self) -> Option<Self::HandleError>;

    /// Builds an edge from its parts; `handle_error` is the fallback handler
    /// of the declaring state, copied onto each of its rows.
    fn new(
        begin_state: Self::State,
        end_state: Self::State,
        event: Self::Event,
        action: Option<Self::Action>,
        handle_error: Option<Self::HandleError>,
    ) -> (r: Self)
        ensures
            r.begin_state_spec() == begin_state,
            r.end_state_spec() == end_state,
            r.event_spec() == event,
            r.action_spec() == action,
            r.handle_error_spec() == handle_error,
    ;

    fn begin_state(&self) -> (r: &Self::State)
        ensures
            *r == self.begin_state_spec(),
    ;

    fn end_state(&self) -> (r: &Self::State)
        ensures
            *r == self.end_state_spec(),
    ;

    fn event(&self) -> (r: &Self::Event)
        ensures
            *r == self.event_spec(),
    ;

    fn action(&self) -> (r: Option<&Self::Action>)
        ensures
            r is Some <==> self.action_spec() is Some,
            r is Some ==> *r.unwrap() == self.action_spec().unwrap(),
    ;

    fn handle_error(&self) -> (r: Option<&Self::HandleError>)
        ensures
            r is Some <==> self.handle_error_spec() is Some,
            r is Some ==> *r.unwrap() == self.handle_error_spec().unwrap(),
    ;
}

/// A transition between named states on a named event, with optional
/// action and the declaring state's optional error handler.
#[derive(Debug, Clone, PartialEq, Eq)]
pub struct StateTransition {
    pub begin_state: String,
    pub end_state: String,
    pub event: String,
    pub action: Option<ProcedureId>,
    pub handle_error: Option<ProcedureId>,
}

impl Transition for StateTransition {
    type State = String;
    type Event = String;
    type Action = ProcedureId;
    type HandleError = ProcedureId;

    open spec fn begin_state_spec(&self) -> String {
        self.begin_state
    }

    open spec fn end_state_spec(&self) -> String {
        self.end_state
    }

    open spec fn event_spec(&self) -> String {
        self.event
    }

    open spec fn action_spec(&self) -> Option<ProcedureId> {
        self.action
    }

    open spec fn handle_error_spec(&self) -> Option<ProcedureId> {
        self.handle_error
    }

    fn new(
        begin_state: String,
        end_state: String,
        event: String,
        action: Option<ProcedureId>,
        handle_error: Option<ProcedureId>,
    ) -> (r: Self) {
        StateTransition { begin_state, end_state, event, action, handle_error }
    }

    fn begin_state(&self) -> (r: &String) {
        &self.begin_state
    }

    fn end_state(&self) -> (r: &String) {
        &self.end_state
    }

    fn event(&self) -> (r: &String) {
        &self.event
    }

    fn action(&self) -> (r: Option<&ProcedureId>) {
        self.action.as_ref()
    }

    fn handle_error(&self) -> (r: Option<&ProcedureId>) {
        self.handle_error.as_ref()
    }
}

} // verus!
