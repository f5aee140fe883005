//! A hierarchical finite-state-machine engine.
//!
//! States may be nested under parent states. When the current state has no
//! transition for an incoming event, the search moves up the hierarchy;
//! when no ancestor has one either, the error handler of the nearest state
//! that declares one is reported. Actions and handlers are procedures that
//! the caller keeps; the engine names the one to run in its `Outcome`.
pub mod builder;
pub mod choice;
pub mod laws;
pub mod machine;
pub mod model;
pub mod transition;

pub use builder::Builder;
pub use machine::{Machine, Outcome, StateMachine};
pub use transition::{ProcedureId, StateTransition, Transition};
