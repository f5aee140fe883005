use nested_fsm::{Builder, Machine, Outcome, StateMachine, StateTransition, Transition};

fn s(x: &str) -> String {
    x.to_string()
}

fn targets(xs: &[&str]) -> Vec<String> {
    xs.iter().map(|x| x.to_string()).collect()
}

const UNLOCKING: usize = 0;
const LOCKING: usize = 1;
const HANDLER: usize = 2;

fn turnstile() -> Machine {
    let mut b = Builder::new();
    b.on(&s("Locked"), &s("Coin"), &targets(&["Unlocked"]), Some(UNLOCKING), None);
    b.on(&s("Locked"), &s("Push"), &targets(&["Locked"]), None, None);
    b.on(&s("Unlocked"), &s("Coin"), &targets(&["Unlocked"]), None, None);
    b.on(&s("Unlocked"), &s("Push"), &targets(&["Locked"]), Some(LOCKING), None);
    b.build(s("Locked"))
}

#[test]
fn two_state_turnstile() {
    let mut m = turnstile();
    let r = m.transition(s("Coin"));
    assert_eq!(r, Outcome::Applied { target: s("Unlocked"), action: Some(UNLOCKING) });
    assert_eq!(m.current_state(), "Unlocked");
    let r = m.transition(s("Push"));
    assert_eq!(r, Outcome::Applied { target: s("Locked"), action: Some(LOCKING) });
    assert_eq!(m.current_state(), "Locked");
    let r = m.transition(s("Push"));
    assert_eq!(r, Outcome::Applied { target: s("Locked"), action: None });
    assert_eq!(m.current_state(), "Locked");
}

#[test]
fn undefined_target_leaves_state() {
    let mut b = Builder::new();
    b.on(&s("S"), &s("X"), &targets(&["T"]), Some(UNLOCKING), None);
    let mut m = b.build(s("S"));
    let r = m.transition(s("X"));
    assert_eq!(r, Outcome::UndefinedTargetState { begin_state: s("S"), target: s("T") });
    assert_eq!(m.current_state(), "S");
    // the machine goes on accepting events
    let r = m.transition(s("X"));
    assert_eq!(r, Outcome::UndefinedTargetState { begin_state: s("S"), target: s("T") });
    assert_eq!(m.current_state(), "S");
}

fn nested_with_root_handler() -> Machine {
    let mut b = Builder::new();
    b.on(&s("Pressed"), &s("Push"), &targets(&["Locked"]), None, None);
    b.on(&s("Unlocked"), &s("Coin"), &targets(&["Unlocked"]), None, None);
    b.on(&s("Unlocked"), &s("Push"), &targets(&["Pressed"]), None, None);
    b.on(&s("Locked"), &s("Coin"), &targets(&["Unlocked"]), None, Some(HANDLER));
    b.on(&s("Locked"), &s("Push"), &targets(&["Locked"]), None, Some(HANDLER));
    b.child(&s("Pressed"), &s("Unlocked"));
    b.child(&s("Unlocked"), &s("Locked"));
    b.build(s("Pressed"))
}

#[test]
fn root_handler_runs_for_unknown_event() {
    let mut m = nested_with_root_handler();
    let r = m.transition(s("Z"));
    assert_eq!(r, Outcome::UnhandledEvent { handler: HANDLER });
    assert_eq!(m.current_state(), "Pressed");
}

#[test]
fn fallback_over_two_levels() {
    let mut b = Builder::new();
    b.on(&s("C"), &s("Other"), &targets(&["P"]), None, None);
    b.on(&s("P"), &s("Other"), &targets(&["C"]), None, None);
    b.on(&s("R"), &s("E"), &targets(&["P"]), Some(7), None);
    b.child(&s("C"), &s("P"));
    b.child(&s("P"), &s("R"));
    let mut m = b.build(s("C"));
    let r = m.transition(s("E"));
    assert_eq!(r, Outcome::Applied { target: s("P"), action: Some(7) });
    assert_eq!(m.current_state(), "P");
}

#[test]
fn child_inherits_parent_transition() {
    let mut m = nested_with_root_handler();
    let r = m.transition(s("Coin"));
    assert_eq!(r, Outcome::Applied { target: s("Unlocked"), action: None });
    assert_eq!(m.current_state(), "Unlocked");
}

#[test]
fn unmatched_event_is_a_no_op() {
    let mut m = turnstile();
    for _ in 0..3 {
        let r = m.transition(s("Kick"));
        assert_eq!(r, Outcome::NoHandlerAvailable);
        assert_eq!(m.current_state(), "Locked");
    }
}

#[test]
fn leaf_without_transitions_drops_event() {
    let mut m = Machine::new(s("Alone"), Vec::new(), Vec::new());
    assert_eq!(m.transition(s("Anything")), Outcome::NoHandlerAvailable);
    assert_eq!(m.current_state(), "Alone");
}

#[test]
fn nearest_handler_wins() {
    let mut b = Builder::new();
    b.on(&s("Leaf"), &s("A"), &targets(&["Leaf"]), None, None);
    b.on(&s("Mid"), &s("B"), &targets(&["Mid"]), None, Some(5));
    b.on(&s("Top"), &s("C"), &targets(&["Top"]), None, Some(9));
    b.child(&s("Leaf"), &s("Mid"));
    b.child(&s("Mid"), &s("Top"));
    let mut m = b.build(s("Leaf"));
    assert_eq!(m.transition(s("Z")), Outcome::UnhandledEvent { handler: 5 });
    assert_eq!(m.current_state(), "Leaf");

    let mut b = Builder::new();
    b.on(&s("Leaf"), &s("A"), &targets(&["Leaf"]), None, Some(1));
    b.on(&s("Mid"), &s("B"), &targets(&["Mid"]), None, Some(5));
    b.child(&s("Leaf"), &s("Mid"));
    let mut m = b.build(s("Leaf"));
    assert_eq!(m.transition(s("Z")), Outcome::UnhandledEvent { handler: 1 });
}

#[test]
fn handler_captured_though_parent_matches_nothing() {
    // the handler of the child is kept even when the walk goes on to the root
    let mut b = Builder::new();
    b.on(&s("Child"), &s("A"), &targets(&["Child"]), None, Some(3));
    b.on(&s("Root"), &s("B"), &targets(&["Root"]), None, Some(4));
    b.child(&s("Child"), &s("Root"));
    let mut m = b.build(s("Child"));
    assert_eq!(m.transition(s("B")), Outcome::Applied { target: s("Root"), action: None });
    assert_eq!(m.current_state(), "Root");
    assert_eq!(m.transition(s("Z")), Outcome::UnhandledEvent { handler: 4 });
}

fn three_way() -> Machine {
    let mut b = Builder::new();
    b.on(&s("Idle"), &s("Push"), &targets(&["A", "B", "C"]), None, None);
    b.on(&s("A"), &s("Back"), &targets(&["Idle"]), None, None);
    b.on(&s("B"), &s("Back"), &targets(&["Idle"]), None, None);
    b.on(&s("C"), &s("Back"), &targets(&["Idle"]), None, None);
    b.build(s("Idle"))
}

#[test]
fn nondeterministic_choice_is_fair() {
    let mut m = three_way();
    assert_eq!(m.candidate_count(&s("Push")), 3);
    let mut counts = [0usize; 3];
    let trials = 3000;
    for _ in 0..trials {
        m.transition(s("Push"));
        match m.current_state().as_str() {
            "A" => counts[0] += 1,
            "B" => counts[1] += 1,
            "C" => counts[2] += 1,
            other => panic!("unexpected state {}", other),
        }
        m.transition(s("Back"));
        assert_eq!(m.current_state(), "Idle");
    }
    for c in counts.iter() {
        assert!(*c > 700, "counts {:?}", counts);
    }
}

#[test]
fn chosen_candidate_is_applied() {
    let names = ["A", "B", "C"];
    for (k, name) in names.iter().enumerate() {
        let mut m = three_way();
        let r = m.transition_with_choice(&s("Push"), k);
        assert_eq!(r, Outcome::Applied { target: s(name), action: None });
        assert_eq!(m.current_state(), *name);
    }
}

#[test]
fn states_stay_declared_over_a_run() {
    let mut m = nested_with_root_handler();
    let events = ["Push", "Coin", "Z", "Push", "Push", "Coin", "Q", "Push"];
    for e in events.iter() {
        let before = m.current_state().clone();
        m.transition(s(e));
        let now = m.current_state().clone();
        assert!(now == before || m.is_declared(&now));
    }
}

#[test]
fn table_queries() {
    let m = nested_with_root_handler();
    assert_eq!(m.lookup(&s("Unlocked"), &s("Push")), vec![2]);
    assert_eq!(m.lookup(&s("Locked"), &s("Coin")), vec![3]);
    assert!(m.lookup(&s("Pressed"), &s("Coin")).is_empty());
    assert_eq!(m.parent_of(&s("Pressed")), Some(s("Unlocked")));
    assert_eq!(m.parent_of(&s("Unlocked")), Some(s("Locked")));
    assert_eq!(m.parent_of(&s("Locked")), None);
    assert!(m.is_declared(&s("Pressed")));
    assert!(!m.is_declared(&s("Nowhere")));
    assert_eq!(m.default_handler(&s("Locked")), Some(HANDLER));
    assert_eq!(m.default_handler(&s("Pressed")), None);
    let (found, handler) = m.candidates(&s("Coin"));
    assert_eq!(found, vec![1]);
    assert_eq!(handler, None);
    assert_eq!(m.candidate_count(&s("Z")), 0);
}

#[test]
fn builder_emits_one_row_per_target() {
    let m = three_way();
    assert_eq!(m.lookup(&s("Idle"), &s("Push")), vec![0, 1, 2]);
    let t = StateTransition::new(s("Idle"), s("B"), s("Push"), Some(1), Some(2));
    assert_eq!(t.begin_state(), "Idle");
    assert_eq!(t.end_state(), "B");
    assert_eq!(t.event(), "Push");
    assert_eq!(t.action(), Some(&1));
    assert_eq!(t.handle_error(), Some(&2));
}

#[test]
fn cyclic_hierarchy_terminates() {
    let mut b = Builder::new();
    b.on(&s("A"), &s("Go"), &targets(&["B"]), None, Some(8));
    b.on(&s("B"), &s("Go"), &targets(&["A"]), None, None);
    b.child(&s("A"), &s("B"));
    b.child(&s("B"), &s("A"));
    let mut m = b.build(s("A"));
    assert_eq!(m.transition(s("Stop")), Outcome::UnhandledEvent { handler: 8 });
    assert_eq!(m.current_state(), "A");
}
