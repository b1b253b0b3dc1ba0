use suji_runtime::helpers::{loop_step, should_break_loop, should_continue_loop, BodyOutcome, LoopStep};

#[test]
fn test_should_break_loop_unlabeled() {
    // Unlabeled break should target any loop
    assert!(should_break_loop(None, &None));
    assert!(should_break_loop(Some("outer"), &None));
}

#[test]
fn test_should_break_loop_labeled() {
    // Labeled break should only target matching loop
    assert!(should_break_loop(Some("outer"), &Some("outer".to_string())));
    assert!(!should_break_loop(Some("inner"), &Some("outer".to_string())));
    assert!(!should_break_loop(None, &Some("outer".to_string())));
}

#[test]
fn test_should_continue_loop_unlabeled() {
    // Unlabeled continue should target any loop
    assert!(should_continue_loop(None, &None));
    assert!(should_continue_loop(Some("outer"), &None));
}

#[test]
fn test_should_continue_loop_labeled() {
    // Labeled continue should only target matching loop
    assert!(should_continue_loop(Some("outer"), &Some("outer".to_string())));
    assert!(!should_continue_loop(Some("inner"), &Some("outer".to_string())));
    assert!(!should_continue_loop(None, &Some("outer".to_string())));
}

#[test]
fn labels_compare_whole_names() {
    assert!(!should_break_loop(Some("out"), &Some("outer".to_string())));
    assert!(!should_continue_loop(Some("outer"), &Some("out".to_string())));
    assert!(should_break_loop(Some(""), &Some(String::new())));
}

#[test]
fn loop_steps_after_the_body() {
    let outer = Some("outer".to_string());
    assert_eq!(loop_step(Some("inner"), &BodyOutcome::Finished), LoopStep::Next);
    assert_eq!(loop_step(None, &BodyOutcome::Break(None)), LoopStep::Exit);
    assert_eq!(loop_step(Some("inner"), &BodyOutcome::Break(outer.clone())), LoopStep::Propagate);
    assert_eq!(loop_step(Some("outer"), &BodyOutcome::Break(outer.clone())), LoopStep::Exit);
    assert_eq!(loop_step(Some("inner"), &BodyOutcome::Continue(None)), LoopStep::Next);
    assert_eq!(loop_step(None, &BodyOutcome::Continue(outer.clone())), LoopStep::Propagate);
    assert_eq!(loop_step(Some("outer"), &BodyOutcome::Continue(outer)), LoopStep::Next);
}
