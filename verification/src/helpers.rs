//! Deciding which loop a labelled `break` or `continue` targets.

use vstd::prelude::*;
use crate::text::str_eq;

verus! {

/// The characters of an optional loop label.
pub open spec fn label_view(label: Option<&str>) -> Option<Seq<char>> {
    match label {
        Some(l) => Some(l@),
        None => None,
    }
}

/// The characters of an optional jump label.
pub open spec fn jump_label_view(label: Option<String>) -> Option<Seq<char>> {
    match label {
        Some(l) => Some(l@),
        None => None,
    }
}

/// A jump targets a loop when it carries no label (it then targets the
/// innermost loop), or when its label equals the loop's label.
pub open spec fn jump_targets(current_label: Option<Seq<char>>, jump_label: Option<Seq<char>>) -> bool {
    match jump_label {
        Some(target) => current_label == Some(target),
        None => true,
    }
}

fn label_matches(current_label: Option<&str>, jump_label: &Option<String>) -> (b: bool)
    ensures
        b == jump_targets(label_view(current_label), jump_label_view(*jump_label)),
{
    match jump_label {
        Some(target) => match current_label {
            Some(l) => str_eq(l, target.as_str()),
            None => false,
        },
        None => true,
    }
}

/// Whether a `break` with `break_label` should stop the loop labelled `current_label`.
pub fn should_break_loop(current_label: Option<&str>, break_label: &Option<String>) -> (b: bool)
    ensures
        b == jump_targets(label_view(current_label), jump_label_view(*break_label)),
{
    label_matches(current_label, break_label)
}

/// Whether a `continue` with `continue_label` should restart the loop labelled `current_label`.
pub fn should_continue_loop(current_label: Option<&str>, continue_label: &Option<String>) -> (b: bool)
    ensures
        b == jump_targets(label_view(current_label), jump_label_view(*continue_label)),
{
    label_matches(current_label, continue_label)
}

/// How one run of a loop body ended.
#[derive(Debug, PartialEq, Eq)]
pub enum BodyOutcome {
    /// The body ran to its end.
    Finished,
    /// A `break`, with its label if it has one.
    Break(Option<String>),
    /// A `continue`, with its label if it has one.
    Continue(Option<String>),
}

/// What a loop does after one run of its body.
#[derive(Debug, PartialEq, Eq)]
pub enum LoopStep {
    /// Run the body again (while the loop's own condition or items allow).
    Next,
    /// Stop this loop, which then gives `nil`.
    Exit,
    /// Stop this loop and hand the `break` or `continue` on to an enclosing loop.
    Propagate,
}

/// What the loop labelled `label` does after its body ended with `outcome`.
pub open spec fn loop_step_of(label: Option<Seq<char>>, outcome: BodyOutcome) -> LoopStep {
    match outcome {
        BodyOutcome::Finished => LoopStep::Next,
        BodyOutcome::Break(l) => if jump_targets(label, jump_label_view(l)) {
            LoopStep::Exit
        } else {
            LoopStep::Propagate
        },
        BodyOutcome::Continue(l) => if jump_targets(label, jump_label_view(l)) {
            LoopStep::Next
        } else {
            LoopStep::Propagate
        },
    }
}

/// The loops' decision after a run of the body: a `break` stops the loop it
/// targets, a `continue` restarts it, and a jump that targets another loop
/// leaves this one and goes on outward.
pub fn loop_step(label: Option<&str>, outcome: &BodyOutcome) -> (r: LoopStep)
    ensures
        r == loop_step_of(label_view(label), *outcome),
{
    match outcome {
        BodyOutcome::Finished => LoopStep::Next,
        BodyOutcome::Break(l) => if should_break_loop(label, l) {
            LoopStep::Exit
        } else {
            LoopStep::Propagate
        },
        BodyOutcome::Continue(l) => if should_continue_loop(label, l) {
            LoopStep::Next
        } else {
            LoopStep::Propagate
        },
    }
}

} // verus!
