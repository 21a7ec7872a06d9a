use vstd::prelude::*;

use crate::render::{render_line, report_line};
use crate::syntax::ExprNode;
use crate::walk::{Step, StepView, steps, views, walk_steps};

verus! {

/// The arguments of the containment debug command: the revision to look for,
/// and the revset expression to explain.
pub struct DebugRevsetContainedInArgs {
    target: String,
    expression: String,
}

/// The ghost form of the arguments: the target and the expression text.
impl View for DebugRevsetContainedInArgs {
    type V = (Seq<char>, Seq<char>);

    closed spec fn view(&self) -> (Seq<char>, Seq<char>) {
        (self.target@, self.expression@)
    }
}

impl DebugRevsetContainedInArgs {
    pub fn new(target: String, expression: String) -> (r: Self)
        ensures
            r@ == (target@, expression@),
    {
        DebugRevsetContainedInArgs { target, expression }
    }

    /// The target revision, as written.
    pub fn target(&self) -> (r: &String)
        ensures
            r@ == self@.0,
    {
        &self.target
    }

    /// The expression to debug, as written.
    pub fn expression(&self) -> (r: &String)
        ensures
            r@ == self@.1,
    {
        &self.expression
    }
}

pub open spec fn nanos_per_milli() -> nat {
    1_000_000
}

/// Whole milliseconds in a span of nanoseconds, rounded down.
pub open spec fn millis(ns: nat) -> nat {
    ns / nanos_per_milli()
}

/// The ghost state of a containment walk.
pub struct WalkView {
    /// Every step of the walk, in order.
    pub steps: Seq<StepView>,
    /// How many steps have been reported.
    pub done: nat,
    /// When the last line was reported, in nanoseconds since the walk started.
    pub prev_ns: nat,
}

/// The decisions of the containment debug walk. For each visited node in
/// turn, the caller evaluates the node's subexpression intersected with the
/// target, and hands back whether that set is non-empty and the time elapsed
/// since the walk started; the walk answers with the report line.
pub struct ContainedInWalk {
    steps: Vec<Step>,
    done: usize,
    prev_ns: u64,
}

impl View for ContainedInWalk {
    type V = WalkView;

    closed spec fn view(&self) -> WalkView {
        WalkView { steps: views(self.steps@), done: self.done as nat, prev_ns: self.prev_ns as nat }
    }
}

impl ContainedInWalk {
    pub open spec fn wf(&self) -> bool {
        self@.done <= self@.steps.len()
    }

    /// A walk over `root` that has reported nothing yet.
    pub fn new(root: &ExprNode) -> (r: Self)
        ensures
            r.wf(),
            r@ == (WalkView { steps: steps(*root, Seq::empty(), Seq::empty()), done: 0, prev_ns: 0 }),
    {
        ContainedInWalk { steps: walk_steps(root), done: 0, prev_ns: 0 }
    }

    /// Whether every step has been reported.
    pub fn is_finished(&self) -> (r: bool)
        requires
            self.wf(),
        ensures
            r == (self@.done == self@.steps.len()),
    {
        self.done == self.steps.len()
    }

    /// The node to evaluate next, if any is left.
    pub fn next_step(&self) -> (r: Option<&Step>)
        requires
            self.wf(),
        ensures
            r is Some <==> self@.done < self@.steps.len(),
            r matches Some(s) ==> s@ == self@.steps[self@.done as int],
    {
        if self.done < self.steps.len() {
            Some(&self.steps[self.done])
        } else {
            None
        }
    }

    /// Reports the next step: `contained` says whether its subexpression meets
    /// the target, `elapsed_ns` is the time since the walk started. A clock
    /// that went back counts as no time passed since the previous line.
    pub fn record(&mut self, elapsed_ns: u64, contained: bool) -> (line: String)
        requires
            old(self).wf(),
            old(self)@.done < old(self)@.steps.len(),
        ensures
            final(self).wf(),
            line@ == report_line(
                millis(elapsed_ns as nat),
                if elapsed_ns >= old(self)@.prev_ns {
                    millis((elapsed_ns - old(self)@.prev_ns) as nat)
                } else {
                    0
                },
                contained,
                old(self)@.steps[old(self)@.done as int].indent,
                old(self)@.steps[old(self)@.done as int].text,
            ),
            final(self)@ == (WalkView {
                steps: old(self)@.steps,
                done: old(self)@.done + 1,
                prev_ns: elapsed_ns as nat,
            }),
    {
        let delta_ns: u64 = if elapsed_ns >= self.prev_ns {
            elapsed_ns - self.prev_ns
        } else {
            0
        };
        let i = self.done;
        assert(i < self.steps.len());
        let step = &self.steps[i];
        let line = render_line(elapsed_ns / 1_000_000, delta_ns / 1_000_000, contained, &step.indent, step.text.as_str());
        self.done = i + 1;
        self.prev_ns = elapsed_ns;
        line
    }
}

} // verus!
