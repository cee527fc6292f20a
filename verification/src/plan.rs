//! Straight-line procedures.  A [`Plan`] is a fixed list of actions that must
//! be performed in order; the first one that does not succeed stops the plan
//! for good.

use crate::action::{failure_reason, reason_of, Action, ActionView, Outcome, OutcomeView};
use vstd::prelude::*;

verus! {

/// Views of a list of actions, element by element.
pub open spec fn actions_view(steps: Seq<Action>) -> Seq<ActionView> {
    Seq::new(steps.len(), |i: int| steps[i]@)
}

/// Mathematical value of a [`Plan`]: the steps, how many of them have
/// succeeded so far, and the reason the next one failed, if it did.
pub struct PlanView {
    pub steps: Seq<ActionView>,
    pub completed: nat,
    pub failure: Option<Seq<char>>,
}

impl PlanView {
    /// A plan on which nothing has been attempted yet.
    pub open spec fn start(steps: Seq<ActionView>) -> PlanView {
        PlanView { steps, completed: 0, failure: None }
    }

    /// The progress counter stays within the plan, and a recorded failure
    /// always belongs to a step of the plan.
    pub open spec fn wf(self) -> bool {
        &&& self.completed <= self.steps.len()
        &&& self.failure is Some ==> self.completed < self.steps.len()
    }

    /// The step to perform next, if the plan is still running.
    pub open spec fn pending(self) -> Option<ActionView> {
        if self.failure is None && self.completed < self.steps.len() {
            Some(self.steps[self.completed as int])
        } else {
            None
        }
    }

    /// Every step has succeeded.
    pub open spec fn succeeded(self) -> bool {
        self.failure is None && self.completed == self.steps.len()
    }

    /// The plan after the pending step ended with `outcome`.  Only
    /// [`OutcomeView::Done`] counts as success; anything else stops the plan.
    /// A plan with nothing pending does not change.
    pub open spec fn advance(self, outcome: OutcomeView) -> PlanView {
        if self.pending() is None {
            self
        } else if outcome is Done {
            PlanView { completed: self.completed + 1, ..self }
        } else {
            PlanView { failure: Some(failure_reason(outcome)), ..self }
        }
    }

    /// The plan after a whole sequence of outcomes, oldest first.
    pub open spec fn run(self, outcomes: Seq<OutcomeView>) -> PlanView
        decreases outcomes.len(),
    {
        if outcomes.len() == 0 {
            self
        } else {
            self.run(outcomes.drop_last()).advance(outcomes.last())
        }
    }
}

/// A list of actions together with the progress made on it.
#[derive(Debug)]
pub struct Plan {
    steps: Vec<Action>,
    completed: usize,
    failure: Option<String>,
}

impl View for Plan {
    type V = PlanView;

    closed spec fn view(&self) -> PlanView {
        PlanView {
            steps: actions_view(self.steps@),
            completed: self.completed as nat,
            failure: self.failure.deep_view(),
        }
    }
}

impl Plan {
    #[verifier::type_invariant]
    spec fn inv(&self) -> bool {
        &&& self.completed <= self.steps.len()
        &&& self.failure is Some ==> self.completed < self.steps.len()
    }

    /// Starts a plan over `steps`.
    pub fn new(steps: Vec<Action>) -> (plan: Plan)
        ensures
            plan@ == PlanView::start(actions_view(steps@)),
    {
        Plan { steps, completed: 0, failure: None }
    }

    /// Number of steps in the plan, attempted or not.
    pub fn len(&self) -> (n: usize)
        ensures
            n == self@.steps.len(),
    {
        self.steps.len()
    }

    /// The `index`-th step of the plan, whether or not it was attempted.
    pub fn step(&self, index: usize) -> (step: Option<&Action>)
        ensures
            index < self@.steps.len() ==> step is Some && step->0@ == self@.steps[index as int],
            index >= self@.steps.len() ==> step is None,
    {
        if index < self.steps.len() {
            Some(&self.steps[index])
        } else {
            None
        }
    }

    /// Number of steps that have succeeded.
    pub fn completed(&self) -> (n: usize)
        ensures
            n == self@.completed,
            self@.wf(),
    {
        proof {
            use_type_invariant(self);
        }
        self.completed
    }

    /// The step to perform next, or `None` once the plan has stopped.
    pub fn pending(&self) -> (step: Option<&Action>)
        ensures
            step.deep_view() == self@.pending(),
    {
        proof {
            use_type_invariant(self);
        }
        if self.failure.is_none() && self.completed < self.steps.len() {
            Some(&self.steps[self.completed])
        } else {
            None
        }
    }

    /// Whether every step has succeeded.
    pub fn succeeded(&self) -> (yes: bool)
        ensures
            yes == self@.succeeded(),
    {
        proof {
            use_type_invariant(self);
        }
        self.failure.is_none() && self.completed == self.steps.len()
    }

    /// The reason the plan stopped early, if it did.  The step that failed is
    /// the one numbered [`Plan::completed`].
    pub fn failure(&self) -> (reason: Option<String>)
        ensures
            reason.deep_view() == self@.failure,
    {
        match &self.failure {
            Some(reason) => Some(reason.clone()),
            None => None,
        }
    }

    /// Records how the pending step ended.
    pub fn advance(self, outcome: &Outcome) -> (next: Plan)
        ensures
            next@ == self@.advance(outcome@),
    {
        proof {
            use_type_invariant(&self);
        }
        if self.failure.is_some() || self.completed >= self.steps.len() {
            self
        } else {
            match outcome {
                Outcome::Done => Plan {
                    steps: self.steps,
                    completed: self.completed + 1,
                    failure: None,
                },
                _ => Plan {
                    steps: self.steps,
                    completed: self.completed,
                    failure: Some(reason_of(outcome)),
                },
            }
        }
    }
}

/// Running a plan never loses well-formedness, never changes its steps, and
/// never gets ahead of the outcomes it was given.
pub proof fn lemma_run_preserves_shape(plan: PlanView, outcomes: Seq<OutcomeView>)
    requires
        plan.wf(),
    ensures
        plan.run(outcomes).wf(),
        plan.run(outcomes).steps == plan.steps,
        plan.completed <= plan.run(outcomes).completed <= plan.completed + outcomes.len(),
    decreases outcomes.len(),
{
    if outcomes.len() > 0 {
        lemma_run_preserves_shape(plan, outcomes.drop_last());
    }
}

/// Steps are attempted strictly in order.  After any sequence of outcomes, a
/// fresh plan has completed exactly the steps whose outcomes were all
/// successes, each preceded only by successes; if it stopped early, the
/// outcome at the position where it stopped was not a success, and that
/// outcome's reason is the recorded failure.
pub proof fn lemma_run_in_order(steps: Seq<ActionView>, outcomes: Seq<OutcomeView>)
    ensures
        ({
            let end = PlanView::start(steps).run(outcomes);
            &&& end.steps == steps
            &&& end.completed <= outcomes.len()
            &&& end.completed <= steps.len()
            &&& forall|j: int| 0 <= j < end.completed ==> outcomes[j] is Done
            &&& end.failure is Some ==> {
                &&& end.completed < outcomes.len()
                &&& end.completed < steps.len()
                &&& !(outcomes[end.completed as int] is Done)
                &&& end.failure == Some(failure_reason(outcomes[end.completed as int]))
            }
            &&& end.failure is None ==> end.completed == outcomes.len() || end.completed
                == steps.len()
        }),
    decreases outcomes.len(),
{
    if outcomes.len() > 0 {
        let shorter = outcomes.drop_last();
        lemma_run_in_order(steps, shorter);
        let before = PlanView::start(steps).run(shorter);
        assert forall|j: int| 0 <= j < before.completed implies outcomes[j] == shorter[j] by {}
    }
}

/// A step is pending after `outcomes` exactly when it is the step numbered
/// `outcomes.len()` and every earlier step has succeeded.
pub proof fn lemma_pending_after(steps: Seq<ActionView>, outcomes: Seq<OutcomeView>)
    ensures
        PlanView::start(steps).run(outcomes).pending() == (if outcomes.len() < steps.len()
            && (forall|j: int| 0 <= j < outcomes.len() ==> outcomes[j] is Done) {
            Some(steps[outcomes.len() as int])
        } else {
            None
        }),
{
    lemma_run_in_order(steps, outcomes);
}

/// If every step's outcome is a success, the plan succeeds.
pub proof fn lemma_all_done_succeeds(steps: Seq<ActionView>, outcomes: Seq<OutcomeView>)
    requires
        outcomes.len() >= steps.len(),
        forall|j: int| 0 <= j < steps.len() ==> outcomes[j] is Done,
    ensures
        PlanView::start(steps).run(outcomes).succeeded(),
{
    lemma_run_in_order(steps, outcomes);
}

} // verus!
