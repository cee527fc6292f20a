//! Root transition: turns a directory into the root filesystem of the
//! calling process and gets rid of the old root.

use crate::action::{failure_reason, Action, ActionView, MountFlags, OutcomeView};
use crate::plan::{actions_view, lemma_pending_after, lemma_run_in_order, Plan, PlanView};
use vstd::prelude::*;

verus! {

/// Directory inside the new root where the old root is parked.
pub open spec fn spec_old_root_dir(rootfs: Seq<char>) -> Seq<char> {
    rootfs + "/.old_root"@
}

/// Directory inside the new root where the old root is parked.
pub fn old_root_dir(rootfs: &str) -> (dir: String)
    ensures
        dir@ == spec_old_root_dir(rootfs@),
{
    String::from_str(rootfs).concat("/.old_root")
}

/// Number of operations in a root transition.
pub const ROOT_STEPS: usize = 10;

/// Position of the root switch itself.
pub const PIVOT_STEP: usize = 4;

/// Position at which the parked old root is removed.
pub const REMOVE_STEP: usize = 7;

/// The root transition for `rootfs`, one operation per entry:
///
/// 0. make the whole mount tree private, recursively;
/// 1. bind-mount `rootfs` onto itself, recursively, so that it is a mount
///    point;
/// 2. create the parking directory for the old root inside it;
/// 3. change into the new root;
/// 4. switch roots, with relative paths: the new root is `.`, the old root
///    goes to `.old_root`;
/// 5. change to `/`, which is now the new root;
/// 6. unmount the old root lazily;
/// 7. remove the parking directory;
/// 8. make sure `/proc` exists;
/// 9. mount a fresh `proc` filesystem there.
pub open spec fn root_transition_steps(rootfs: Seq<char>) -> Seq<ActionView> {
    seq![
        ActionView::Mount {
            source: None,
            target: "/"@,
            fstype: None,
            flags: MountFlags { bind: false, recursive: true, private: true },
        },
        ActionView::Mount {
            source: Some(rootfs),
            target: rootfs,
            fstype: None,
            flags: MountFlags { bind: true, recursive: true, private: false },
        },
        ActionView::CreateDirAll { path: spec_old_root_dir(rootfs) },
        ActionView::ChangeDir { path: rootfs },
        ActionView::PivotRoot { new_root: "."@, put_old: ".old_root"@ },
        ActionView::ChangeDir { path: "/"@ },
        ActionView::Unmount { target: "/.old_root"@, detach: true },
        ActionView::RemoveDirAll { path: "/.old_root"@ },
        ActionView::CreateDirAll { path: "/proc"@ },
        ActionView::Mount {
            source: Some("proc"@),
            target: "/proc"@,
            fstype: Some("proc"@),
            flags: MountFlags { bind: false, recursive: false, private: false },
        },
    ]
}

/// The operations of a root transition as a list.
pub fn root_transition(rootfs: &str) -> (steps: Vec<Action>)
    ensures
        actions_view(steps@) == root_transition_steps(rootfs@),
{
    let mut steps: Vec<Action> = Vec::new();
    steps.push(
        Action::Mount {
            source: None,
            target: String::from_str("/"),
            fstype: None,
            flags: MountFlags { bind: false, recursive: true, private: true },
        },
    );
    steps.push(
        Action::Mount {
            source: Some(String::from_str(rootfs)),
            target: String::from_str(rootfs),
            fstype: None,
            flags: MountFlags { bind: true, recursive: true, private: false },
        },
    );
    steps.push(Action::CreateDirAll { path: old_root_dir(rootfs) });
    steps.push(Action::ChangeDir { path: String::from_str(rootfs) });
    steps.push(
        Action::PivotRoot {
            new_root: String::from_str("."),
            put_old: String::from_str(".old_root"),
        },
    );
    steps.push(Action::ChangeDir { path: String::from_str("/") });
    steps.push(Action::Unmount { target: String::from_str("/.old_root"), detach: true });
    steps.push(Action::RemoveDirAll { path: String::from_str("/.old_root") });
    steps.push(Action::CreateDirAll { path: String::from_str("/proc") });
    steps.push(
        Action::Mount {
            source: Some(String::from_str("proc")),
            target: String::from_str("/proc"),
            fstype: Some(String::from_str("proc")),
            flags: MountFlags { bind: false, recursive: false, private: false },
        },
    );
    steps
}

/// Begins the root transition for `rootfs`.  The caller performs each
/// pending operation and reports its outcome; the first failure ends the
/// transition.
pub fn setup_rootfs(rootfs: &str) -> (plan: Plan)
    ensures
        plan@ == PlanView::start(root_transition_steps(rootfs@)),
{
    Plan::new(root_transition(rootfs))
}

/// The operations of a root transition by name, in order.
#[derive(Clone, Copy, Debug, PartialEq, Eq, Structural)]
pub enum RootStep {
    MakePrivate,
    BindRoot,
    StageOldRoot,
    EnterNewRoot,
    Pivot,
    EnterRoot,
    DetachOldRoot,
    RemoveOldRoot,
    EnsureProc,
    MountProc,
}

/// The operation at a position of the plan.
pub open spec fn root_step_at(position: nat) -> RootStep {
    if position == 0 {
        RootStep::MakePrivate
    } else if position == 1 {
        RootStep::BindRoot
    } else if position == 2 {
        RootStep::StageOldRoot
    } else if position == 3 {
        RootStep::EnterNewRoot
    } else if position == 4 {
        RootStep::Pivot
    } else if position == 5 {
        RootStep::EnterRoot
    } else if position == 6 {
        RootStep::DetachOldRoot
    } else if position == 7 {
        RootStep::RemoveOldRoot
    } else if position == 8 {
        RootStep::EnsureProc
    } else {
        RootStep::MountProc
    }
}

/// What an operation was trying to do, as the start of an error message.
pub open spec fn root_step_text(step: RootStep) -> Seq<char> {
    match step {
        RootStep::MakePrivate => "Failed to make mount private"@,
        RootStep::BindRoot => "Failed to bind mount"@,
        RootStep::StageOldRoot => "Failed to create directory"@,
        RootStep::EnterNewRoot => "Failed to change directory to"@,
        RootStep::Pivot => "Failed to pivot root into"@,
        RootStep::EnterRoot => "Failed to change directory to"@,
        RootStep::DetachOldRoot => "Failed to unmount"@,
        RootStep::RemoveOldRoot => "Failed to remove directory"@,
        RootStep::EnsureProc => "Failed to create directory"@,
        RootStep::MountProc => "Failed to mount proc on"@,
    }
}

/// The path an operation works on.
pub open spec fn root_step_path(rootfs: Seq<char>, step: RootStep) -> Seq<char> {
    match step {
        RootStep::MakePrivate => "/"@,
        RootStep::BindRoot => rootfs,
        RootStep::StageOldRoot => spec_old_root_dir(rootfs),
        RootStep::EnterNewRoot => rootfs,
        RootStep::Pivot => rootfs,
        RootStep::EnterRoot => "/"@,
        RootStep::DetachOldRoot => "/.old_root"@,
        RootStep::RemoveOldRoot => "/.old_root"@,
        RootStep::EnsureProc => "/proc"@,
        RootStep::MountProc => "/proc"@,
    }
}

/// A failed root transition: the operation that failed, the path it worked
/// on, and the system's reason.
#[derive(Clone, Debug, PartialEq, Eq)]
pub struct RootError {
    pub step: RootStep,
    pub path: String,
    pub reason: String,
}

/// Mathematical value of a [`RootError`].
pub struct RootErrorView {
    pub step: RootStep,
    pub path: Seq<char>,
    pub reason: Seq<char>,
}

impl View for RootError {
    type V = RootErrorView;

    open spec fn view(&self) -> RootErrorView {
        RootErrorView { step: self.step, path: self.path@, reason: self.reason@ }
    }
}

impl DeepView for RootError {
    type V = RootErrorView;

    open spec fn deep_view(&self) -> RootErrorView {
        self@
    }
}

impl RootErrorView {
    /// The error as one line of text: operation, path, reason.
    pub open spec fn message(self) -> Seq<char> {
        root_step_text(self.step) + " "@ + self.path + ": "@ + self.reason
    }
}

impl RootError {
    /// Renders the error as one line of text.
    pub fn message(&self) -> (text: String)
        ensures
            text@ == self@.message(),
    {
        let head = match self.step {
            RootStep::MakePrivate => "Failed to make mount private",
            RootStep::BindRoot => "Failed to bind mount",
            RootStep::StageOldRoot => "Failed to create directory",
            RootStep::EnterNewRoot => "Failed to change directory to",
            RootStep::Pivot => "Failed to pivot root into",
            RootStep::EnterRoot => "Failed to change directory to",
            RootStep::DetachOldRoot => "Failed to unmount",
            RootStep::RemoveOldRoot => "Failed to remove directory",
            RootStep::EnsureProc => "Failed to create directory",
            RootStep::MountProc => "Failed to mount proc on",
        };
        let mut text = String::from_str(head);
        text.append(" ");
        text.append(self.path.as_str());
        text.append(": ");
        text.append(self.reason.as_str());
        text
    }
}

/// The error of a root transition whose operation at `position` failed for
/// `reason`.
pub open spec fn spec_root_error(rootfs: Seq<char>, position: nat, reason: Seq<char>)
    -> RootErrorView {
    RootErrorView {
        step: root_step_at(position),
        path: root_step_path(rootfs, root_step_at(position)),
        reason,
    }
}

/// Attributes a failure to the operation at `position` of the root
/// transition for `rootfs`.
pub fn root_error(rootfs: &str, position: usize, reason: String) -> (error: RootError)
    ensures
        error@ == spec_root_error(rootfs@, position as nat, reason@),
{
    let step = if position == 0 {
        RootStep::MakePrivate
    } else if position == 1 {
        RootStep::BindRoot
    } else if position == 2 {
        RootStep::StageOldRoot
    } else if position == 3 {
        RootStep::EnterNewRoot
    } else if position == 4 {
        RootStep::Pivot
    } else if position == 5 {
        RootStep::EnterRoot
    } else if position == 6 {
        RootStep::DetachOldRoot
    } else if position == 7 {
        RootStep::RemoveOldRoot
    } else if position == 8 {
        RootStep::EnsureProc
    } else {
        RootStep::MountProc
    };
    let path = match step {
        RootStep::MakePrivate => String::from_str("/"),
        RootStep::BindRoot => String::from_str(rootfs),
        RootStep::StageOldRoot => old_root_dir(rootfs),
        RootStep::EnterNewRoot => String::from_str(rootfs),
        RootStep::Pivot => String::from_str(rootfs),
        RootStep::EnterRoot => String::from_str("/"),
        RootStep::DetachOldRoot => String::from_str("/.old_root"),
        RootStep::RemoveOldRoot => String::from_str("/.old_root"),
        RootStep::EnsureProc => String::from_str("/proc"),
        RootStep::MountProc => String::from_str("/proc"),
    };
    RootError { step, path, reason }
}

/// The error of a root-transition plan for `rootfs` that stopped early.
pub open spec fn transition_error(rootfs: Seq<char>, plan: PlanView) -> Option<RootErrorView> {
    match plan.failure {
        Some(reason) => Some(spec_root_error(rootfs, plan.completed, reason)),
        None => None,
    }
}

/// The error of a root-transition plan for `rootfs`, if it stopped early.
pub fn setup_rootfs_error(rootfs: &str, plan: &Plan) -> (error: Option<RootError>)
    ensures
        error.deep_view() == transition_error(rootfs@, plan@),
{
    match plan.failure() {
        Some(reason) => Some(root_error(rootfs, plan.completed(), reason)),
        None => None,
    }
}

/// No removal before a confirmed root switch.  Take any run of the root
/// transition and any moment in it, given by the number `k` of outcomes
/// reported so far.  If removing a directory is what is pending at that
/// moment, then the root switch has been attempted earlier in the run and
/// has succeeded, and so has everything between it and the removal.  A
/// failed root switch therefore leaves the parked old root in place.
pub proof fn lemma_old_root_removed_only_after_pivot(
    rootfs: Seq<char>,
    outcomes: Seq<OutcomeView>,
    k: int,
)
    requires
        0 <= k <= outcomes.len(),
        PlanView::start(root_transition_steps(rootfs)).run(outcomes.take(k)).pending() is Some,
        PlanView::start(root_transition_steps(rootfs)).run(
            outcomes.take(k),
        ).pending()->0 is RemoveDirAll,
    ensures
        k == REMOVE_STEP,
        PlanView::start(root_transition_steps(rootfs)).run(
            outcomes.take(PIVOT_STEP as int),
        ).pending() == Some(ActionView::PivotRoot { new_root: "."@, put_old: ".old_root"@ }),
        forall|j: int| PIVOT_STEP <= j < k ==> outcomes[j] is Done,
{
    let steps = root_transition_steps(rootfs);
    lemma_pending_after(steps, outcomes.take(k));
    lemma_pending_after(steps, outcomes.take(PIVOT_STEP as int));
    assert forall|j: int| 0 <= j < k implies outcomes[j] is Done by {
        assert(outcomes.take(k)[j] == outcomes[j]);
    }
    assert forall|j: int| 0 <= j < PIVOT_STEP implies (#[trigger] outcomes.take(
        PIVOT_STEP as int,
    )[j]) is Done by {
        assert(outcomes.take(PIVOT_STEP as int)[j] == outcomes[j]);
    }
}

/// A failed root switch ends the transition.  If the outcome reported for
/// the root switch is not a success, then at every later moment of the run
/// nothing is pending, and the plan records the root switch as the step that
/// failed.
pub proof fn lemma_failed_pivot_ends_transition(
    rootfs: Seq<char>,
    outcomes: Seq<OutcomeView>,
    k: int,
)
    requires
        PIVOT_STEP < k <= outcomes.len(),
        forall|j: int| 0 <= j < PIVOT_STEP ==> outcomes[j] is Done,
        !(outcomes[PIVOT_STEP as int] is Done),
    ensures
        PlanView::start(root_transition_steps(rootfs)).run(outcomes.take(k)).pending() is None,
        transition_error(
            rootfs,
            PlanView::start(root_transition_steps(rootfs)).run(outcomes.take(k)),
        ) == Some(
            RootErrorView {
                step: RootStep::Pivot,
                path: rootfs,
                reason: failure_reason(outcomes[PIVOT_STEP as int]),
            },
        ),
{
    let steps = root_transition_steps(rootfs);
    let seen = outcomes.take(k);
    lemma_run_in_order(steps, seen);
    let end = PlanView::start(steps).run(seen);
    // The steps before the root switch succeeded, the root switch did not:
    // so that is where the plan stopped.
    assert(seen[PIVOT_STEP as int] == outcomes[PIVOT_STEP as int]);
    assert forall|j: int| 0 <= j < PIVOT_STEP implies seen[j] is Done by {
        assert(seen[j] == outcomes[j]);
    }
    assert(end.completed == PIVOT_STEP);
}

} // verus!
