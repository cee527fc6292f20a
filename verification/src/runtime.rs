//! The launch itself: what the child does once it is released, and the order
//! in which the parent sets the child up before releasing it.

use crate::action::{
    copy_strings, failure_reason, reason_of, Action, ActionView, ExitOutcome, LaunchRequest,
    LaunchRequestView, Namespaces, Outcome, OutcomeView,
};
use crate::cgroup::{
    fixed_policy, policy_limits, spec_unified_entry, unified_entry, CgroupError, CgroupErrorView,
    CgroupFault, CgroupPhase, CgroupSetup, CgroupSetupView,
};
use crate::namespace::{
    host_gid, host_uid, identity_error, identity_steps, map_error, map_identity, IdentityMapping,
    MapError, MapErrorView,
};
use crate::pivot_root::{
    root_error, root_transition, root_transition_steps, spec_root_error, RootError, RootErrorView,
};
use crate::plan::{actions_view, lemma_all_done_succeeds, lemma_pending_after, Plan, PlanView};
use crate::text::{contains_nul, has_nul};
use vstd::prelude::*;

verus! {

/// What went wrong while handing the process over to the command.
#[derive(Clone, Copy, Debug, PartialEq, Eq, Structural)]
pub enum ExecFault {
    /// The command holds a NUL character.
    Command,
    /// An argument holds a NUL character.
    Argument,
    /// The system refused to replace the process image.
    Replace,
}

/// A failed hand-over: what failed, the command or argument concerned, and
/// the reason.
#[derive(Clone, Debug, PartialEq, Eq)]
pub struct ExecError {
    pub fault: ExecFault,
    pub subject: String,
    pub reason: String,
}

/// Mathematical value of an [`ExecError`].
pub struct ExecErrorView {
    pub fault: ExecFault,
    pub subject: Seq<char>,
    pub reason: Seq<char>,
}

impl View for ExecError {
    type V = ExecErrorView;

    open spec fn view(&self) -> ExecErrorView {
        ExecErrorView { fault: self.fault, subject: self.subject@, reason: self.reason@ }
    }
}

impl DeepView for ExecError {
    type V = ExecErrorView;

    open spec fn deep_view(&self) -> ExecErrorView {
        self@
    }
}

impl ExecErrorView {
    /// The error as one line of text.  A refused replacement names the
    /// command that could not be run.
    pub open spec fn message(self) -> Seq<char> {
        match self.fault {
            ExecFault::Command => "Failed to create command string: "@ + self.reason,
            ExecFault::Argument => "Failed to create argument string '"@ + self.subject + "': "@
                + self.reason,
            ExecFault::Replace => "exec failed: "@ + self.subject + ": "@ + self.reason,
        }
    }
}

impl ExecError {
    /// Renders the error as one line of text.
    pub fn message(&self) -> (text: String)
        ensures
            text@ == self@.message(),
    {
        match self.fault {
            ExecFault::Command => String::from_str("Failed to create command string: ").concat(
                self.reason.as_str(),
            ),
            ExecFault::Argument => {
                let mut text = String::from_str("Failed to create argument string '");
                text.append(self.subject.as_str());
                text.append("': ");
                text.append(self.reason.as_str());
                text
            },
            ExecFault::Replace => {
                let mut text = String::from_str("exec failed: ");
                text.append(self.subject.as_str());
                text.append(": ");
                text.append(self.reason.as_str());
                text
            },
        }
    }
}

/// The reason given when a string cannot be passed to the system.
pub open spec fn nul_reason() -> Seq<char> {
    "nul byte found in provided data"@
}

/// The search path that the command is resolved against.
pub open spec fn search_path() -> Seq<char> {
    "/bin:/sbin:/usr/bin:/usr/sbin"@
}

/// Position of the first argument at or after `from` that holds a NUL
/// character.
pub open spec fn first_with_nul(args: Seq<Seq<char>>, from: int) -> Option<int>
    decreases args.len() - from,
{
    if 0 <= from < args.len() {
        if has_nul(args[from]) {
            Some(from)
        } else {
            first_with_nul(args, from + 1)
        }
    } else {
        None
    }
}

/// The two operations of a hand-over: set the search path, then replace the
/// process image with `command`, which is also argument zero.
pub open spec fn exec_steps(command: Seq<char>, args: Seq<Seq<char>>) -> Seq<ActionView> {
    seq![
        ActionView::SetEnv { name: "PATH"@, value: search_path() },
        ActionView::Exec { program: command, argv: seq![command] + args },
    ]
}

/// What a hand-over to `command` with `args` consists of.  A NUL character
/// in the command, or else in the first argument that has one, is an error
/// and nothing is to be done.
pub open spec fn spec_exec_command(command: Seq<char>, args: Seq<Seq<char>>) -> Result<
    Seq<ActionView>,
    ExecErrorView,
> {
    if has_nul(command) {
        Err(ExecErrorView { fault: ExecFault::Command, subject: command, reason: nul_reason() })
    } else {
        match first_with_nul(args, 0) {
            Some(i) => Err(
                ExecErrorView {
                    fault: ExecFault::Argument,
                    subject: args[i],
                    reason: nul_reason(),
                },
            ),
            None => Ok(exec_steps(command, args)),
        }
    }
}

/// Prepares the hand-over to `command`: checks that command and arguments
/// can be passed to the system and builds the argument vector.
pub fn exec_command(command: &str, args: Vec<String>) -> (result: Result<Vec<Action>, ExecError>)
    ensures
        match result {
            Ok(steps) => spec_exec_command(command@, args.deep_view()) == Ok::<
                Seq<ActionView>,
                ExecErrorView,
            >(actions_view(steps@)),
            Err(e) => spec_exec_command(command@, args.deep_view()) == Err::<
                Seq<ActionView>,
                ExecErrorView,
            >(e@),
        },
{
    if contains_nul(command) {
        return Err(
            ExecError {
                fault: ExecFault::Command,
                subject: String::from_str(command),
                reason: String::from_str("nul byte found in provided data"),
            },
        );
    }
    let mut i: usize = 0;
    while i < args.len()
        invariant
            i <= args.len(),
            !has_nul(command@),
            first_with_nul(args.deep_view(), i as int) == first_with_nul(args.deep_view(), 0),
        decreases args.len() - i,
    {
        if contains_nul(args[i].as_str()) {
            return Err(
                ExecError {
                    fault: ExecFault::Argument,
                    subject: args[i].clone(),
                    reason: String::from_str("nul byte found in provided data"),
                },
            );
        }
        i += 1;
    }
    let mut argv: Vec<String> = Vec::new();
    argv.push(String::from_str(command));
    let mut rest = args;
    argv.append(&mut rest);
    assert(argv.deep_view() =~= seq![command@] + args.deep_view());
    let mut steps: Vec<Action> = Vec::new();
    steps.push(
        Action::SetEnv {
            name: String::from_str("PATH"),
            value: String::from_str("/bin:/sbin:/usr/bin:/usr/sbin"),
        },
    );
    steps.push(Action::Exec { program: String::from_str(command), argv });
    assert(actions_view(steps@) =~= exec_steps(command@, args.deep_view()));
    Ok(steps)
}

/// Host name that every container gets.
pub open spec fn container_hostname() -> Seq<char> {
    "docker-clone"@
}

/// Number of operations between release and hand-over: the host name and the
/// ten operations of the root transition.
pub const CHILD_SETUP_STEPS: usize = 11;

/// What the child does between release and hand-over: it names its host,
/// then switches roots.
pub open spec fn child_setup_steps(rootfs: Seq<char>) -> Seq<ActionView> {
    seq![ActionView::SetHostname { name: container_hostname() }] + root_transition_steps(rootfs)
}

/// Everything the child does once it is released.  If the command or an
/// argument cannot be passed to the system, the hand-over is left out.
pub open spec fn child_steps(request: LaunchRequestView) -> Seq<ActionView> {
    child_setup_steps(request.rootfs) + match spec_exec_command(request.command, request.args) {
        Ok(steps) => steps,
        Err(_) => Seq::empty(),
    }
}

/// The encoding error of a request, if command or arguments have one.
pub open spec fn encoding_error(request: LaunchRequestView) -> Option<ExecErrorView> {
    match spec_exec_command(request.command, request.args) {
        Ok(_) => None,
        Err(e) => Some(e),
    }
}

/// Why the child gave up.
#[derive(Clone, Debug, PartialEq, Eq)]
pub enum ChildFailure {
    /// The proceed message never arrived.
    Handshake { reason: String },
    /// The host name could not be set.
    Hostname { reason: String },
    /// The root transition failed.
    Root(RootError),
    /// The hand-over to the command failed.
    Exec(ExecError),
}

/// Mathematical value of a [`ChildFailure`].
pub enum ChildFailureView {
    Handshake { reason: Seq<char> },
    Hostname { reason: Seq<char> },
    Root(RootErrorView),
    Exec(ExecErrorView),
}

impl View for ChildFailure {
    type V = ChildFailureView;

    open spec fn view(&self) -> ChildFailureView {
        match *self {
            ChildFailure::Handshake { reason } => ChildFailureView::Handshake { reason: reason@ },
            ChildFailure::Hostname { reason } => ChildFailureView::Hostname { reason: reason@ },
            ChildFailure::Root(e) => ChildFailureView::Root(e@),
            ChildFailure::Exec(e) => ChildFailureView::Exec(e@),
        }
    }
}

impl DeepView for ChildFailure {
    type V = ChildFailureView;

    open spec fn deep_view(&self) -> ChildFailureView {
        self@
    }
}

impl ChildFailureView {
    /// The failure as one line of diagnostic text.
    pub open spec fn message(self) -> Seq<char> {
        match self {
            ChildFailureView::Handshake { reason } => "Failed to wait for release: "@ + reason,
            ChildFailureView::Hostname { reason } => "Failed to set hostname: "@ + reason,
            ChildFailureView::Root(e) => "Failed to setup root filesystem: "@ + e.message(),
            ChildFailureView::Exec(e) => e.message(),
        }
    }
}

impl ChildFailure {
    /// Renders the failure as one line of diagnostic text.
    pub fn message(&self) -> (text: String)
        ensures
            text@ == self@.message(),
    {
        match self {
            ChildFailure::Handshake { reason } => String::from_str(
                "Failed to wait for release: ",
            ).concat(reason.as_str()),
            ChildFailure::Hostname { reason } => String::from_str(
                "Failed to set hostname: ",
            ).concat(reason.as_str()),
            ChildFailure::Root(e) => {
                let inner = e.message();
                String::from_str("Failed to setup root filesystem: ").concat(inner.as_str())
            },
            ChildFailure::Exec(e) => e.message(),
        }
    }
}

/// Why a handshake operation that did not transfer exactly one byte counts
/// as failed.
pub open spec fn handshake_reason(outcome: OutcomeView) -> Seq<char> {
    match outcome {
        OutcomeView::Transferred(_) => "handshake channel closed"@,
        _ => failure_reason(outcome),
    }
}

/// Executable form of [`handshake_reason`].
pub fn handshake_reason_of(outcome: &Outcome) -> (reason: String)
    ensures
        reason@ == handshake_reason(outcome@),
{
    match outcome {
        Outcome::Transferred(_) => String::from_str("handshake channel closed"),
        _ => reason_of(outcome),
    }
}

/// Mathematical value of a [`Child`].
pub struct ChildView {
    /// What the child was asked to run.
    pub request: LaunchRequestView,
    /// Whether the proceed message has arrived.
    pub released: bool,
    /// Why the wait for the proceed message failed, if it did.
    pub handshake: Option<Seq<char>>,
    /// Progress on the steps after release.
    pub plan: PlanView,
}

impl ChildView {
    /// The child as it starts: blocked, with everything still to do.
    pub open spec fn start(request: LaunchRequestView) -> ChildView {
        ChildView {
            request,
            released: false,
            handshake: None,
            plan: PlanView::start(child_steps(request)),
        }
    }

    /// The operation to perform next, or `None` once the child has ended.
    /// Until the proceed message has arrived, the only operation is to wait
    /// for it.
    pub open spec fn pending(self) -> Option<ActionView> {
        if self.released {
            self.plan.pending()
        } else if self.handshake is None {
            Some(ActionView::AwaitProceed)
        } else {
            None
        }
    }

    /// The child after the pending operation ended with `outcome`.  The wait
    /// succeeds only if exactly one byte arrived; every later step succeeds
    /// only with [`OutcomeView::Done`].
    pub open spec fn advance(self, outcome: OutcomeView) -> ChildView {
        if self.released {
            ChildView { plan: self.plan.advance(outcome), ..self }
        } else if self.handshake is Some {
            self
        } else if outcome == OutcomeView::Transferred(1) {
            ChildView { released: true, ..self }
        } else {
            ChildView { handshake: Some(handshake_reason(outcome)), ..self }
        }
    }

    /// The child after a whole sequence of outcomes, oldest first.
    pub open spec fn run(self, outcomes: Seq<OutcomeView>) -> ChildView
        decreases outcomes.len(),
    {
        if outcomes.len() == 0 {
            self
        } else {
            self.run(outcomes.drop_last()).advance(outcomes.last())
        }
    }

    /// Why the child gave up, if it did.
    pub open spec fn failure(self) -> Option<ChildFailureView> {
        if self.handshake is Some {
            Some(ChildFailureView::Handshake { reason: self.handshake->0 })
        } else if self.plan.failure is Some {
            let reason = self.plan.failure->0;
            if self.plan.completed == 0 {
                Some(ChildFailureView::Hostname { reason })
            } else if self.plan.completed < CHILD_SETUP_STEPS {
                Some(
                    ChildFailureView::Root(
                        spec_root_error(
                            self.request.rootfs,
                            (self.plan.completed - 1) as nat,
                            reason,
                        ),
                    ),
                )
            } else {
                Some(
                    ChildFailureView::Exec(
                        ExecErrorView {
                            fault: ExecFault::Replace,
                            subject: self.request.command,
                            reason,
                        },
                    ),
                )
            }
        } else if self.released && self.plan.succeeded() && encoding_error(self.request) is Some {
            Some(ChildFailureView::Exec(encoding_error(self.request)->0))
        } else {
            None
        }
    }

    /// The status the child process exits with: 1 after any failure, 0 if
    /// every step has been performed, nothing while steps are pending.
    pub open spec fn exit_status(self) -> Option<i32> {
        if self.failure() is Some {
            Some(1)
        } else if self.released && self.plan.succeeded() {
            Some(0)
        } else {
            None
        }
    }
}

/// The body of the child process: blocked until released, then a fixed
/// series of steps that ends by handing the process over to the command.
#[derive(Debug)]
pub struct Child {
    request: LaunchRequest,
    released: bool,
    handshake: Option<String>,
    plan: Plan,
    encoding: Option<ExecError>,
}

impl View for Child {
    type V = ChildView;

    closed spec fn view(&self) -> ChildView {
        ChildView {
            request: self.request@,
            released: self.released,
            handshake: self.handshake.deep_view(),
            plan: self.plan@,
        }
    }
}

impl Child {
    #[verifier::type_invariant]
    spec fn inv(&self) -> bool {
        &&& self.plan@.steps == child_steps(self.request@)
        &&& self.encoding.deep_view() == encoding_error(self.request@)
    }

    /// The operation to perform next, or `None` once the child has ended.
    pub fn pending(&self) -> (action: Option<Action>)
        ensures
            action.deep_view() == self@.pending(),
    {
        if self.released {
            match self.plan.pending() {
                Some(step) => Some(step.duplicate()),
                None => None,
            }
        } else if self.handshake.is_none() {
            Some(Action::AwaitProceed)
        } else {
            None
        }
    }

    /// Records how the pending operation ended.
    pub fn advance(self, outcome: &Outcome) -> (next: Child)
        ensures
            next@ == self@.advance(outcome@),
    {
        proof {
            use_type_invariant(&self);
        }
        if self.released {
            Child {
                request: self.request,
                released: true,
                handshake: self.handshake,
                plan: self.plan.advance(outcome),
                encoding: self.encoding,
            }
        } else if self.handshake.is_some() {
            self
        } else {
            match outcome {
                Outcome::Transferred(1) => Child {
                    request: self.request,
                    released: true,
                    handshake: None,
                    plan: self.plan,
                    encoding: self.encoding,
                },
                _ => Child {
                    request: self.request,
                    released: false,
                    handshake: Some(handshake_reason_of(outcome)),
                    plan: self.plan,
                    encoding: self.encoding,
                },
            }
        }
    }

    /// Why the child gave up, if it did.
    pub fn failure(&self) -> (failure: Option<ChildFailure>)
        ensures
            failure.deep_view() == self@.failure(),
    {
        proof {
            use_type_invariant(self);
        }
        match &self.handshake {
            Some(reason) => {
                return Some(ChildFailure::Handshake { reason: reason.clone() });
            },
            None => {},
        }
        match self.plan.failure() {
            Some(reason) => {
                let position = self.plan.completed();
                if position == 0 {
                    Some(ChildFailure::Hostname { reason })
                } else if position < CHILD_SETUP_STEPS {
                    Some(
                        ChildFailure::Root(
                            root_error(self.request.rootfs.as_str(), position - 1, reason),
                        ),
                    )
                } else {
                    Some(
                        ChildFailure::Exec(
                            ExecError {
                                fault: ExecFault::Replace,
                                subject: self.request.command.clone(),
                                reason,
                            },
                        ),
                    )
                }
            },
            None => {
                if self.released && self.plan.succeeded() {
                    match &self.encoding {
                        Some(e) => Some(
                            ChildFailure::Exec(
                                ExecError {
                                    fault: e.fault,
                                    subject: e.subject.clone(),
                                    reason: e.reason.clone(),
                                },
                            ),
                        ),
                        None => None,
                    }
                } else {
                    None
                }
            },
        }
    }

    /// The status to exit with, or `None` while steps are pending.
    pub fn exit_status(&self) -> (status: Option<i32>)
        ensures
            status == self@.exit_status(),
    {
        if self.failure().is_some() {
            Some(1)
        } else if self.released && self.plan.succeeded() {
            Some(0)
        } else {
            None
        }
    }
}

/// Builds the body of the child process for one launch.
pub fn child_process(rootfs: String, command: String, args: Vec<String>) -> (child: Child)
    ensures
        child@ == ChildView::start(
            LaunchRequestView { rootfs: rootfs@, command: command@, args: args.deep_view() },
        ),
{
    let kept = copy_strings(&args);
    let mut steps: Vec<Action> = Vec::new();
    steps.push(Action::SetHostname { name: String::from_str("docker-clone") });
    let mut transition = root_transition(rootfs.as_str());
    let ghost transition_view = transition@;
    steps.append(&mut transition);
    assert(actions_view(steps@) =~= child_setup_steps(rootfs@)) by {
        assert forall|i: int| 1 <= i < steps@.len() implies #[trigger] steps@[i]@
            == root_transition_steps(rootfs@)[i - 1] by {
            assert(steps@[i] == transition_view[i - 1]);
            assert(actions_view(transition_view)[i - 1] == transition_view[i - 1]@);
        }
    }
    let encoding = match exec_command(command.as_str(), args) {
        Ok(handover) => {
            let mut handover = handover;
            let ghost before = steps@;
            let ghost tail = handover@;
            steps.append(&mut handover);
            assert(actions_view(steps@) =~= actions_view(before) + actions_view(tail));
            None
        },
        Err(e) => Some(e),
    };
    let request = LaunchRequest { rootfs, command, args: kept };
    Child { request, released: false, handshake: None, plan: Plan::new(steps), encoding }
}

/// Size of the stack that the child starts on: 1 MiB.
pub const STACK_SIZE: usize = 1_048_576;

/// The namespaces of a container: process ids, mounts, host name and users,
/// always all four.
pub open spec fn container_namespaces() -> Namespaces {
    Namespaces { pid: true, mount: true, uts: true, user: true }
}

/// Which handshake operation of the parent failed.
#[derive(Clone, Copy, Debug, PartialEq, Eq, Structural)]
pub enum ChannelFault {
    /// The socket pair could not be created.
    Open,
    /// The proceed byte could not be sent.
    Send,
}

/// A failed handshake operation of the parent.
#[derive(Clone, Debug, PartialEq, Eq)]
pub struct ChannelError {
    pub fault: ChannelFault,
    pub reason: String,
}

/// Mathematical value of a [`ChannelError`].
pub struct ChannelErrorView {
    pub fault: ChannelFault,
    pub reason: Seq<char>,
}

impl View for ChannelError {
    type V = ChannelErrorView;

    open spec fn view(&self) -> ChannelErrorView {
        ChannelErrorView { fault: self.fault, reason: self.reason@ }
    }
}

impl ChannelErrorView {
    /// The error as one line of text.
    pub open spec fn message(self) -> Seq<char> {
        match self.fault {
            ChannelFault::Open => "Failed to create handshake channel: "@ + self.reason,
            ChannelFault::Send => "Failed to signal child process: "@ + self.reason,
        }
    }
}

impl ChannelError {
    /// Renders the error as one line of text.
    pub fn message(&self) -> (text: String)
        ensures
            text@ == self@.message(),
    {
        let head = match self.fault {
            ChannelFault::Open => "Failed to create handshake channel: ",
            ChannelFault::Send => "Failed to signal child process: ",
        };
        String::from_str(head).concat(self.reason.as_str())
    }
}

/// The system refused to create the child process.
#[derive(Clone, Debug, PartialEq, Eq)]
pub struct SpawnError {
    pub reason: String,
}

/// Mathematical value of a [`SpawnError`].
pub struct SpawnErrorView {
    pub reason: Seq<char>,
}

impl View for SpawnError {
    type V = SpawnErrorView;

    open spec fn view(&self) -> SpawnErrorView {
        SpawnErrorView { reason: self.reason@ }
    }
}

impl SpawnErrorView {
    /// The error as one line of text.
    pub open spec fn message(self) -> Seq<char> {
        "Failed to spawn child process: "@ + self.reason
    }
}

impl SpawnError {
    /// Renders the error as one line of text.
    pub fn message(&self) -> (text: String)
        ensures
            text@ == self@.message(),
    {
        String::from_str("Failed to spawn child process: ").concat(self.reason.as_str())
    }
}

/// Why a launch failed.
#[derive(Clone, Debug, PartialEq, Eq)]
pub enum LaunchError {
    /// The root filesystem path does not name an existing directory.
    RootfsMissing { path: String },
    /// The resource controller failed.
    Cgroup(CgroupError),
    /// The handshake channel failed on the parent's side.
    Channel(ChannelError),
    /// The child process could not be created.
    Spawn(SpawnError),
    /// The identity mapping failed.
    Identity(MapError),
    /// Waiting for the child failed.
    Wait { reason: String },
}

/// Mathematical value of a [`LaunchError`].
pub enum LaunchErrorView {
    RootfsMissing { path: Seq<char> },
    Cgroup(CgroupErrorView),
    Channel(ChannelErrorView),
    Spawn(SpawnErrorView),
    Identity(MapErrorView),
    Wait { reason: Seq<char> },
}

impl View for LaunchError {
    type V = LaunchErrorView;

    open spec fn view(&self) -> LaunchErrorView {
        match *self {
            LaunchError::RootfsMissing { path } => LaunchErrorView::RootfsMissing { path: path@ },
            LaunchError::Cgroup(e) => LaunchErrorView::Cgroup(e@),
            LaunchError::Channel(e) => LaunchErrorView::Channel(e@),
            LaunchError::Spawn(e) => LaunchErrorView::Spawn(e@),
            LaunchError::Identity(e) => LaunchErrorView::Identity(e@),
            LaunchError::Wait { reason } => LaunchErrorView::Wait { reason: reason@ },
        }
    }
}

impl DeepView for LaunchError {
    type V = LaunchErrorView;

    open spec fn deep_view(&self) -> LaunchErrorView {
        self@
    }
}

impl LaunchErrorView {
    /// The error as one line of text that names the step and the reason.
    pub open spec fn message(self) -> Seq<char> {
        match self {
            LaunchErrorView::RootfsMissing { path } => "Root filesystem is not a directory: "@
                + path,
            LaunchErrorView::Cgroup(e) => "Failed to setup cgroups: "@ + e.message(),
            LaunchErrorView::Channel(e) => e.message(),
            LaunchErrorView::Spawn(e) => e.message(),
            LaunchErrorView::Identity(e) => "Failed to setup user namespace: "@ + e.message(),
            LaunchErrorView::Wait { reason } => "Failed to wait for child process: "@ + reason,
        }
    }
}

impl LaunchError {
    /// Renders the error as one line of text.
    pub fn message(&self) -> (text: String)
        ensures
            text@ == self@.message(),
    {
        match self {
            LaunchError::RootfsMissing { path } => String::from_str(
                "Root filesystem is not a directory: ",
            ).concat(path.as_str()),
            LaunchError::Cgroup(e) => {
                let inner = e.message();
                String::from_str("Failed to setup cgroups: ").concat(inner.as_str())
            },
            LaunchError::Channel(e) => e.message(),
            LaunchError::Spawn(e) => e.message(),
            LaunchError::Identity(e) => {
                let inner = e.message();
                String::from_str("Failed to setup user namespace: ").concat(inner.as_str())
            },
            LaunchError::Wait { reason } => String::from_str(
                "Failed to wait for child process: ",
            ).concat(reason.as_str()),
        }
    }
}

/// Where a launch stands, seen from the parent.
pub enum LaunchStateView {
    /// Is the root filesystem there?
    CheckRootfs,
    /// Can the caller's own control group be found?
    ProbeMembership,
    /// Create the handshake channel.
    OpenChannel { entry: Seq<char> },
    /// Create the child, which blocks on the channel at once.
    Spawn { entry: Seq<char> },
    /// Confine the child's resources.
    Confine { pid: i32, setup: CgroupSetupView },
    /// Map the child's identity.
    MapIdentity { pid: i32, plan: PlanView },
    /// Release the child.
    Release { pid: i32 },
    /// Wait for the child to end.
    Await { pid: i32 },
    /// The child has ended.
    Finished { pid: i32, outcome: ExitOutcome },
    /// The launch was given up; `child` is the child if one had been created.
    Failed { error: LaunchErrorView, child: Option<i32> },
}

/// Mathematical value of a [`Launch`].
pub struct LaunchView {
    pub request: LaunchRequestView,
    pub host_uid: u32,
    pub host_gid: u32,
    pub state: LaunchStateView,
}

impl LaunchView {
    /// A launch on which nothing has been attempted yet.
    pub open spec fn start(request: LaunchRequestView, host_uid: u32, host_gid: u32) -> LaunchView {
        LaunchView { request, host_uid, host_gid, state: LaunchStateView::CheckRootfs }
    }

    /// The identity writes for the child `pid`.
    pub open spec fn identity_plan(self, pid: i32) -> PlanView {
        PlanView::start(
            identity_steps(
                IdentityMapping { pid, host_uid: self.host_uid, host_gid: self.host_gid },
            ),
        )
    }

    /// The operation to perform next, or `None` once the launch has ended.
    pub open spec fn pending(self) -> Option<ActionView> {
        match self.state {
            LaunchStateView::CheckRootfs => Some(
                ActionView::IsDirectory { path: self.request.rootfs },
            ),
            LaunchStateView::ProbeMembership => Some(
                ActionView::ReadFile { path: "/proc/self/cgroup"@ },
            ),
            LaunchStateView::OpenChannel { .. } => Some(ActionView::OpenChannel),
            LaunchStateView::Spawn { .. } => Some(
                ActionView::Spawn {
                    request: self.request,
                    namespaces: container_namespaces(),
                    stack_size: STACK_SIZE,
                },
            ),
            LaunchStateView::Confine { setup, .. } => setup.pending(),
            LaunchStateView::MapIdentity { plan, .. } => plan.pending(),
            LaunchStateView::Release { .. } => Some(ActionView::SendProceed),
            LaunchStateView::Await { pid } => Some(ActionView::WaitChild { pid }),
            LaunchStateView::Finished { .. } => None,
            LaunchStateView::Failed { .. } => None,
        }
    }

    /// The launch in another state.
    pub open spec fn at(self, state: LaunchStateView) -> LaunchView {
        LaunchView { state, ..self }
    }

    /// The launch given up because of `error`.
    pub open spec fn failed(self, error: LaunchErrorView) -> LaunchView {
        self.at(LaunchStateView::Failed { error, child: self.child_pid() })
    }

    /// The launch after the pending operation ended with `outcome`.
    ///
    /// Every step is fatal: the first operation that does not succeed ends
    /// the launch with the error of its step, and nothing further is
    /// attempted.  The child is created only after the root filesystem and
    /// the caller's control group have been found; it is released only after
    /// its resources are confined and its identity is mapped.
    pub open spec fn advance(self, outcome: OutcomeView) -> LaunchView {
        match self.state {
            LaunchStateView::CheckRootfs => {
                if outcome == OutcomeView::Flag(true) {
                    self.at(LaunchStateView::ProbeMembership)
                } else {
                    self.failed(LaunchErrorView::RootfsMissing { path: self.request.rootfs })
                }
            },
            LaunchStateView::ProbeMembership => match outcome {
                OutcomeView::Text(record) => match spec_unified_entry(record) {
                    Some(entry) => self.at(LaunchStateView::OpenChannel { entry }),
                    None => self.failed(
                        LaunchErrorView::Cgroup(
                            CgroupErrorView {
                                fault: CgroupFault::NoUnifiedEntry,
                                reason: Seq::empty(),
                            },
                        ),
                    ),
                },
                _ => self.failed(
                    LaunchErrorView::Cgroup(
                        CgroupErrorView {
                            fault: CgroupFault::Membership,
                            reason: failure_reason(outcome),
                        },
                    ),
                ),
            },
            LaunchStateView::OpenChannel { entry } => match outcome {
                OutcomeView::Done => self.at(LaunchStateView::Spawn { entry }),
                _ => self.failed(
                    LaunchErrorView::Channel(
                        ChannelErrorView {
                            fault: ChannelFault::Open,
                            reason: failure_reason(outcome),
                        },
                    ),
                ),
            },
            LaunchStateView::Spawn { entry } => match outcome {
                OutcomeView::Spawned(pid) => self.at(
                    LaunchStateView::Confine {
                        pid,
                        setup: CgroupSetupView::discovered(pid, policy_limits(), entry),
                    },
                ),
                _ => self.failed(
                    LaunchErrorView::Spawn(SpawnErrorView { reason: failure_reason(outcome) }),
                ),
            },
            LaunchStateView::Confine { pid, setup } => {
                let next = setup.advance(outcome);
                if next.failure is Some {
                    self.failed(LaunchErrorView::Cgroup(next.failure->0))
                } else if next.phase == CgroupPhase::Ready {
                    self.at(LaunchStateView::MapIdentity { pid, plan: self.identity_plan(pid) })
                } else {
                    self.at(LaunchStateView::Confine { pid, setup: next })
                }
            },
            LaunchStateView::MapIdentity { pid, plan } => {
                let next = plan.advance(outcome);
                if next.failure is Some {
                    self.failed(LaunchErrorView::Identity(identity_error(next)->0))
                } else if next.succeeded() {
                    self.at(LaunchStateView::Release { pid })
                } else {
                    self.at(LaunchStateView::MapIdentity { pid, plan: next })
                }
            },
            LaunchStateView::Release { pid } => {
                if outcome == OutcomeView::Transferred(1) {
                    self.at(LaunchStateView::Await { pid })
                } else {
                    self.failed(
                        LaunchErrorView::Channel(
                            ChannelErrorView {
                                fault: ChannelFault::Send,
                                reason: handshake_reason(outcome),
                            },
                        ),
                    )
                }
            },
            LaunchStateView::Await { pid } => match outcome {
                OutcomeView::Exited(exit) => self.at(
                    LaunchStateView::Finished { pid, outcome: exit },
                ),
                _ => self.failed(LaunchErrorView::Wait { reason: failure_reason(outcome) }),
            },
            LaunchStateView::Finished { .. } => self,
            LaunchStateView::Failed { .. } => self,
        }
    }

    /// The launch after a whole sequence of outcomes, oldest first.
    pub open spec fn run(self, outcomes: Seq<OutcomeView>) -> LaunchView
        decreases outcomes.len(),
    {
        if outcomes.len() == 0 {
            self
        } else {
            self.run(outcomes.drop_last()).advance(outcomes.last())
        }
    }

    /// How the launch ended: the child's exit outcome as the wait reported
    /// it, or the error that ended the launch; nothing while it is running.
    pub open spec fn result(self) -> Option<Result<ExitOutcome, LaunchErrorView>> {
        match self.state {
            LaunchStateView::Finished { outcome, .. } => Some(Ok(outcome)),
            LaunchStateView::Failed { error, .. } => Some(Err(error)),
            _ => None,
        }
    }

    /// Process id of the child, once it exists.
    pub open spec fn child_pid(self) -> Option<i32> {
        match self.state {
            LaunchStateView::Confine { pid, .. } => Some(pid),
            LaunchStateView::MapIdentity { pid, .. } => Some(pid),
            LaunchStateView::Release { pid } => Some(pid),
            LaunchStateView::Await { pid } => Some(pid),
            LaunchStateView::Finished { pid, .. } => Some(pid),
            LaunchStateView::Failed { child, .. } => child,
            _ => None,
        }
    }

    /// Whether the memory that the child started on must still be kept: the
    /// child has been created and the wait for it has not returned.  A
    /// launch that failed after the child was created never gives the
    /// memory up.
    pub open spec fn stack_in_use(self) -> bool {
        self.child_pid() is Some && !(self.state is Finished)
    }
}

#[derive(Debug)]
enum LaunchState {
    CheckRootfs,
    ProbeMembership,
    OpenChannel { entry: String },
    Spawn { entry: String },
    Confine { pid: i32, setup: CgroupSetup },
    MapIdentity { pid: i32, plan: Plan },
    Release { pid: i32 },
    Await { pid: i32 },
    Finished { pid: i32, outcome: ExitOutcome },
    Failed { error: LaunchError, child: Option<i32> },
}

impl View for LaunchState {
    type V = LaunchStateView;

    closed spec fn view(&self) -> LaunchStateView {
        match *self {
            LaunchState::CheckRootfs => LaunchStateView::CheckRootfs,
            LaunchState::ProbeMembership => LaunchStateView::ProbeMembership,
            LaunchState::OpenChannel { entry } => LaunchStateView::OpenChannel { entry: entry@ },
            LaunchState::Spawn { entry } => LaunchStateView::Spawn { entry: entry@ },
            LaunchState::Confine { pid, setup } => LaunchStateView::Confine { pid, setup: setup@ },
            LaunchState::MapIdentity { pid, plan } => LaunchStateView::MapIdentity {
                pid,
                plan: plan@,
            },
            LaunchState::Release { pid } => LaunchStateView::Release { pid },
            LaunchState::Await { pid } => LaunchStateView::Await { pid },
            LaunchState::Finished { pid, outcome } => LaunchStateView::Finished { pid, outcome },
            LaunchState::Failed { error, child } => LaunchStateView::Failed {
                error: error@,
                child,
            },
        }
    }
}

/// One launch, seen from the parent: which operation comes next, and how
/// the launch ended.
#[derive(Debug)]
pub struct Launch {
    request: LaunchRequest,
    host_uid: u32,
    host_gid: u32,
    state: LaunchState,
}

impl View for Launch {
    type V = LaunchView;

    closed spec fn view(&self) -> LaunchView {
        LaunchView {
            request: self.request@,
            host_uid: self.host_uid,
            host_gid: self.host_gid,
            state: self.state@,
        }
    }
}

impl Launch {
    /// Starts a launch of `request`; the child's user and group 0 will be
    /// mapped to `host_uid` and `host_gid`.
    pub fn new(request: LaunchRequest, host_uid: u32, host_gid: u32) -> (launch: Launch)
        ensures
            launch@ == LaunchView::start(request@, host_uid, host_gid),
            launch@.wf(),
    {
        Launch { request, host_uid, host_gid, state: LaunchState::CheckRootfs }
    }

    /// The operation to perform next, or `None` once the launch has ended.
    pub fn pending(&self) -> (action: Option<Action>)
        ensures
            action.deep_view() == self@.pending(),
    {
        match &self.state {
            LaunchState::CheckRootfs => Some(
                Action::IsDirectory { path: self.request.rootfs.clone() },
            ),
            LaunchState::ProbeMembership => Some(
                Action::ReadFile { path: String::from_str("/proc/self/cgroup") },
            ),
            LaunchState::OpenChannel { .. } => Some(Action::OpenChannel),
            LaunchState::Spawn { .. } => Some(
                Action::Spawn {
                    request: self.request.duplicate(),
                    namespaces: Namespaces { pid: true, mount: true, uts: true, user: true },
                    stack_size: STACK_SIZE,
                },
            ),
            LaunchState::Confine { setup, .. } => setup.pending(),
            LaunchState::MapIdentity { plan, .. } => match plan.pending() {
                Some(step) => Some(step.duplicate()),
                None => None,
            },
            LaunchState::Release { .. } => Some(Action::SendProceed),
            LaunchState::Await { pid } => Some(Action::WaitChild { pid: *pid }),
            LaunchState::Finished { .. } => None,
            LaunchState::Failed { .. } => None,
        }
    }

    /// Records how the pending operation ended.
    pub fn advance(self, outcome: &Outcome) -> (next: Launch)
        ensures
            next@ == self@.advance(outcome@),
            self@.wf() ==> next@.wf(),
    {
        proof {
            if self@.wf() {
                lemma_advance_shape(self@, outcome@);
            }
        }
        let Launch { request, host_uid, host_gid, state } = self;
        let state = match state {
            LaunchState::CheckRootfs => match outcome {
                Outcome::Flag(true) => LaunchState::ProbeMembership,
                _ => LaunchState::Failed {
                    error: LaunchError::RootfsMissing { path: request.rootfs.clone() },
                    child: None,
                },
            },
            LaunchState::ProbeMembership => match outcome {
                Outcome::Text(record) => match unified_entry(record.as_str()) {
                    Some(entry) => LaunchState::OpenChannel { entry },
                    None => LaunchState::Failed {
                        error: LaunchError::Cgroup(
                            CgroupError {
                                fault: CgroupFault::NoUnifiedEntry,
                                reason: String::new(),
                            },
                        ),
                        child: None,
                    },
                },
                _ => LaunchState::Failed {
                    error: LaunchError::Cgroup(
                        CgroupError { fault: CgroupFault::Membership, reason: reason_of(outcome) },
                    ),
                    child: None,
                },
            },
            LaunchState::OpenChannel { entry } => match outcome {
                Outcome::Done => LaunchState::Spawn { entry },
                _ => LaunchState::Failed {
                    error: LaunchError::Channel(
                        ChannelError { fault: ChannelFault::Open, reason: reason_of(outcome) },
                    ),
                    child: None,
                },
            },
            LaunchState::Spawn { entry } => match outcome {
                Outcome::Spawned(pid) => LaunchState::Confine {
                    pid: *pid,
                    setup: CgroupSetup::discovered(*pid, fixed_policy(), entry.as_str()),
                },
                _ => LaunchState::Failed {
                    error: LaunchError::Spawn(SpawnError { reason: reason_of(outcome) }),
                    child: None,
                },
            },
            LaunchState::Confine { pid, setup } => {
                let next = setup.advance(outcome);
                match next.error() {
                    Some(error) => LaunchState::Failed {
                        error: LaunchError::Cgroup(error),
                        child: Some(pid),
                    },
                    None => {
                        if next.phase() == CgroupPhase::Ready {
                            LaunchState::MapIdentity {
                                pid,
                                plan: map_identity(IdentityMapping { pid, host_uid, host_gid }),
                            }
                        } else {
                            LaunchState::Confine { pid, setup: next }
                        }
                    },
                }
            },
            LaunchState::MapIdentity { pid, plan } => {
                let next = plan.advance(outcome);
                match map_error(&next) {
                    Some(error) => LaunchState::Failed {
                        error: LaunchError::Identity(error),
                        child: Some(pid),
                    },
                    None => {
                        if next.succeeded() {
                            LaunchState::Release { pid }
                        } else {
                            LaunchState::MapIdentity { pid, plan: next }
                        }
                    },
                }
            },
            LaunchState::Release { pid } => match outcome {
                Outcome::Transferred(1) => LaunchState::Await { pid },
                _ => LaunchState::Failed {
                    error: LaunchError::Channel(
                        ChannelError {
                            fault: ChannelFault::Send,
                            reason: handshake_reason_of(outcome),
                        },
                    ),
                    child: Some(pid),
                },
            },
            LaunchState::Await { pid } => match outcome {
                Outcome::Exited(exit) => LaunchState::Finished { pid, outcome: *exit },
                _ => LaunchState::Failed {
                    error: LaunchError::Wait { reason: reason_of(outcome) },
                    child: Some(pid),
                },
            },
            LaunchState::Finished { pid, outcome } => LaunchState::Finished { pid, outcome },
            LaunchState::Failed { error, child } => LaunchState::Failed { error, child },
        };
        Launch { request, host_uid, host_gid, state }
    }

    /// How the launch ended, or `None` while operations are pending.
    pub fn result(&self) -> (result: Option<Result<ExitOutcome, LaunchError>>)
        ensures
            match result {
                None => self@.result() is None,
                Some(Ok(exit)) => self@.result() == Some(
                    Ok::<ExitOutcome, LaunchErrorView>(exit),
                ),
                Some(Err(error)) => self@.result() == Some(
                    Err::<ExitOutcome, LaunchErrorView>(error@),
                ),
            },
    {
        match &self.state {
            LaunchState::Finished { outcome, .. } => Some(Ok(*outcome)),
            LaunchState::Failed { error, .. } => Some(Err(copy_launch_error(error))),
            _ => None,
        }
    }

    /// Process id of the child, once it exists.
    pub fn child_pid(&self) -> (pid: Option<i32>)
        ensures
            pid == self@.child_pid(),
    {
        match &self.state {
            LaunchState::Confine { pid, .. } => Some(*pid),
            LaunchState::MapIdentity { pid, .. } => Some(*pid),
            LaunchState::Release { pid } => Some(*pid),
            LaunchState::Await { pid } => Some(*pid),
            LaunchState::Finished { pid, .. } => Some(*pid),
            LaunchState::Failed { child, .. } => *child,
            _ => None,
        }
    }

    /// Whether the memory that the child started on must still be kept.
    /// The caller may free it only when this is `false`.
    pub fn stack_in_use(&self) -> (yes: bool)
        ensures
            yes == self@.stack_in_use(),
    {
        match &self.state {
            LaunchState::Confine { .. } => true,
            LaunchState::MapIdentity { .. } => true,
            LaunchState::Release { .. } => true,
            LaunchState::Await { .. } => true,
            LaunchState::Failed { child, .. } => child.is_some(),
            _ => false,
        }
    }
}

fn copy_launch_error(error: &LaunchError) -> (copy: LaunchError)
    ensures
        copy@ == error@,
{
    match error {
        LaunchError::RootfsMissing { path } => LaunchError::RootfsMissing { path: path.clone() },
        LaunchError::Cgroup(e) => LaunchError::Cgroup(
            CgroupError { fault: e.fault, reason: e.reason.clone() },
        ),
        LaunchError::Channel(e) => LaunchError::Channel(
            ChannelError { fault: e.fault, reason: e.reason.clone() },
        ),
        LaunchError::Spawn(e) => LaunchError::Spawn(SpawnError { reason: e.reason.clone() }),
        LaunchError::Identity(e) => LaunchError::Identity(
            MapError { fault: e.fault, reason: e.reason.clone() },
        ),
        LaunchError::Wait { reason } => LaunchError::Wait { reason: reason.clone() },
    }
}

/// Begins the launch of `command` with `args` in the root filesystem
/// `rootfs`.  The child's user and group 0 are mapped to the caller's own.
/// The caller performs each pending operation and reports its outcome until
/// nothing is pending; [`Launch::result`] then says how the launch ended.
pub fn run_container(rootfs: &str, command: &str, args: Vec<String>) -> (launch: Launch)
    ensures
        launch@.request == (LaunchRequestView {
            rootfs: rootfs@,
            command: command@,
            args: args.deep_view(),
        }),
        launch@.state == LaunchStateView::CheckRootfs,
        launch@.wf(),
{
    let request = LaunchRequest {
        rootfs: String::from_str(rootfs),
        command: String::from_str(command),
        args,
    };
    Launch::new(request, host_uid(), host_gid())
}

impl LaunchView {
    /// How far the launch has come, as a number that only grows.
    pub open spec fn stage(self) -> nat {
        match self.state {
            LaunchStateView::CheckRootfs => 0,
            LaunchStateView::ProbeMembership => 1,
            LaunchStateView::OpenChannel { .. } => 2,
            LaunchStateView::Spawn { .. } => 3,
            LaunchStateView::Confine { .. } => 4,
            LaunchStateView::MapIdentity { .. } => 5,
            LaunchStateView::Release { .. } => 6,
            LaunchStateView::Await { .. } => 7,
            LaunchStateView::Finished { .. } => 8,
            LaunchStateView::Failed { .. } => 9,
        }
    }

    /// What holds of every launch that was started by [`LaunchView::start`]:
    /// while the child is being confined, the confinement is that of the
    /// child under the fixed policy and is still running; while its identity
    /// is being mapped, the mapping is that of the child to the launch's
    /// host identity and is still running.
    pub open spec fn wf(self) -> bool {
        match self.state {
            LaunchStateView::Confine { pid, setup } => {
                &&& setup.pid == pid
                &&& setup.limits == policy_limits()
                &&& setup.failure is None
                &&& setup.phase != CgroupPhase::Ready
                &&& setup.phase != CgroupPhase::Discover
            },
            LaunchStateView::MapIdentity { pid, plan } => {
                &&& plan.steps == self.identity_plan(pid).steps
                &&& plan.failure is None
                &&& plan.completed < plan.steps.len()
            },
            _ => true,
        }
    }

    /// The pending operation, answered by `outcome`, completes the
    /// confinement of the child.
    pub open spec fn confined_by(self, outcome: OutcomeView) -> bool {
        self.state matches LaunchStateView::Confine { setup, .. } && setup.advance(
            outcome,
        ).handle() is Some
    }

    /// The pending operation, answered by `outcome`, completes the identity
    /// mapping of the child.
    pub open spec fn mapped_by(self, outcome: OutcomeView) -> bool {
        self.state matches LaunchStateView::MapIdentity { plan, .. } && plan.advance(
            outcome,
        ).succeeded()
    }
}

/// One more outcome: running a launch over `outcomes` up to and including
/// position `k` is running it up to `k` and then advancing by `outcomes[k]`.
pub proof fn lemma_run_step(launch: LaunchView, outcomes: Seq<OutcomeView>, k: int)
    requires
        0 <= k < outcomes.len(),
    ensures
        launch.run(outcomes.take(k + 1)) == launch.run(outcomes.take(k)).advance(outcomes[k]),
{
    assert(outcomes.take(k + 1).drop_last() =~= outcomes.take(k));
    assert(outcomes.take(k + 1).last() == outcomes[k]);
}

/// Every step keeps a launch well-formed, moves it forward by at most one
/// stage unless it fails, and leaves an ended launch as it is.
pub proof fn lemma_advance_shape(launch: LaunchView, outcome: OutcomeView)
    requires
        launch.wf(),
    ensures
        launch.advance(outcome).wf(),
        launch.advance(outcome).request == launch.request,
        launch.advance(outcome).host_uid == launch.host_uid,
        launch.advance(outcome).host_gid == launch.host_gid,
        launch.advance(outcome).stage() == launch.stage() || launch.advance(outcome).stage()
            == launch.stage() + 1 || launch.advance(outcome).stage() == 9,
        launch.stage() >= 8 ==> launch.advance(outcome) == launch,
{
}

/// Running a launch keeps it well-formed; its stage never falls, and an
/// ended launch stays as it is.
pub proof fn lemma_run_shape(launch: LaunchView, outcomes: Seq<OutcomeView>)
    requires
        launch.wf(),
    ensures
        launch.run(outcomes).wf(),
        launch.run(outcomes).request == launch.request,
        launch.run(outcomes).host_uid == launch.host_uid,
        launch.run(outcomes).host_gid == launch.host_gid,
        launch.stage() <= launch.run(outcomes).stage(),
        launch.stage() >= 8 ==> launch.run(outcomes) == launch,
    decreases outcomes.len(),
{
    if outcomes.len() > 0 {
        lemma_run_shape(launch, outcomes.drop_last());
        lemma_advance_shape(launch.run(outcomes.drop_last()), outcomes.last());
    }
}

/// The stage of a launch never falls from one moment of a run to a later
/// one.
pub proof fn lemma_stage_monotone(
    launch: LaunchView,
    outcomes: Seq<OutcomeView>,
    earlier: int,
    later: int,
)
    requires
        launch.wf(),
        0 <= earlier <= later <= outcomes.len(),
    ensures
        launch.run(outcomes.take(earlier)).stage() <= launch.run(outcomes.take(later)).stage(),
    decreases later - earlier,
{
    if earlier < later {
        lemma_stage_monotone(launch, outcomes, earlier, later - 1);
        lemma_run_step(launch, outcomes, later - 1);
        lemma_run_shape(launch, outcomes.take(later - 1));
        lemma_advance_shape(launch.run(outcomes.take(later - 1)), outcomes[later - 1]);
    }
}

/// A launch that has reached a stage short of failure has entered that
/// stage at some moment of the run, coming from the stage before it.  The
/// moment is returned: it is the number of outcomes reported before the
/// step that entered the stage.
pub proof fn lemma_stage_entered(
    launch: LaunchView,
    outcomes: Seq<OutcomeView>,
    stage: nat,
) -> (k: int)
    requires
        launch.wf(),
        launch.stage() < stage <= launch.run(outcomes).stage(),
        launch.run(outcomes).stage() < 9,
    ensures
        0 <= k < outcomes.len(),
        launch.run(outcomes.take(k)).wf(),
        launch.run(outcomes.take(k)).stage() + 1 == stage,
        launch.run(outcomes.take(k)).advance(outcomes[k]).stage() == stage,
        launch.run(outcomes.take(k + 1)) == launch.run(outcomes.take(k)).advance(outcomes[k]),
    decreases outcomes.len(),
{
    let shorter = outcomes.drop_last();
    let before = launch.run(shorter);
    lemma_run_shape(launch, shorter);
    lemma_advance_shape(before, outcomes.last());
    if before.stage() >= stage {
        let k = lemma_stage_entered(launch, shorter, stage);
        assert(shorter.take(k) =~= outcomes.take(k));
        assert(shorter.take(k + 1) =~= outcomes.take(k + 1));
        k
    } else {
        let k = outcomes.len() - 1;
        assert(outcomes.take(k) =~= shorter);
        assert(outcomes.take(k + 1) =~= outcomes);
        k
    }
}

/// What is pending tells where a launch stands: creating the child is
/// pending only when the launch is about to spawn, sending the proceed byte
/// only when it is about to release, and waiting only when it awaits the end
/// of the child.
pub proof fn lemma_pending_names_state(launch: LaunchView)
    requires
        launch.wf(),
        launch.pending() is Some,
    ensures
        launch.pending()->0 is Spawn ==> launch.state is Spawn,
        launch.pending()->0 is SendProceed ==> launch.state is Release,
        launch.pending()->0 is WaitChild ==> launch.state is Await,
{
}

/// How the later states are entered: the identity mapping only by the step
/// that completes the confinement, the release only by the step that
/// completes the identity mapping.
pub proof fn lemma_entry_steps(launch: LaunchView, outcome: OutcomeView)
    requires
        launch.wf(),
    ensures
        !(launch.state is MapIdentity) && launch.advance(outcome).state is MapIdentity
            ==> launch.confined_by(outcome),
        launch.advance(outcome).state is Release ==> launch.mapped_by(outcome),
{
}

/// No precondition, no side effect.  If the check of the root filesystem
/// does not come back positive, the launch ends at once with the error that
/// names the path, and at no later moment of the run is any operation
/// pending: no child, no control group and no mount is ever asked for.
pub proof fn lemma_missing_rootfs_creates_nothing(
    request: LaunchRequestView,
    host_uid: u32,
    host_gid: u32,
    outcomes: Seq<OutcomeView>,
    k: int,
)
    requires
        1 <= k <= outcomes.len(),
        outcomes[0] != OutcomeView::Flag(true),
    ensures
        LaunchView::start(request, host_uid, host_gid).run(outcomes.take(0)).pending() == Some(
            ActionView::IsDirectory { path: request.rootfs },
        ),
        LaunchView::start(request, host_uid, host_gid).run(outcomes.take(k)).pending() is None,
        LaunchView::start(request, host_uid, host_gid).run(outcomes.take(k)).result() == Some(
            Err::<ExitOutcome, LaunchErrorView>(
                LaunchErrorView::RootfsMissing { path: request.rootfs },
            ),
        ),
    decreases k,
{
    let launch = LaunchView::start(request, host_uid, host_gid);
    assert(outcomes.take(0) =~= Seq::<OutcomeView>::empty());
    lemma_run_step(launch, outcomes, k - 1);
    if k > 1 {
        lemma_missing_rootfs_creates_nothing(request, host_uid, host_gid, outcomes, k - 1);
    }
}

/// The child is created only after both preconditions hold.  If creating
/// the child is what is pending at some moment of a run, then exactly three
/// outcomes have been reported: the root filesystem is a directory, the
/// caller's membership record names a unified entry, and the handshake
/// channel is open.
pub proof fn lemma_spawn_follows_preconditions(
    request: LaunchRequestView,
    host_uid: u32,
    host_gid: u32,
    outcomes: Seq<OutcomeView>,
)
    requires
        LaunchView::start(request, host_uid, host_gid).run(outcomes).pending() is Some,
        LaunchView::start(request, host_uid, host_gid).run(outcomes).pending()->0 is Spawn,
    ensures
        outcomes.len() == 3,
        outcomes[0] == OutcomeView::Flag(true),
        outcomes[1] is Text && spec_unified_entry(outcomes[1]->Text_0) is Some,
        outcomes[2] is Done,
{
    let launch = LaunchView::start(request, host_uid, host_gid);
    lemma_run_shape(launch, outcomes);
    let end = launch.run(outcomes);
    assert(end.state is Spawn);
    // Each of the first four states is entered from the one before it only.
    let two = outcomes.drop_last();
    lemma_run_shape(launch, two);
    assert(launch.run(two).state is OpenChannel && outcomes.last() is Done);
    let one = two.drop_last();
    lemma_run_shape(launch, one);
    assert(launch.run(one).state is ProbeMembership);
    let none = one.drop_last();
    lemma_run_shape(launch, none);
    assert(launch.run(none).state is CheckRootfs);
    if none.len() > 0 {
        lemma_run_shape(launch, none.drop_last());
        assert(!(launch.run(none.drop_last()).advance(none.last()).state is CheckRootfs));
    }
    assert(two.last() == outcomes[1]);
    assert(one.last() == outcomes[0]);
}

/// The child is released only after it is confined and mapped.  If sending
/// the proceed byte is what is pending at some moment of a run, then at an
/// earlier moment the confinement of the child was completed, and at a
/// moment after that and before the release its identity mapping was
/// completed.
pub proof fn lemma_release_follows_setup(
    request: LaunchRequestView,
    host_uid: u32,
    host_gid: u32,
    outcomes: Seq<OutcomeView>,
)
    requires
        LaunchView::start(request, host_uid, host_gid).run(outcomes).pending() == Some(
            ActionView::SendProceed,
        ),
    ensures
        exists|i: int, j: int|
            0 <= i < j < outcomes.len() && (#[trigger] LaunchView::start(
                request,
                host_uid,
                host_gid,
            ).run(outcomes.take(i))).confined_by(outcomes[i]) && (#[trigger] LaunchView::start(
                request,
                host_uid,
                host_gid,
            ).run(outcomes.take(j))).mapped_by(outcomes[j]),
{
    let launch = LaunchView::start(request, host_uid, host_gid);
    lemma_run_shape(launch, outcomes);
    lemma_pending_names_state(launch.run(outcomes));
    // The identity mapping is entered by the step that completes the
    // confinement, the release by the step that completes the mapping.
    let i = lemma_stage_entered(launch, outcomes, 5);
    lemma_entry_steps(launch.run(outcomes.take(i)), outcomes[i]);
    let j = lemma_stage_entered(launch, outcomes, 6);
    lemma_entry_steps(launch.run(outcomes.take(j)), outcomes[j]);
    if j <= i {
        lemma_stage_monotone(launch, outcomes, j + 1, i + 1);
    }
}

/// Whether `outcome` is the answer with which the operation `action` of a
/// launch goes well: the root filesystem is a directory, a probe is answered
/// either way, a file is read (and, if it is the membership record, names a
/// unified entry), the child is created, exactly one byte is sent, the wait
/// returns, and everything else is simply done.
pub open spec fn goes_well(action: ActionView, outcome: OutcomeView) -> bool {
    match action {
        ActionView::IsDirectory { .. } => outcome == OutcomeView::Flag(true),
        ActionView::PathExists { .. } => outcome is Flag,
        ActionView::ReadFile { path } => outcome is Text && (path == "/proc/self/cgroup"@
            ==> spec_unified_entry(outcome->Text_0) is Some),
        ActionView::Spawn { .. } => outcome is Spawned,
        ActionView::SendProceed => outcome == OutcomeView::Transferred(1),
        ActionView::WaitChild { .. } => outcome is Exited,
        _ => outcome is Done,
    }
}

impl LaunchView {
    /// Every operation of the run over `outcomes` goes well.
    pub open spec fn runs_well(self, outcomes: Seq<OutcomeView>) -> bool {
        forall|k: int|
            0 <= k < outcomes.len() && (#[trigger] self.run(outcomes.take(k))).pending() is Some
                ==> goes_well(self.run(outcomes.take(k)).pending()->0, outcomes[k])
    }

    /// An upper bound on the number of operations a launch still has to
    /// perform.
    pub open spec fn remaining(self) -> nat {
        match self.state {
            LaunchStateView::CheckRootfs => 17,
            LaunchStateView::ProbeMembership => 16,
            LaunchStateView::OpenChannel { .. } => 15,
            LaunchStateView::Spawn { .. } => 14,
            LaunchStateView::Confine { setup, .. } => match setup.phase {
                CgroupPhase::ReadControllers => 12,
                CgroupPhase::ProbeDelegation => 11,
                CgroupPhase::Delegate => 10,
                CgroupPhase::CreateGroup => 9,
                CgroupPhase::SetMemory => 8,
                CgroupPhase::SetCpu => 7,
                CgroupPhase::Attach => 6,
                _ => 13,
            },
            LaunchStateView::MapIdentity { plan, .. } => (2 + plan.steps.len()
                - plan.completed) as nat,
            LaunchStateView::Release { .. } => 2,
            LaunchStateView::Await { .. } => 1,
            LaunchStateView::Finished { .. } => 0,
            LaunchStateView::Failed { .. } => 0,
        }
    }
}

/// An operation that goes well brings a launch closer to its end and does
/// not fail it.
pub proof fn lemma_good_step_makes_progress(launch: LaunchView, outcome: OutcomeView)
    requires
        launch.wf(),
        launch.pending() is Some,
        goes_well(launch.pending()->0, outcome),
    ensures
        !(launch.advance(outcome).state is Failed),
        launch.advance(outcome).remaining() < launch.remaining(),
{
}

/// A launch in which everything goes well succeeds.  If the root filesystem
/// is a directory and every operation of the run goes well, the launch does
/// not fail, and after seventeen outcomes at the latest it has ended with
/// the exit outcome of the child.
pub proof fn lemma_launch_succeeds_when_all_goes_well(
    request: LaunchRequestView,
    host_uid: u32,
    host_gid: u32,
    outcomes: Seq<OutcomeView>,
)
    requires
        LaunchView::start(request, host_uid, host_gid).runs_well(outcomes),
    ensures
        !(LaunchView::start(request, host_uid, host_gid).run(outcomes).state is Failed),
        LaunchView::start(request, host_uid, host_gid).run(outcomes).remaining() + outcomes.len()
            <= 17 || LaunchView::start(request, host_uid, host_gid).run(outcomes).result() is Some,
        outcomes.len() >= 17 ==> LaunchView::start(request, host_uid, host_gid).run(
            outcomes,
        ).result() matches Some(Ok(_)),
    decreases outcomes.len(),
{
    let launch = LaunchView::start(request, host_uid, host_gid);
    if outcomes.len() > 0 {
        let shorter = outcomes.drop_last();
        let k = outcomes.len() - 1;
        assert(outcomes.take(k) =~= shorter);
        assert forall|j: int|
            0 <= j < shorter.len() && (#[trigger] launch.run(shorter.take(j))).pending()
                is Some implies goes_well(launch.run(shorter.take(j)).pending()->0, shorter[j]) by {
            assert(shorter.take(j) =~= outcomes.take(j));
            assert(launch.run(outcomes.take(j)).pending() is Some);
        }
        lemma_launch_succeeds_when_all_goes_well(request, host_uid, host_gid, shorter);
        lemma_run_shape(launch, shorter);
        let before = launch.run(shorter);
        if before.pending() is Some {
            assert(launch.run(outcomes.take(k)).pending() is Some);
            lemma_good_step_makes_progress(before, outcomes.last());
        }
    }
}

/// The memory outlives the child.  From the step in which the child is
/// created, the memory it started on counts as in use; the only step that
/// ends this is the one in which the wait reports that the child has ended.
pub proof fn lemma_stack_outlives_child(launch: LaunchView, outcome: OutcomeView)
    requires
        launch.wf(),
    ensures
        !launch.stack_in_use() && launch.advance(outcome).stack_in_use() ==> launch.pending()
            is Some && launch.pending()->0 is Spawn && outcome is Spawned,
        launch.stack_in_use() && !launch.advance(outcome).stack_in_use() ==> launch.pending()
            is Some && launch.pending()->0 is WaitChild && outcome is Exited,
{
}

/// The handshake carries one message.  In any run there is at most one
/// moment at which sending the proceed byte is pending.
pub proof fn lemma_proceed_sent_at_most_once(
    request: LaunchRequestView,
    host_uid: u32,
    host_gid: u32,
    outcomes: Seq<OutcomeView>,
    first: int,
    second: int,
)
    requires
        0 <= first <= second <= outcomes.len(),
        LaunchView::start(request, host_uid, host_gid).run(outcomes.take(first)).pending() == Some(
            ActionView::SendProceed,
        ),
        LaunchView::start(request, host_uid, host_gid).run(outcomes.take(second)).pending()
            == Some(ActionView::SendProceed),
    ensures
        first == second,
{
    let launch = LaunchView::start(request, host_uid, host_gid);
    lemma_run_shape(launch, outcomes.take(first));
    lemma_run_shape(launch, outcomes.take(second));
    let one = launch.run(outcomes.take(first));
    let two = launch.run(outcomes.take(second));
    assert(one.stage() == 6);
    assert(two.stage() == 6);
    if first < second {
        lemma_run_step(launch, outcomes, first);
        lemma_stage_monotone(launch, outcomes, first + 1, second);
    }
}

/// The wait follows the release.  If waiting for the child is what is
/// pending at some moment of a run, then the operation just before it was
/// sending the proceed byte, and exactly one byte was sent.
pub proof fn lemma_wait_follows_release(
    request: LaunchRequestView,
    host_uid: u32,
    host_gid: u32,
    outcomes: Seq<OutcomeView>,
)
    requires
        LaunchView::start(request, host_uid, host_gid).run(outcomes).pending() is Some,
        LaunchView::start(request, host_uid, host_gid).run(outcomes).pending()->0 is WaitChild,
    ensures
        outcomes.len() >= 1,
        outcomes.last() == OutcomeView::Transferred(1),
        LaunchView::start(request, host_uid, host_gid).run(outcomes.drop_last()).pending() == Some(
            ActionView::SendProceed,
        ),
{
    let launch = LaunchView::start(request, host_uid, host_gid);
    lemma_run_shape(launch, outcomes);
    let end = launch.run(outcomes);
    assert(end.state is Await);
    lemma_run_shape(launch, outcomes.drop_last());
    let before = launch.run(outcomes.drop_last());
    assert(before.state is Release);
}

/// The launch reports what the wait reported.  If a run has ended with an
/// exit outcome, then at some moment of the run the wait for the child was
/// pending and was answered with exactly that outcome.
pub proof fn lemma_result_is_what_wait_reported(
    request: LaunchRequestView,
    host_uid: u32,
    host_gid: u32,
    outcomes: Seq<OutcomeView>,
    exit: ExitOutcome,
)
    requires
        LaunchView::start(request, host_uid, host_gid).run(outcomes).result() == Some(
            Ok::<ExitOutcome, LaunchErrorView>(exit),
        ),
    ensures
        exists|k: int|
            0 <= k < outcomes.len() && (#[trigger] LaunchView::start(
                request,
                host_uid,
                host_gid,
            ).run(outcomes.take(k))).pending() is Some && LaunchView::start(
                request,
                host_uid,
                host_gid,
            ).run(outcomes.take(k)).pending()->0 is WaitChild && outcomes[k]
                == OutcomeView::Exited(exit),
{
    let launch = LaunchView::start(request, host_uid, host_gid);
    lemma_run_shape(launch, outcomes);
    let k = lemma_stage_entered(launch, outcomes, 8);
    let waiting = launch.run(outcomes.take(k));
    let finished = launch.run(outcomes.take(k + 1));
    assert(waiting.state is Await);
    assert(finished == waiting.advance(outcomes[k]));
    // From the moment the launch is finished, it does not change any more.
    let rest = outcomes.skip(k + 1);
    assert(outcomes.take(k + 1) + rest =~= outcomes);
    lemma_run_concat(launch, outcomes.take(k + 1), rest);
    lemma_ended_launch_is_final(finished, rest);
    assert(launch.run(outcomes) == finished);
}

/// Running over two sequences in a row is running over their
/// concatenation.
pub proof fn lemma_run_concat(
    launch: LaunchView,
    first: Seq<OutcomeView>,
    second: Seq<OutcomeView>,
)
    ensures
        launch.run(first + second) == launch.run(first).run(second),
    decreases second.len(),
{
    if second.len() == 0 {
        assert(first + second =~= first);
    } else {
        lemma_run_concat(launch, first, second.drop_last());
        assert((first + second).drop_last() =~= first + second.drop_last());
        assert((first + second).last() == second.last());
    }
}

/// Every step is fatal and final.  Once a launch has failed or finished,
/// no further outcome changes it and nothing is pending.
pub proof fn lemma_ended_launch_is_final(launch: LaunchView, outcomes: Seq<OutcomeView>)
    requires
        launch.result() is Some,
    ensures
        launch.run(outcomes) == launch,
        launch.run(outcomes).pending() is None,
    decreases outcomes.len(),
{
    if outcomes.len() > 0 {
        lemma_ended_launch_is_final(launch, outcomes.drop_last());
    }
}

/// After the proceed byte has arrived, the child is its plan: running the
/// child over the byte and then over `rest` is running the plan over `rest`.
pub proof fn lemma_released_child_follows_plan(
    request: LaunchRequestView,
    outcomes: Seq<OutcomeView>,
)
    requires
        outcomes.len() >= 1,
        outcomes[0] == OutcomeView::Transferred(1),
    ensures
        ChildView::start(request).run(outcomes) == (ChildView {
            request,
            released: true,
            handshake: None,
            plan: PlanView::start(child_steps(request)).run(outcomes.skip(1)),
        }),
    decreases outcomes.len(),
{
    let child = ChildView::start(request);
    if outcomes.len() == 1 {
        assert(outcomes.drop_last() =~= Seq::<OutcomeView>::empty());
        assert(outcomes.skip(1) =~= Seq::<OutcomeView>::empty());
        assert(child.run(outcomes.drop_last()) == child);
    } else {
        lemma_released_child_follows_plan(request, outcomes.drop_last());
        assert(outcomes.drop_last().skip(1) =~= outcomes.skip(1).drop_last());
        assert(outcomes.skip(1).last() == outcomes.last());
    }
}

/// Without the proceed byte, the child does nothing.  If the first outcome
/// is anything but the arrival of exactly one byte, then at every later
/// moment of the run nothing is pending and the exit status is 1: the child
/// never mounts, never switches roots and never hands over.
pub proof fn lemma_unreleased_child_does_nothing(
    request: LaunchRequestView,
    outcomes: Seq<OutcomeView>,
)
    requires
        outcomes.len() >= 1,
        outcomes[0] != OutcomeView::Transferred(1),
    ensures
        ChildView::start(request).run(outcomes).pending() is None,
        ChildView::start(request).run(outcomes).exit_status() == Some(1i32),
        ChildView::start(request).run(outcomes).failure() == Some(
            ChildFailureView::Handshake { reason: handshake_reason(outcomes[0]) },
        ),
    decreases outcomes.len(),
{
    let child = ChildView::start(request);
    if outcomes.len() == 1 {
        assert(outcomes.drop_last() =~= Seq::<OutcomeView>::empty());
        assert(child.run(outcomes.drop_last()) == child);
    } else {
        lemma_unreleased_child_does_nothing(request, outcomes.drop_last());
    }
}

/// The child works strictly in order.  At the start of every run the child
/// waits for the proceed byte.  If at a later moment of a run an operation
/// is pending, then the first outcome was the arrival of exactly one byte,
/// every outcome since was a success, and the pending operation is the next
/// step in line.  In particular the hand-over is pending only after the
/// host name is set and the root transition is complete.
pub proof fn lemma_child_steps_in_order(request: LaunchRequestView, outcomes: Seq<OutcomeView>)
    ensures
        outcomes.len() == 0 ==> ChildView::start(request).run(outcomes).pending() == Some(
            ActionView::AwaitProceed,
        ),
        outcomes.len() > 0 && ChildView::start(request).run(outcomes).pending() is Some ==> {
            &&& outcomes[0] == OutcomeView::Transferred(1)
            &&& forall|j: int| 1 <= j < outcomes.len() ==> outcomes[j] is Done
            &&& outcomes.len() - 1 < child_steps(request).len()
            &&& ChildView::start(request).run(outcomes).pending() == Some(
                child_steps(request)[outcomes.len() - 1],
            )
        },
{
    if outcomes.len() > 0 {
        if outcomes[0] == OutcomeView::Transferred(1) {
            lemma_released_child_follows_plan(request, outcomes);
            lemma_pending_after(child_steps(request), outcomes.skip(1));
            assert forall|j: int| 1 <= j < outcomes.len() && ChildView::start(request).run(
                outcomes,
            ).pending() is Some implies outcomes[j] is Done by {
                assert(outcomes.skip(1)[j - 1] == outcomes[j]);
            }
        } else {
            lemma_unreleased_child_does_nothing(request, outcomes);
        }
    }
}

/// A child that is released and whose every step succeeds ends with status
/// 0 if its command and arguments could be passed on, and with status 1 and
/// the encoding error if they could not.
pub proof fn lemma_child_exit_after_success(
    request: LaunchRequestView,
    outcomes: Seq<OutcomeView>,
)
    requires
        outcomes.len() > child_steps(request).len(),
        outcomes[0] == OutcomeView::Transferred(1),
        forall|j: int| 1 <= j < outcomes.len() ==> outcomes[j] is Done,
    ensures
        ChildView::start(request).run(outcomes).pending() is None,
        ChildView::start(request).run(outcomes).exit_status() == Some(
            if encoding_error(request) is Some {
                1i32
            } else {
                0i32
            },
        ),
{
    lemma_released_child_follows_plan(request, outcomes);
    let rest = outcomes.skip(1);
    assert forall|j: int| 0 <= j < child_steps(request).len() implies rest[j] is Done by {
        assert(rest[j] == outcomes[j + 1]);
    }
    lemma_all_done_succeeds(child_steps(request), rest);
}

} // verus!
