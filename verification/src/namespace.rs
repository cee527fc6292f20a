//! Identity mapper: binds user and group 0 of a new user namespace to the
//! caller's own user and group on the host.

use crate::action::{Action, ActionView, OutcomeView};
use crate::plan::{actions_view, lemma_pending_after, Plan, PlanView};
use crate::text::{decimal_i32, decimal_int, decimal_nat, decimal_u64};
use vstd::prelude::*;

verus! {

/// Whose namespace is mapped, and to which host identity.
#[derive(Clone, Copy, Debug, PartialEq, Eq, Structural)]
pub struct IdentityMapping {
    pub pid: i32,
    pub host_uid: u32,
    pub host_gid: u32,
}

/// Path of the file `name` in the `/proc` directory of process `pid`.
pub open spec fn spec_proc_file(pid: i32, name: Seq<char>) -> Seq<char> {
    "/proc/"@ + decimal_int(pid as int) + "/"@ + name
}

/// One line of an id map: namespace id 0, the host id, and a range of one.
pub open spec fn spec_id_map_line(host_id: u32) -> Seq<char> {
    "0 "@ + decimal_nat(host_id as nat) + " 1"@
}

/// The three writes of an identity mapping, in the order the kernel demands:
/// first deny `setgroups`, then map the user id, then map the group id.
pub open spec fn identity_steps(mapping: IdentityMapping) -> Seq<ActionView> {
    seq![
        ActionView::WriteFile {
            path: spec_proc_file(mapping.pid, "setgroups"@),
            content: "deny"@,
        },
        ActionView::WriteFile {
            path: spec_proc_file(mapping.pid, "uid_map"@),
            content: spec_id_map_line(mapping.host_uid),
        },
        ActionView::WriteFile {
            path: spec_proc_file(mapping.pid, "gid_map"@),
            content: spec_id_map_line(mapping.host_gid),
        },
    ]
}

/// Path of the file `name` in the `/proc` directory of process `pid`.
pub fn proc_file(pid: i32, name: &str) -> (path: String)
    ensures
        path@ == spec_proc_file(pid, name@),
{
    let mut path = String::from_str("/proc/");
    let digits = decimal_i32(pid);
    path.append(digits.as_str());
    path.append("/");
    path.append(name);
    path
}

/// The line that maps namespace id 0 to `host_id`.
pub fn id_map_line(host_id: u32) -> (line: String)
    ensures
        line@ == spec_id_map_line(host_id),
{
    let mut line = String::from_str("0 ");
    let digits = decimal_u64(host_id as u64);
    line.append(digits.as_str());
    line.append(" 1");
    line
}

/// The plan that carries out `mapping`.
pub fn map_identity(mapping: IdentityMapping) -> (plan: Plan)
    ensures
        plan@ == PlanView::start(identity_steps(mapping)),
{
    let mut steps: Vec<Action> = Vec::new();
    steps.push(
        Action::WriteFile {
            path: proc_file(mapping.pid, "setgroups"),
            content: String::from_str("deny"),
        },
    );
    steps.push(
        Action::WriteFile {
            path: proc_file(mapping.pid, "uid_map"),
            content: id_map_line(mapping.host_uid),
        },
    );
    steps.push(
        Action::WriteFile {
            path: proc_file(mapping.pid, "gid_map"),
            content: id_map_line(mapping.host_gid),
        },
    );
    assert(actions_view(steps@) =~= identity_steps(mapping));
    Plan::new(steps)
}

/// Real user id of the calling process, as `nix::unistd::getuid` reports it.
/// Nothing is claimed about the value: it is whatever the system says.
#[verifier::external_body]
pub(crate) fn host_uid() -> u32 {
    nix::unistd::getuid().as_raw()
}

/// Real group id of the calling process, as `nix::unistd::getgid` reports
/// it.  Nothing is claimed about the value: it is whatever the system says.
#[verifier::external_body]
pub(crate) fn host_gid() -> u32 {
    nix::unistd::getgid().as_raw()
}

/// The mapping of process `pid` to the caller's own user and group.
pub fn current_identity(pid: i32) -> (mapping: IdentityMapping)
    ensures
        mapping.pid == pid,
{
    IdentityMapping { pid, host_uid: host_uid(), host_gid: host_gid() }
}

/// Begins the identity mapping of process `pid` to the caller's own user and
/// group.  The caller performs each pending write and reports its outcome.
pub fn setup_user_namespace(pid: i32) -> (plan: Plan)
    ensures
        exists|uid: u32, gid: u32|
            plan@ == PlanView::start(
                #[trigger] identity_steps(IdentityMapping { pid, host_uid: uid, host_gid: gid }),
            ),
{
    let mapping = current_identity(pid);
    map_identity(mapping)
}

/// Which write of the identity mapping failed.
#[derive(Clone, Copy, Debug, PartialEq, Eq, Structural)]
pub enum MapFault {
    Setgroups,
    UidMap,
    GidMap,
}

/// A failed identity mapping: the write that failed and the system's reason.
#[derive(Clone, Debug, PartialEq, Eq)]
pub struct MapError {
    pub fault: MapFault,
    pub reason: String,
}

/// Mathematical value of a [`MapError`].
pub struct MapErrorView {
    pub fault: MapFault,
    pub reason: Seq<char>,
}

impl View for MapError {
    type V = MapErrorView;

    open spec fn view(&self) -> MapErrorView {
        MapErrorView { fault: self.fault, reason: self.reason@ }
    }
}

impl DeepView for MapError {
    type V = MapErrorView;

    open spec fn deep_view(&self) -> MapErrorView {
        self@
    }
}

impl MapErrorView {
    /// The error as one line of text.  The path of the file is not part of
    /// it; the name of the write is.
    pub open spec fn message(self) -> Seq<char> {
        match self.fault {
            MapFault::Setgroups => "Failed to write setgroups: "@ + self.reason,
            MapFault::UidMap => "Failed to write uid_map: "@ + self.reason,
            MapFault::GidMap => "Failed to write gid_map: "@ + self.reason,
        }
    }
}

impl MapError {
    /// Renders the error as one line of text.
    pub fn message(&self) -> (text: String)
        ensures
            text@ == self@.message(),
    {
        let head = match self.fault {
            MapFault::Setgroups => "Failed to write setgroups: ",
            MapFault::UidMap => "Failed to write uid_map: ",
            MapFault::GidMap => "Failed to write gid_map: ",
        };
        String::from_str(head).concat(self.reason.as_str())
    }
}

/// The write that belongs to a position in the plan.
pub open spec fn map_fault_at(position: nat) -> MapFault {
    if position == 0 {
        MapFault::Setgroups
    } else if position == 1 {
        MapFault::UidMap
    } else {
        MapFault::GidMap
    }
}

/// The error of an identity-mapping plan that stopped early.
pub open spec fn identity_error(plan: PlanView) -> Option<MapErrorView> {
    match plan.failure {
        Some(reason) => Some(MapErrorView { fault: map_fault_at(plan.completed), reason }),
        None => None,
    }
}

/// The error of an identity-mapping plan, if it stopped early.
pub fn map_error(plan: &Plan) -> (error: Option<MapError>)
    ensures
        error.deep_view() == identity_error(plan@),
{
    match plan.failure() {
        Some(reason) => {
            let position = plan.completed();
            let fault = if position == 0 {
                MapFault::Setgroups
            } else if position == 1 {
                MapFault::UidMap
            } else {
                MapFault::GidMap
            };
            Some(MapError { fault, reason })
        },
        None => None,
    }
}

/// Whether an action writes the user-id map of process `pid`.
pub open spec fn writes_uid_map(action: ActionView, pid: i32) -> bool {
    action matches ActionView::WriteFile { path, .. } && path == spec_proc_file(pid, "uid_map"@)
}

/// Whether an action writes the group-id map of process `pid`.
pub open spec fn writes_gid_map(action: ActionView, pid: i32) -> bool {
    action matches ActionView::WriteFile { path, .. } && path == spec_proc_file(pid, "gid_map"@)
}

/// Whether an action denies `setgroups` to process `pid`.
pub open spec fn denies_setgroups(action: ActionView, pid: i32) -> bool {
    action == (ActionView::WriteFile {
        path: spec_proc_file(pid, "setgroups"@),
        content: "deny"@,
    })
}

/// The three files of an identity mapping are three different paths.
pub proof fn lemma_identity_paths_differ(pid: i32)
    ensures
        spec_proc_file(pid, "setgroups"@) != spec_proc_file(pid, "uid_map"@),
        spec_proc_file(pid, "gid_map"@) != spec_proc_file(pid, "uid_map"@),
        spec_proc_file(pid, "setgroups"@) != spec_proc_file(pid, "gid_map"@),
{
    reveal_strlit("setgroups");
    reveal_strlit("uid_map");
    reveal_strlit("gid_map");
    let stem = "/proc/"@ + decimal_int(pid as int) + "/"@;
    let s = spec_proc_file(pid, "setgroups"@);
    let u = spec_proc_file(pid, "uid_map"@);
    let g = spec_proc_file(pid, "gid_map"@);
    // The first name is longer than the other two, which differ in their
    // first letter.
    assert(s.len() == stem.len() + 9);
    assert(u.len() == stem.len() + 7);
    assert(g.len() == stem.len() + 7);
    assert(u[stem.len() as int] == 'u');
    assert(g[stem.len() as int] == 'g');
}

/// Ordering of the identity mapping.  Take any run of the mapping and any
/// moment in it, given by the number `k` of outcomes reported so far.  If
/// the write of the user-id map is what is pending at that moment, then it
/// is the second operation of the run, the first operation of the run was
/// the write that denies `setgroups`, and that write had succeeded.
pub proof fn lemma_setgroups_denied_before_uid_map(
    mapping: IdentityMapping,
    outcomes: Seq<OutcomeView>,
    k: int,
)
    requires
        0 <= k <= outcomes.len(),
        PlanView::start(identity_steps(mapping)).run(outcomes.take(k)).pending() is Some,
        writes_uid_map(
            PlanView::start(identity_steps(mapping)).run(outcomes.take(k)).pending()->0,
            mapping.pid,
        ),
    ensures
        k == 1,
        outcomes[0] is Done,
        PlanView::start(identity_steps(mapping)).run(outcomes.take(0)).pending() is Some,
        denies_setgroups(
            PlanView::start(identity_steps(mapping)).run(outcomes.take(0)).pending()->0,
            mapping.pid,
        ),
{
    let steps = identity_steps(mapping);
    lemma_identity_paths_differ(mapping.pid);
    lemma_pending_after(steps, outcomes.take(k));
    lemma_pending_after(steps, outcomes.take(0));
    if k == 1 {
        assert(outcomes.take(k)[0] == outcomes[0]);
    }
}

/// The group-id map comes last.  If the write of the group-id map is what
/// is pending at some moment of a run, then it is the third operation of the
/// run: `setgroups` was denied first, the user-id map was written second,
/// and both writes had succeeded.
pub proof fn lemma_gid_map_written_last(
    mapping: IdentityMapping,
    outcomes: Seq<OutcomeView>,
    k: int,
)
    requires
        0 <= k <= outcomes.len(),
        PlanView::start(identity_steps(mapping)).run(outcomes.take(k)).pending() is Some,
        writes_gid_map(
            PlanView::start(identity_steps(mapping)).run(outcomes.take(k)).pending()->0,
            mapping.pid,
        ),
    ensures
        k == 2,
        outcomes[0] is Done,
        outcomes[1] is Done,
        PlanView::start(identity_steps(mapping)).run(outcomes.take(0)).pending() is Some,
        denies_setgroups(
            PlanView::start(identity_steps(mapping)).run(outcomes.take(0)).pending()->0,
            mapping.pid,
        ),
        PlanView::start(identity_steps(mapping)).run(outcomes.take(1)).pending() is Some,
        writes_uid_map(
            PlanView::start(identity_steps(mapping)).run(outcomes.take(1)).pending()->0,
            mapping.pid,
        ),
{
    let steps = identity_steps(mapping);
    lemma_identity_paths_differ(mapping.pid);
    lemma_pending_after(steps, outcomes.take(k));
    lemma_pending_after(steps, outcomes.take(0));
    if k == 2 {
        lemma_pending_after(steps, outcomes.take(1));
        assert(outcomes.take(k)[0] == outcomes[0]);
        assert(outcomes.take(k)[1] == outcomes[1]);
        assert(outcomes.take(1)[0] == outcomes[0]);
    }
}

} // verus!
