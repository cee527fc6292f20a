//! Resource controller: places a process in a control group of its own and
//! bounds its memory and CPU time.

use crate::action::{failure_reason, reason_of, Action, ActionView, Outcome, OutcomeView};
use crate::text::{
    chars_of, decimal_i32, decimal_int, decimal_nat, decimal_u64, find_line_end, find_word_end,
    find_word_start, has_prefix_at, is_blank, is_space, is_word, lemma_decimal_int_injective,
    lemma_line_end_bounds, lemma_no_words_iff_blank, lemma_skip_spaces_bounds,
    lemma_word_end_bounds, lemma_words_append, lemma_words_are_words, lemma_words_of_word,
    line_at, line_end, skip_spaces, strip_repeated_prefix, word_end, words, words_from,
};
use vstd::prelude::*;

verus! {

/// Bytes in one mebibyte.
pub const BYTES_PER_MEBIBYTE: u64 = 1_048_576;

/// Memory ceiling of the fixed policy: 100 MiB.
pub const MEMORY_LIMIT_BYTES: u64 = 104_857_600;

/// CPU time, in microseconds, that the fixed policy grants per period.
pub const CPU_QUOTA_MICROS: u64 = 50_000;

/// Length of one CPU accounting period of the fixed policy, in microseconds.
pub const CPU_PERIOD_MICROS: u64 = 100_000;

/// CPU bandwidth: the group may run for `quota` microseconds out of every
/// `period` microseconds.
#[derive(Clone, Copy, Debug, PartialEq, Eq, Structural)]
pub struct CpuQuota {
    pub quota: u64,
    pub period: u64,
}

/// The limits placed on one container.
#[derive(Clone, Copy, Debug, PartialEq, Eq, Structural)]
pub struct Limits {
    /// Memory ceiling as an absolute byte count.
    pub memory_bytes: u64,
    pub cpu: CpuQuota,
}

/// Converts a size in mebibytes into bytes, or `None` if the byte count does
/// not fit.
pub fn mebibytes(mb: u64) -> (bytes: Option<u64>)
    ensures
        match bytes {
            Some(b) => b == mb * 1024 * 1024,
            None => mb * 1024 * 1024 > u64::MAX,
        },
{
    mb.checked_mul(BYTES_PER_MEBIBYTE)
}

/// The limits of the fixed policy: 100 MiB of memory, and 50 000 out of
/// every 100 000 microseconds of CPU time.
pub open spec fn policy_limits() -> Limits {
    Limits { memory_bytes: 104_857_600, cpu: CpuQuota { quota: 50_000, period: 100_000 } }
}

/// The limits every container gets: 100 MiB of memory and half of one core.
pub fn fixed_policy() -> (limits: Limits)
    ensures
        limits == policy_limits(),
        limits.memory_bytes == 100 * 1024 * 1024,
        limits.cpu.quota * 100 == limits.cpu.period * 50,
{
    Limits {
        memory_bytes: MEMORY_LIMIT_BYTES,
        cpu: CpuQuota { quota: CPU_QUOTA_MICROS, period: CPU_PERIOD_MICROS },
    }
}

/// Marker that starts the unified-hierarchy line of a membership record.
pub open spec fn unified_marker() -> Seq<char> {
    seq!['0', ':', ':']
}

/// The unified-hierarchy entry of a membership record, looking only at the
/// lines that start at or after `start`: the first line that begins with
/// `0::`, with every leading `0::` removed.
pub open spec fn unified_entry_from(record: Seq<char>, start: int) -> Option<Seq<char>>
    decreases record.len() - start,
{
    if 0 <= start < record.len() {
        let line = line_at(record, start);
        if unified_marker().is_prefix_of(line) {
            Some(strip_repeated_prefix(line, unified_marker()))
        } else {
            let end = line_end(record, start);
            if end < record.len() {
                proof {
                    lemma_line_end_bounds(record, start);
                }
                unified_entry_from(record, end + 1)
            } else {
                None
            }
        }
    } else {
        None
    }
}

/// The control-group path, relative to the hierarchy root, that a membership
/// record (the text of `/proc/self/cgroup`) names for the unified hierarchy.
pub open spec fn spec_unified_entry(record: Seq<char>) -> Option<Seq<char>> {
    unified_entry_from(record, 0)
}

/// Extracts the caller's control-group path from its membership record.
/// Returns `None` when no line of the record starts with `0::`.
pub fn unified_entry(record: &str) -> (entry: Option<String>)
    ensures
        entry.deep_view() == spec_unified_entry(record@),
{
    let chars = chars_of(record);
    let marker: Vec<char> = vec!['0', ':', ':'];
    let n = chars.len();
    let mut start: usize = 0;
    while start < n
        invariant
            chars@ == record@,
            n == chars.len(),
            marker@ == unified_marker(),
            start <= n,
            unified_entry_from(chars@, start as int) == spec_unified_entry(chars@),
        decreases n - start,
    {
        let end = find_line_end(&chars, start);
        let stop = if start < end && end < n && chars[end - 1] == '\r' {
            end - 1
        } else {
            end
        };
        if has_prefix_at(&chars, start, stop, &marker) {
            let mut from = start;
            while has_prefix_at(&chars, from, stop, &marker)
                invariant
                    marker@ == unified_marker(),
                    start <= from <= stop <= chars.len(),
                    strip_repeated_prefix(chars@.subrange(from as int, stop as int), marker@)
                        == strip_repeated_prefix(
                        chars@.subrange(start as int, stop as int),
                        marker@,
                    ),
                decreases stop - from,
            {
                assert(chars@.subrange(from as int, stop as int).skip(3) =~= chars@.subrange(
                    from + 3,
                    stop as int,
                ));
                from += 3;
            }
            let entry = String::from_str(record.substring_char(from, stop));
            return Some(entry);
        }
        if end >= n {
            return None;
        }
        start = end + 1;
    }
    None
}

/// Root of the unified control-group hierarchy.
pub open spec fn hierarchy_root() -> Seq<char> {
    "/sys/fs/cgroup"@
}

/// Directory of the group that `entry` names.
pub open spec fn spec_parent_dir(entry: Seq<char>) -> Seq<char> {
    hierarchy_root() + entry
}

/// Directory of the container's own group below `parent`.  The process id
/// is part of the name, so containers never share a group.
pub open spec fn spec_child_dir(parent: Seq<char>, pid: i32) -> Seq<char> {
    parent + "/docker-clone-"@ + decimal_int(pid as int)
}

/// A control file `name` inside the group directory `dir`.
pub open spec fn spec_control_file(dir: Seq<char>, name: Seq<char>) -> Seq<char> {
    dir + "/"@ + name
}

/// Containers never share a group: below the same parent, two different
/// process ids always give two different group directories.
pub proof fn lemma_distinct_pids_distinct_groups(parent: Seq<char>, first: i32, second: i32)
    requires
        first != second,
    ensures
        spec_child_dir(parent, first) != spec_child_dir(parent, second),
{
    let stem = parent + "/docker-clone-"@;
    let a = spec_child_dir(parent, first);
    let b = spec_child_dir(parent, second);
    if a == b {
        assert(a.skip(stem.len() as int) =~= decimal_int(first as int));
        assert(b.skip(stem.len() as int) =~= decimal_int(second as int));
        lemma_decimal_int_injective(first as int, second as int);
    }
}

/// Directory of the group that a membership entry names.
pub fn parent_cgroup_dir(entry: &str) -> (dir: String)
    ensures
        dir@ == spec_parent_dir(entry@),
{
    String::from_str("/sys/fs/cgroup").concat(entry)
}

/// Directory of the group created for the process `pid` below `parent`.
pub fn child_cgroup_dir(parent: &str, pid: i32) -> (dir: String)
    ensures
        dir@ == spec_child_dir(parent@, pid),
{
    let mut dir = String::from_str(parent);
    dir.append("/docker-clone-");
    let digits = decimal_i32(pid);
    dir.append(digits.as_str());
    dir
}

/// Path of the control file `name` in the group directory `dir`.
pub fn control_file(dir: &str, name: &str) -> (path: String)
    ensures
        path@ == spec_control_file(dir@, name@),
{
    let mut path = String::from_str(dir);
    path.append("/");
    path.append(name);
    path
}

/// What is written into `memory.max`: the byte count in decimal.
pub open spec fn spec_memory_max(bytes: u64) -> Seq<char> {
    decimal_nat(bytes as nat)
}

/// What is written into `cpu.max`: quota and period in decimal, separated by
/// one space.
pub open spec fn spec_cpu_max(cpu: CpuQuota) -> Seq<char> {
    decimal_nat(cpu.quota as nat) + " "@ + decimal_nat(cpu.period as nat)
}

/// What is written into `cgroup.procs`: the process id on a line of its own.
pub open spec fn spec_attach_line(pid: i32) -> Seq<char> {
    decimal_int(pid as int) + "\n"@
}

/// Content for `memory.max`.
pub fn memory_max_content(bytes: u64) -> (content: String)
    ensures
        content@ == spec_memory_max(bytes),
{
    decimal_u64(bytes)
}

/// Content for `cpu.max`.
pub fn cpu_max_content(cpu: CpuQuota) -> (content: String)
    ensures
        content@ == spec_cpu_max(cpu),
{
    let mut content = decimal_u64(cpu.quota);
    content.append(" ");
    let period = decimal_u64(cpu.period);
    content.append(period.as_str());
    content
}

/// Content for `cgroup.procs`.
pub fn attach_line(pid: i32) -> (content: String)
    ensures
        content@ == spec_attach_line(pid),
{
    let mut content = decimal_i32(pid);
    content.append("\n");
    content
}

/// Controller names, each with a plus sign in front, separated by single
/// spaces: the form in which the delegation file takes them.
pub open spec fn plus_joined(names: Seq<Seq<char>>) -> Seq<char>
    decreases names.len(),
{
    if names.len() == 0 {
        Seq::empty()
    } else if names.len() == 1 {
        seq!['+'] + names[0]
    } else {
        plus_joined(names.drop_last()) + seq![' ', '+'] + names.last()
    }
}

/// The text to write into the delegation file for a controller list, or
/// `None` if the list names no controller.
pub open spec fn spec_enable_request(controllers: Seq<char>) -> Option<Seq<char>> {
    if is_blank(controllers) {
        None
    } else {
        Some(plus_joined(words(controllers)))
    }
}

/// The names with a plus sign in front of each.
pub open spec fn with_plus(names: Seq<Seq<char>>) -> Seq<Seq<char>> {
    Seq::new(names.len(), |i: int| seq!['+'] + names[i])
}

/// A request says what it was built from: split into words, it gives back
/// the names, each with its plus sign, in order and with nothing added.
pub proof fn lemma_request_names_each_controller(names: Seq<Seq<char>>)
    requires
        forall|i: int| 0 <= i < names.len() ==> is_word(#[trigger] names[i]),
    ensures
        words(plus_joined(names)) == with_plus(names),
    decreases names.len(),
{
    if names.len() == 0 {
        lemma_skip_spaces_bounds(plus_joined(names), 0);
    } else {
        let last = seq!['+'] + names.last();
        assert(is_word(last)) by {
            assert forall|j: int| 0 <= j < last.len() implies !is_space(#[trigger] last[j]) by {
                if j > 0 {
                    assert(last[j] == names.last()[j - 1]);
                }
            }
        }
        if names.len() == 1 {
            lemma_words_of_word(last);
        } else {
            let front = names.drop_last();
            lemma_request_names_each_controller(front);
            assert(plus_joined(names) =~= plus_joined(front) + seq![' '] + last);
            lemma_words_append(plus_joined(front), last, 0);
        }
    }
}

/// The controllers that the text of a controller list names.
pub open spec fn listed(controllers: Seq<char>) -> Set<Seq<char>> {
    words(controllers).to_set()
}

/// The controllers that a delegation request turns on: every word of the
/// request that starts with a plus sign, without the sign.
pub open spec fn enabled_by(request: Seq<char>) -> Set<Seq<char>> {
    Set::new(|name: Seq<char>| words(request).contains(seq!['+'] + name))
}

/// The controllers that are on after `request` has been taken, if `before`
/// were on already.  Turning on what is on changes nothing.
pub open spec fn delegated_after(before: Set<Seq<char>>, request: Seq<char>) -> Set<Seq<char>> {
    before.union(enabled_by(request))
}

/// Enabling does not depend on what is enabled already.  Whichever of the
/// listed controllers were on before (none of them, all of them, or any
/// selection), after the request built from the list has been taken exactly
/// the listed controllers are on; and taking the same request once more
/// changes nothing.
pub proof fn lemma_enabling_is_idempotent(controllers: Seq<char>, before: Set<Seq<char>>)
    requires
        spec_enable_request(controllers) is Some,
        before.subset_of(listed(controllers)),
    ensures
        delegated_after(before, spec_enable_request(controllers)->0) == listed(controllers),
        delegated_after(
            delegated_after(before, spec_enable_request(controllers)->0),
            spec_enable_request(controllers)->0,
        ) == delegated_after(before, spec_enable_request(controllers)->0),
{
    let names = words(controllers);
    let request = plus_joined(names);
    lemma_words_are_words(controllers, 0);
    lemma_request_names_each_controller(names);
    assert forall|name: Seq<char>| enabled_by(request).contains(name) <==> listed(
        controllers,
    ).contains(name) by {
        if enabled_by(request).contains(name) {
            let k = choose|k: int|
                0 <= k < with_plus(names).len() && with_plus(names)[k] == seq!['+'] + name;
            assert((seq!['+'] + names[k]).skip(1) =~= names[k]);
            assert((seq!['+'] + name).skip(1) =~= name);
        }
        if listed(controllers).contains(name) {
            let k = choose|k: int| 0 <= k < names.len() && names[k] == name;
            assert(with_plus(names)[k] == seq!['+'] + name);
        }
    }
}

/// Builds the delegation request for the controllers listed in
/// `controllers` (the text of `cgroup.controllers`).
pub fn enable_request(controllers: &str) -> (request: Option<String>)
    ensures
        request.deep_view() == spec_enable_request(controllers@),
{
    let chars = chars_of(controllers);
    let n = chars.len();
    let mut out = String::new();
    let mut any = false;
    let ghost mut done: Seq<Seq<char>> = Seq::empty();
    let ghost mut resume: int = 0;
    let mut start = find_word_start(&chars, 0);
    proof {
        reveal_strlit(" ");
        reveal_strlit("+");
    }
    while start < n
        invariant
            chars@ == controllers@,
            n == chars.len(),
            0 <= resume <= start <= n,
            start == skip_spaces(chars@, resume),
            done + words_from(chars@, resume) == words(chars@),
            out@ == plus_joined(done),
            any == (done.len() > 0),
            " "@ == seq![' '],
            "+"@ == seq!['+'],
        decreases n - start,
    {
        let end = find_word_end(&chars, start);
        proof {
            lemma_word_end_bounds(chars@, start as int);
            lemma_skip_spaces_bounds(chars@, resume);
        }
        if any {
            out.append(" ");
        }
        out.append("+");
        out.append(controllers.substring_char(start, end));
        proof {
            let word = chars@.subrange(start as int, end as int);
            let longer = done.push(word);
            assert(longer.drop_last() =~= done);
            done = longer;
            resume = end as int;
        }
        any = true;
        start = find_word_start(&chars, end);
    }
    proof {
        lemma_no_words_iff_blank(chars@);
    }
    if any {
        Some(out)
    } else {
        None
    }
}

/// The steps of the setup, in the order in which they are taken.
#[derive(Clone, Copy, Debug, PartialEq, Eq, Structural)]
pub enum CgroupPhase {
    /// Read the caller's own membership record.
    Discover,
    /// Ask whether the parent group has a controller list at all.
    ProbeControllers,
    /// Read the parent group's controller list.
    ReadControllers,
    /// Ask whether the parent group has a delegation file.
    ProbeDelegation,
    /// Enable every listed controller for the parent's children.
    Delegate,
    /// Create the container's own group.
    CreateGroup,
    /// Write the memory ceiling.
    SetMemory,
    /// Write the CPU quota and period.
    SetCpu,
    /// Move the process into the group.
    Attach,
    /// Nothing is left to do.
    Ready,
}

/// What went wrong during the setup.
#[derive(Clone, Copy, Debug, PartialEq, Eq, Structural)]
pub enum CgroupFault {
    /// The membership record could not be read.
    Membership,
    /// The membership record has no unified-hierarchy line.
    NoUnifiedEntry,
    /// The controller list exists but could not be read.
    Controllers,
    /// The delegation file exists but did not take the request.
    Delegation,
    /// The container's group could not be created.
    CreateGroup,
    /// The memory ceiling could not be written.
    MemoryLimit,
    /// The CPU quota could not be written.
    CpuLimit,
    /// The process could not be moved into the group.
    Attach,
}

/// A failed setup: the step that failed and the system's reason.
#[derive(Clone, Debug, PartialEq, Eq)]
pub struct CgroupError {
    pub fault: CgroupFault,
    pub reason: String,
}

/// Mathematical value of a [`CgroupError`].
pub struct CgroupErrorView {
    pub fault: CgroupFault,
    pub reason: Seq<char>,
}

impl View for CgroupError {
    type V = CgroupErrorView;

    open spec fn view(&self) -> CgroupErrorView {
        CgroupErrorView { fault: self.fault, reason: self.reason@ }
    }
}

impl DeepView for CgroupError {
    type V = CgroupErrorView;

    open spec fn deep_view(&self) -> CgroupErrorView {
        self@
    }
}

/// The fixed text that names a fault.
pub open spec fn fault_text(fault: CgroupFault) -> Seq<char> {
    match fault {
        CgroupFault::Membership => "Failed to read /proc/self/cgroup"@,
        CgroupFault::NoUnifiedEntry => "Could not find cgroup path in expected format"@,
        CgroupFault::Controllers => "Failed to read cgroup.controllers"@,
        CgroupFault::Delegation => "Failed to enable cgroup controllers"@,
        CgroupFault::CreateGroup => "Failed to create cgroup directory"@,
        CgroupFault::MemoryLimit => "Failed to set memory limit"@,
        CgroupFault::CpuLimit => "Failed to set CPU limit"@,
        CgroupFault::Attach => "Failed to write PID to cgroup.procs"@,
    }
}

impl CgroupErrorView {
    /// The error as one line of text: what failed, then why.  A membership
    /// record without a unified entry has no system reason to add.
    pub open spec fn message(self) -> Seq<char> {
        if self.fault == CgroupFault::NoUnifiedEntry {
            fault_text(self.fault)
        } else {
            fault_text(self.fault) + ": "@ + self.reason
        }
    }
}

impl CgroupError {
    /// Renders the error as one line of text.
    pub fn message(&self) -> (text: String)
        ensures
            text@ == self@.message(),
    {
        let head = match self.fault {
            CgroupFault::Membership => "Failed to read /proc/self/cgroup",
            CgroupFault::NoUnifiedEntry => "Could not find cgroup path in expected format",
            CgroupFault::Controllers => "Failed to read cgroup.controllers",
            CgroupFault::Delegation => "Failed to enable cgroup controllers",
            CgroupFault::CreateGroup => "Failed to create cgroup directory",
            CgroupFault::MemoryLimit => "Failed to set memory limit",
            CgroupFault::CpuLimit => "Failed to set CPU limit",
            CgroupFault::Attach => "Failed to write PID to cgroup.procs",
        };
        let mut text = String::from_str(head);
        match self.fault {
            CgroupFault::NoUnifiedEntry => {},
            _ => {
                text.append(": ");
                text.append(self.reason.as_str());
            },
        }
        text
    }
}

/// The group a container was placed in, with the limits written to it.
#[derive(Clone, Debug, PartialEq, Eq)]
pub struct CgroupHandle {
    pub path: String,
    pub memory_limit_bytes: u64,
    pub cpu_quota: CpuQuota,
}

/// Mathematical value of a [`CgroupHandle`].
pub struct CgroupHandleView {
    pub path: Seq<char>,
    pub memory_limit_bytes: u64,
    pub cpu_quota: CpuQuota,
}

impl View for CgroupHandle {
    type V = CgroupHandleView;

    open spec fn view(&self) -> CgroupHandleView {
        CgroupHandleView {
            path: self.path@,
            memory_limit_bytes: self.memory_limit_bytes,
            cpu_quota: self.cpu_quota,
        }
    }
}

impl DeepView for CgroupHandle {
    type V = CgroupHandleView;

    open spec fn deep_view(&self) -> CgroupHandleView {
        self@
    }
}

/// Mathematical value of a [`CgroupSetup`].
pub struct CgroupSetupView {
    /// The process to confine.
    pub pid: i32,
    /// The limits to write.
    pub limits: Limits,
    /// The step that is pending, or that failed.
    pub phase: CgroupPhase,
    /// Directory of the caller's own group; known once discovery succeeded.
    pub parent: Seq<char>,
    /// The delegation request; known once the controller list was read.
    pub request: Seq<char>,
    /// Why the setup stopped, if it did.
    pub failure: Option<CgroupErrorView>,
}

impl CgroupSetupView {
    /// The setup before anything has been attempted.
    pub open spec fn start(pid: i32, limits: Limits) -> CgroupSetupView {
        CgroupSetupView {
            pid,
            limits,
            phase: CgroupPhase::Discover,
            parent: Seq::empty(),
            request: Seq::empty(),
            failure: None,
        }
    }

    /// The setup of a caller whose membership entry is already known:
    /// discovery is behind it, the controller list is next.
    pub open spec fn discovered(pid: i32, limits: Limits, entry: Seq<char>) -> CgroupSetupView {
        CgroupSetupView {
            pid,
            limits,
            phase: CgroupPhase::ProbeControllers,
            parent: spec_parent_dir(entry),
            request: Seq::empty(),
            failure: None,
        }
    }

    /// Directory of the container's own group.
    pub open spec fn child_dir(self) -> Seq<char> {
        spec_child_dir(self.parent, self.pid)
    }

    /// The operation to perform next, or `None` once the setup has ended.
    pub open spec fn pending(self) -> Option<ActionView> {
        if self.failure is Some {
            None
        } else {
            match self.phase {
                CgroupPhase::Discover => Some(ActionView::ReadFile { path: "/proc/self/cgroup"@ }),
                CgroupPhase::ProbeControllers => Some(
                    ActionView::PathExists {
                        path: spec_control_file(self.parent, "cgroup.controllers"@),
                    },
                ),
                CgroupPhase::ReadControllers => Some(
                    ActionView::ReadFile {
                        path: spec_control_file(self.parent, "cgroup.controllers"@),
                    },
                ),
                CgroupPhase::ProbeDelegation => Some(
                    ActionView::PathExists {
                        path: spec_control_file(self.parent, "cgroup.subtree_control"@),
                    },
                ),
                CgroupPhase::Delegate => Some(
                    ActionView::WriteFile {
                        path: spec_control_file(self.parent, "cgroup.subtree_control"@),
                        content: self.request,
                    },
                ),
                CgroupPhase::CreateGroup => Some(
                    ActionView::CreateDirAll { path: self.child_dir() },
                ),
                CgroupPhase::SetMemory => Some(
                    ActionView::WriteFile {
                        path: spec_control_file(self.child_dir(), "memory.max"@),
                        content: spec_memory_max(self.limits.memory_bytes),
                    },
                ),
                CgroupPhase::SetCpu => Some(
                    ActionView::WriteFile {
                        path: spec_control_file(self.child_dir(), "cpu.max"@),
                        content: spec_cpu_max(self.limits.cpu),
                    },
                ),
                CgroupPhase::Attach => Some(
                    ActionView::WriteExisting {
                        path: spec_control_file(self.child_dir(), "cgroup.procs"@),
                        content: spec_attach_line(self.pid),
                    },
                ),
                CgroupPhase::Ready => None,
            }
        }
    }

    /// The setup moved on to `phase`.
    pub open spec fn at(self, phase: CgroupPhase) -> CgroupSetupView {
        CgroupSetupView { phase, ..self }
    }

    /// The setup stopped in its current phase.
    pub open spec fn failed(self, fault: CgroupFault, reason: Seq<char>) -> CgroupSetupView {
        CgroupSetupView { failure: Some(CgroupErrorView { fault, reason }), ..self }
    }

    /// The setup after the pending operation ended with `outcome`.
    ///
    /// A missing controller list, an empty one, or a missing delegation file
    /// skips delegation and goes on to create the group.  Every other
    /// operation must succeed; an outcome of the wrong kind counts as its
    /// failure.  A setup that has ended does not change.
    pub open spec fn advance(self, outcome: OutcomeView) -> CgroupSetupView {
        if self.failure is Some {
            self
        } else {
            match self.phase {
                CgroupPhase::Discover => match outcome {
                    OutcomeView::Text(record) => match spec_unified_entry(record) {
                        Some(entry) => CgroupSetupView {
                            parent: spec_parent_dir(entry),
                            phase: CgroupPhase::ProbeControllers,
                            ..self
                        },
                        None => self.failed(CgroupFault::NoUnifiedEntry, Seq::empty()),
                    },
                    _ => self.failed(CgroupFault::Membership, failure_reason(outcome)),
                },
                CgroupPhase::ProbeControllers => match outcome {
                    OutcomeView::Flag(true) => self.at(CgroupPhase::ReadControllers),
                    OutcomeView::Flag(false) => self.at(CgroupPhase::CreateGroup),
                    _ => self.failed(CgroupFault::Controllers, failure_reason(outcome)),
                },
                CgroupPhase::ReadControllers => match outcome {
                    OutcomeView::Text(list) => match spec_enable_request(list) {
                        Some(request) => CgroupSetupView {
                            request,
                            phase: CgroupPhase::ProbeDelegation,
                            ..self
                        },
                        None => self.at(CgroupPhase::CreateGroup),
                    },
                    _ => self.failed(CgroupFault::Controllers, failure_reason(outcome)),
                },
                CgroupPhase::ProbeDelegation => match outcome {
                    OutcomeView::Flag(true) => self.at(CgroupPhase::Delegate),
                    OutcomeView::Flag(false) => self.at(CgroupPhase::CreateGroup),
                    _ => self.failed(CgroupFault::Delegation, failure_reason(outcome)),
                },
                CgroupPhase::Delegate => match outcome {
                    OutcomeView::Done => self.at(CgroupPhase::CreateGroup),
                    _ => self.failed(CgroupFault::Delegation, failure_reason(outcome)),
                },
                CgroupPhase::CreateGroup => match outcome {
                    OutcomeView::Done => self.at(CgroupPhase::SetMemory),
                    _ => self.failed(CgroupFault::CreateGroup, failure_reason(outcome)),
                },
                CgroupPhase::SetMemory => match outcome {
                    OutcomeView::Done => self.at(CgroupPhase::SetCpu),
                    _ => self.failed(CgroupFault::MemoryLimit, failure_reason(outcome)),
                },
                CgroupPhase::SetCpu => match outcome {
                    OutcomeView::Done => self.at(CgroupPhase::Attach),
                    _ => self.failed(CgroupFault::CpuLimit, failure_reason(outcome)),
                },
                CgroupPhase::Attach => match outcome {
                    OutcomeView::Done => self.at(CgroupPhase::Ready),
                    _ => self.failed(CgroupFault::Attach, failure_reason(outcome)),
                },
                CgroupPhase::Ready => self,
            }
        }
    }

    /// The setup after a whole sequence of outcomes, oldest first.
    pub open spec fn run(self, outcomes: Seq<OutcomeView>) -> CgroupSetupView
        decreases outcomes.len(),
    {
        if outcomes.len() == 0 {
            self
        } else {
            self.run(outcomes.drop_last()).advance(outcomes.last())
        }
    }

    /// The group and its limits, once every step has succeeded.
    pub open spec fn handle(self) -> Option<CgroupHandleView> {
        if self.failure is None && self.phase == CgroupPhase::Ready {
            Some(
                CgroupHandleView {
                    path: self.child_dir(),
                    memory_limit_bytes: self.limits.memory_bytes,
                    cpu_quota: self.limits.cpu,
                },
            )
        } else {
            None
        }
    }
}

/// The resource-controller setup for one process: which operation comes
/// next, and what has been learned so far.
#[derive(Debug)]
pub struct CgroupSetup {
    pid: i32,
    limits: Limits,
    phase: CgroupPhase,
    parent: String,
    request: String,
    failure: Option<CgroupError>,
}

impl View for CgroupSetup {
    type V = CgroupSetupView;

    closed spec fn view(&self) -> CgroupSetupView {
        CgroupSetupView {
            pid: self.pid,
            limits: self.limits,
            phase: self.phase,
            parent: self.parent@,
            request: self.request@,
            failure: self.failure.deep_view(),
        }
    }
}

impl CgroupSetup {
    /// Starts the setup that confines `pid` to `limits`.
    pub fn new(pid: i32, limits: Limits) -> (setup: CgroupSetup)
        ensures
            setup@ == CgroupSetupView::start(pid, limits),
    {
        CgroupSetup {
            pid,
            limits,
            phase: CgroupPhase::Discover,
            parent: String::new(),
            request: String::new(),
            failure: None,
        }
    }

    /// Starts the setup for a caller whose membership entry is already
    /// known, so that the membership record is not read again.
    pub fn discovered(pid: i32, limits: Limits, entry: &str) -> (setup: CgroupSetup)
        ensures
            setup@ == CgroupSetupView::discovered(pid, limits, entry@),
    {
        CgroupSetup {
            pid,
            limits,
            phase: CgroupPhase::ProbeControllers,
            parent: parent_cgroup_dir(entry),
            request: String::new(),
            failure: None,
        }
    }

    /// The step that is pending, or at which the setup stopped.
    pub fn phase(&self) -> (phase: CgroupPhase)
        ensures
            phase == self@.phase,
    {
        self.phase
    }

    fn child_dir(&self) -> (dir: String)
        ensures
            dir@ == self@.child_dir(),
    {
        child_cgroup_dir(self.parent.as_str(), self.pid)
    }

    /// The operation to perform next, or `None` once the setup has ended.
    pub fn pending(&self) -> (action: Option<Action>)
        ensures
            action.deep_view() == self@.pending(),
    {
        if self.failure.is_some() {
            return None;
        }
        match self.phase {
            CgroupPhase::Discover => Some(
                Action::ReadFile { path: String::from_str("/proc/self/cgroup") },
            ),
            CgroupPhase::ProbeControllers => Some(
                Action::PathExists {
                    path: control_file(self.parent.as_str(), "cgroup.controllers"),
                },
            ),
            CgroupPhase::ReadControllers => Some(
                Action::ReadFile { path: control_file(self.parent.as_str(), "cgroup.controllers") },
            ),
            CgroupPhase::ProbeDelegation => Some(
                Action::PathExists {
                    path: control_file(self.parent.as_str(), "cgroup.subtree_control"),
                },
            ),
            CgroupPhase::Delegate => Some(
                Action::WriteFile {
                    path: control_file(self.parent.as_str(), "cgroup.subtree_control"),
                    content: self.request.clone(),
                },
            ),
            CgroupPhase::CreateGroup => Some(Action::CreateDirAll { path: self.child_dir() }),
            CgroupPhase::SetMemory => {
                let dir = self.child_dir();
                Some(
                    Action::WriteFile {
                        path: control_file(dir.as_str(), "memory.max"),
                        content: memory_max_content(self.limits.memory_bytes),
                    },
                )
            },
            CgroupPhase::SetCpu => {
                let dir = self.child_dir();
                Some(
                    Action::WriteFile {
                        path: control_file(dir.as_str(), "cpu.max"),
                        content: cpu_max_content(self.limits.cpu),
                    },
                )
            },
            CgroupPhase::Attach => {
                let dir = self.child_dir();
                Some(
                    Action::WriteExisting {
                        path: control_file(dir.as_str(), "cgroup.procs"),
                        content: attach_line(self.pid),
                    },
                )
            },
            CgroupPhase::Ready => None,
        }
    }

    fn at(self, phase: CgroupPhase) -> (next: CgroupSetup)
        ensures
            next@ == self@.at(phase),
    {
        CgroupSetup { phase, ..self }
    }

    fn failed(self, fault: CgroupFault, outcome: &Outcome) -> (next: CgroupSetup)
        ensures
            next@ == self@.failed(fault, failure_reason(outcome@)),
    {
        CgroupSetup {
            failure: Some(CgroupError { fault, reason: reason_of(outcome) }),
            ..self
        }
    }

    /// Records how the pending operation ended.
    pub fn advance(self, outcome: &Outcome) -> (next: CgroupSetup)
        ensures
            next@ == self@.advance(outcome@),
    {
        if self.failure.is_some() {
            return self;
        }
        match self.phase {
            CgroupPhase::Discover => match outcome {
                Outcome::Text(record) => match unified_entry(record.as_str()) {
                    Some(entry) => CgroupSetup {
                        parent: parent_cgroup_dir(entry.as_str()),
                        phase: CgroupPhase::ProbeControllers,
                        ..self
                    },
                    None => CgroupSetup {
                        failure: Some(
                            CgroupError {
                                fault: CgroupFault::NoUnifiedEntry,
                                reason: String::new(),
                            },
                        ),
                        ..self
                    },
                },
                _ => self.failed(CgroupFault::Membership, outcome),
            },
            CgroupPhase::ProbeControllers => match outcome {
                Outcome::Flag(true) => self.at(CgroupPhase::ReadControllers),
                Outcome::Flag(false) => self.at(CgroupPhase::CreateGroup),
                _ => self.failed(CgroupFault::Controllers, outcome),
            },
            CgroupPhase::ReadControllers => match outcome {
                Outcome::Text(list) => match enable_request(list.as_str()) {
                    Some(request) => CgroupSetup {
                        request,
                        phase: CgroupPhase::ProbeDelegation,
                        ..self
                    },
                    None => self.at(CgroupPhase::CreateGroup),
                },
                _ => self.failed(CgroupFault::Controllers, outcome),
            },
            CgroupPhase::ProbeDelegation => match outcome {
                Outcome::Flag(true) => self.at(CgroupPhase::Delegate),
                Outcome::Flag(false) => self.at(CgroupPhase::CreateGroup),
                _ => self.failed(CgroupFault::Delegation, outcome),
            },
            CgroupPhase::Delegate => match outcome {
                Outcome::Done => self.at(CgroupPhase::CreateGroup),
                _ => self.failed(CgroupFault::Delegation, outcome),
            },
            CgroupPhase::CreateGroup => match outcome {
                Outcome::Done => self.at(CgroupPhase::SetMemory),
                _ => self.failed(CgroupFault::CreateGroup, outcome),
            },
            CgroupPhase::SetMemory => match outcome {
                Outcome::Done => self.at(CgroupPhase::SetCpu),
                _ => self.failed(CgroupFault::MemoryLimit, outcome),
            },
            CgroupPhase::SetCpu => match outcome {
                Outcome::Done => self.at(CgroupPhase::Attach),
                _ => self.failed(CgroupFault::CpuLimit, outcome),
            },
            CgroupPhase::Attach => match outcome {
                Outcome::Done => self.at(CgroupPhase::Ready),
                _ => self.failed(CgroupFault::Attach, outcome),
            },
            CgroupPhase::Ready => self,
        }
    }

    /// The group and its limits if the setup has succeeded, `None` while it
    /// is still running or after it has failed.
    pub fn handle(&self) -> (handle: Option<CgroupHandle>)
        ensures
            handle.deep_view() == self@.handle(),
    {
        if self.failure.is_none() && self.phase == CgroupPhase::Ready {
            Some(
                CgroupHandle {
                    path: self.child_dir(),
                    memory_limit_bytes: self.limits.memory_bytes,
                    cpu_quota: self.limits.cpu,
                },
            )
        } else {
            None
        }
    }

    /// The error if the setup has failed, `None` otherwise.
    pub fn error(&self) -> (error: Option<CgroupError>)
        ensures
            error.deep_view() == self@.failure,
    {
        match &self.failure {
            Some(e) => Some(CgroupError { fault: e.fault, reason: e.reason.clone() }),
            None => None,
        }
    }
}

/// Every failure is final.  Once a setup has failed, no further outcome
/// changes it and nothing is pending.
pub proof fn lemma_failed_setup_is_final(setup: CgroupSetupView, outcomes: Seq<OutcomeView>)
    requires
        setup.failure is Some,
    ensures
        setup.run(outcomes) == setup,
        setup.run(outcomes).pending() is None,
    decreases outcomes.len(),
{
    if outcomes.len() > 0 {
        lemma_failed_setup_is_final(setup, outcomes.drop_last());
    }
}

/// A group without delegation is no error.  If the parent group has no
/// controller list, or has one but no delegation file, the setup goes on to
/// create the container's group without having failed.
pub proof fn lemma_missing_delegation_is_tolerated(setup: CgroupSetupView)
    requires
        setup.failure is None,
        setup.phase == CgroupPhase::ProbeControllers || setup.phase
            == CgroupPhase::ProbeDelegation,
    ensures
        setup.advance(OutcomeView::Flag(false)).failure is None,
        setup.advance(OutcomeView::Flag(false)).phase == CgroupPhase::CreateGroup,
        setup.advance(OutcomeView::Flag(false)).pending() == Some(
            ActionView::CreateDirAll { path: setup.child_dir() },
        ),
{
}

/// Limits first, process last.  If at some moment of a run moving the
/// process into its group is what is pending, then the three operations
/// before it were, in this order, creating the group, writing the memory
/// ceiling and writing the CPU quota, all for the same group and all
/// successful.
pub proof fn lemma_attach_follows_limits(
    pid: i32,
    limits: Limits,
    outcomes: Seq<OutcomeView>,
)
    requires
        CgroupSetupView::start(pid, limits).run(outcomes).failure is None,
        CgroupSetupView::start(pid, limits).run(outcomes).phase == CgroupPhase::Attach,
    ensures
        outcomes.len() >= 3,
        ({
            let n = outcomes.len() as int;
            let start = CgroupSetupView::start(pid, limits);
            let group = start.run(outcomes).child_dir();
            &&& start.run(outcomes.take(n - 3)).pending() == Some(
                ActionView::CreateDirAll { path: group },
            )
            &&& start.run(outcomes.take(n - 2)).pending() == Some(
                ActionView::WriteFile {
                    path: spec_control_file(group, "memory.max"@),
                    content: spec_memory_max(limits.memory_bytes),
                },
            )
            &&& start.run(outcomes.take(n - 1)).pending() == Some(
                ActionView::WriteFile {
                    path: spec_control_file(group, "cpu.max"@),
                    content: spec_cpu_max(limits.cpu),
                },
            )
            &&& start.run(outcomes).pending() == Some(
                ActionView::WriteExisting {
                    path: spec_control_file(group, "cgroup.procs"@),
                    content: spec_attach_line(pid),
                },
            )
            &&& outcomes[n - 3] is Done
            &&& outcomes[n - 2] is Done
            &&& outcomes[n - 1] is Done
        }),
{
    let start = CgroupSetupView::start(pid, limits);
    let n = outcomes.len() as int;
    lemma_run_keeps_target(pid, limits, outcomes);
    // Attach is entered from SetCpu only.
    let one = outcomes.take(n - 1);
    assert(outcomes.drop_last() =~= one);
    lemma_run_keeps_target(pid, limits, one);
    assert(start.run(one).phase == CgroupPhase::SetCpu);
    // SetCpu is entered from SetMemory only.
    let two = outcomes.take(n - 2);
    assert(one.drop_last() =~= two);
    lemma_run_keeps_target(pid, limits, two);
    assert(start.run(two).phase == CgroupPhase::SetMemory);
    // SetMemory is entered from CreateGroup only.
    let three = outcomes.take(n - 3);
    assert(two.drop_last() =~= three);
    lemma_run_keeps_target(pid, limits, three);
    assert(start.run(three).phase == CgroupPhase::CreateGroup);
}

/// A run never changes whom it confines or to what.
pub proof fn lemma_run_keeps_target(pid: i32, limits: Limits, outcomes: Seq<OutcomeView>)
    ensures
        CgroupSetupView::start(pid, limits).run(outcomes).pid == pid,
        CgroupSetupView::start(pid, limits).run(outcomes).limits == limits,
    decreases outcomes.len(),
{
    if outcomes.len() > 0 {
        lemma_run_keeps_target(pid, limits, outcomes.drop_last());
    }
}

/// Begins the resource-controller setup for the process `pid` under the
/// fixed policy.  The caller performs each pending operation and reports its
/// outcome until nothing is pending.
pub fn setup_cgroup(pid: i32) -> (setup: CgroupSetup)
    ensures
        setup@ == CgroupSetupView::start(pid, policy_limits()),
{
    CgroupSetup::new(pid, fixed_policy())
}

} // verus!
