//! The vocabulary shared by the launcher and whoever performs its system
//! calls: an [`Action`] names one privileged operation together with all of
//! its arguments, an [`Outcome`] reports how that operation ended.

use vstd::prelude::*;

verus! {

/// Which mount options an [`Action::Mount`] carries.
#[derive(Clone, Copy, Debug, PartialEq, Eq, Structural)]
pub struct MountFlags {
    /// Bind an existing directory instead of mounting a device.
    pub bind: bool,
    /// Apply to the whole subtree below the target.
    pub recursive: bool,
    /// Stop mount events from propagating in either direction.
    pub private: bool,
}

/// Which namespaces a spawned child is created in.
#[derive(Clone, Copy, Debug, PartialEq, Eq, Structural)]
pub struct Namespaces {
    pub pid: bool,
    pub mount: bool,
    pub uts: bool,
    pub user: bool,
}

/// How a child process ended, as far as the parent can observe it.
#[derive(Clone, Copy, Debug, PartialEq, Eq, Structural)]
pub enum ExitOutcome {
    /// The process exited on its own with this status.
    Exited(i32),
    /// The process was terminated by this signal.
    Signaled(i32),
    /// The wait call returned some other state change.
    Other,
}

/// What to run and where: the root filesystem directory, the command, and
/// the command's arguments in order.
#[derive(Clone, Debug, PartialEq, Eq)]
pub struct LaunchRequest {
    pub rootfs: String,
    pub command: String,
    pub args: Vec<String>,
}

/// Mathematical value of a [`LaunchRequest`].
pub struct LaunchRequestView {
    pub rootfs: Seq<char>,
    pub command: Seq<char>,
    pub args: Seq<Seq<char>>,
}

impl View for LaunchRequest {
    type V = LaunchRequestView;

    open spec fn view(&self) -> LaunchRequestView {
        LaunchRequestView {
            rootfs: self.rootfs@,
            command: self.command@,
            args: self.args.deep_view(),
        }
    }
}

/// Copies a list of strings.
pub fn copy_strings(list: &Vec<String>) -> (copy: Vec<String>)
    ensures
        copy.deep_view() == list.deep_view(),
{
    let mut copy: Vec<String> = Vec::new();
    let mut i: usize = 0;
    while i < list.len()
        invariant
            i <= list.len(),
            copy.len() == i,
            forall|j: int| 0 <= j < i ==> copy[j]@ == list[j]@,
        decreases list.len() - i,
    {
        copy.push(list[i].clone());
        i += 1;
    }
    copy
}

/// Copies an optional string.
pub fn copy_optional(text: &Option<String>) -> (copy: Option<String>)
    ensures
        copy.deep_view() == text.deep_view(),
{
    match text {
        Some(t) => Some(t.clone()),
        None => None,
    }
}

impl LaunchRequest {
    /// A copy with the same value.
    pub fn duplicate(&self) -> (copy: LaunchRequest)
        ensures
            copy@ == self@,
    {
        LaunchRequest {
            rootfs: self.rootfs.clone(),
            command: self.command.clone(),
            args: copy_strings(&self.args),
        }
    }
}

impl DeepView for LaunchRequest {
    type V = LaunchRequestView;

    open spec fn deep_view(&self) -> LaunchRequestView {
        self@
    }
}

/// One operation for the caller to perform.
#[derive(Clone, Debug, PartialEq, Eq)]
pub enum Action {
    /// Does `path` name an existing directory?  Answered by [`Outcome::Flag`].
    IsDirectory { path: String },
    /// Does `path` exist at all?  Answered by [`Outcome::Flag`].
    PathExists { path: String },
    /// Read the whole file as text.  Answered by [`Outcome::Text`].
    ReadFile { path: String },
    /// Create or truncate the file and write `content`.
    WriteFile { path: String, content: String },
    /// Open an existing file for writing and write `content`.
    WriteExisting { path: String, content: String },
    /// Create the directory and any missing parents.
    CreateDirAll { path: String },
    /// Remove the directory and everything below it.
    RemoveDirAll { path: String },
    /// Mount `source` (if any) of type `fstype` (if any) on `target`.
    Mount { source: Option<String>, target: String, fstype: Option<String>, flags: MountFlags },
    /// Unmount `target`; with `detach` the mount is torn down lazily.
    Unmount { target: String, detach: bool },
    /// Make `new_root` the root filesystem and move the old root to `put_old`.
    PivotRoot { new_root: String, put_old: String },
    /// Change the working directory.
    ChangeDir { path: String },
    /// Set the host name seen inside the UTS namespace.
    SetHostname { name: String },
    /// Set an environment variable of the calling process.
    SetEnv { name: String, value: String },
    /// Replace the process image; `argv[0]` is the program itself.
    Exec { program: String, argv: Vec<String> },
    /// Create the connected socket pair used for the handshake.
    OpenChannel,
    /// Create the child process.  Answered by [`Outcome::Spawned`].
    Spawn { request: LaunchRequest, namespaces: Namespaces, stack_size: usize },
    /// Parent side of the handshake: send the single proceed byte.
    /// Answered by [`Outcome::Transferred`].
    SendProceed,
    /// Child side of the handshake: block until the proceed byte arrives.
    /// Answered by [`Outcome::Transferred`].
    AwaitProceed,
    /// Block until the child terminates.  Answered by [`Outcome::Exited`].
    WaitChild { pid: i32 },
}

/// Mathematical value of an [`Action`].
pub enum ActionView {
    IsDirectory { path: Seq<char> },
    PathExists { path: Seq<char> },
    ReadFile { path: Seq<char> },
    WriteFile { path: Seq<char>, content: Seq<char> },
    WriteExisting { path: Seq<char>, content: Seq<char> },
    CreateDirAll { path: Seq<char> },
    RemoveDirAll { path: Seq<char> },
    Mount {
        source: Option<Seq<char>>,
        target: Seq<char>,
        fstype: Option<Seq<char>>,
        flags: MountFlags,
    },
    Unmount { target: Seq<char>, detach: bool },
    PivotRoot { new_root: Seq<char>, put_old: Seq<char> },
    ChangeDir { path: Seq<char> },
    SetHostname { name: Seq<char> },
    SetEnv { name: Seq<char>, value: Seq<char> },
    Exec { program: Seq<char>, argv: Seq<Seq<char>> },
    OpenChannel,
    Spawn { request: LaunchRequestView, namespaces: Namespaces, stack_size: usize },
    SendProceed,
    AwaitProceed,
    WaitChild { pid: i32 },
}

impl View for Action {
    type V = ActionView;

    open spec fn view(&self) -> ActionView {
        match *self {
            Action::IsDirectory { path } => ActionView::IsDirectory { path: path@ },
            Action::PathExists { path } => ActionView::PathExists { path: path@ },
            Action::ReadFile { path } => ActionView::ReadFile { path: path@ },
            Action::WriteFile { path, content } => ActionView::WriteFile {
                path: path@,
                content: content@,
            },
            Action::WriteExisting { path, content } => ActionView::WriteExisting {
                path: path@,
                content: content@,
            },
            Action::CreateDirAll { path } => ActionView::CreateDirAll { path: path@ },
            Action::RemoveDirAll { path } => ActionView::RemoveDirAll { path: path@ },
            Action::Mount { source, target, fstype, flags } => ActionView::Mount {
                source: source.deep_view(),
                target: target@,
                fstype: fstype.deep_view(),
                flags,
            },
            Action::Unmount { target, detach } => ActionView::Unmount { target: target@, detach },
            Action::PivotRoot { new_root, put_old } => ActionView::PivotRoot {
                new_root: new_root@,
                put_old: put_old@,
            },
            Action::ChangeDir { path } => ActionView::ChangeDir { path: path@ },
            Action::SetHostname { name } => ActionView::SetHostname { name: name@ },
            Action::SetEnv { name, value } => ActionView::SetEnv { name: name@, value: value@ },
            Action::Exec { program, argv } => ActionView::Exec {
                program: program@,
                argv: argv.deep_view(),
            },
            Action::OpenChannel => ActionView::OpenChannel,
            Action::Spawn { request, namespaces, stack_size } => ActionView::Spawn {
                request: request@,
                namespaces,
                stack_size,
            },
            Action::SendProceed => ActionView::SendProceed,
            Action::AwaitProceed => ActionView::AwaitProceed,
            Action::WaitChild { pid } => ActionView::WaitChild { pid },
        }
    }
}

impl Action {
    /// A copy with the same value.
    pub fn duplicate(&self) -> (copy: Action)
        ensures
            copy@ == self@,
    {
        match self {
            Action::IsDirectory { path } => Action::IsDirectory { path: path.clone() },
            Action::PathExists { path } => Action::PathExists { path: path.clone() },
            Action::ReadFile { path } => Action::ReadFile { path: path.clone() },
            Action::WriteFile { path, content } => Action::WriteFile {
                path: path.clone(),
                content: content.clone(),
            },
            Action::WriteExisting { path, content } => Action::WriteExisting {
                path: path.clone(),
                content: content.clone(),
            },
            Action::CreateDirAll { path } => Action::CreateDirAll { path: path.clone() },
            Action::RemoveDirAll { path } => Action::RemoveDirAll { path: path.clone() },
            Action::Mount { source, target, fstype, flags } => Action::Mount {
                source: copy_optional(source),
                target: target.clone(),
                fstype: copy_optional(fstype),
                flags: *flags,
            },
            Action::Unmount { target, detach } => Action::Unmount {
                target: target.clone(),
                detach: *detach,
            },
            Action::PivotRoot { new_root, put_old } => Action::PivotRoot {
                new_root: new_root.clone(),
                put_old: put_old.clone(),
            },
            Action::ChangeDir { path } => Action::ChangeDir { path: path.clone() },
            Action::SetHostname { name } => Action::SetHostname { name: name.clone() },
            Action::SetEnv { name, value } => Action::SetEnv {
                name: name.clone(),
                value: value.clone(),
            },
            Action::Exec { program, argv } => Action::Exec {
                program: program.clone(),
                argv: copy_strings(argv),
            },
            Action::OpenChannel => Action::OpenChannel,
            Action::Spawn { request, namespaces, stack_size } => Action::Spawn {
                request: request.duplicate(),
                namespaces: *namespaces,
                stack_size: *stack_size,
            },
            Action::SendProceed => Action::SendProceed,
            Action::AwaitProceed => Action::AwaitProceed,
            Action::WaitChild { pid } => Action::WaitChild { pid: *pid },
        }
    }
}

impl DeepView for Action {
    type V = ActionView;

    open spec fn deep_view(&self) -> ActionView {
        self@
    }
}

/// How an [`Action`] ended.
#[derive(Clone, Debug, PartialEq, Eq)]
pub enum Outcome {
    /// The operation succeeded and has nothing to report.
    Done,
    /// Answer to a yes/no probe.
    Flag(bool),
    /// Content of a file that was read.
    Text(String),
    /// Number of bytes that a handshake operation sent or received.
    Transferred(usize),
    /// Process id of the child that was created.
    Spawned(i32),
    /// The child that was waited for has terminated.
    Exited(ExitOutcome),
    /// The operation failed; the text is the system's description of why.
    Failed(String),
}

/// Mathematical value of an [`Outcome`].
pub enum OutcomeView {
    Done,
    Flag(bool),
    Text(Seq<char>),
    Transferred(usize),
    Spawned(i32),
    Exited(ExitOutcome),
    Failed(Seq<char>),
}

impl View for Outcome {
    type V = OutcomeView;

    open spec fn view(&self) -> OutcomeView {
        match *self {
            Outcome::Done => OutcomeView::Done,
            Outcome::Flag(b) => OutcomeView::Flag(b),
            Outcome::Text(t) => OutcomeView::Text(t@),
            Outcome::Transferred(n) => OutcomeView::Transferred(n),
            Outcome::Spawned(pid) => OutcomeView::Spawned(pid),
            Outcome::Exited(e) => OutcomeView::Exited(e),
            Outcome::Failed(reason) => OutcomeView::Failed(reason@),
        }
    }
}

impl DeepView for Outcome {
    type V = OutcomeView;

    open spec fn deep_view(&self) -> OutcomeView {
        self@
    }
}

/// Why an outcome other than the expected one counts as a failure: the
/// reported reason, or a fixed text when the outcome is of the wrong kind.
pub open spec fn failure_reason(outcome: OutcomeView) -> Seq<char> {
    match outcome {
        OutcomeView::Failed(reason) => reason,
        _ => "unexpected outcome"@,
    }
}

/// Executable form of [`failure_reason`].
pub fn reason_of(outcome: &Outcome) -> (reason: String)
    ensures
        reason@ == failure_reason(outcome@),
{
    match outcome {
        Outcome::Failed(reason) => reason.clone(),
        _ => String::from_str("unexpected outcome"),
    }
}

} // verus!
