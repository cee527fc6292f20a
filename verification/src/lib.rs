//! A minimal container launcher: given a root filesystem and a command, it
//! produces an isolated, resource-bounded process.
//!
//! The crate holds the decisions of a launch and leaves the system calls to
//! its caller.  Every privileged step is described as an [`action::Action`];
//! the caller performs it and reports an [`action::Outcome`] back:
//!
//! ```text
//! let mut launch = run_container(rootfs, command, args);
//! while let Some(action) = launch.pending() {
//!     launch = launch.advance(&perform(&action));
//! }
//! launch.result()
//! ```
//!
//! Which step comes next, what exactly it does, and when a launch has failed
//! is decided here, and the contracts pin those decisions down:
//!
//! * [`runtime`] orders the launch as the parent sees it, and the body of
//!   the child once it is released;
//! * [`cgroup`] confines the child's memory and CPU time;
//! * [`namespace`] maps the child's user and group to the caller's own;
//! * [`pivot_root`] switches the child's root filesystem;
//! * [`plan`] runs a fixed list of steps, every one of them fatal;
//! * [`text`] renders numbers and scans the kernel's control files.
//!
//! Beside the functions stand the laws that hold of every run: the child is
//! created only after the preconditions hold, it is released only after it
//! is confined and mapped, `setgroups` is denied before the user-id map is
//! written, the old root is removed only after a confirmed root switch, and
//! containers never share a control group.

pub mod action;
pub mod cgroup;
pub mod namespace;
pub mod pivot_root;
pub mod plan;
pub mod runtime;
pub mod text;

pub use cgroup::setup_cgroup;
pub use namespace::setup_user_namespace;
pub use pivot_root::setup_rootfs;
pub use runtime::run_container;
