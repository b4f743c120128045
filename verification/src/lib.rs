//! Policy and build plan for running a child process inside a private,
//! tmpfs-backed root directory on Linux.
//!
//! The parent process records what the child's root should contain
//! ([`Command::fakeroot_enable`], [`Command::fakeroot_mount`] and friends).
//! The child then walks a [`SandboxBuild`] over the finished [`Config`]: the
//! build names one kernel operation at a time, the caller performs it and
//! reports whether it succeeded.
pub mod config;
pub mod consistency;
pub mod fakeroot;
pub mod namespace;
pub mod path;
pub mod sandbox;
pub mod trace;

pub use crate::config::{Config, GidMap, UidMap, SIGKILL};
pub use crate::fakeroot::{Command, FakeRootMount, MountKind};
pub use crate::namespace::{Namespace, NamespaceSet};
pub use crate::sandbox::{
    BuildOutcome, BuildStep, MountFlags, OpenFlags, Operation, Position, SandboxBuild,
    DIRECTORY_MODE,
};
