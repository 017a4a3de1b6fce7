//! Easy, fast, reference count supported deployment of chroot environments.
//!
//! A chroot is deployed from a compressed archive. All processes that deploy
//! the same archive at the same time share one chroot: the first of them unpacks
//! the archive and mounts what is needed, the others join its mount namespace,
//! and the last one to leave cleans up. A PID file beside the chroot directory
//! lists the processes that use it.
//!
//! This library holds the rules, without doing anything to the system itself:
//! - [`args`]: what the program is asked to do;
//! - [`deploy`]: where a chroot and its PID file lie, by way of [`path`];
//! - [`session`]: the course of one use of a chroot, from registering in the PID
//!   file to leaving it, and [`shared`] and [`course`]: what
//!   holds of several processes that do so at the same time;
//! - [`pids`]: the PID file, with its numbers in [`decimal`] notation, how
//!   it is changed in an [`update`], and how its [`lock`] is waited for;
//! - [`setup`] with [`mount`], [`chroot`] and [`cleanup`]: how a chroot is set up,
//!   entered and cleaned up, with [`results`] of what was done at the same time;
//! - [`command`], [`context`] and [`text`]: command lines, what came of them, and
//!   the messages about that.
//!
//! Paths and arguments are byte strings, as they are on Unix. So is what a PID
//! file holds; one that is not valid UTF-8 is refused.

pub mod args;
pub mod ascii;
pub mod chroot;
pub mod cleanup;
pub mod command;
pub mod context;
pub mod course;
pub mod decimal;
pub mod deploy;
pub mod lock;
pub mod mount;
pub mod path;
pub mod pids;
pub mod results;
pub mod session;
pub mod setup;
pub mod shared;
pub mod text;
pub mod update;

pub use crate::args::{run, Args, Command, Deploy};
