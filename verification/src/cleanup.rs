//! How a chroot is cleaned up.
//!
//! A [`Cleanup`] says what is to be done next. Its caller does it and reports
//! back what came of it.

use vstd::prelude::*;
use vstd::string::*;

use crate::chroot::repos_path;
use crate::command::{CommandLine, Invocation};
use crate::path::join;
use crate::results::first_error;
use crate::setup::Mount;

verus! {

/// The commands that unmount what was mounted into a chroot.
#[derive(Debug)]
pub struct CleanupPlan {
    /// Commands that may run at the same time.
    pub unmounts: Vec<CommandLine>,
    /// The command that is to run strictly after all others.
    pub unmount_proc: CommandLine,
}

/// Unmount what is mounted at a directory.
pub open spec fn unmount(target: Seq<u8>) -> Invocation {
    Invocation { program: "umount".spec_bytes(), args: seq![target] }
}

/// Unmount what is mounted at a directory and below it.
pub open spec fn unmount_recursively(target: Seq<u8>) -> Invocation {
    Invocation {
        program: "umount".spec_bytes(),
        args: seq!["--recursive".spec_bytes(), target],
    }
}

/// What is unmounted from a chroot first, and how.
pub open spec fn chroot_unmounts(chroot: Seq<u8>) -> Seq<Invocation> {
    seq![
        unmount_recursively(crate::chroot::entry(chroot, "dev")),
        unmount_recursively(crate::chroot::entry(chroot, "sys")),
        unmount(crate::chroot::repos_directory(chroot)),
        unmount(crate::chroot::entry(chroot, "tmp")),
        unmount(crate::chroot::entry(chroot, "run")),
    ]
}

/// What is unmounted from a chroot last, and how.
pub open spec fn last_unmount(chroot: Seq<u8>) -> Invocation {
    unmount(crate::chroot::entry(chroot, "proc"))
}

/// What each of a number of command lines runs.
pub open spec fn command_views(lines: Seq<CommandLine>) -> Seq<Invocation> {
    lines.map_values(|line: CommandLine| line@)
}

/// A command line that unmounts a directory.
fn unmount_line(target: Vec<u8>) -> (r: CommandLine)
    ensures
        r@ == unmount(target@),
{
    let r = CommandLine { program: "umount".as_bytes_vec(), args: vec![target] };
    assert(crate::command::contents(r.args@) =~= seq![target@]);
    r
}

/// A command line that unmounts a directory and everything below it.
fn recursive_unmount_line(target: Vec<u8>) -> (r: CommandLine)
    ensures
        r@ == unmount_recursively(target@),
{
    let args: Vec<Vec<u8>> = vec!["--recursive".as_bytes_vec(), target];
    let r = CommandLine { program: "umount".as_bytes_vec(), args };
    assert(crate::command::contents(r.args@) =~= seq!["--recursive".spec_bytes(), target@]);
    r
}

/// The commands that unmount what was mounted into a chroot.
pub fn cleanup_plan(chroot: &[u8]) -> (r: CleanupPlan)
    ensures
        command_views(r.unmounts@) == chroot_unmounts(chroot@),
        r.unmount_proc@ == unmount(crate::chroot::entry(chroot@, "proc")),
        r.unmount_proc@ == last_unmount(chroot@),
{
    let unmounts: Vec<CommandLine> = vec![
        recursive_unmount_line(join(chroot, "dev".as_bytes())),
        recursive_unmount_line(join(chroot, "sys".as_bytes())),
        unmount_line(repos_path(chroot)),
        unmount_line(join(chroot, "tmp".as_bytes())),
        unmount_line(join(chroot, "run".as_bytes())),
    ];
    assert(command_views(unmounts@) =~= chroot_unmounts(chroot@));
    CleanupPlan { unmounts, unmount_proc: unmount_line(join(chroot, "proc".as_bytes())) }
}

/// What the cleanup of a chroot wants to have done.
#[derive(Debug, Clone, Copy, PartialEq, Eq, Structural)]
pub enum CleanupAction {
    /// Run the unmount commands of the cleanup plan, and report on all of them.
    Unmount,
    /// Run the last unmount command of the cleanup plan.
    UnmountProc,
    /// Remove the chroot directory and everything in it.
    RemoveDirectory,
    /// Return the result.
    Return,
}

/// What came of an action.
#[derive(Debug)]
pub enum CleanupEvent<E> {
    /// The unmount commands were run, with these results, in their order.
    Unmounted(Vec<Result<(), E>>),
    /// The last unmount command was run.
    ProcUnmounted(Result<(), E>),
    /// The chroot directory was removed.
    DirectoryRemoved(Result<(), E>),
}

/// How far the cleanup of a chroot has come.
#[derive(Debug)]
pub enum Cleanup<E> {
    /// The unmount commands are to be run.
    Unmounting {
        /// Whether to remove the chroot directory.
        remove: bool,
    },
    /// The last unmount command is to be run.
    UnmountingProc {
        /// Whether to remove the chroot directory.
        remove: bool,
        /// The first error of the other unmount commands, if any.
        error: Option<E>,
    },
    /// The chroot directory is to be removed.
    Removing,
    /// The cleanup is over.
    Done(Result<(), E>),
}

impl<E> Cleanup<E> {
    /// What is to be done next.
    pub open spec fn pending(self) -> CleanupAction {
        match self {
            Cleanup::Unmounting { .. } => CleanupAction::Unmount,
            Cleanup::UnmountingProc { .. } => CleanupAction::UnmountProc,
            Cleanup::Removing => CleanupAction::RemoveDirectory,
            Cleanup::Done(_) => CleanupAction::Return,
        }
    }

    /// A cleanup that has not begun. Only the first user is in the namespace
    /// that has the mounts, so nobody else unmounts anything.
    pub open spec fn begun(is_first_user: bool, remove: bool) -> Cleanup<E> {
        if is_first_user {
            Cleanup::Unmounting { remove }
        } else {
            Cleanup::unmounted(remove)
        }
    }

    /// A cleanup with nothing left to unmount.
    pub open spec fn unmounted(remove: bool) -> Cleanup<E> {
        if remove {
            Cleanup::Removing
        } else {
            Cleanup::Done(Ok(()))
        }
    }

    /// What a cleanup comes to by an event. An event that does not report on
    /// the pending action changes nothing.
    pub open spec fn after(self, event: CleanupEvent<E>) -> Cleanup<E> {
        match (self, event) {
            (
                Cleanup::Unmounting { remove },
                CleanupEvent::Unmounted(results),
            ) => Cleanup::UnmountingProc {
                remove,
                error: crate::results::first_error_of(results@),
            },
            (
                Cleanup::UnmountingProc { remove, error },
                CleanupEvent::ProcUnmounted(result),
            ) => match (error, result) {
                (Some(error), _) => Cleanup::Done(Err(error)),
                (None, Err(error)) => Cleanup::Done(Err(error)),
                (None, Ok(())) => Cleanup::unmounted(remove),
            },
            (Cleanup::Removing, CleanupEvent::DirectoryRemoved(result)) => Cleanup::Done(result),
            (cleanup, _) => cleanup,
        }
    }

    /// A cleanup that has not begun.
    pub fn new(is_first_user: bool, remove: bool) -> (r: Cleanup<E>)
        ensures
            r == Cleanup::<E>::begun(is_first_user, remove),
    {
        if is_first_user {
            Cleanup::Unmounting { remove }
        } else if remove {
            Cleanup::Removing
        } else {
            Cleanup::Done(Ok(()))
        }
    }

    /// What is to be done next.
    pub fn action(&self) -> (r: CleanupAction)
        ensures
            r == self.pending(),
    {
        match self {
            Cleanup::Unmounting { .. } => CleanupAction::Unmount,
            Cleanup::UnmountingProc { .. } => CleanupAction::UnmountProc,
            Cleanup::Removing => CleanupAction::RemoveDirectory,
            Cleanup::Done(_) => CleanupAction::Return,
        }
    }

    /// Go on with what came of the pending action. An event that does not
    /// report on the pending action changes nothing.
    pub fn step(self, event: CleanupEvent<E>) -> (r: Cleanup<E>)
        ensures
            r == self.after(event),
    {
        match (self, event) {
            (
                Cleanup::Unmounting { remove },
                CleanupEvent::Unmounted(results),
            ) => match first_error(results) {
                Ok(()) => Cleanup::UnmountingProc { remove, error: None },
                Err(error) => Cleanup::UnmountingProc { remove, error: Some(error) },
            },
            (
                Cleanup::UnmountingProc { remove, error },
                CleanupEvent::ProcUnmounted(result),
            ) => match (error, result) {
                (Some(error), _) => Cleanup::Done(Err(error)),
                (None, Err(error)) => Cleanup::Done(Err(error)),
                (None, Ok(())) => if remove {
                    Cleanup::Removing
                } else {
                    Cleanup::Done(Ok(()))
                },
            },
            (Cleanup::Removing, CleanupEvent::DirectoryRemoved(result)) => Cleanup::Done(result),
            (cleanup, _) => cleanup,
        }
    }
}

/// What comes of each action in the course of a cleanup.
pub struct CleanupScript<E> {
    /// What comes of the unmount commands.
    pub unmounted: Vec<Result<(), E>>,
    /// What comes of the last unmount command.
    pub proc_unmounted: Result<(), E>,
    /// What comes of removing the chroot directory.
    pub removed: Result<(), E>,
}

impl<E> CleanupScript<E> {
    /// The report on an action.
    pub open spec fn report(self, action: CleanupAction) -> CleanupEvent<E> {
        match action {
            CleanupAction::Unmount => CleanupEvent::Unmounted(self.unmounted),
            CleanupAction::UnmountProc => CleanupEvent::ProcUnmounted(self.proc_unmounted),
            CleanupAction::RemoveDirectory => CleanupEvent::DirectoryRemoved(self.removed),
            CleanupAction::Return => CleanupEvent::DirectoryRemoved(self.removed),
        }
    }

    /// The first error of all unmount commands, if any.
    pub open spec fn unmount_error(self) -> Option<E> {
        crate::results::first_error_of(self.unmounted@.push(self.proc_unmounted))
    }

    /// What is done in the course of a cleanup, in this order.
    pub open spec fn actions(self, is_first_user: bool, remove: bool) -> Seq<CleanupAction> {
        let unmounts = if is_first_user {
            seq![CleanupAction::Unmount, CleanupAction::UnmountProc]
        } else {
            Seq::empty()
        };
        if remove && (is_first_user ==> self.unmount_error() is None) {
            unmounts.push(CleanupAction::RemoveDirectory)
        } else {
            unmounts
        }
    }

    /// What a cleanup returns.
    pub open spec fn result(self, is_first_user: bool, remove: bool) -> Result<(), E> {
        if is_first_user && self.unmount_error() is Some {
            Err(self.unmount_error()->0)
        } else if remove {
            self.removed
        } else {
            Ok(())
        }
    }
}

impl<E> Cleanup<E> {
    /// What a cleanup comes to by at most the given number of actions.
    pub open spec fn course(self, script: CleanupScript<E>, limit: nat) -> Cleanup<E>
        decreases limit,
    {
        if limit == 0 || self is Done {
            self
        } else {
            self.after(script.report(self.pending())).course(script, (limit - 1) as nat)
        }
    }

    /// What is done in the course of a cleanup, up to the given number of
    /// actions.
    pub open spec fn doings(self, script: CleanupScript<E>, limit: nat) -> Seq<CleanupAction>
        decreases limit,
    {
        if limit == 0 || self is Done {
            Seq::empty()
        } else {
            seq![self.pending()] + self.after(script.report(self.pending())).doings(
                script,
                (limit - 1) as nat,
            )
        }
    }
}

/// Every cleanup comes to its end after three actions at most. The first user
/// runs all unmount commands, whether or not some of them fail, and that for
/// `proc` strictly after all others. The chroot directory is removed only on
/// demand, and never once an unmount command failed.
pub proof fn cleanup_runs_its_course<E>(
    script: CleanupScript<E>,
    is_first_user: bool,
    remove: bool,
    limit: nat,
)
    requires
        limit >= 3,
    ensures
        Cleanup::<E>::begun(is_first_user, remove).course(script, limit) == Cleanup::Done(
            script.result(is_first_user, remove),
        ),
        Cleanup::<E>::begun(is_first_user, remove).doings(script, limit) == script.actions(
            is_first_user,
            remove,
        ),
{
    crate::results::first_error_of_push(script.unmounted@, script.proc_unmounted);
    reveal_with_fuel(Cleanup::course, 4);
    reveal_with_fuel(Cleanup::doings, 4);
    assert(Cleanup::<E>::begun(is_first_user, remove).doings(script, limit) =~= script.actions(
        is_first_user,
        remove,
    ));
}

/// How a mount is undone: what was bound with everything below it is unmounted
/// with everything below it.
pub open spec fn unmount_of(mount: Mount) -> Invocation {
    if mount.command.args[0] == "--rbind".spec_bytes() {
        unmount_recursively(mount.command.args.last())
    } else {
        unmount(mount.command.args.last())
    }
}

proof fn lemma_rbind()
    ensures
        "-t".spec_bytes() != "--rbind".spec_bytes(),
        "--bind".spec_bytes() != "--rbind".spec_bytes(),
{
    reveal_strlit("-t");
    reveal_strlit("--bind");
    reveal_strlit("--rbind");
    is_ascii_spec_bytes("-t");
    is_ascii_spec_bytes("--bind");
    is_ascii_spec_bytes("--rbind");
    assert("-t".spec_bytes().len() == 2);
    assert("--bind".spec_bytes().len() == 6);
    assert("--rbind".spec_bytes().len() == 7);
}

/// What the setup of a chroot mounts, the cleanup unmounts, and nothing else:
/// first all but `proc`, in the same order, and then `proc`.
pub proof fn cleanup_unmounts_what_setup_mounts(chroot: Seq<u8>)
    ensures
        ({
            let mounts = crate::setup::chroot_mounts(chroot);
            &&& chroot_unmounts(chroot) == mounts.skip(1).map_values(
                |mount: Mount| unmount_of(mount),
            )
            &&& unmount(crate::chroot::entry(chroot, "proc")) == unmount_of(mounts[0])
        }),
{
    let mounts = crate::setup::chroot_mounts(chroot);
    let undone = mounts.skip(1).map_values(|mount: Mount| unmount_of(mount));
    lemma_rbind();
    assert(undone.len() == 5);
    assert(undone[0] == unmount_of(mounts[1]));
    assert(undone[1] == unmount_of(mounts[2]));
    assert(undone[2] == unmount_of(mounts[3]));
    assert(undone[3] == unmount_of(mounts[4]));
    assert(undone[4] == unmount_of(mounts[5]));
    assert(chroot_unmounts(chroot) =~= undone);
}

/// The command lines of a cleanup plan are run as they are, each in its turn.
pub proof fn unmount_lines_are_run(lines: Seq<CommandLine>, i: int)
    requires
        0 <= i < lines.len(),
    ensures
        command_views(lines).len() == lines.len(),
        command_views(lines)[i] == lines[i]@,
{
}

/// What is unmounted lies inside the chroot: at the places of `/dev` and `/sys`,
/// with everything below them, of `/var/db/repos`, `/tmp` and `/run`, and in the
/// end of `/proc`.
pub proof fn chroot_is_unmounted(chroot: Seq<u8>)
    ensures
        ({
            let unmounts = chroot_unmounts(chroot);
            let proc_unmount = last_unmount(chroot);
            &&& unmounts.len() == 5
            &&& forall|i: int|
                0 <= i < 5 ==> (#[trigger] unmounts[i]).program == "umount".spec_bytes()
            &&& unmounts[0].args == seq![
                "--recursive".spec_bytes(),
                crate::chroot::place_of("/dev".spec_bytes(), chroot),
            ]
            &&& unmounts[1].args == seq![
                "--recursive".spec_bytes(),
                crate::chroot::place_of("/sys".spec_bytes(), chroot),
            ]
            &&& unmounts[2].args == seq![
                crate::chroot::place_of("/var/db/repos".spec_bytes(), chroot),
            ]
            &&& unmounts[3].args == seq![
                crate::chroot::place_of("/tmp".spec_bytes(), chroot),
            ]
            &&& unmounts[4].args == seq![
                crate::chroot::place_of("/run".spec_bytes(), chroot),
            ]
            &&& proc_unmount.program == "umount".spec_bytes()
            &&& proc_unmount.args == seq![
                crate::chroot::place_of("/proc".spec_bytes(), chroot),
            ]
        }),
{
    let unmounts = chroot_unmounts(chroot);
    crate::chroot::entries_lie_in_chroot(chroot);
    assert forall|i: int| 0 <= i < 5 implies (#[trigger] unmounts[i]).program
        == "umount".spec_bytes() by {
        assert(i == 0 || i == 1 || i == 2 || i == 3 || i == 4);
    }
}

/// Who is not the first user unmounts nothing: it removes the chroot directory on
/// demand, with what comes of that as the result, and else does nothing.
pub proof fn later_user_only_removes<E>(result: Result<(), E>)
    ensures
        Cleanup::<E>::begun(false, false) == Cleanup::<E>::Done(Ok(())),
        Cleanup::<E>::begun(false, true).pending() == CleanupAction::RemoveDirectory,
        Cleanup::<E>::begun(false, true).after(CleanupEvent::DirectoryRemoved(result))
            == Cleanup::Done(result),
        Cleanup::<E>::Done(result).pending() == CleanupAction::Return,
{
}

/// The first user runs all unmount commands, and that for `proc` after the others,
/// whatever came of those. The first error, in the order of the plan, is the
/// result, and keeps the chroot directory. Without an error the directory is
/// removed if and only if that is demanded, with what comes of that as the result.
pub proof fn first_user_unmounts_all<E>(
    remove: bool,
    results: Vec<Result<(), E>>,
    last: Result<(), E>,
    removed: Result<(), E>,
    n: int,
)
    ensures
        ({
            let start = Cleanup::<E>::begun(true, remove);
            let rest = start.after(CleanupEvent::Unmounted(results));
            let end = rest.after(CleanupEvent::ProcUnmounted(last));
            let all_unmounted = forall|i: int|
                0 <= i < results@.len() ==> #[trigger] results@[i] is Ok;
            &&& start.pending() == CleanupAction::Unmount
            &&& rest.pending() == CleanupAction::UnmountProc
            &&& all_unmounted && last is Ok && remove ==> end.pending()
                == CleanupAction::RemoveDirectory && end.after(
                CleanupEvent::DirectoryRemoved(removed),
            ) == Cleanup::Done(removed)
            &&& all_unmounted && last is Ok && !remove ==> end == Cleanup::<E>::Done(Ok(()))
            &&& all_unmounted && last is Err ==> end == Cleanup::Done(last)
            &&& 0 <= n < results@.len() && results@[n] is Err && (forall|i: int|
                0 <= i < n ==> #[trigger] results@[i] is Ok) ==> end == Cleanup::<E>::Done(
                Err(results@[n]->Err_0),
            )
        }),
{
    crate::results::first_error_is_first(results@, n);
}

/// An event that does not report on what is to be done next changes nothing.
pub proof fn other_events_are_ignored<E>(cleanup: Cleanup<E>, event: CleanupEvent<E>)
    ensures
        match (cleanup.pending(), event) {
            (CleanupAction::Unmount, CleanupEvent::Unmounted(_)) => true,
            (CleanupAction::UnmountProc, CleanupEvent::ProcUnmounted(_)) => true,
            (CleanupAction::RemoveDirectory, CleanupEvent::DirectoryRemoved(_)) => true,
            _ => cleanup.after(event) == cleanup,
        },
{
}

} // verus!
