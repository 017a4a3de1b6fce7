//! How a step of a setup plan is carried out.
//!
//! A [`Mounting`] and a [`Copying`] say what is to be done next. Their caller
//! does it and reports back what came of it.

use vstd::prelude::*;

use crate::setup::{Mount, MountStep, Setup, SetupEvent};

verus! {

/// What a mount step wants to have done.
#[derive(Debug, Clone, Copy, PartialEq, Eq, Structural)]
pub enum MountAction {
    /// Create the directory of the step, and its parents.
    CreateDirectory,
    /// Run the command of the step.
    Run,
    /// Return the result.
    Return,
}

/// How far a mount step has come.
#[derive(Debug)]
pub enum Mounting<E> {
    /// The directory is to be created.
    Creating,
    /// The command is to be run.
    Running,
    /// The step is over.
    Done(Result<(), E>),
}

impl<E> Mounting<E> {
    /// What is to be done next.
    pub open spec fn pending(self) -> MountAction {
        match self {
            Mounting::Creating => MountAction::CreateDirectory,
            Mounting::Running => MountAction::Run,
            Mounting::Done(_) => MountAction::Return,
        }
    }

    /// A mount step that has not begun. Where there is a directory to create,
    /// that comes first.
    pub open spec fn begun(has_directory: bool) -> Mounting<E> {
        if has_directory {
            Mounting::Creating
        } else {
            Mounting::Running
        }
    }

    /// What a mount step comes to by the result of the pending action. Where the
    /// directory could not be created, no command follows.
    pub open spec fn after(self, result: Result<(), E>) -> Mounting<E> {
        match (self, result) {
            (Mounting::Creating, Ok(())) => Mounting::Running,
            (Mounting::Creating, Err(error)) => Mounting::Done(Err(error)),
            (Mounting::Running, result) => Mounting::Done(result),
            (Mounting::Done(result), _) => Mounting::Done(result),
        }
    }

    /// A mount step that has not begun.
    pub fn new(step: &MountStep) -> (r: Mounting<E>)
        ensures
            r == Mounting::<E>::begun(step@.directory is Some),
    {
        if step.directory.is_some() {
            Mounting::Creating
        } else {
            Mounting::Running
        }
    }

    /// What is to be done next.
    pub fn action(&self) -> (r: MountAction)
        ensures
            r == self.pending(),
    {
        match self {
            Mounting::Creating => MountAction::CreateDirectory,
            Mounting::Running => MountAction::Run,
            Mounting::Done(_) => MountAction::Return,
        }
    }

    /// Go on with the result of the pending action. Nothing follows once the
    /// step is over.
    pub fn step(self, result: Result<(), E>) -> (r: Mounting<E>)
        ensures
            r == self.after(result),
    {
        match self {
            Mounting::Creating => match result {
                Ok(()) => Mounting::Running,
                Err(error) => Mounting::Done(Err(error)),
            },
            Mounting::Running => Mounting::Done(result),
            Mounting::Done(result) => Mounting::Done(result),
        }
    }
}

/// What a mount step does, and what comes of it, from what comes of creating the
/// directory and of running the command.
pub open spec fn mount_course<E>(
    has_directory: bool,
    created: Result<(), E>,
    ran: Result<(), E>,
) -> (Seq<MountAction>, Result<(), E>) {
    if !has_directory {
        (seq![MountAction::Run], ran)
    } else if created is Err {
        (seq![MountAction::CreateDirectory], created)
    } else {
        (seq![MountAction::CreateDirectory, MountAction::Run], ran)
    }
}

impl<E> Mounting<E> {
    /// What is done by a mount step and what comes of it, up to the given number
    /// of actions. There is no result where the step is not over by then.
    pub open spec fn course(self, created: Result<(), E>, ran: Result<(), E>, limit: nat) -> (
        Seq<MountAction>,
        Option<Result<(), E>>,
    )
        decreases limit,
    {
        if let Mounting::Done(result) = self {
            (Seq::empty(), Some(result))
        } else if limit == 0 {
            (Seq::empty(), None)
        } else {
            let result = if self is Creating {
                created
            } else {
                ran
            };
            let rest = self.after(result).course(created, ran, (limit - 1) as nat);
            (seq![self.pending()] + rest.0, rest.1)
        }
    }
}

/// A mount step creates its directory first, if it has one. If that fails, the
/// command is not run, and the error is the result of the step; else the result
/// is that of the command.
pub proof fn mount_runs_its_course<E>(
    has_directory: bool,
    created: Result<(), E>,
    ran: Result<(), E>,
    limit: nat,
)
    requires
        limit >= 2,
    ensures
        ({
            let (doings, result) = Mounting::<E>::begun(has_directory).course(created, ran, limit);
            let (expected, outcome) = mount_course(has_directory, created, ran);
            doings == expected && result == Some(outcome)
        }),
{
    reveal_with_fuel(Mounting::course, 3);
    let (doings, result) = Mounting::<E>::begun(has_directory).course(created, ran, limit);
    assert(doings =~= mount_course(has_directory, created, ran).0);
}

/// What the copy of the file with the name servers wants to have done.
#[derive(Debug, Clone, Copy, PartialEq, Eq, Structural)]
pub enum CopyAction {
    /// Resolve all symbolic links in the path of the file.
    Resolve,
    /// Copy the file at the resolved path.
    Copy,
    /// Return the result.
    Return,
}

/// What came of an action.
#[derive(Debug)]
pub enum CopyEvent<E> {
    /// The path was resolved to this one.
    Resolved(Result<Vec<u8>, E>),
    /// The file was copied.
    Copied(Result<(), E>),
}

/// How far the copy of the file with the name servers has come.
#[derive(Debug)]
pub enum Copying<E> {
    /// The path of the file is to be resolved.
    Resolving,
    /// The file is to be copied from the given path.
    Copying(Vec<u8>),
    /// The copy is over.
    Done(Result<(), E>),
}

impl<E> Copying<E> {
    /// What is to be done next.
    pub open spec fn pending(self) -> CopyAction {
        match self {
            Copying::Resolving => CopyAction::Resolve,
            Copying::Copying(_) => CopyAction::Copy,
            Copying::Done(_) => CopyAction::Return,
        }
    }

    /// What a copy comes to by an event. Where the path could not be resolved,
    /// nothing is copied. An event that does not report on the pending action
    /// changes nothing.
    pub open spec fn after(self, event: CopyEvent<E>) -> Copying<E> {
        match (self, event) {
            (Copying::Resolving, CopyEvent::Resolved(Ok(path))) => Copying::Copying(path),
            (Copying::Resolving, CopyEvent::Resolved(Err(error))) => Copying::Done(Err(error)),
            (Copying::Copying(_), CopyEvent::Copied(result)) => Copying::Done(result),
            (copying, _) => copying,
        }
    }

    /// A copy that has not begun.
    pub fn new() -> (r: Copying<E>)
        ensures
            r == Copying::<E>::Resolving,
    {
        Copying::Resolving
    }

    /// What is to be done next.
    pub fn action(&self) -> (r: CopyAction)
        ensures
            r == self.pending(),
    {
        match self {
            Copying::Resolving => CopyAction::Resolve,
            Copying::Copying(_) => CopyAction::Copy,
            Copying::Done(_) => CopyAction::Return,
        }
    }

    /// Go on with what came of the pending action. An event that does not
    /// report on the pending action changes nothing.
    pub fn step(self, event: CopyEvent<E>) -> (r: Copying<E>)
        ensures
            r == self.after(event),
    {
        match (self, event) {
            (Copying::Resolving, CopyEvent::Resolved(resolved)) => match resolved {
                Ok(path) => Copying::Copying(path),
                Err(error) => Copying::Done(Err(error)),
            },
            (Copying::Copying(_), CopyEvent::Copied(result)) => Copying::Done(result),
            (copying, _) => copying,
        }
    }
}

impl<E> Copying<E> {
    /// What is done by a copy and what comes of it, up to the given number of
    /// actions. There is no result where the copy is not over by then.
    pub open spec fn course(
        self,
        resolved: Result<Vec<u8>, E>,
        copied: Result<(), E>,
        limit: nat,
    ) -> (Seq<CopyAction>, Option<Result<(), E>>)
        decreases limit,
    {
        if let Copying::Done(result) = self {
            (Seq::empty(), Some(result))
        } else if limit == 0 {
            (Seq::empty(), None)
        } else {
            let event = if self is Resolving {
                CopyEvent::Resolved(resolved)
            } else {
                CopyEvent::Copied(copied)
            };
            let rest = self.after(event).course(resolved, copied, (limit - 1) as nat);
            (seq![self.pending()] + rest.0, rest.1)
        }
    }
}

/// The file with the name servers is copied only where its path could be
/// resolved; else that error is the result.
pub proof fn copy_runs_its_course<E>(
    resolved: Result<Vec<u8>, E>,
    copied: Result<(), E>,
    limit: nat,
)
    requires
        limit >= 2,
    ensures
        Copying::<E>::Resolving.course(resolved, copied, limit) == match resolved {
            Ok(_) => (seq![CopyAction::Resolve, CopyAction::Copy], Some(copied)),
            Err(error) => (seq![CopyAction::Resolve], Some(Err(error))),
        },
{
    reveal_with_fuel(Copying::course, 3);
    let (doings, result) = Copying::<E>::Resolving.course(resolved, copied, limit);
    assert(doings =~= if resolved is Ok {
        seq![CopyAction::Resolve, CopyAction::Copy]
    } else {
        seq![CopyAction::Resolve]
    });
}

/// The results of all steps of a setup plan, in their order, with that of the copy
/// behind those of the mounts. Given is what comes of creating the directory and
/// of running the command of each mount, of resolving the path and of copying.
pub open spec fn plan_results<E>(
    mounts: Seq<Mount>,
    created: Seq<Result<(), E>>,
    ran: Seq<Result<(), E>>,
    resolved: Result<Vec<u8>, E>,
    copied: Result<(), E>,
) -> Seq<Result<(), E>> {
    let copy = match resolved {
        Ok(_) => copied,
        Err(error) => Err(error),
    };
    Seq::new(
        mounts.len(),
        |i: int| mount_course(mounts[i].directory is Some, created[i], ran[i]).1,
    ).push(copy)
}

/// A setup succeeds if and only if the mount point of each mount but that of the
/// process file system could be created, all mounts succeeded, and the file with
/// the name servers was found and copied. Else its error is that of the first
/// step that failed, in the order of the plan and not in that of time.
pub proof fn mounting_ends_setup<E>(
    chroot: Seq<u8>,
    created: Seq<Result<(), E>>,
    ran: Seq<Result<(), E>>,
    resolved: Result<Vec<u8>, E>,
    copied: Result<(), E>,
    results: Vec<Result<(), E>>,
    n: int,
)
    requires
        results@ == plan_results(
            crate::setup::chroot_mounts(chroot),
            created,
            ran,
            resolved,
            copied,
        ),
    ensures
        results@.len() == 7,
        Setup::<E>::Mounting.after(SetupEvent::Mounted(results)) == Setup::<E>::Done(Ok(())) <==> {
            &&& forall|i: int| 1 <= i < 6 ==> #[trigger] created[i] is Ok
            &&& forall|i: int| 0 <= i < 6 ==> #[trigger] ran[i] is Ok
            &&& resolved is Ok
            &&& copied is Ok
        },
        0 <= n < 7 && results@[n] is Err && (forall|i: int|
            0 <= i < n ==> #[trigger] results@[i] is Ok) ==> Setup::<E>::Mounting.after(
            SetupEvent::Mounted(results),
        ) == Setup::<E>::failed(results@[n]->Err_0, None),
{
    let all = results@;
    let mounts = crate::setup::chroot_mounts(chroot);
    crate::results::first_error_is_first(all, n);
    assert(mounts[0].directory is None);
    assert forall|i: int| 1 <= i < 6 implies #[trigger] mounts[i].directory is Some by {
        assert(i == 1 || i == 2 || i == 3 || i == 4 || i == 5);
    }
    assert forall|i: int| 0 <= i < 6 implies #[trigger] all[i] == mount_course(
        mounts[i].directory is Some,
        created[i],
        ran[i],
    ).1 by {}
    if forall|i: int| 0 <= i < all.len() ==> #[trigger] all[i] is Ok {
        assert forall|i: int| 1 <= i < 6 implies #[trigger] created[i] is Ok by {
            assert(all[i] is Ok);
        }
        assert forall|i: int| 0 <= i < 6 implies #[trigger] ran[i] is Ok by {
            assert(all[i] is Ok);
        }
        assert(all[6] is Ok);
    }
}

/// A step with a directory creates that, and runs its command if and only if that
/// succeeds; else it ends with that error. A step without one runs its command at
/// once. What comes of the command is the result.
pub proof fn mount_keeps_to_its_order<E>(error: E, ran: Result<(), E>)
    ensures
        ({
            let creating = Mounting::<E>::begun(true);
            let running = creating.after(Ok(()));
            &&& creating.pending() == MountAction::CreateDirectory
            &&& creating.after(Err(error)) == Mounting::Done(Err(error))
            &&& running.pending() == MountAction::Run
            &&& running.after(ran) == Mounting::Done(ran)
            &&& Mounting::<E>::begun(false) == running
            &&& Mounting::Done(ran).pending() == MountAction::Return
        }),
{
}

/// The path is resolved first, and the file is copied from the path that this gave;
/// where it could not be resolved, that error is the result. What comes of the copy
/// is the result.
pub proof fn copy_keeps_to_its_order<E>(path: Vec<u8>, error: E, copied: Result<(), E>)
    ensures
        ({
            let resolving = Copying::<E>::Resolving;
            let copying = resolving.after(CopyEvent::Resolved(Ok(path)));
            &&& resolving.pending() == CopyAction::Resolve
            &&& resolving.after(CopyEvent::Resolved(Err(error))) == Copying::Done(Err(error))
            &&& copying == Copying::<E>::Copying(path)
            &&& copying.pending() == CopyAction::Copy
            &&& copying.after(CopyEvent::Copied(copied)) == Copying::Done(copied)
            &&& Copying::Done(copied).pending() == CopyAction::Return
        }),
{
}

/// An event that does not report on what is to be done next changes nothing, and
/// nothing changes what is over.
pub proof fn other_events_are_ignored<E>(
    result: Result<(), E>,
    later: Result<(), E>,
    copying: Copying<E>,
    event: CopyEvent<E>,
)
    ensures
        Mounting::Done(result).after(later) == Mounting::Done(result),
        match (copying.pending(), event) {
            (CopyAction::Resolve, CopyEvent::Resolved(_)) => true,
            (CopyAction::Copy, CopyEvent::Copied(_)) => true,
            _ => copying.after(event) == copying,
        },
{
}

} // verus!
