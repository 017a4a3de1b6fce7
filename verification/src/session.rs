//! The course of one use of a chroot: how a process registers itself in the PID
//! file, sets the chroot up if it is the first user, uses it, and cleans up if
//! it is the last.
//!
//! A [`Session`] says what is to be done next. Its caller does it and reports
//! back what came of it.

use vstd::prelude::*;

use crate::pids::AddPidResult;

verus! {

/// What a session wants to have done.
#[derive(Debug, Clone, Copy, PartialEq, Eq, Structural)]
pub enum Action {
    /// Open the PID file, and create it if it does not exist.
    OpenPidFile,
    /// Lock the PID file and add the PID of this process. Keep the lock if this
    /// process is the first user.
    AddPid,
    /// Set up the chroot.
    SetUp,
    /// Release the lock on the PID file.
    Unlock,
    /// Use the chroot, in the namespace of the given process if there is one.
    Use(Option<u32>),
    /// Lock the PID file and remove the PID of this process. Keep the lock if
    /// nobody is listed any more.
    RemovePid,
    /// Clean up the chroot. Given is whether this process is the first user.
    CleanUp(bool),
    /// Delete the PID file, as far as that is possible.
    DeletePidFile,
    /// Return the result.
    Return,
}

/// What came of an action.
#[derive(Debug)]
pub enum Event<E> {
    /// The PID file was opened.
    PidFileOpened(Result<(), E>),
    /// The PID of this process was added.
    PidAdded(Result<AddPidResult, E>),
    /// The chroot was set up.
    SetUpDone(Result<(), E>),
    /// The lock was released.
    Unlocked,
    /// The chroot was used.
    UseDone(Result<(), E>),
    /// The PID of this process was removed. Reported is whether nobody is listed
    /// any more.
    PidRemoved(Result<bool, E>),
    /// The chroot was cleaned up.
    CleanUpDone(Result<(), E>),
    /// The deletion of the PID file was attempted.
    DeletionAttempted,
}

/// Why a session failed.
#[derive(Debug)]
pub struct Fault<E> {
    /// The error that ended the session.
    pub error: E,
    /// A further error, which came up when the PID was removed after that.
    pub context: Option<E>,
}

/// How far the use of a chroot has come.
#[derive(Debug)]
pub enum Session<E> {
    /// The PID file is to be opened.
    Opening,
    /// The PID is to be added.
    Joining,
    /// The chroot is to be set up.
    SettingUp,
    /// The lock is to be released after the setup, which had this result.
    SetUp(Result<(), E>),
    /// The setup failed with this error, and the PID is to be removed.
    Withdrawing(E),
    /// The setup failed with this error, and the PID file is to be deleted.
    Abandoning(E),
    /// The chroot is to be used.
    Using {
        /// The process whose namespace is to be used.
        ns_pid: Option<u32>,
    },
    /// The use had this result, and the PID is to be removed.
    Leaving {
        /// Whether this process is the first user.
        is_first_user: bool,
        /// What came of the use.
        used: Result<(), E>,
    },
    /// The use had this result, and the chroot is to be cleaned up.
    CleaningUp {
        /// Whether this process is the first user.
        is_first_user: bool,
        /// What came of the use.
        used: Result<(), E>,
    },
    /// The PID file is to be deleted, and this is the result so far.
    Deleting(Result<(), E>),
    /// The lock is to be released, and this is the result.
    Unlocking(Result<(), E>),
    /// The session is over.
    Done(Result<(), Fault<E>>),
}

/// The result without a further error.
pub open spec fn plain<E>(result: Result<(), E>) -> Result<(), Fault<E>> {
    with_context(result, None)
}

/// The result, with a further error attached to its error, if it is one.
pub open spec fn with_context<E>(result: Result<(), E>, context: Option<E>) -> Result<
    (),
    Fault<E>,
> {
    match result {
        Ok(()) => Ok(()),
        Err(error) => Err(Fault { error, context }),
    }
}

/// The first result if it is an error, else the second.
pub open spec fn first_failure<E>(first: Result<(), E>, second: Result<(), E>) -> Result<(), E> {
    if first is Err {
        first
    } else {
        second
    }
}

impl<E> Session<E> {
    /// What is to be done next.
    pub open spec fn pending(self) -> Action {
        match self {
            Session::Opening => Action::OpenPidFile,
            Session::Joining => Action::AddPid,
            Session::SettingUp => Action::SetUp,
            Session::SetUp(_) => Action::Unlock,
            Session::Withdrawing(_) => Action::RemovePid,
            Session::Abandoning(_) => Action::DeletePidFile,
            Session::Using { ns_pid } => Action::Use(ns_pid),
            Session::Leaving { .. } => Action::RemovePid,
            Session::CleaningUp { is_first_user, .. } => Action::CleanUp(is_first_user),
            Session::Deleting(_) => Action::DeletePidFile,
            Session::Unlocking(_) => Action::Unlock,
            Session::Done(_) => Action::Return,
        }
    }

    /// What a session comes to by an event. An event that does not report on
    /// the pending action changes nothing.
    pub open spec fn after(self, event: Event<E>) -> Session<E> {
        match (self, event) {
            (Session::Opening, Event::PidFileOpened(Ok(()))) => Session::Joining,
            (Session::Opening, Event::PidFileOpened(Err(error))) => Session::Done(
                plain(Err(error)),
            ),
            (Session::Joining, Event::PidAdded(Ok(AddPidResult::OwnPid))) => Session::SettingUp,
            (
                Session::Joining,
                Event::PidAdded(Ok(AddPidResult::ExistingPid(pid))),
            ) => Session::Using { ns_pid: Some(pid) },
            (Session::Joining, Event::PidAdded(Err(error))) => Session::Done(plain(Err(error))),
            (Session::SettingUp, Event::SetUpDone(result)) => Session::SetUp(result),
            (Session::SetUp(Ok(())), Event::Unlocked) => Session::Using { ns_pid: None },
            (Session::SetUp(Err(error)), Event::Unlocked) => Session::Withdrawing(error),
            (Session::Withdrawing(error), Event::PidRemoved(Ok(true))) => Session::Abandoning(
                error,
            ),
            (Session::Withdrawing(error), Event::PidRemoved(Ok(false))) => Session::Done(
                plain(Err(error)),
            ),
            (Session::Withdrawing(error), Event::PidRemoved(Err(inner))) => Session::Done(
                with_context(Err(error), Some(inner)),
            ),
            (Session::Abandoning(error), Event::DeletionAttempted) => Session::Unlocking(
                Err(error),
            ),
            (Session::Using { ns_pid }, Event::UseDone(used)) => Session::Leaving {
                is_first_user: ns_pid is None,
                used,
            },
            (
                Session::Leaving { is_first_user, used },
                Event::PidRemoved(Ok(true)),
            ) => Session::CleaningUp { is_first_user, used },
            (Session::Leaving { used, .. }, Event::PidRemoved(Ok(false))) => Session::Done(
                plain(used),
            ),
            (Session::Leaving { used, .. }, Event::PidRemoved(Err(inner))) => Session::Done(
                with_context(used, Some(inner)),
            ),
            (Session::CleaningUp { used, .. }, Event::CleanUpDone(result)) => Session::Deleting(
                first_failure(used, result),
            ),
            (Session::Deleting(result), Event::DeletionAttempted) => Session::Unlocking(result),
            (Session::Unlocking(result), Event::Unlocked) => Session::Done(plain(result)),
            (session, _) => session,
        }
    }

    /// Whether this process holds the lock on the PID file.
    pub open spec fn holds_lock(self) -> bool {
        match self {
            Session::SettingUp => true,
            Session::SetUp(_) => true,
            Session::Abandoning(_) => true,
            Session::CleaningUp { .. } => true,
            Session::Deleting(_) => true,
            Session::Unlocking(_) => true,
            _ => false,
        }
    }

    /// Whether this process is listed in the PID file, as far as nobody else
    /// writes to that.
    pub open spec fn is_listed(self) -> bool {
        match self {
            Session::SettingUp => true,
            Session::SetUp(_) => true,
            Session::Withdrawing(_) => true,
            Session::Using { .. } => true,
            Session::Leaving { .. } => true,
            _ => false,
        }
    }

    /// A session that has not begun.
    pub fn new() -> (r: Session<E>)
        ensures
            r == Session::<E>::Opening,
    {
        Session::Opening
    }

    /// What is to be done next.
    pub fn action(&self) -> (r: Action)
        ensures
            r == self.pending(),
    {
        match self {
            Session::Opening => Action::OpenPidFile,
            Session::Joining => Action::AddPid,
            Session::SettingUp => Action::SetUp,
            Session::SetUp(_) => Action::Unlock,
            Session::Withdrawing(_) => Action::RemovePid,
            Session::Abandoning(_) => Action::DeletePidFile,
            Session::Using { ns_pid } => Action::Use(*ns_pid),
            Session::Leaving { .. } => Action::RemovePid,
            Session::CleaningUp { is_first_user, .. } => Action::CleanUp(*is_first_user),
            Session::Deleting(_) => Action::DeletePidFile,
            Session::Unlocking(_) => Action::Unlock,
            Session::Done(_) => Action::Return,
        }
    }

    /// Go on with what came of the pending action. An event that does not
    /// report on the pending action changes nothing.
    pub fn step(self, event: Event<E>) -> (r: Session<E>)
        ensures
            r == self.after(event),
    {
        match (self, event) {
            (Session::Opening, Event::PidFileOpened(opened)) => match opened {
                Ok(()) => Session::Joining,
                Err(error) => Session::Done(Err(Fault { error, context: None })),
            },
            (Session::Joining, Event::PidAdded(added)) => match added {
                Ok(AddPidResult::OwnPid) => Session::SettingUp,
                Ok(AddPidResult::ExistingPid(pid)) => Session::Using { ns_pid: Some(pid) },
                Err(error) => Session::Done(Err(Fault { error, context: None })),
            },
            (Session::SettingUp, Event::SetUpDone(result)) => Session::SetUp(result),
            (Session::SetUp(result), Event::Unlocked) => match result {
                Ok(()) => Session::Using { ns_pid: None },
                // The setup never concluded, so nothing is cleaned up.
                Err(error) => Session::Withdrawing(error),
            },
            (Session::Withdrawing(error), Event::PidRemoved(removed)) => match removed {
                Ok(unused) => if unused {
                    Session::Abandoning(error)
                } else {
                    Session::Done(Err(Fault { error, context: None }))
                },
                Err(inner) => Session::Done(Err(Fault { error, context: Some(inner) })),
            },
            (Session::Abandoning(error), Event::DeletionAttempted) => Session::Unlocking(
                Err(error),
            ),
            (Session::Using { ns_pid }, Event::UseDone(used)) => Session::Leaving {
                is_first_user: ns_pid.is_none(),
                used,
            },
            (Session::Leaving { is_first_user, used }, Event::PidRemoved(removed)) => match removed {
                Ok(unused) => if unused {
                    Session::CleaningUp { is_first_user, used }
                } else {
                    Session::Done(
                        match used {
                            Ok(()) => Ok(()),
                            Err(error) => Err(Fault { error, context: None }),
                        },
                    )
                },
                // The PID may still be listed, and there may be other users, so
                // it is not safe to clean up.
                Err(inner) => Session::Done(
                    match used {
                        Ok(()) => Ok(()),
                        Err(error) => Err(Fault { error, context: Some(inner) }),
                    },
                ),
            },
            (Session::CleaningUp { used, .. }, Event::CleanUpDone(result)) => Session::Deleting(
                match used {
                    Ok(()) => result,
                    Err(error) => Err(error),
                },
            ),
            (Session::Deleting(result), Event::DeletionAttempted) => Session::Unlocking(result),
            (Session::Unlocking(result), Event::Unlocked) => Session::Done(
                match result {
                    Ok(()) => Ok(()),
                    Err(error) => Err(Fault { error, context: None }),
                },
            ),
            (session, _) => session,
        }
    }
}

/// What comes of each action in the course of a session.
pub struct Script<E> {
    /// What comes of opening the PID file.
    pub opened: Result<(), E>,
    /// What comes of adding the PID.
    pub added: Result<AddPidResult, E>,
    /// What comes of the setup.
    pub set_up: Result<(), E>,
    /// What comes of the use.
    pub used: Result<(), E>,
    /// What comes of removing the PID.
    pub removed: Result<bool, E>,
    /// What comes of the cleanup.
    pub cleaned_up: Result<(), E>,
}

impl<E> Script<E> {
    /// The report on an action.
    pub open spec fn report(self, action: Action) -> Event<E> {
        match action {
            Action::OpenPidFile => Event::PidFileOpened(self.opened),
            Action::AddPid => Event::PidAdded(self.added),
            Action::SetUp => Event::SetUpDone(self.set_up),
            Action::Unlock => Event::Unlocked,
            Action::Use(_) => Event::UseDone(self.used),
            Action::RemovePid => Event::PidRemoved(self.removed),
            Action::CleanUp(_) => Event::CleanUpDone(self.cleaned_up),
            Action::DeletePidFile => Event::DeletionAttempted,
            Action::Return => Event::DeletionAttempted,
        }
    }

    /// What a process does that was let into the PID file and, if it is the
    /// first user, set up the chroot.
    pub open spec fn use_actions(self, ns_pid: Option<u32>) -> Seq<Action> {
        let used = seq![Action::Use(ns_pid), Action::RemovePid];
        if self.removed == Ok::<bool, E>(true) {
            used + seq![Action::CleanUp(ns_pid is None), Action::DeletePidFile, Action::Unlock]
        } else {
            used
        }
    }

    /// What is done in the course of a session, in this order.
    pub open spec fn actions(self) -> Seq<Action> {
        let joined = seq![Action::OpenPidFile, Action::AddPid];
        if self.opened is Err {
            seq![Action::OpenPidFile]
        } else {
            match self.added {
                Err(_) => joined,
                Ok(AddPidResult::ExistingPid(pid)) => joined + self.use_actions(Some(pid)),
                Ok(AddPidResult::OwnPid) => {
                    let set_up = joined + seq![Action::SetUp, Action::Unlock];
                    if self.set_up is Ok {
                        set_up + self.use_actions(None)
                    } else if self.removed == Ok::<bool, E>(true) {
                        set_up + seq![Action::RemovePid, Action::DeletePidFile, Action::Unlock]
                    } else {
                        set_up + seq![Action::RemovePid]
                    }
                },
            }
        }
    }

    /// What a session returns.
    pub open spec fn result(self) -> Result<(), Fault<E>> {
        if self.opened is Err {
            plain(self.opened)
        } else if let Err(error) = self.added {
            plain(Err(error))
        } else if self.added is Ok && self.added->Ok_0 is OwnPid && self.set_up is Err {
            with_context(self.set_up, self.removed.err())
        } else if self.removed == Ok::<bool, E>(true) {
            plain(first_failure(self.used, self.cleaned_up))
        } else {
            with_context(self.used, self.removed.err())
        }
    }
}

impl<E> Session<E> {
    /// What a session comes to by at most the given number of actions.
    pub open spec fn course(self, script: Script<E>, limit: nat) -> Session<E>
        decreases limit,
    {
        if limit == 0 || self is Done {
            self
        } else {
            self.after(script.report(self.pending())).course(script, (limit - 1) as nat)
        }
    }

    /// What is done in the course of a session, up to the given number of
    /// actions.
    pub open spec fn doings(self, script: Script<E>, limit: nat) -> Seq<Action>
        decreases limit,
    {
        if limit == 0 || self is Done {
            Seq::empty()
        } else {
            seq![self.pending()] + self.after(script.report(self.pending())).doings(
                script,
                (limit - 1) as nat,
            )
        }
    }
}

/// Every session comes to its end after nine actions at most. What is done in
/// it, and what it returns, follows from what comes of the actions:
/// - the chroot is set up by the first user alone, and is not used if that
///   fails;
/// - it is cleaned up by the last user alone, and only where the setup did not
///   fail and the PID was removed;
/// - the PID file is deleted just where nobody is listed in it any more;
/// - an error of the use takes precedence over one of the cleanup.
pub proof fn session_runs_its_course<E>(script: Script<E>, limit: nat)
    requires
        limit >= 9,
    ensures
        Session::<E>::Opening.course(script, limit) == Session::Done(script.result()),
        Session::<E>::Opening.doings(script, limit) == script.actions(),
{
    reveal_with_fuel(Session::course, 10);
    reveal_with_fuel(Session::doings, 10);
    assert(Session::<E>::Opening.doings(script, limit) =~= script.actions());
}

/// The lock on the PID file is held from when it was taken until it is
/// released: it is taken by the first user and by the last, and a session that
/// is over does not hold it.
pub proof fn lock_is_tracked<E>(session: Session<E>, script: Script<E>)
    ensures
        session is Done ==> !session.holds_lock(),
        session.after(script.report(session.pending())).holds_lock() == match session.pending() {
            Action::AddPid => script.added == Ok::<AddPidResult, E>(AddPidResult::OwnPid),
            Action::RemovePid => script.removed == Ok::<bool, E>(true),
            Action::Unlock => false,
            _ => session.holds_lock(),
        },
{
}

/// The chroot is set up and cleaned up, and the PID file is deleted, under the
/// lock alone. While the chroot is used, and when the PID file is opened or
/// locked, the lock is not held.
pub proof fn lock_guards_setup_and_cleanup<E>(session: Session<E>)
    ensures
        match session.pending() {
            Action::SetUp => session.holds_lock(),
            Action::CleanUp(_) => session.holds_lock(),
            Action::DeletePidFile => session.holds_lock(),
            Action::Unlock => session.holds_lock(),
            Action::OpenPidFile => !session.holds_lock(),
            Action::AddPid => !session.holds_lock(),
            Action::Use(_) => !session.holds_lock(),
            Action::RemovePid => !session.holds_lock(),
            Action::Return => !session.holds_lock(),
        },
{
}

/// A process that was added to the PID file tries to remove itself from it
/// again, once, whatever else happens.
pub proof fn added_pid_is_removed<E>(script: Script<E>)
    ensures
        script.actions().contains(Action::RemovePid) <==> script.opened is Ok && script.added is Ok,
        forall|i: int, j: int|
            0 <= i < script.actions().len() && 0 <= j < script.actions().len()
                && script.actions()[i] == Action::RemovePid && script.actions()[j]
                == Action::RemovePid ==> i == j,
{
    let actions = script.actions();
    if script.opened is Ok && script.added is Ok {
        if script.added->Ok_0 is OwnPid {
            if script.set_up is Ok {
                assert(actions[5] == Action::RemovePid);
            } else {
                assert(actions[4] == Action::RemovePid);
            }
        } else {
            assert(actions[3] == Action::RemovePid);
        }
    }
}

/// The chroot is set up if and only if this process is the first user, and it
/// is used if and only if this process is not the first user or the setup
/// succeeded.
pub proof fn first_user_sets_up<E>(script: Script<E>)
    ensures
        script.actions().contains(Action::SetUp) <==> script.opened is Ok && script.added == Ok::<
            AddPidResult,
            E,
        >(AddPidResult::OwnPid),
        (exists|ns_pid: Option<u32>| script.actions().contains(Action::Use(ns_pid)))
            <==> script.opened is Ok && script.added is Ok && (script.added->Ok_0 is OwnPid
            ==> script.set_up is Ok),
{
    let actions = script.actions();
    if script.opened is Ok && script.added is Ok {
        match script.added->Ok_0 {
            AddPidResult::OwnPid => {
                assert(actions[2] == Action::SetUp);
                if script.set_up is Ok {
                    assert(actions[4] == Action::Use(None));
                    assert(actions.contains(Action::Use(None)));
                }
            },
            AddPidResult::ExistingPid(pid) => {
                assert(actions[2] == Action::Use(Some(pid)));
                assert(actions.contains(Action::Use(Some(pid))));
            },
        }
    }
}

/// The chroot is cleaned up if and only if it was used and the PID file lists
/// nobody any more.
pub proof fn last_user_cleans_up<E>(script: Script<E>)
    ensures
        (exists|is_first_user: bool| script.actions().contains(Action::CleanUp(is_first_user)))
            <==> (exists|ns_pid: Option<u32>| script.actions().contains(Action::Use(ns_pid)))
            && script.removed == Ok::<bool, E>(true),
        script.actions().contains(Action::DeletePidFile) <==> script.actions().contains(
            Action::RemovePid,
        ) && script.removed == Ok::<bool, E>(true),
{
    first_user_sets_up(script);
    added_pid_is_removed(script);
    let actions = script.actions();
    if script.opened is Ok && script.added is Ok && script.removed == Ok::<bool, E>(true) {
        match script.added->Ok_0 {
            AddPidResult::OwnPid => if script.set_up is Ok {
                assert(actions[6] == Action::CleanUp(true));
                assert(actions.contains(Action::CleanUp(true)));
                assert(actions[7] == Action::DeletePidFile);
            } else {
                assert(actions[5] == Action::DeletePidFile);
            },
            AddPidResult::ExistingPid(pid) => {
                assert(actions[4] == Action::CleanUp(false));
                assert(actions.contains(Action::CleanUp(false)));
                assert(actions[5] == Action::DeletePidFile);
            },
        }
    }
}

/// A process that finds another one listed uses the chroot in the namespace of just
/// that process, whatever its PID, and does no setup. It removes its PID after
/// that. If it is told that nobody is left it cleans up, as one that is not the
/// first user, deletes the PID file and releases the lock; else it is done. The
/// result is that of the use, or else that of the cleanup.
pub proof fn later_user_keeps_to_its_order<E>(
    pid: u32,
    used: Result<(), E>,
    cleaned_up: Result<(), E>,
    error: E,
)
    ensures
        ({
            let joining = Session::<E>::Opening.after(Event::PidFileOpened(Ok(())));
            let using = joining.after(Event::PidAdded(Ok(AddPidResult::ExistingPid(pid))));
            let leaving = using.after(Event::UseDone(used));
            let cleaning = leaving.after(Event::PidRemoved(Ok(true)));
            let deleting = cleaning.after(Event::CleanUpDone(cleaned_up));
            let unlocking = deleting.after(Event::DeletionAttempted);
            &&& Session::<E>::Opening.pending() == Action::OpenPidFile
            &&& joining.pending() == Action::AddPid
            &&& using.pending() == Action::Use(Some(pid))
            &&& leaving.pending() == Action::RemovePid
            &&& cleaning.pending() == Action::CleanUp(false)
            &&& deleting.pending() == Action::DeletePidFile
            &&& unlocking.pending() == Action::Unlock
            &&& unlocking.after(Event::Unlocked) == Session::Done(
                match (used, cleaned_up) {
                    (Err(error), _) => Err(Fault { error, context: None }),
                    (Ok(()), Err(error)) => Err(Fault { error, context: None }),
                    (Ok(()), Ok(())) => Ok(()),
                },
            )
            &&& leaving.after(Event::PidRemoved(Ok(false))) == Session::Done(
                match used {
                    Err(error) => Err(Fault { error, context: None }),
                    Ok(()) => Ok(()),
                },
            )
            &&& leaving.after(Event::PidRemoved(Err(error))) == Session::Done(
                match used {
                    Err(first) => Err(Fault { error: first, context: Some(error) }),
                    Ok(()) => Ok(()),
                },
            )
        }),
{
}

/// A process that finds nobody listed sets the chroot up and releases the lock. It
/// uses the chroot in its own namespace and removes its PID. If it is told that
/// nobody is left it cleans up, as the first user, deletes the PID file and
/// releases the lock; else it is done. The result is that of the use, or else that
/// of the cleanup.
pub proof fn first_user_keeps_to_its_order<E>(
    used: Result<(), E>,
    cleaned_up: Result<(), E>,
    error: E,
)
    ensures
        ({
            let joining = Session::<E>::Opening.after(Event::PidFileOpened(Ok(())));
            let setting_up = joining.after(Event::PidAdded(Ok(AddPidResult::OwnPid)));
            let set_up = setting_up.after(Event::SetUpDone(Ok(())));
            let using = set_up.after(Event::Unlocked);
            let leaving = using.after(Event::UseDone(used));
            let cleaning = leaving.after(Event::PidRemoved(Ok(true)));
            let deleting = cleaning.after(Event::CleanUpDone(cleaned_up));
            let unlocking = deleting.after(Event::DeletionAttempted);
            &&& setting_up.pending() == Action::SetUp
            &&& set_up.pending() == Action::Unlock
            &&& using.pending() == Action::Use(None)
            &&& leaving.pending() == Action::RemovePid
            &&& cleaning.pending() == Action::CleanUp(true)
            &&& deleting.pending() == Action::DeletePidFile
            &&& unlocking.pending() == Action::Unlock
            &&& unlocking.after(Event::Unlocked) == Session::Done(
                match (used, cleaned_up) {
                    (Err(error), _) => Err(Fault { error, context: None }),
                    (Ok(()), Err(error)) => Err(Fault { error, context: None }),
                    (Ok(()), Ok(())) => Ok(()),
                },
            )
            &&& leaving.after(Event::PidRemoved(Ok(false))) == Session::Done(
                match used {
                    Err(error) => Err(Fault { error, context: None }),
                    Ok(()) => Ok(()),
                },
            )
            &&& leaving.after(Event::PidRemoved(Err(error))) == Session::Done(
                match used {
                    Err(first) => Err(Fault { error: first, context: Some(error) }),
                    Ok(()) => Ok(()),
                },
            )
        }),
{
}

/// A process whose setup failed releases the lock and removes its PID, and neither
/// uses the chroot nor cleans it up. If it is told that nobody is left it deletes
/// the PID file. The result is the error of the setup, with that of the removal
/// attached to it where that fails too.
pub proof fn failed_setup_is_withdrawn<E>(error: E, inner: E)
    ensures
        ({
            let joining = Session::<E>::Opening.after(Event::PidFileOpened(Ok(())));
            let setting_up = joining.after(Event::PidAdded(Ok(AddPidResult::OwnPid)));
            let set_up = setting_up.after(Event::SetUpDone(Err(error)));
            let withdrawing = set_up.after(Event::Unlocked);
            let abandoning = withdrawing.after(Event::PidRemoved(Ok(true)));
            let unlocking = abandoning.after(Event::DeletionAttempted);
            &&& set_up.pending() == Action::Unlock
            &&& withdrawing.pending() == Action::RemovePid
            &&& abandoning.pending() == Action::DeletePidFile
            &&& unlocking.pending() == Action::Unlock
            &&& unlocking.after(Event::Unlocked) == Session::Done(
                Err(Fault { error, context: None }),
            )
            &&& withdrawing.after(Event::PidRemoved(Ok(false))) == Session::Done(
                Err(Fault { error, context: None }),
            )
            &&& withdrawing.after(Event::PidRemoved(Err(inner))) == Session::Done(
                Err(Fault { error, context: Some(inner) }),
            )
        }),
{
}

/// A process that could not open the PID file, or not add its PID, does nothing
/// more and returns that error.
pub proof fn failed_start_ends_session<E>(error: E)
    ensures
        ({
            let joining = Session::<E>::Opening.after(Event::PidFileOpened(Ok(())));
            let failed = Session::<E>::Done(Err(Fault { error, context: None }));
            &&& Session::<E>::Opening.after(Event::PidFileOpened(Err(error))) == failed
            &&& joining.after(Event::PidAdded(Err(error))) == failed
            &&& failed.pending() == Action::Return
        }),
{
}

/// An event that does not report on what is to be done next changes nothing.
pub proof fn other_events_are_ignored<E>(session: Session<E>, event: Event<E>)
    ensures
        match (session.pending(), event) {
            (Action::OpenPidFile, Event::PidFileOpened(_)) => true,
            (Action::AddPid, Event::PidAdded(_)) => true,
            (Action::SetUp, Event::SetUpDone(_)) => true,
            (Action::Unlock, Event::Unlocked) => true,
            (Action::Use(_), Event::UseDone(_)) => true,
            (Action::RemovePid, Event::PidRemoved(_)) => true,
            (Action::CleanUp(_), Event::CleanUpDone(_)) => true,
            (Action::DeletePidFile, Event::DeletionAttempted) => true,
            _ => session.after(event) == session,
        },
{
}

} // verus!
