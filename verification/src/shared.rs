//! Several processes that use one chroot at the same time.
//!
//! A PID file is shared by all processes that have it open; one that is created
//! anew at the path of a deleted one is another file. Here it is stated what
//! holds of those processes as long as nobody else writes to their file, and
//! reading and writing it does not fail.

use vstd::prelude::*;

use crate::pids::AddPidResult;
use crate::session::{Action, Event, Session};

verus! {

/// A PID file, and the sessions of the processes that share it.
pub struct Shared<E> {
    /// What the file holds.
    pub content: Seq<u8>,
    /// The process that holds the lock on the file, if any.
    pub lock: Option<u32>,
    /// The session of each process, by its PID.
    pub sessions: Map<u32, Session<E>>,
}

impl<E> Shared<E> {
    /// Whether there is a session of a process that is listed in the file.
    pub open spec fn is_user(self, pid: u32) -> bool {
        self.sessions.dom().contains(pid) && self.sessions[pid].is_listed()
    }

    /// The processes that are listed in the file.
    pub open spec fn users(self) -> Set<u32> {
        Set::new(|pid: u32| self.is_user(pid))
    }

    /// Nobody has done anything yet.
    pub open spec fn is_new(self) -> bool {
        &&& self.content == Seq::<u8>::empty()
        &&& self.lock is None
        &&& forall|pid: u32|
            #[trigger] self.sessions.dom().contains(pid) ==> self.sessions[pid] is Opening
    }

    /// What comes of it that a process does what its session wants, and that its
    /// session goes on with the event. A process waits for the lock where it
    /// needs it.
    pub open spec fn leads_to(self, pid: u32, event: Event<E>, next: Shared<E>) -> bool {
        let session = self.sessions[pid];
        &&& self.sessions.dom().contains(pid)
        &&& next.sessions == self.sessions.insert(pid, session.after(event))
        &&& match session.pending() {
            Action::AddPid => {
                let result = crate::pids::add_result(crate::pids::pid_list(self.content));
                &&& self.lock is None
                &&& event == Event::<E>::PidAdded(Ok(result))
                &&& next.content == crate::pids::added(self.content, pid)
                &&& next.lock == if result is OwnPid {
                    Some(pid)
                } else {
                    None
                }
            },
            Action::RemovePid => {
                let unused = crate::pids::without_pid(
                    crate::pids::pid_list(self.content),
                    pid,
                ).len() == 0;
                &&& self.lock is None
                &&& event == Event::<E>::PidRemoved(Ok(unused))
                &&& next.content == crate::pids::removed(self.content, pid)
                &&& next.lock == if unused {
                    Some(pid)
                } else {
                    None
                }
            },
            Action::Unlock => {
                &&& event is Unlocked
                &&& next.content == self.content
                &&& next.lock is None
            },
            Action::Return => false,
            action => {
                &&& match action {
                    Action::OpenPidFile => event is PidFileOpened,
                    Action::SetUp => event is SetUpDone,
                    Action::Use(_) => event is UseDone,
                    Action::CleanUp(_) => event is CleanUpDone,
                    _ => event is DeletionAttempted,
                }
                &&& next.content == self.content
                &&& next.lock == self.lock
            },
        }
    }

    /// What holds at any time: the file can be read, and lists just the processes
    /// that have come and not gone; one process at most holds the lock, namely that whose
    /// session says so; and while a process holds the lock, no other process is
    /// listed.
    pub open spec fn is_consistent(self) -> bool {
        &&& vstd::utf8::valid_utf8(self.content)
        &&& crate::pids::lists(self.content, self.users())
        &&& forall|pid: u32|
            #[trigger] self.sessions.dom().contains(pid) ==> (self.sessions[pid].holds_lock()
                <==> self.lock == Some(pid))
        &&& self.lock matches Some(pid) ==> forall|other: u32|
            #[trigger] self.is_user(other) ==> other == pid
    }
}

/// In the beginning everything is consistent.
pub proof fn new_is_consistent<E>(shared: Shared<E>)
    requires
        shared.is_new(),
    ensures
        shared.is_consistent(),
{
    let none = Seq::<u32>::empty();
    assert(crate::pids::pid_content(none) =~= shared.content);
    crate::pids::content_is_utf8(none);
    crate::pids::list_of_content(none);
    assert forall|pid: u32| !shared.users().contains(pid) by {
        if shared.sessions.dom().contains(pid) {
            assert(shared.sessions[pid] is Opening);
        }
    }
}

/// Whatever a process does next, and whatever comes of it, everything stays
/// consistent.
pub proof fn consistency_is_kept<E>(
    shared: Shared<E>,
    pid: u32,
    event: Event<E>,
    next: Shared<E>,
)
    requires
        shared.is_consistent(),
        shared.leads_to(pid, event, next),
    ensures
        next.is_consistent(),
{
    let session = shared.sessions[pid];
    let users = shared.users();
    let pids = crate::pids::pid_list(shared.content);
    crate::pids::content_is_utf8(crate::pids::with_pid(pids, pid));
    crate::pids::content_is_utf8(crate::pids::without_pid(pids, pid));
    assert forall|other: u32| other != pid implies next.is_user(other) == shared.is_user(other) by {
        assert(next.sessions.dom().contains(other) == shared.sessions.dom().contains(other));
    }
    assert(next.is_user(pid) == session.after(event).is_listed());
    match session.pending() {
        Action::AddPid => {
            crate::pids::add_joins(shared.content, users, pid);
            assert(next.users() =~= users.insert(pid));
        },
        Action::RemovePid => {
            crate::pids::remove_leaves(shared.content, users, pid);
            assert(next.users() =~= users.remove(pid));
        },
        _ => {
            assert(next.users() =~= users);
        },
    }
    assert forall|other: u32| #[trigger] next.sessions.dom().contains(other) implies (
    next.sessions[other].holds_lock() <==> next.lock == Some(other)) by {
        assert(shared.sessions.dom().contains(other));
    }
    if let Some(holder) = next.lock {
        assert forall|other: u32| #[trigger] next.is_user(other) implies other == holder by {
            assert(next.users().contains(other));
            if holder != pid {
                assert(users.contains(other));
                assert(shared.is_user(other));
            } else if other != pid {
                assert(shared.is_user(other));
                assert(users.contains(other));
                assert(users.remove(pid).contains(other));
            }
        }
    }
}

/// While a process sets up the chroot or cleans it up, or deletes the PID file,
/// no other process uses the chroot, and none sets it up or cleans it up.
pub proof fn setup_and_cleanup_are_exclusive<E>(shared: Shared<E>, pid: u32, other: u32)
    requires
        shared.is_consistent(),
        shared.sessions.dom().contains(pid),
        shared.sessions.dom().contains(other),
        pid != other,
        shared.sessions[pid].pending() matches Action::SetUp
            || shared.sessions[pid].pending() matches Action::CleanUp(_)
            || shared.sessions[pid].pending() matches Action::DeletePidFile,
    ensures
        !(shared.sessions[other].pending() is Use),
        !(shared.sessions[other].pending() is SetUp),
        !(shared.sessions[other].pending() is CleanUp),
        !(shared.sessions[other].pending() is DeletePidFile),
        !shared.is_user(other),
{
    assert(shared.sessions[pid].holds_lock());
    assert(shared.is_user(other) ==> other == pid);
    assert(!shared.sessions[other].holds_lock());
}

/// A process that adds its PID is told to set the chroot up if and only if no
/// process uses it yet, and else a process that is listed, to join its
/// namespace. A process that removes its PID after it used the chroot is told to
/// clean up if and only if no process uses the chroot any more.
pub proof fn first_and_last_are_known<E>(
    shared: Shared<E>,
    pid: u32,
    event: Event<E>,
    next: Shared<E>,
)
    requires
        shared.is_consistent(),
        shared.leads_to(pid, event, next),
    ensures
        shared.sessions[pid] is Joining ==> (next.sessions[pid] is SettingUp <==> forall|
            other: u32,
        |
            !#[trigger] shared.is_user(other)),
        shared.sessions[pid] is Joining && !(next.sessions[pid] is SettingUp) ==> exists|
            first: u32,
        | #[trigger]
            shared.is_user(first) && next.sessions[pid] == (Session::<E>::Using {
                ns_pid: Some(first),
            }),
        shared.sessions[pid] is Leaving ==> (next.sessions[pid] is CleaningUp <==> forall|
            other: u32,
        |
            !#[trigger] next.is_user(other)),
{
    consistency_is_kept(shared, pid, event, next);
    let users = shared.users();
    match shared.sessions[pid] {
        Session::Joining => {
            crate::pids::add_joins(shared.content, users, pid);
            if next.sessions[pid] is SettingUp {
                assert forall|other: u32| !#[trigger] shared.is_user(other) by {
                    assert(!users.contains(other));
                }
            } else if let Event::PidAdded(Ok(AddPidResult::ExistingPid(first))) = event {
                assert(users.contains(first));
                assert(shared.is_user(first));
            }
        },
        Session::Leaving { .. } => {
            crate::pids::remove_leaves(shared.content, users, pid);
            assert forall|other: u32| #[trigger] next.is_user(other) == users.remove(pid).contains(
                other,
            ) by {
                if other != pid {
                    assert(next.sessions.dom().contains(other) == shared.sessions.dom().contains(
                        other,
                    ));
                }
            }
            if !(next.sessions[pid] is CleaningUp) {
                if forall|other: u32| !#[trigger] next.is_user(other) {
                    assert forall|other: u32| !users.remove(pid).contains(other) by {
                        assert(!next.is_user(other));
                    }
                    assert(users.remove(pid) =~= Set::<u32>::empty());
                }
            }
        },
        _ => {},
    }
}

} // verus!
