//! The course of several sessions that share a PID file, from the first process
//! that comes to the last one that goes.

use vstd::prelude::*;

use crate::session::{Action, Event, Session};
use crate::shared::Shared;

verus! {

/// What several processes that share a PID file do, one step after the other.
pub struct Course<E> {
    /// How things stand before each step, and after the last one.
    pub states: Seq<Shared<E>>,
    /// The process that does each step, and what comes of the step.
    pub doings: Seq<(u32, Event<E>)>,
}

impl<E> Course<E> {
    /// Whether a step leads from how things stand before it to how they stand
    /// after it.
    pub open spec fn is_step(self, i: int) -> bool {
        self.states[i].leads_to(self.doings[i].0, self.doings[i].1, self.states[i + 1])
    }

    /// Whether nobody had done anything before the first step, and each step
    /// leads to the next one.
    pub open spec fn is_course(self) -> bool {
        &&& self.states.len() == self.doings.len() + 1
        &&& self.states[0].is_new()
        &&& forall|i: int| 0 <= i < self.doings.len() ==> #[trigger] self.is_step(i)
    }

    /// Whether a process takes part.
    pub open spec fn takes_part(self, pid: u32) -> bool {
        self.states[0].sessions.dom().contains(pid)
    }

    /// The session of a process before a step.
    pub open spec fn session(self, i: int, pid: u32) -> Session<E> {
        self.states[i].sessions[pid]
    }

    /// The process that does a step.
    pub open spec fn pid(self, i: int) -> u32 {
        self.doings[i].0
    }

    /// What is done in a step.
    pub open spec fn action(self, i: int) -> Action {
        self.session(i, self.pid(i)).pending()
    }

    /// Whether the given step is the only one of its kind.
    pub open spec fn is_only(self, i: int, kind: spec_fn(int) -> bool) -> bool {
        &&& 0 <= i < self.doings.len()
        &&& kind(i)
        &&& forall|j: int| 0 <= j < self.doings.len() && #[trigger] kind(j) ==> j == i
    }

    /// Whether all processes are listed before a step, and none has removed its
    /// PID until then.
    pub open spec fn all_meet(self, i: int) -> bool {
        &&& 0 <= i < self.states.len()
        &&& forall|pid: u32| #[trigger] self.takes_part(pid) ==> self.states[i].is_user(pid)
        &&& forall|j: int| 0 <= j < i ==> !(#[trigger] self.action(j) is RemovePid)
    }

    /// Whether no setup fails.
    pub open spec fn setups_succeed(self) -> bool {
        forall|i: int|
            0 <= i < self.doings.len() ==> ((#[trigger] self.doings[i]).1 matches Event::SetUpDone(
                result,
            ) ==> result is Ok)
    }

    /// Whether all processes are there together before the given step, no setup
    /// fails, and all sessions come to their end.
    pub open spec fn is_gathering(self, meeting: int) -> bool {
        &&& self.is_course()
        &&& self.all_meet(meeting)
        &&& self.setups_succeed()
        &&& self.all_end()
    }

    /// Whether all sessions are over in the end.
    pub open spec fn all_end(self) -> bool {
        forall|pid: u32| #[trigger]
            self.takes_part(pid) ==> self.session(self.doings.len() as int, pid) is Done
    }
}

/// How far a session has come.
spec fn progress<E>(session: Session<E>) -> int {
    match session {
        Session::Opening => 0,
        Session::Joining => 1,
        Session::SettingUp => 2,
        Session::SetUp(_) => 3,
        Session::Using { .. } => 4,
        Session::Withdrawing(_) => 5,
        Session::Leaving { .. } => 5,
        Session::Abandoning(_) => 6,
        Session::CleaningUp { .. } => 6,
        Session::Deleting(_) => 7,
        Session::Unlocking(_) => 8,
        Session::Done(_) => 9,
    }
}

/// What a session can come to by a step.
spec fn moves_on<E>(session: Session<E>, event: Event<E>, next: Session<E>) -> bool {
    match session {
        Session::Opening => next is Joining || next is Done,
        Session::Joining => next is SettingUp || (next matches Session::Using { ns_pid }
            && ns_pid is Some),
        Session::SettingUp => next matches Session::SetUp(result) && event == Event::SetUpDone(
            result,
        ),
        Session::SetUp(result) => if result is Ok {
            next matches Session::Using { ns_pid } && ns_pid is None
        } else {
            next is Withdrawing
        },
        Session::Withdrawing(_) => next is Abandoning || next is Done,
        Session::Abandoning(_) => next is Unlocking,
        Session::Using { ns_pid } => next matches Session::Leaving { is_first_user, .. }
            && is_first_user == (ns_pid is None),
        Session::Leaving { is_first_user, .. } => next is Done || (
        next matches Session::CleaningUp { is_first_user: flag, .. } && flag == is_first_user),
        Session::CleaningUp { .. } => next is Deleting,
        Session::Deleting(_) => next is Unlocking,
        Session::Unlocking(_) => next is Done,
        Session::Done(_) => false,
    }
}

/// Whatever the processes that share a PID file do, in whatever order, and
/// whatever comes of it, everything is consistent at any time.
pub proof fn course_is_consistent<E>(course: Course<E>, n: int)
    requires
        course.is_course(),
        0 <= n < course.states.len(),
    ensures
        course.states[n].is_consistent(),
    decreases n,
{
    if n == 0 {
        crate::shared::new_is_consistent(course.states[0]);
    } else {
        let k = n - 1;
        course_is_consistent(course, k);
        assert(course.is_step(k));
        crate::shared::consistency_is_kept(
            course.states[k],
            course.doings[k].0,
            course.doings[k].1,
            course.states[k + 1],
        );
    }
}

proof fn lemma_domain<E>(course: Course<E>, n: int)
    requires
        course.is_course(),
        0 <= n < course.states.len(),
    ensures
        course.states[n].sessions.dom() =~= course.states[0].sessions.dom(),
    decreases n,
{
    if n > 0 {
        let k = n - 1;
        lemma_domain(course, k);
        assert(course.is_step(k));
    }
}

/// A step moves the session of its process on, and leaves all others alone.
proof fn lemma_step<E>(course: Course<E>, i: int)
    requires
        course.is_course(),
        0 <= i < course.doings.len(),
    ensures
        course.takes_part(course.pid(i)),
        moves_on(
            course.session(i, course.pid(i)),
            course.doings[i].1,
            course.session(i + 1, course.pid(i)),
        ),
        progress(course.session(i + 1, course.pid(i))) > progress(course.session(i, course.pid(i))),
        forall|other: u32|
            other != course.pid(i) ==> #[trigger] course.session(i + 1, other) == course.session(
                i,
                other,
            ),
{
    lemma_domain(course, i);
    assert(course.is_step(i));
    let pid = course.pid(i);
    let session = course.session(i, pid);
    let next = course.session(i + 1, pid);
    assert(next == session.after(course.doings[i].1));
}

/// Sessions only ever go forward.
proof fn lemma_forward<E>(course: Course<E>, i: int, j: int, pid: u32)
    requires
        course.is_course(),
        0 <= i <= j < course.states.len(),
    ensures
        progress(course.session(i, pid)) <= progress(course.session(j, pid)),
        progress(course.session(i, pid)) == progress(course.session(j, pid)) ==> course.session(
            i,
            pid,
        ) == course.session(j, pid),
    decreases j - i,
{
    if i < j {
        lemma_forward(course, i, j - 1, pid);
        lemma_step(course, j - 1);
        if course.pid(j - 1) != pid {
            assert(course.session(j - 1 + 1, pid) == course.session(j - 1, pid));
        }
    }
}

/// A process is no further on before an earlier step of its own.
proof fn lemma_later_step<E>(course: Course<E>, i: int, j: int)
    requires
        course.is_course(),
        0 <= i < j < course.doings.len(),
        course.pid(i) == course.pid(j),
    ensures
        progress(course.session(i, course.pid(i))) < progress(course.session(j, course.pid(j))),
{
    lemma_step(course, i);
    lemma_forward(course, i + 1, j, course.pid(i));
}

/// A session that passes a mark does so by a step of its process.
proof fn lemma_crossing<E>(course: Course<E>, pid: u32, mark: int, a: int, b: int) -> (i: int)
    requires
        course.is_course(),
        0 <= a <= b < course.states.len(),
        progress(course.session(a, pid)) < mark <= progress(course.session(b, pid)),
    ensures
        a <= i < b,
        course.pid(i) == pid,
        progress(course.session(i, pid)) < mark <= progress(course.session(i + 1, pid)),
    decreases b - a,
{
    if progress(course.session(b - 1, pid)) < mark {
        let i = b - 1;
        lemma_step(course, i);
        if course.pid(i) != pid {
            assert(course.session(i + 1, pid) == course.session(i, pid));
        }
        i
    } else {
        lemma_crossing(course, pid, mark, a, b - 1)
    }
}

/// Where no setup fails, no process withdraws.
proof fn lemma_nobody_withdraws<E>(course: Course<E>, n: int, pid: u32)
    requires
        course.is_course(),
        course.setups_succeed(),
        course.takes_part(pid),
        0 <= n < course.states.len(),
    ensures
        !(course.session(n, pid) is Withdrawing),
        !(course.session(n, pid) is Abandoning),
        course.session(n, pid) matches Session::SetUp(result) ==> result is Ok,
    decreases n,
{
    if n == 0 {
        assert(course.states[0].sessions.dom().contains(pid));
    } else {
        let k = n - 1;
        lemma_nobody_withdraws(course, k, pid);
        lemma_step(course, k);
        if course.pid(k) != pid {
            assert(course.session(k + 1, pid) == course.session(k, pid));
        } else {
            assert(course.doings[k].1 matches Event::SetUpDone(result) ==> result is Ok);
        }
    }
}

/// How far a process is at the meeting, and in the beginning and the end.
proof fn lemma_marks<E>(course: Course<E>, meeting: int, pid: u32)
    requires
        course.is_gathering(meeting),
        course.takes_part(pid),
    ensures
        progress(course.session(0, pid)) == 0,
        2 <= progress(course.session(meeting, pid)) <= 5,
        progress(course.session(course.doings.len() as int, pid)) == 9,
{
    assert(course.states[0].sessions.dom().contains(pid));
    assert(course.states[meeting].is_user(pid));
    assert(course.session(course.doings.len() as int, pid) is Done);
}

/// Whether a process is listed, by how far it is.
proof fn lemma_listed<E>(course: Course<E>, n: int, pid: u32)
    requires
        course.is_course(),
        0 <= n < course.states.len(),
    ensures
        course.states[n].is_user(pid) <==> course.takes_part(pid) && 2 <= progress(
            course.session(n, pid),
        ) <= 5,
{
    lemma_domain(course, n);
}

/// Every process adds its PID, before the meeting.
proof fn lemma_joins<E>(course: Course<E>, meeting: int, pid: u32, b: int) -> (i: int)
    requires
        course.is_gathering(meeting),
        course.takes_part(pid),
        0 <= b < course.states.len(),
        2 <= progress(course.session(b, pid)),
    ensures
        0 <= i < meeting,
        i < b,
        course.pid(i) == pid,
        course.session(i, pid) is Joining,
{
    lemma_marks(course, meeting, pid);
    let i = lemma_crossing(course, pid, 2, 0, b);
    lemma_step(course, i);
    if i < meeting {
        lemma_forward(course, i + 1, meeting, pid);
    } else {
        lemma_forward(course, meeting, i, pid);
    }
    i
}

/// A process that is listed at the meeting or later removes its PID after that.
proof fn lemma_leaves<E>(course: Course<E>, meeting: int, pid: u32, a: int, b: int) -> (i: int)
    requires
        course.is_gathering(meeting),
        course.takes_part(pid),
        meeting <= a <= b < course.states.len(),
        progress(course.session(a, pid)) <= 5,
        progress(course.session(b, pid)) >= 6,
    ensures
        a <= i < b,
        course.pid(i) == pid,
        course.session(i, pid) is Leaving,
{
    lemma_marks(course, meeting, pid);
    let i = lemma_crossing(course, pid, 6, a, b);
    lemma_step(course, i);
    lemma_forward(course, meeting, i, pid);
    lemma_nobody_withdraws(course, i, pid);
    i
}

/// A process that removes its PID is leaving, after the meeting.
proof fn lemma_removal<E>(course: Course<E>, meeting: int, i: int)
    requires
        course.is_gathering(meeting),
        0 <= i < course.doings.len(),
        course.action(i) is RemovePid,
    ensures
        meeting <= i,
        course.session(i, course.pid(i)) is Leaving,
{
    lemma_step(course, i);
    lemma_nobody_withdraws(course, i, course.pid(i));
}

/// The first step in which a PID is added.
proof fn lemma_first<E>(course: Course<E>, i: int) -> (first: int)
    requires
        0 <= i < course.doings.len(),
        course.action(i) is AddPid,
    ensures
        0 <= first <= i,
        course.action(first) is AddPid,
        forall|j: int|
            0 <= j < course.doings.len() && #[trigger] course.action(j) is AddPid ==> first <= j,
    decreases i,
{
    if exists|j: int| 0 <= j < i && #[trigger] course.action(j) is AddPid {
        let j = choose|j: int| 0 <= j < i && #[trigger] course.action(j) is AddPid;
        lemma_first(course, j)
    } else {
        i
    }
}

/// The last step in which a PID is removed.
proof fn lemma_last<E>(course: Course<E>, i: int) -> (last: int)
    requires
        0 <= i < course.doings.len(),
        course.action(i) is RemovePid,
    ensures
        i <= last < course.doings.len(),
        course.action(last) is RemovePid,
        forall|j: int|
            0 <= j < course.doings.len() && #[trigger] course.action(j) is RemovePid ==> j <= last,
    decreases course.doings.len() - i,
{
    if exists|j: int| i < j < course.doings.len() && #[trigger] course.action(j) is RemovePid {
        let j = choose|j: int|
            i < j < course.doings.len() && #[trigger] course.action(j) is RemovePid;
        lemma_last(course, j)
    } else {
        i
    }
}

/// The first process to add its PID is told to set the chroot up, and no other.
proof fn lemma_first_sets_up<E>(course: Course<E>, meeting: int, first: int, j: int)
    requires
        course.is_gathering(meeting),
        0 <= first < course.doings.len(),
        course.action(first) is AddPid,
        forall|k: int|
            0 <= k < course.doings.len() && #[trigger] course.action(k) is AddPid ==> first <= k,
        0 <= j < course.doings.len(),
    ensures
        course.session(j + 1, course.pid(j)) is SettingUp <==> j == first,
{
    let pid = course.pid(j);
    lemma_step(course, j);
    if course.session(j, pid) is Joining {
        assert(course.action(j) is AddPid);
        course_is_consistent(course, j);
        assert(course.is_step(j));
        crate::shared::first_and_last_are_known(
            course.states[j],
            pid,
            course.doings[j].1,
            course.states[j + 1],
        );
        if j == first {
            assert forall|other: u32| !#[trigger] course.states[j].is_user(other) by {
                lemma_listed(course, j, other);
                if course.states[j].is_user(other) {
                    let i = lemma_joins(course, meeting, other, j);
                    assert(course.action(i) is AddPid);
                }
            }
        } else {
            let owner = course.pid(first);
            lemma_step(course, first);
            lemma_forward(course, first + 1, j, owner);
            lemma_marks(course, meeting, owner);
            lemma_marks(course, meeting, pid);
            if meeting <= j {
                lemma_forward(course, meeting, j, pid);
            }
            lemma_forward(course, j, meeting, owner);
            lemma_listed(course, j, owner);
            assert(course.states[j].is_user(owner));
        }
    }
}

/// The last process to remove its PID is told to clean up, and no other.
proof fn lemma_last_cleans_up<E>(course: Course<E>, meeting: int, last: int, j: int)
    requires
        course.is_gathering(meeting),
        0 <= last < course.doings.len(),
        course.action(last) is RemovePid,
        forall|k: int|
            0 <= k < course.doings.len() && #[trigger] course.action(k) is RemovePid ==> k <= last,
        0 <= j < course.doings.len(),
    ensures
        course.session(j + 1, course.pid(j)) is CleaningUp <==> j == last,
{
    let pid = course.pid(j);
    let end = course.doings.len() as int;
    lemma_step(course, j);
    lemma_removal(course, meeting, last);
    if course.session(j, pid) is Leaving {
        assert(course.action(j) is RemovePid);
        lemma_removal(course, meeting, j);
        course_is_consistent(course, j);
        assert(course.is_step(j));
        crate::shared::first_and_last_are_known(
            course.states[j],
            pid,
            course.doings[j].1,
            course.states[j + 1],
        );
        if j == last {
            assert forall|other: u32| !#[trigger] course.states[j + 1].is_user(other) by {
                lemma_listed(course, j + 1, other);
                if course.states[j + 1].is_user(other) {
                    lemma_marks(course, meeting, other);
                    let i = lemma_leaves(course, meeting, other, j + 1, end);
                    assert(course.action(i) is RemovePid);
                }
            }
        } else {
            let other = course.pid(last);
            lemma_step(course, last);
            lemma_marks(course, meeting, other);
            lemma_forward(course, meeting, j + 1, other);
            lemma_forward(course, j + 1, last, other);
            lemma_listed(course, j + 1, other);
            assert(course.states[j + 1].is_user(other));
        }
    }
}

/// The process that sets the chroot up is the one that is the first user.
proof fn lemma_first_user<E>(course: Course<E>, meeting: int, first: int, n: int, pid: u32)
    requires
        course.is_gathering(meeting),
        0 <= first < course.doings.len(),
        course.action(first) is AddPid,
        forall|k: int|
            0 <= k < course.doings.len() && #[trigger] course.action(k) is AddPid ==> first <= k,
        course.takes_part(pid),
        0 <= n < course.states.len(),
    ensures
        match course.session(n, pid) {
            Session::SettingUp => pid == course.pid(first),
            Session::SetUp(_) => pid == course.pid(first),
            Session::Using { ns_pid } => (ns_pid is None) == (pid == course.pid(first)),
            Session::Leaving { is_first_user, .. } => is_first_user == (pid == course.pid(first)),
            Session::CleaningUp { is_first_user, .. } => is_first_user == (pid == course.pid(
                first,
            )),
            _ => true,
        },
    decreases n,
{
    if n == 0 {
        lemma_marks(course, meeting, pid);
    } else {
        let k = n - 1;
        lemma_first_user(course, meeting, first, k, pid);
        lemma_step(course, k);
        if course.pid(k) != pid {
            assert(course.session(k + 1, pid) == course.session(k, pid));
        } else if course.session(k, pid) is Joining {
            assert(course.action(k) is AddPid);
            lemma_first_sets_up(course, meeting, first, k);
            if k != first {
                lemma_step(course, first);
                lemma_forward(course, first + 1, k, course.pid(first));
            }
        } else {
            lemma_nobody_withdraws(course, k, pid);
        }
    }
}

/// The steps that mark the course of several sessions.
pub struct Milestones {
    /// The step in which a PID is added for the first time.
    pub first_add: int,
    /// The step in which the chroot is set up.
    pub setup: int,
    /// The step in which a PID is removed for the last time.
    pub last_removal: int,
    /// The step in which the chroot is cleaned up.
    pub cleanup: int,
    /// The step in which the PID file is deleted.
    pub deletion: int,
}

/// Where several processes share a PID file, all of them are listed before any of
/// them leaves, the setup does not fail and all of them come to their end, there
/// is over all of them
/// - exactly one setup, by the first process to add its PID;
/// - exactly one cleanup, by the last process to remove its PID, which is told
///   that it is the first user if and only if it did the setup;
/// - exactly one deletion of the PID file, after that and by the same process.
///   Nobody opens the PID file after that, so it is not created anew.
pub proof fn one_setup_and_one_cleanup<E>(course: Course<E>, meeting: int, someone: u32) -> (r:
    Milestones)
    requires
        course.is_gathering(meeting),
        course.takes_part(someone),
    ensures
        0 <= r.first_add < r.setup < r.last_removal < r.cleanup < r.deletion
            < course.doings.len(),
        course.action(r.first_add) is AddPid,
        forall|j: int|
            0 <= j < course.doings.len() && #[trigger] course.action(j) is AddPid ==> r.first_add
                <= j,
        course.is_only(r.first_add, |j: int| course.session(j + 1, course.pid(j)) is SettingUp),
        course.is_only(r.setup, |j: int| course.action(j) is SetUp),
        course.pid(r.setup) == course.pid(r.first_add),
        course.action(r.last_removal) is RemovePid,
        forall|j: int|
            0 <= j < course.doings.len() && #[trigger] course.action(j) is RemovePid ==> j
                <= r.last_removal,
        course.is_only(r.last_removal, |j: int| course.session(j + 1, course.pid(j)) is CleaningUp),
        course.is_only(r.cleanup, |j: int| course.action(j) is CleanUp),
        course.pid(r.cleanup) == course.pid(r.last_removal),
        course.action(r.cleanup) == Action::CleanUp(course.pid(r.cleanup) == course.pid(r.setup)),
        course.is_only(r.deletion, |j: int| course.action(j) is DeletePidFile),
        course.pid(r.deletion) == course.pid(r.last_removal),
        forall|j: int|
            0 <= j < course.doings.len() && #[trigger] course.action(j) is OpenPidFile ==> j
                < r.deletion,
{
    let end = course.doings.len() as int;
    lemma_marks(course, meeting, someone);
    let joining = lemma_joins(course, meeting, someone, end);
    let first = lemma_first(course, joining);
    let leaving = lemma_leaves(course, meeting, someone, meeting, end);
    let last = lemma_last(course, leaving);
    let owner = course.pid(first);
    let leaver = course.pid(last);
    lemma_step(course, first);
    lemma_step(course, last);
    lemma_removal(course, meeting, last);
    lemma_marks(course, meeting, owner);
    lemma_marks(course, meeting, leaver);
    lemma_first_sets_up(course, meeting, first, first);
    lemma_last_cleans_up(course, meeting, last, last);

    let setup = lemma_crossing(course, owner, 3, first + 1, end);
    lemma_forward(course, first + 1, setup, owner);
    let cleanup = lemma_crossing(course, leaver, 7, last + 1, end);
    lemma_forward(course, last + 1, cleanup, leaver);
    lemma_nobody_withdraws(course, cleanup, leaver);
    lemma_first_user(course, meeting, first, cleanup, leaver);
    lemma_step(course, cleanup);
    let deletion = lemma_crossing(course, leaver, 8, cleanup + 1, end);
    lemma_forward(course, cleanup + 1, deletion, leaver);

    // The owner removes its PID too, after the setup.
    let owner_leaving = lemma_leaves(course, meeting, owner, meeting, end);
    assert(course.action(owner_leaving) is RemovePid);
    if owner_leaving <= setup {
        lemma_forward(course, owner_leaving, setup, owner);
    }

    assert forall|j: int|
        0 <= j < end && course.session(j + 1, course.pid(j)) is SettingUp implies j == first by {
        lemma_first_sets_up(course, meeting, first, j);
    }
    assert forall|j: int|
        0 <= j < end && course.session(j + 1, course.pid(j)) is CleaningUp implies j == last by {
        lemma_last_cleans_up(course, meeting, last, j);
    }
    assert forall|j: int| 0 <= j < end && course.action(j) is SetUp implies j == setup by {
        lemma_step(course, j);
        lemma_first_user(course, meeting, first, j, course.pid(j));
        if j < setup {
            lemma_later_step(course, j, setup);
        } else if setup < j {
            lemma_later_step(course, setup, j);
        }
    }
    assert forall|j: int| 0 <= j < end && course.action(j) is CleanUp implies j == cleanup by {
        lemma_only_leaver(course, meeting, last, j);
        if j < cleanup {
            lemma_later_step(course, j, cleanup);
        } else if cleanup < j {
            lemma_later_step(course, cleanup, j);
        }
    }
    assert forall|j: int| 0 <= j < end && course.action(j) is DeletePidFile implies j
        == deletion by {
        lemma_only_leaver(course, meeting, last, j);
        if j < deletion {
            lemma_later_step(course, j, deletion);
        } else if deletion < j {
            lemma_later_step(course, deletion, j);
        }
    }
    assert forall|j: int| 0 <= j < end && #[trigger] course.action(j) is OpenPidFile implies j
        < deletion by {
        lemma_step(course, j);
        lemma_marks(course, meeting, course.pid(j));
        if meeting <= j {
            lemma_forward(course, meeting, j, course.pid(j));
        }
    }
    Milestones { first_add: first, setup, last_removal: last, cleanup, deletion }
}

/// Only the last process to remove its PID cleans up, and deletes the PID file.
proof fn lemma_only_leaver<E>(course: Course<E>, meeting: int, last: int, j: int)
    requires
        course.is_gathering(meeting),
        0 <= last < course.doings.len(),
        course.action(last) is RemovePid,
        forall|k: int|
            0 <= k < course.doings.len() && #[trigger] course.action(k) is RemovePid ==> k <= last,
        0 <= j < course.doings.len(),
        course.action(j) is CleanUp || course.action(j) is DeletePidFile,
    ensures
        course.pid(j) == course.pid(last),
        course.action(j) is CleanUp ==> progress(course.session(j, course.pid(j))) == 6,
        course.action(j) is DeletePidFile ==> progress(course.session(j, course.pid(j))) == 7,
{
    let pid = course.pid(j);
    lemma_step(course, j);
    lemma_nobody_withdraws(course, j, pid);
    lemma_marks(course, meeting, pid);
    if j <= meeting {
        lemma_forward(course, j, meeting, pid);
    }
    let i = lemma_leaves(course, meeting, pid, meeting, j);
    lemma_step(course, i);
    lemma_forward(course, i + 1, j, pid);
    lemma_last_cleans_up(course, meeting, last, i);
}

/// In such a course every process uses the chroot exactly once. It does so in
/// its own namespace if it did the setup, and else in that of another process.
pub proof fn each_process_uses_once<E>(course: Course<E>, meeting: int, pid: u32) -> (i: int)
    requires
        course.is_gathering(meeting),
        course.takes_part(pid),
    ensures
        course.is_only(i, |j: int| course.pid(j) == pid && course.action(j) is Use),
        course.action(i)->Use_0 is None <==> exists|j: int|
            0 <= j < course.doings.len() && course.pid(j) == pid && #[trigger] course.action(
                j,
            ) is SetUp,
{
    let end = course.doings.len() as int;
    let milestones = one_setup_and_one_cleanup(course, meeting, pid);
    lemma_marks(course, meeting, pid);
    let i = lemma_crossing(course, pid, 5, 0, end);
    lemma_step(course, i);
    lemma_nobody_withdraws(course, i, pid);
    if i < meeting {
        lemma_forward(course, i + 1, meeting, pid);
    } else {
        lemma_forward(course, meeting, i, pid);
    }
    lemma_first_user(course, meeting, milestones.first_add, i, pid);
    assert forall|j: int|
        0 <= j < end && course.pid(j) == pid && course.action(j) is Use implies j == i by {
        if j < i {
            lemma_later_step(course, j, i);
        } else if i < j {
            lemma_later_step(course, i, j);
        }
    }
    let kind = |j: int| course.action(j) is SetUp;
    assert(kind(milestones.setup));
    assert forall|j: int|
        0 <= j < end && course.pid(j) == pid && #[trigger] course.action(j) is SetUp implies pid
        == course.pid(milestones.first_add) by {
        assert(kind(j));
    }
    i
}

} // verus!
