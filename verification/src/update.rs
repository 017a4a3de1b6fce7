//! How a PID file that is locked is changed.
//!
//! An [`Update`] says what is to be done next. Its caller does it and reports
//! back what came of it.

use vstd::prelude::*;

use crate::context::Context;
use crate::pids::{add_pid, remove_pid, AddPidResult, NotUtf8};

verus! {

/// A change of a PID file.
#[derive(Debug, Clone, Copy, PartialEq, Eq, Structural)]
pub enum Change {
    /// Add a PID.
    Add(u32),
    /// Remove a PID.
    Remove(u32),
}

/// What came of a change.
#[derive(Debug, Clone, Copy, PartialEq, Eq, Structural)]
pub enum Changed {
    /// The PID was added.
    Added(AddPidResult),
    /// The PID was removed. Reported is whether nobody is listed any more.
    Removed(bool),
}

/// What an update wants to have done.
#[derive(Debug, Clone, Copy, PartialEq, Eq, Structural)]
pub enum UpdateAction {
    /// Go to the start of the file.
    Rewind,
    /// Read the file to its end.
    Read,
    /// Make the file empty.
    Truncate,
    /// Write the new content.
    Write,
    /// Return the result.
    Return,
}

/// What came of an action.
#[derive(Debug)]
pub enum UpdateEvent<E> {
    /// The start of the file was gone to.
    Rewound(Result<(), E>),
    /// The file was read.
    Read(Result<Vec<u8>, E>),
    /// The file was made empty.
    Truncated(Result<(), E>),
    /// The new content was written.
    Written(Result<(), E>),
}

/// Why an update failed.
#[derive(Debug)]
pub enum UpdateFault<E> {
    /// The file is not valid UTF-8. This is what it holds.
    NotUtf8(Vec<u8>),
    /// An action failed.
    Failed {
        /// The error.
        error: E,
        /// The step that it came up in, if that is to be told.
        context: Option<Context>,
    },
}

/// How far an update has come.
#[derive(Debug)]
pub enum Update<E> {
    /// The start of the file is to be gone to, to read it.
    Seeking(Change),
    /// The file is to be read.
    Reading(Change),
    /// The start of the file is to be gone to, to write this content.
    Returning(Vec<u8>, Changed),
    /// The file is to be made empty, to write this content.
    Truncating(Vec<u8>, Changed),
    /// This content is to be written.
    Writing(Vec<u8>, Changed),
    /// The update is over.
    Done(Result<Changed, UpdateFault<E>>),
}

/// The content of a PID file after a change.
pub open spec fn content_of(change: Change, data: Seq<u8>) -> Seq<u8> {
    match change {
        Change::Add(pid) => crate::pids::added(data, pid),
        Change::Remove(pid) => crate::pids::removed(data, pid),
    }
}

/// What comes of a change.
pub open spec fn change_of(change: Change, data: Seq<u8>) -> Changed {
    let pids = crate::pids::pid_list(data);
    match change {
        Change::Add(_) => Changed::Added(crate::pids::add_result(pids)),
        Change::Remove(pid) => Changed::Removed(
            crate::pids::without_pid(pids, pid).len() == 0,
        ),
    }
}

/// Whether the lock on the PID file is kept after a change: by the first user,
/// to set things up, and by the last, to clean up.
pub open spec fn keeps_lock_after(changed: Changed) -> bool {
    match changed {
        Changed::Added(result) => result is OwnPid,
        Changed::Removed(unused) => unused,
    }
}

impl<E> Update<E> {
    /// What is to be done next.
    pub open spec fn pending(self) -> UpdateAction {
        match self {
            Update::Seeking(_) => UpdateAction::Rewind,
            Update::Reading(_) => UpdateAction::Read,
            Update::Returning(_, _) => UpdateAction::Rewind,
            Update::Truncating(_, _) => UpdateAction::Truncate,
            Update::Writing(_, _) => UpdateAction::Write,
            Update::Done(_) => UpdateAction::Return,
        }
    }

    /// The update has failed.
    pub open spec fn failed(error: E, context: Option<Context>) -> Update<E> {
        Update::Done(Err(UpdateFault::Failed { error, context }))
    }

    /// Whether an update comes to the given one by an event. An event that does
    /// not report on the pending action changes nothing.
    pub open spec fn leads_to(self, event: UpdateEvent<E>, next: Update<E>) -> bool {
        match (self, event) {
            (Update::Seeking(change), UpdateEvent::Rewound(result)) => match result {
                Ok(()) => next == Update::<E>::Reading(change),
                Err(error) => next == Update::<E>::failed(error, None),
            },
            (Update::Reading(change), UpdateEvent::Read(result)) => match result {
                Ok(data) => if vstd::utf8::valid_utf8(data@) {
                    next matches Update::Returning(content, changed) && content@ == content_of(
                        change,
                        data@,
                    ) && changed == change_of(change, data@)
                } else {
                    next == Update::<E>::Done(Err(UpdateFault::NotUtf8(data)))
                },
                Err(error) => next == Update::<E>::failed(error, None),
            },
            (Update::Returning(content, changed), UpdateEvent::Rewound(result)) => match result {
                Ok(()) => next == Update::<E>::Truncating(content, changed),
                Err(error) => next == Update::<E>::failed(error, None),
            },
            (Update::Truncating(content, changed), UpdateEvent::Truncated(result)) => match result {
                Ok(()) => next == Update::<E>::Writing(content, changed),
                Err(error) => next == Update::<E>::failed(error, Some(Context::TruncatePidFile)),
            },
            (Update::Writing(_, changed), UpdateEvent::Written(result)) => match result {
                Ok(()) => next == Update::<E>::Done(Ok(changed)),
                Err(error) => next == Update::<E>::failed(error, Some(Context::WritePids)),
            },
            (update, _) => next == update,
        }
    }

    /// An update that has not begun.
    pub fn new(change: Change) -> (r: Update<E>)
        ensures
            r == Update::<E>::Seeking(change),
    {
        Update::Seeking(change)
    }

    /// What is to be done next.
    pub fn action(&self) -> (r: UpdateAction)
        ensures
            r == self.pending(),
    {
        match self {
            Update::Seeking(_) => UpdateAction::Rewind,
            Update::Reading(_) => UpdateAction::Read,
            Update::Returning(_, _) => UpdateAction::Rewind,
            Update::Truncating(_, _) => UpdateAction::Truncate,
            Update::Writing(_, _) => UpdateAction::Write,
            Update::Done(_) => UpdateAction::Return,
        }
    }

    /// Go on with what came of the pending action. An event that does not
    /// report on the pending action changes nothing.
    pub fn step(self, event: UpdateEvent<E>) -> (r: Update<E>)
        ensures
            self.leads_to(event, r),
    {
        match (self, event) {
            (Update::Seeking(change), UpdateEvent::Rewound(result)) => match result {
                Ok(()) => Update::Reading(change),
                Err(error) => Update::Done(Err(UpdateFault::Failed { error, context: None })),
            },
            (Update::Reading(change), UpdateEvent::Read(result)) => match result {
                Ok(data) => match apply(change, data.as_slice()) {
                    Ok((content, changed)) => Update::Returning(content, changed),
                    Err(_) => Update::Done(Err(UpdateFault::NotUtf8(data))),
                },
                Err(error) => Update::Done(Err(UpdateFault::Failed { error, context: None })),
            },
            (Update::Returning(content, changed), UpdateEvent::Rewound(result)) => match result {
                Ok(()) => Update::Truncating(content, changed),
                Err(error) => Update::Done(Err(UpdateFault::Failed { error, context: None })),
            },
            (Update::Truncating(content, changed), UpdateEvent::Truncated(result)) => match result {
                Ok(()) => Update::Writing(content, changed),
                Err(error) => Update::Done(
                    Err(UpdateFault::Failed { error, context: Some(Context::TruncatePidFile) }),
                ),
            },
            (Update::Writing(_, changed), UpdateEvent::Written(result)) => match result {
                Ok(()) => Update::Done(Ok(changed)),
                Err(error) => Update::Done(
                    Err(UpdateFault::Failed { error, context: Some(Context::WritePids) }),
                ),
            },
            (update, _) => update,
        }
    }
}

/// Apply a change to what a PID file holds. The result is the content to write
/// back, and what came of the change.
fn apply(change: Change, data: &[u8]) -> (r: Result<(Vec<u8>, Changed), NotUtf8>)
    ensures
        r is Ok <==> vstd::utf8::valid_utf8(data@),
        r matches Ok(done) ==> done.0@ == content_of(change, data@) && done.1 == change_of(
            change,
            data@,
        ),
{
    match change {
        Change::Add(pid) => match add_pid(data, pid) {
            Ok((content, result)) => Ok((content, Changed::Added(result))),
            Err(error) => Err(error),
        },
        Change::Remove(pid) => match remove_pid(data, pid) {
            Ok((content, unused)) => Ok((content, Changed::Removed(unused))),
            Err(error) => Err(error),
        },
    }
}

/// Decide whether the lock on the PID file is kept after a change.
pub fn keeps_lock(changed: Changed) -> (r: bool)
    ensures
        r == keeps_lock_after(changed),
{
    match changed {
        Changed::Added(AddPidResult::OwnPid) => true,
        Changed::Added(AddPidResult::ExistingPid(_)) => false,
        Changed::Removed(unused) => unused,
    }
}

/// What comes of each action of an update.
pub struct UpdateScript<E> {
    /// Whether the start of the file can be gone to, to read it.
    pub sought: Result<(), E>,
    /// What the file holds.
    pub data: Result<Vec<u8>, E>,
    /// Whether the start of the file can be gone to, to write it.
    pub returned: Result<(), E>,
    /// Whether the file can be made empty.
    pub truncated: Result<(), E>,
    /// Whether the new content can be written.
    pub written: Result<(), E>,
}

impl<E> UpdateScript<E> {
    /// The event that reports on the pending action of an update.
    pub open spec fn report(self, update: Update<E>) -> UpdateEvent<E> {
        match update {
            Update::Seeking(_) => UpdateEvent::Rewound(self.sought),
            Update::Reading(_) => UpdateEvent::Read(self.data),
            Update::Returning(_, _) => UpdateEvent::Rewound(self.returned),
            Update::Truncating(_, _) => UpdateEvent::Truncated(self.truncated),
            _ => UpdateEvent::Written(self.written),
        }
    }

    /// Whether the file can be read, and holds valid UTF-8.
    pub open spec fn readable(self) -> bool {
        self.sought is Ok && (self.data matches Ok(data) && vstd::utf8::valid_utf8(data@))
    }

    /// The actions of an update.
    pub open spec fn actions(self) -> Seq<UpdateAction> {
        if self.sought is Err {
            seq![UpdateAction::Rewind]
        } else if !self.readable() {
            seq![UpdateAction::Rewind, UpdateAction::Read]
        } else if self.returned is Err {
            seq![UpdateAction::Rewind, UpdateAction::Read, UpdateAction::Rewind]
        } else if self.truncated is Err {
            seq![
                UpdateAction::Rewind,
                UpdateAction::Read,
                UpdateAction::Rewind,
                UpdateAction::Truncate,
            ]
        } else {
            seq![
                UpdateAction::Rewind,
                UpdateAction::Read,
                UpdateAction::Rewind,
                UpdateAction::Truncate,
                UpdateAction::Write,
            ]
        }
    }

    /// The result of an update.
    pub open spec fn result(self, change: Change) -> Result<Changed, UpdateFault<E>> {
        match (self.sought, self.data, self.returned, self.truncated, self.written) {
            (Err(error), _, _, _, _) => Err(UpdateFault::Failed { error, context: None }),
            (_, Err(error), _, _, _) => Err(UpdateFault::Failed { error, context: None }),
            (_, Ok(data), returned, truncated, written) => if !vstd::utf8::valid_utf8(data@) {
                Err(UpdateFault::NotUtf8(data))
            } else {
                match (returned, truncated, written) {
                    (Err(error), _, _) => Err(UpdateFault::Failed { error, context: None }),
                    (_, Err(error), _) => Err(
                        UpdateFault::Failed { error, context: Some(Context::TruncatePidFile) },
                    ),
                    (_, _, Err(error)) => Err(
                        UpdateFault::Failed { error, context: Some(Context::WritePids) },
                    ),
                    _ => Ok(change_of(change, data@)),
                }
            },
        }
    }
}

/// Whether an update takes its course through the given states.
pub open spec fn takes_course<E>(
    states: Seq<Update<E>>,
    change: Change,
    script: UpdateScript<E>,
) -> bool {
    &&& states.len() > 0
    &&& states[0] == Update::<E>::Seeking(change)
    &&& forall|i: int|
        0 <= i < states.len() - 1 ==> (#[trigger] states[i]).leads_to(
            script.report(states[i]),
            states[i + 1],
        )
}

/// An update reads the file from its start, makes it empty and writes it from its
/// start. It ends with the first action that fails. A file that could not be read,
/// or is not valid UTF-8, is neither made empty nor written to. What is written is
/// the content with the change.
pub proof fn update_runs_its_course<E>(
    change: Change,
    script: UpdateScript<E>,
    states: Seq<Update<E>>,
)
    requires
        takes_course(states, change, script),
        states.len() == 6,
    ensures
        forall|i: int|
            0 <= i < 6 ==> (#[trigger] states[i]).pending() == if i < script.actions().len() {
                script.actions()[i]
            } else {
                UpdateAction::Return
            },
        forall|i: int|
            0 <= i < 6 ==> ((#[trigger] states[i]) matches Update::Writing(content, _)
                ==> script.readable() && content@ == content_of(change, script.data->Ok_0@)),
        states[5] == Update::<E>::Done(script.result(change)),
{
    assert(states[0].leads_to(script.report(states[0]), states[1]));
    assert(states[1].leads_to(script.report(states[1]), states[2]));
    assert(states[2].leads_to(script.report(states[2]), states[3]));
    assert(states[3].leads_to(script.report(states[3]), states[4]));
    assert(states[4].leads_to(script.report(states[4]), states[5]));
    assert forall|i: int| 0 <= i < 6 implies (#[trigger] states[i]).pending() == if i
        < script.actions().len() {
        script.actions()[i]
    } else {
        UpdateAction::Return
    } by {
        assert(i == 0 || i == 1 || i == 2 || i == 3 || i == 4 || i == 5);
    }
    assert forall|i: int| 0 <= i < 6 implies ((#[trigger] states[i]) matches Update::Writing(
        content,
        _,
    ) ==> script.readable() && content@ == content_of(change, script.data->Ok_0@)) by {
        assert(i == 0 || i == 1 || i == 2 || i == 3 || i == 4 || i == 5);
    }
}

/// Whether an update goes through the given states where nothing fails and the file
/// holds the given bytes.
pub open spec fn succeeds<E>(change: Change, data: Vec<u8>, states: Seq<Update<E>>) -> bool {
    &&& states.len() == 6
    &&& states[0] == Update::<E>::Seeking(change)
    &&& states[0].leads_to(UpdateEvent::Rewound(Ok(())), states[1])
    &&& states[1].leads_to(UpdateEvent::Read(Ok(data)), states[2])
    &&& states[2].leads_to(UpdateEvent::Rewound(Ok(())), states[3])
    &&& states[3].leads_to(UpdateEvent::Truncated(Ok(())), states[4])
    &&& states[4].leads_to(UpdateEvent::Written(Ok(())), states[5])
}

/// A process that removes its PID is told that nobody is left if and only if no PID
/// at all stands in what is written back, that is, if no PID but its own stood in
/// the file. Just then it keeps the lock.
pub proof fn leaver_is_told_who_is_left<E>(pid: u32, data: Vec<u8>, states: Seq<Update<E>>)
    requires
        vstd::utf8::valid_utf8(data@),
        succeeds(Change::Remove(pid), data, states),
    ensures
        ({
            let left = crate::pids::pid_entries(data@).to_multiset().remove(pid);
            &&& states[4] matches Update::Writing(content, _)
            &&& crate::pids::pid_entries(content@).to_multiset() == left
            &&& states[5] matches Update::Done(Ok(Changed::Removed(unused)))
            &&& unused <==> crate::pids::pid_entries(content@).len() == 0
            &&& unused <==> left.len() == 0
            &&& unused <==> keeps_lock_after(states[5]->Done_0->Ok_0)
        }),
{
    broadcast use vstd::seq_lib::group_to_multiset_ensures;

    crate::pids::remove_changes_one_entry(data@, pid);
    crate::pids::update_is_ordered(data@, pid);
    let content = states[4]->Writing_0;
    assert(content@ == crate::pids::removed(data@, pid));
}

/// A process that adds its PID owns the file if and only if no PID stood in it, and
/// else is told the least PID that did. Just the owner keeps the lock. What is
/// written back holds the PID, once where it is new, and all others as before.
pub proof fn joiner_is_told_who_is_there<E>(pid: u32, data: Vec<u8>, states: Seq<Update<E>>)
    requires
        vstd::utf8::valid_utf8(data@),
        succeeds(Change::Add(pid), data, states),
    ensures
        ({
            let before = crate::pids::pid_entries(data@);
            &&& states[4] matches Update::Writing(content, _)
            &&& crate::pids::pid_entries(content@).to_multiset() == if before.contains(pid) {
                before.to_multiset()
            } else {
                before.to_multiset().insert(pid)
            }
            &&& states[5] matches Update::Done(Ok(Changed::Added(result)))
            &&& result is OwnPid <==> before.len() == 0
            &&& result matches AddPidResult::ExistingPid(first) ==> before.contains(first)
                && forall|i: int| 0 <= i < before.len() ==> first <= #[trigger] before[i]
            &&& result is OwnPid <==> keeps_lock_after(states[5]->Done_0->Ok_0)
        }),
{
    crate::pids::add_changes_one_entry(data@, pid);
    crate::pids::owner_is_alone(data@);
    let content = states[4]->Writing_0;
    assert(content@ == crate::pids::added(data@, pid));
}

/// Where the file lists just the users of the chroot, it does so after a process
/// has come or gone. The process that comes owns the file if and only if nobody
/// used the chroot, and the one that goes is told that nobody is left if and only
/// if nobody else used it.
pub proof fn updates_count_users<E>(
    pid: u32,
    users: Set<u32>,
    data: Vec<u8>,
    coming: Seq<Update<E>>,
    going: Seq<Update<E>>,
)
    requires
        vstd::utf8::valid_utf8(data@),
        crate::pids::lists(data@, users),
        succeeds(Change::Add(pid), data, coming),
        succeeds(Change::Remove(pid), data, going),
    ensures
        coming[4] matches Update::Writing(content, _) && crate::pids::lists(
            content@,
            users.insert(pid),
        ),
        coming[5] matches Update::Done(Ok(Changed::Added(result))) && (result is OwnPid
            <==> users == Set::<u32>::empty()),
        going[4] matches Update::Writing(content, _) && crate::pids::lists(
            content@,
            users.remove(pid),
        ),
        going[5] matches Update::Done(Ok(Changed::Removed(unused))) && (unused <==> users.remove(
            pid,
        ) == Set::<u32>::empty()),
{
    crate::pids::add_joins(data@, users, pid);
    crate::pids::remove_leaves(data@, users, pid);
}

/// An update goes to the start of the file, reads it, goes to its start again, makes
/// it empty, writes to it and is over. Where one of these fails, the update is over
/// at once, and the error tells that step where the file was made empty or written
/// to.
pub proof fn update_keeps_to_its_order<E>(
    change: Change,
    data: Vec<u8>,
    states: Seq<Update<E>>,
    error: E,
    next: Update<E>,
)
    requires
        vstd::utf8::valid_utf8(data@),
        succeeds(change, data, states),
    ensures
        states[0].pending() == UpdateAction::Rewind,
        states[1].pending() == UpdateAction::Read,
        states[2].pending() == UpdateAction::Rewind,
        states[3].pending() == UpdateAction::Truncate,
        states[4].pending() == UpdateAction::Write,
        states[5].pending() == UpdateAction::Return,
        states[0].leads_to(UpdateEvent::Rewound(Err(error)), next) ==> next == Update::Done(
            Err(UpdateFault::Failed { error, context: None }),
        ),
        states[1].leads_to(UpdateEvent::Read(Err(error)), next) ==> next == Update::Done(
            Err(UpdateFault::Failed { error, context: None }),
        ),
        states[2].leads_to(UpdateEvent::Rewound(Err(error)), next) ==> next == Update::Done(
            Err(UpdateFault::Failed { error, context: None }),
        ),
        states[3].leads_to(UpdateEvent::Truncated(Err(error)), next) ==> next == Update::Done(
            Err(UpdateFault::Failed { error, context: Some(Context::TruncatePidFile) }),
        ),
        states[4].leads_to(UpdateEvent::Written(Err(error)), next) ==> next == Update::Done(
            Err(UpdateFault::Failed { error, context: Some(Context::WritePids) }),
        ),
{
}

/// A file that is not valid UTF-8 ends the update once it was read, and nothing is
/// done to it.
pub proof fn invalid_file_is_refused<E>(
    change: Change,
    data: Vec<u8>,
    reading: Update<E>,
    next: Update<E>,
)
    requires
        !vstd::utf8::valid_utf8(data@),
        Update::<E>::Seeking(change).leads_to(UpdateEvent::Rewound(Ok(())), reading),
        reading.leads_to(UpdateEvent::Read(Ok(data)), next),
    ensures
        next == Update::<E>::Done(Err(UpdateFault::NotUtf8(data))),
        next.pending() == UpdateAction::Return,
{
}

/// The lock is kept by who owns the file, and by who leaves it with nobody listed.
pub proof fn lock_is_kept_by_first_and_last(pid: u32)
    ensures
        keeps_lock_after(Changed::Added(AddPidResult::OwnPid)),
        !keeps_lock_after(Changed::Added(AddPidResult::ExistingPid(pid))),
        keeps_lock_after(Changed::Removed(true)),
        !keeps_lock_after(Changed::Removed(false)),
{
}

/// An event that does not report on what is to be done next changes nothing.
pub proof fn other_events_are_ignored<E>(
    update: Update<E>,
    event: UpdateEvent<E>,
    next: Update<E>,
)
    requires
        update.leads_to(event, next),
    ensures
        match (update.pending(), event) {
            (UpdateAction::Rewind, UpdateEvent::Rewound(_)) => true,
            (UpdateAction::Read, UpdateEvent::Read(_)) => true,
            (UpdateAction::Truncate, UpdateEvent::Truncated(_)) => true,
            (UpdateAction::Write, UpdateEvent::Written(_)) => true,
            _ => next == update,
        },
{
}

} // verus!
