//! The steps of mounting, copying and changing a PID file.

use chroot_deploy::context::Context;
use chroot_deploy::mount::{CopyAction, CopyEvent, Copying, MountAction, Mounting};
use chroot_deploy::pids::AddPidResult;
use chroot_deploy::results::first_error;
use chroot_deploy::setup::{setup_plan, MountStep, NamespaceCall, UnpackStep};
use chroot_deploy::update::{keeps_lock, Change, Changed, Update, UpdateAction, UpdateEvent, UpdateFault};

type Outcome = Result<(), &'static str>;

/// Carry out a mount step, and list what is done.
fn mount(step: &MountStep, created: Outcome, ran: Outcome) -> (Vec<MountAction>, Outcome) {
    let mut mounting: Mounting<&'static str> = Mounting::new(step);
    let mut doings = Vec::new();
    loop {
        let action = mounting.action();
        let result = match action {
            MountAction::CreateDirectory => created,
            MountAction::Run => ran,
            MountAction::Return => break,
        };
        doings.push(action);
        mounting = mounting.step(result);
    }
    match mounting {
        Mounting::Done(result) => (doings, result),
        _ => panic!("mount is not over"),
    }
}

/// Carry out a copy, and list what is done, and from where the copy is made.
fn copy(resolved: Result<Vec<u8>, &'static str>, copied: Outcome) -> (Vec<CopyAction>, Vec<u8>, Outcome) {
    let mut copying: Copying<&'static str> = Copying::new();
    let mut doings = Vec::new();
    let mut from = Vec::new();
    loop {
        let action = copying.action();
        let event = match action {
            CopyAction::Resolve => CopyEvent::Resolved(resolved.clone()),
            CopyAction::Copy => {
                if let Copying::Copying(source) = &copying {
                    from = source.clone();
                }
                CopyEvent::Copied(copied)
            }
            CopyAction::Return => break,
        };
        doings.push(action);
        copying = copying.step(event);
    }
    match copying {
        Copying::Done(result) => (doings, from, result),
        _ => panic!("copy is not over"),
    }
}

/// A PID file, and the number of the action on it that fails, if any.
struct Disk {
    data: Vec<u8>,
    failing: Option<usize>,
}

impl Disk {
    fn new(data: &[u8]) -> Disk {
        Disk {
            data: data.to_vec(),
            failing: None,
        }
    }

    /// Change the file, and list what is done.
    fn change(&mut self, change: Change) -> (Vec<UpdateAction>, Result<Changed, UpdateFault<&'static str>>) {
        let mut update: Update<&'static str> = Update::new(change);
        let mut doings = Vec::new();
        loop {
            let action = update.action();
            let fails = self.failing == Some(doings.len());
            let result: Outcome = if fails { Err("disk") } else { Ok(()) };
            let event = match action {
                UpdateAction::Rewind => UpdateEvent::Rewound(result),
                UpdateAction::Read => UpdateEvent::Read(result.map(|()| self.data.clone())),
                UpdateAction::Truncate => {
                    if !fails {
                        self.data.clear();
                    }
                    UpdateEvent::Truncated(result)
                }
                UpdateAction::Write => {
                    if let (false, Update::Writing(content, _)) = (fails, &update) {
                        self.data.extend_from_slice(content);
                    }
                    UpdateEvent::Written(result)
                }
                UpdateAction::Return => break,
            };
            doings.push(action);
            update = update.step(event);
        }
        match update {
            Update::Done(result) => (doings, result),
            _ => panic!("update is not over"),
        }
    }
}

#[test]
fn first_steps() {
    assert_eq!(NamespaceCall::first(), NamespaceCall::Unshare);
    assert_eq!(UnpackStep::first(), UnpackStep::CreateDirectory);
}

#[test]
fn mount_point_is_created_first() {
    let plan = setup_plan(b"/x");
    assert_eq!(plan.mounts.len(), 6);
    for step in &plan.mounts[1..] {
        let (doings, result) = mount(step, Ok(()), Ok(()));
        assert_eq!(doings, vec![MountAction::CreateDirectory, MountAction::Run]);
        assert_eq!(result, Ok(()));

        let (doings, result) = mount(step, Ok(()), Err("mount"));
        assert_eq!(doings, vec![MountAction::CreateDirectory, MountAction::Run]);
        assert_eq!(result, Err("mount"));
    }
}

#[test]
fn mount_is_not_run_without_its_mount_point() {
    let plan = setup_plan(b"/x");
    for step in &plan.mounts[1..] {
        let (doings, result) = mount(step, Err("mkdir"), Ok(()));
        assert_eq!(doings, vec![MountAction::CreateDirectory]);
        assert_eq!(result, Err("mkdir"));
    }
}

#[test]
fn mount_of_proc_creates_nothing() {
    let plan = setup_plan(b"/x");
    let (doings, result) = mount(&plan.mounts[0], Err("mkdir"), Ok(()));
    assert_eq!(doings, vec![MountAction::Run]);
    assert_eq!(result, Ok(()));

    let (doings, result) = mount(&plan.mounts[0], Ok(()), Err("mount"));
    assert_eq!(doings, vec![MountAction::Run]);
    assert_eq!(result, Err("mount"));
}

#[test]
fn mount_that_is_over_stays_so() {
    let mounting: Mounting<&'static str> = Mounting::Done(Err("mkdir"));
    assert!(matches!(mounting.step(Ok(())), Mounting::Done(Err("mkdir"))));
}

#[test]
fn first_failure_of_the_plan_counts() {
    let plan = setup_plan(b"/x");
    let mut results = Vec::new();
    for (i, step) in plan.mounts.iter().enumerate() {
        let created = if i == 3 { Err("repos") } else { Ok(()) };
        let ran = if i == 4 { Err("tmp") } else { Ok(()) };
        results.push(mount(step, created, ran).1);
    }
    results.push(copy(Err("resolver"), Ok(())).2);
    assert_eq!(results.len(), 7);
    assert_eq!(first_error(results), Err("repos"));
}

#[test]
fn resolver_is_copied_from_where_it_is() {
    let path = b"/run/resolv.conf".to_vec();
    let (doings, from, result) = copy(Ok(path.clone()), Ok(()));
    assert_eq!(doings, vec![CopyAction::Resolve, CopyAction::Copy]);
    assert_eq!(from, path);
    assert_eq!(result, Ok(()));

    let (doings, _, result) = copy(Ok(path), Err("copy"));
    assert_eq!(doings, vec![CopyAction::Resolve, CopyAction::Copy]);
    assert_eq!(result, Err("copy"));
}

#[test]
fn resolver_that_is_missing_is_not_copied() {
    let (doings, _, result) = copy(Err("missing"), Ok(()));
    assert_eq!(doings, vec![CopyAction::Resolve]);
    assert_eq!(result, Err("missing"));
}

#[test]
fn copy_ignores_other_events() {
    let copying: Copying<&'static str> = Copying::new();
    let copying = copying.step(CopyEvent::Copied(Err("copy")));
    assert!(matches!(copying, Copying::Resolving));
}

#[test]
fn update_rewrites_the_file() {
    let all = vec![
        UpdateAction::Rewind,
        UpdateAction::Read,
        UpdateAction::Rewind,
        UpdateAction::Truncate,
        UpdateAction::Write,
    ];
    let mut disk = Disk::new(b"");
    let (doings, result) = disk.change(Change::Add(12));
    assert_eq!(doings, all);
    assert!(matches!(result, Ok(Changed::Added(AddPidResult::OwnPid))));
    assert_eq!(disk.data, b"12");

    let (doings, result) = disk.change(Change::Add(7));
    assert_eq!(doings, all);
    assert!(matches!(result, Ok(Changed::Added(AddPidResult::ExistingPid(12)))));
    assert_eq!(disk.data, b"7\n12");

    let (doings, result) = disk.change(Change::Remove(12));
    assert_eq!(doings, all);
    assert!(matches!(result, Ok(Changed::Removed(false))));
    assert_eq!(disk.data, b"7");

    let (doings, result) = disk.change(Change::Remove(7));
    assert_eq!(doings, all);
    assert!(matches!(result, Ok(Changed::Removed(true))));
    assert_eq!(disk.data, b"");
}

#[test]
fn update_ends_with_a_failure() {
    let expected: [(usize, Option<Context>, &[u8]); 5] = [
        (0, None, b"5"),
        (1, None, b"5"),
        (2, None, b"5"),
        (3, Some(Context::TruncatePidFile), b"5"),
        (4, Some(Context::WritePids), b""),
    ];
    for (failing, wanted, left) in expected {
        let mut disk = Disk::new(b"5");
        disk.failing = Some(failing);
        let (doings, result) = disk.change(Change::Add(3));
        assert_eq!(doings.len(), failing + 1);
        match result {
            Err(UpdateFault::Failed { error, context }) => {
                assert_eq!(error, "disk");
                assert_eq!(context, wanted);
            }
            _ => panic!("update did not fail"),
        }
        assert_eq!(disk.data, left);
    }
}

#[test]
fn update_leaves_a_file_that_is_not_utf8() {
    let mut disk = Disk::new(b"5\n\xff");
    for change in [Change::Add(3), Change::Remove(5)] {
        let (doings, result) = disk.change(change);
        assert_eq!(doings, vec![UpdateAction::Rewind, UpdateAction::Read]);
        match result {
            Err(UpdateFault::NotUtf8(data)) => assert_eq!(data, b"5\n\xff"),
            _ => panic!("update did not fail"),
        }
        assert_eq!(disk.data, b"5\n\xff");
    }
}

#[test]
fn update_ignores_other_events() {
    let update: Update<&'static str> = Update::new(Change::Add(3));
    let update = update.step(UpdateEvent::Written(Ok(())));
    assert!(matches!(update, Update::Seeking(Change::Add(3))));
}

#[test]
fn lock_is_kept_by_the_first_and_the_last_user() {
    assert!(keeps_lock(Changed::Added(AddPidResult::OwnPid)));
    assert!(!keeps_lock(Changed::Added(AddPidResult::ExistingPid(12))));
    assert!(keeps_lock(Changed::Removed(true)));
    assert!(!keeps_lock(Changed::Removed(false)));
}
