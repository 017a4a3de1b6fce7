//! The course of sessions, setups and cleanups.

use chroot_deploy::args::{run, Args, Command, Deploy, ParseErrorKind, Run};
use chroot_deploy::cleanup::{Cleanup, CleanupAction, CleanupEvent};
use chroot_deploy::context::Context;
use chroot_deploy::pids::{add_pid, remove_pid, AddPidResult};
use chroot_deploy::results::first_error;
use chroot_deploy::session::{Action, Event, Fault, Session};
use chroot_deploy::setup::{
    namespace_step, setup_message, unpack_step, NamespaceCall, NamespaceStep, Setup, SetupAction, SetupEvent,
    UnpackStep,
};

type Outcome = Result<(), String>;

fn fail(message: &str) -> Outcome {
    Err(message.to_string())
}

/// A file system with a PID file.
struct World {
    file: Option<Vec<u8>>,
    /// The error of each attempt to remove a PID, if any.
    removal: Option<String>,
}

impl World {
    fn new() -> World {
        World {
            file: None,
            removal: None,
        }
    }

    /// Let a process use the chroot, and list what it did.
    fn visit(
        &mut self,
        pid: u32,
        set_up: Outcome,
        body: Outcome,
        clean_up: Outcome,
    ) -> (Result<(), Fault<String>>, Vec<Action>) {
        let mut session = Session::new();
        let mut actions = Vec::new();
        loop {
            let action = session.action();
            if action != Action::Return {
                actions.push(action);
            }
            let event = match action {
                Action::OpenPidFile => {
                    if self.file.is_none() {
                        self.file = Some(Vec::new());
                    }
                    Event::PidFileOpened(Ok(()))
                }
                Action::AddPid => {
                    let (content, result) = add_pid(self.file.as_ref().unwrap(), pid).unwrap();
                    self.file = Some(content);
                    Event::PidAdded(Ok(result))
                }
                Action::SetUp => Event::SetUpDone(set_up.clone()),
                Action::Unlock => Event::Unlocked,
                Action::Use(_) => Event::UseDone(body.clone()),
                Action::RemovePid => match self.removal.clone() {
                    Some(error) => Event::PidRemoved(Err(error)),
                    None => {
                        let (content, unused) = remove_pid(self.file.as_ref().unwrap(), pid).unwrap();
                        self.file = Some(content);
                        Event::PidRemoved(Ok(unused))
                    }
                },
                Action::CleanUp(_) => Event::CleanUpDone(clean_up.clone()),
                Action::DeletePidFile => {
                    self.file = None;
                    Event::DeletionAttempted
                }
                Action::Return => match session {
                    Session::Done(result) => return (result, actions),
                    _ => unreachable!(),
                },
            };
            session = session.step(event);
        }
    }
}

/// Check that a setup failure is handled as expected.
#[test]
fn with_ref_setup_failure() {
    let mut world = World::new();
    let (result, actions) = world.visit(1, fail("setup fail"), Ok(()), Ok(()));
    let fault = result.unwrap_err();
    assert_eq!(fault.error, "setup fail");
    assert_eq!(fault.context, None);
    assert!(world.file.is_none());
    assert_eq!(
        actions,
        vec![
            Action::OpenPidFile,
            Action::AddPid,
            Action::SetUp,
            Action::Unlock,
            Action::RemovePid,
            Action::DeletePidFile,
            Action::Unlock,
        ]
    );
}

/// Check that a body failure is handled as expected.
#[test]
fn with_ref_body_failure() {
    let mut world = World::new();
    let (result, actions) = world.visit(1, Ok(()), fail("body fail"), Ok(()));
    assert_eq!(result.unwrap_err().error, "body fail");
    assert!(world.file.is_none());
    assert_eq!(
        actions,
        vec![
            Action::OpenPidFile,
            Action::AddPid,
            Action::SetUp,
            Action::Unlock,
            Action::Use(None),
            Action::RemovePid,
            Action::CleanUp(true),
            Action::DeletePidFile,
            Action::Unlock,
        ]
    );
}

/// Check that a body failure in conjunction with a cleanup failure is handled
/// as expected.
#[test]
fn with_ref_body_cleanup_failure() {
    let mut world = World::new();
    let (result, _) = world.visit(1, Ok(()), fail("body fail"), fail("cleanup fail"));
    assert_eq!(result.unwrap_err().error, "body fail");
    assert!(world.file.is_none());
}

/// Check that a cleanup failure is handled as expected.
#[test]
fn with_ref_cleanup_failure() {
    let mut world = World::new();
    let (result, _) = world.visit(1, Ok(()), Ok(()), fail("cleanup fail"));
    assert_eq!(result.unwrap_err().error, "cleanup fail");
    assert!(world.file.is_none());
}

#[test]
fn session_without_failure() {
    let mut world = World::new();
    let (result, actions) = world.visit(1, Ok(()), Ok(()), Ok(()));
    assert!(result.is_ok());
    assert!(world.file.is_none());
    assert_eq!(actions.len(), 9);
}

/// A later user joins the namespace of the first one, sets nothing up, and
/// leaves the rest to those who are still there.
#[test]
fn session_of_later_user() {
    let mut world = World::new();
    world.file = Some(b"7\n3".to_vec());
    let (result, actions) = world.visit(5, fail("unused"), Ok(()), fail("unused"));
    assert!(result.is_ok());
    assert_eq!(world.file, Some(b"3\n7".to_vec()));
    assert_eq!(
        actions,
        vec![
            Action::OpenPidFile,
            Action::AddPid,
            Action::Use(Some(3)),
            Action::RemovePid,
        ]
    );
}

/// A later user who is the last to leave cleans up.
#[test]
fn session_of_last_user() {
    let mut session: Session<String> = Session::Using { ns_pid: Some(3) };
    session = session.step(Event::UseDone(Ok(())));
    assert_eq!(session.action(), Action::RemovePid);
    session = session.step(Event::PidRemoved(Ok(true)));
    assert_eq!(session.action(), Action::CleanUp(false));
    session = session.step(Event::CleanUpDone(fail("cleanup fail")));
    assert_eq!(session.action(), Action::DeletePidFile);
    session = session.step(Event::DeletionAttempted);
    assert_eq!(session.action(), Action::Unlock);
    session = session.step(Event::Unlocked);
    assert!(matches!(session, Session::Done(Err(Fault { context: None, .. }))));
}

/// Without knowing who is left, nothing is cleaned up.
#[test]
fn session_with_removal_failure() {
    let mut world = World::new();
    world.removal = Some("removal fail".to_string());
    let (result, actions) = world.visit(1, Ok(()), fail("body fail"), Ok(()));
    let fault = result.unwrap_err();
    assert_eq!(fault.error, "body fail");
    assert_eq!(fault.context, Some("removal fail".to_string()));
    assert!(!actions.contains(&Action::CleanUp(true)));
    assert!(!actions.contains(&Action::DeletePidFile));
    assert!(world.file.is_some());

    let mut world = World::new();
    world.removal = Some("removal fail".to_string());
    let (result, _) = world.visit(1, Ok(()), Ok(()), Ok(()));
    assert!(result.is_ok());

    let mut world = World::new();
    world.removal = Some("removal fail".to_string());
    let (result, _) = world.visit(1, fail("setup fail"), Ok(()), Ok(()));
    let fault = result.unwrap_err();
    assert_eq!(fault.error, "setup fail");
    assert_eq!(fault.context, Some("removal fail".to_string()));
}

#[test]
fn session_that_does_not_start() {
    let session: Session<String> = Session::new();
    let session = session.step(Event::PidFileOpened(fail("open fail")));
    assert!(matches!(
        session,
        Session::Done(Err(Fault { ref error, context: None })) if error == "open fail"
    ));

    let session: Session<String> = Session::new();
    let session = session.step(Event::PidFileOpened(Ok(())));
    let session = session.step(Event::PidAdded(Err("lock fail".to_string())));
    assert!(matches!(
        session,
        Session::Done(Err(Fault { ref error, context: None })) if error == "lock fail"
    ));
}

/// A setup that failed while others joined leaves the PID file to them.
#[test]
fn failed_setup_with_other_users() {
    let session: Session<String> = Session::Withdrawing("setup fail".to_string());
    assert_eq!(session.action(), Action::RemovePid);
    let session = session.step(Event::PidRemoved(Ok(false)));
    assert!(matches!(
        session,
        Session::Done(Err(Fault { ref error, context: None })) if error == "setup fail"
    ));
}

#[test]
fn unrelated_event_changes_nothing() {
    let session: Session<String> = Session::new();
    let session = session.step(Event::Unlocked);
    assert!(matches!(session, Session::Opening));
    let session = session.step(Event::PidAdded(Ok(AddPidResult::OwnPid)));
    assert!(matches!(session, Session::Opening));
    let setup: Setup<String> = Setup::new();
    let setup = setup.step(SetupEvent::Extracted(Ok(())));
    assert!(matches!(setup, Setup::CreatingNamespace));
    let cleanup: Cleanup<String> = Cleanup::new(true, true);
    let cleanup = cleanup.step(CleanupEvent::DirectoryRemoved(Ok(())));
    assert!(matches!(cleanup, Cleanup::Unmounting { remove: true }));
}

fn set_up(
    namespace: Outcome,
    present: Result<bool, String>,
    extracted: Outcome,
    mounted: Vec<Outcome>,
) -> (Result<(), (String, Option<Context>)>, Vec<SetupAction>) {
    let mut setup = Setup::new();
    let mut actions = Vec::new();
    loop {
        let action = setup.action();
        if action != SetupAction::Return {
            actions.push(action);
        }
        let event = match action {
            SetupAction::CreateNamespace => SetupEvent::NamespaceCreated(namespace.clone()),
            SetupAction::CheckExistence => SetupEvent::ExistenceChecked(present.clone()),
            SetupAction::Extract => SetupEvent::Extracted(extracted.clone()),
            SetupAction::Mount => SetupEvent::Mounted(mounted.clone()),
            SetupAction::Return => match setup {
                Setup::Done(result) => {
                    return (result.map_err(|fault| (fault.error, fault.context)), actions)
                }
                _ => unreachable!(),
            },
        };
        setup = setup.step(event);
    }
}

#[test]
fn setup_of_new_chroot() {
    let (result, actions) = set_up(Ok(()), Ok(false), Ok(()), vec![Ok(()), Ok(())]);
    assert_eq!(result, Ok(()));
    assert_eq!(
        actions,
        vec![
            SetupAction::CreateNamespace,
            SetupAction::CheckExistence,
            SetupAction::Extract,
            SetupAction::Mount,
        ]
    );
}

#[test]
fn setup_of_unpacked_chroot() {
    let (result, actions) = set_up(Ok(()), Ok(true), fail("unused"), vec![]);
    assert_eq!(result, Ok(()));
    assert!(!actions.contains(&SetupAction::Extract));
    assert_eq!(actions.len(), 3);
}

#[test]
fn setup_failures() {
    let (result, actions) = set_up(fail("namespace"), Ok(true), Ok(()), vec![]);
    assert_eq!(result, Err(("namespace".to_string(), None)));
    assert_eq!(actions, vec![SetupAction::CreateNamespace]);

    let (result, actions) = set_up(Ok(()), Err("check".to_string()), Ok(()), vec![]);
    assert_eq!(result, Err(("check".to_string(), Some(Context::CheckExistence))));
    assert_eq!(actions.len(), 2);

    let (result, actions) = set_up(Ok(()), Ok(false), fail("extract"), vec![]);
    assert_eq!(result, Err(("extract".to_string(), Some(Context::ExtractArchive))));
    assert!(!actions.contains(&SetupAction::Mount));

    let mounted = vec![Ok(()), fail("first"), Ok(()), fail("second")];
    let (result, _) = set_up(Ok(()), Ok(true), Ok(()), mounted);
    assert_eq!(result, Err(("first".to_string(), None)));
}

#[test]
fn setup_failures_are_described() {
    assert_eq!(
        setup_message(Context::CheckExistence, b"/a.tar.xz", b"/tmp/a"),
        "failed to check existence of `/tmp/a`"
    );
    assert_eq!(
        setup_message(Context::ExtractArchive, b"/a.tar.xz", b"/tmp/a"),
        "failed to extract archive `/a.tar.xz` into chroot `/tmp/a`"
    );
}

fn clean_up(
    is_first_user: bool,
    remove: bool,
    unmounted: Vec<Outcome>,
    proc_unmounted: Outcome,
    removed: Outcome,
) -> (Outcome, Vec<CleanupAction>) {
    let mut cleanup = Cleanup::new(is_first_user, remove);
    let mut actions = Vec::new();
    loop {
        let action = cleanup.action();
        if action != CleanupAction::Return {
            actions.push(action);
        }
        let event = match action {
            CleanupAction::Unmount => CleanupEvent::Unmounted(unmounted.clone()),
            CleanupAction::UnmountProc => CleanupEvent::ProcUnmounted(proc_unmounted.clone()),
            CleanupAction::RemoveDirectory => CleanupEvent::DirectoryRemoved(removed.clone()),
            CleanupAction::Return => match cleanup {
                Cleanup::Done(result) => return (result, actions),
                _ => unreachable!(),
            },
        };
        cleanup = cleanup.step(event);
    }
}

#[test]
fn cleanup_of_first_user() {
    let (result, actions) = clean_up(true, true, vec![Ok(()), Ok(())], Ok(()), Ok(()));
    assert_eq!(result, Ok(()));
    assert_eq!(
        actions,
        vec![
            CleanupAction::Unmount,
            CleanupAction::UnmountProc,
            CleanupAction::RemoveDirectory,
        ]
    );
    let (result, actions) = clean_up(true, false, vec![Ok(())], Ok(()), fail("unused"));
    assert_eq!(result, Ok(()));
    assert_eq!(actions, vec![CleanupAction::Unmount, CleanupAction::UnmountProc]);
}

#[test]
fn cleanup_of_later_user() {
    let (result, actions) = clean_up(false, false, vec![], fail("unused"), fail("unused"));
    assert_eq!(result, Ok(()));
    assert!(actions.is_empty());
    let (result, actions) = clean_up(false, true, vec![], fail("unused"), fail("remove"));
    assert_eq!(result, fail("remove"));
    assert_eq!(actions, vec![CleanupAction::RemoveDirectory]);
}

/// Nothing is removed that may still have something mounted in it.
#[test]
fn cleanup_after_failed_unmount() {
    let unmounted = vec![Ok(()), fail("sys"), fail("tmp")];
    let (result, actions) = clean_up(true, true, unmounted, fail("proc"), Ok(()));
    assert_eq!(result, fail("sys"));
    assert_eq!(actions, vec![CleanupAction::Unmount, CleanupAction::UnmountProc]);

    let (result, actions) = clean_up(true, true, vec![Ok(())], fail("proc"), Ok(()));
    assert_eq!(result, fail("proc"));
    assert!(!actions.contains(&CleanupAction::RemoveDirectory));
}

#[test]
fn first_of_several_errors() {
    let none: Vec<Outcome> = vec![];
    assert_eq!(first_error(none), Ok(()));
    assert_eq!(first_error::<String>(vec![Ok(()), Ok(())]), Ok(()));
    assert_eq!(first_error(vec![Ok(()), fail("a"), fail("b")]), fail("a"));
    assert_eq!(first_error(vec![fail("a"), Ok(())]), fail("a"));
}

#[test]
fn namespace_takes_two_calls() {
    assert_eq!(
        namespace_step(NamespaceCall::Unshare, 0),
        NamespaceStep::Call(NamespaceCall::MakePrivate)
    );
    assert_eq!(namespace_step(NamespaceCall::MakePrivate, 0), NamespaceStep::Done);
    assert_eq!(
        namespace_step(NamespaceCall::Unshare, -1),
        NamespaceStep::Failed(Context::CreateNamespace)
    );
    assert_eq!(
        namespace_step(NamespaceCall::MakePrivate, -1),
        NamespaceStep::Failed(Context::MakePrivate)
    );
}

#[test]
fn unpacking_takes_three_steps() {
    let ok: Outcome = Ok(());
    let step = unpack_step(UnpackStep::CreateDirectory, ok.clone()).unwrap();
    assert_eq!(step, Some(UnpackStep::OpenArchive));
    let step = unpack_step(UnpackStep::OpenArchive, ok.clone()).unwrap();
    assert_eq!(step, Some(UnpackStep::Unpack));
    assert_eq!(unpack_step(UnpackStep::Unpack, ok).unwrap(), None);
    for (step, context) in [
        (UnpackStep::CreateDirectory, Context::CreateDirectory),
        (UnpackStep::OpenArchive, Context::OpenArchive),
        (UnpackStep::Unpack, Context::UnpackArchive),
    ] {
        let failure = unpack_step(step, fail("x")).unwrap_err();
        assert_eq!(failure.context, context);
        assert_eq!(failure.error, "x");
    }
}

/// Check that we do not error out on the --version option.
#[test]
fn version() {
    let parsed: Result<Args, _> = Err((ParseErrorKind::DisplayVersion, "0.1"));
    assert!(matches!(run(parsed), Run::Print("0.1")));
}

/// Check that we do not error out on the --help option.
#[test]
fn help() {
    let parsed: Result<Args, _> = Err((ParseErrorKind::DisplayHelp, "usage"));
    assert!(matches!(run(parsed), Run::Print("usage")));
}

/// Check that we do not error out when the user didn't provide any arguments.
#[test]
fn no_args() {
    let kind = ParseErrorKind::DisplayHelpOnMissingArgumentOrSubcommand;
    let parsed: Result<Args, _> = Err((kind, "usage"));
    assert!(matches!(run(parsed), Run::Print("usage")));
}

#[test]
fn wrong_args() {
    let parsed: Result<Args, _> = Err((ParseErrorKind::Other, "unknown option"));
    assert!(matches!(run(parsed), Run::Fail("unknown option")));
}

#[test]
fn deploy_args() {
    let deploy = Deploy {
        archive: b"a.tar.xz".to_vec(),
        user: None,
        remove: true,
        command: Some(vec![b"ls".to_vec()]),
    };
    let parsed: Result<Args, (ParseErrorKind, String)> = Ok(Args {
        command: Command::Deploy(deploy),
    });
    match run(parsed) {
        Run::Deploy(deploy) => {
            assert_eq!(deploy.archive, b"a.tar.xz");
            assert!(deploy.remove);
            assert_eq!(deploy.command, Some(vec![b"ls".to_vec()]));
        }
        _ => panic!("expected Deploy"),
    }
}

/// Let a process do what its session wants, on a PID file with a lock.
fn step(
    session: Session<String>,
    pid: u32,
    file: &mut Vec<u8>,
    lock: &mut Option<u32>,
) -> Session<String> {
    let event = match session.action() {
        Action::OpenPidFile => Event::PidFileOpened(Ok(())),
        Action::AddPid => {
            assert_eq!(*lock, None);
            let (content, result) = add_pid(file, pid).unwrap();
            *file = content;
            if result == AddPidResult::OwnPid {
                *lock = Some(pid);
            }
            Event::PidAdded(Ok(result))
        }
        Action::SetUp => Event::SetUpDone(Ok(())),
        Action::Unlock => {
            assert_eq!(*lock, Some(pid));
            *lock = None;
            Event::Unlocked
        }
        Action::Use(_) => Event::UseDone(Ok(())),
        Action::RemovePid => {
            assert_eq!(*lock, None);
            let (content, unused) = remove_pid(file, pid).unwrap();
            *file = content;
            if unused {
                *lock = Some(pid);
            }
            Event::PidRemoved(Ok(unused))
        }
        Action::CleanUp(_) => Event::CleanUpDone(Ok(())),
        Action::DeletePidFile => Event::DeletionAttempted,
        Action::Return => panic!("session is over"),
    };
    session.step(event)
}

/// Two processes that share a PID file, one step after the other.
#[test]
fn interleaved_sessions() {
    let mut file = Vec::new();
    let mut lock = None;
    let mut one = Session::new();
    let mut two = Session::new();
    for _ in 0..4 {
        one = step(one, 10, &mut file, &mut lock);
    }
    assert_eq!(one.action(), Action::Use(None));
    for _ in 0..2 {
        two = step(two, 20, &mut file, &mut lock);
    }
    assert_eq!(two.action(), Action::Use(Some(10)));
    assert_eq!(file, b"10\n20");
    for _ in 0..2 {
        one = step(one, 10, &mut file, &mut lock);
    }
    assert_eq!(one.action(), Action::Return);
    assert_eq!(lock, None);
    for _ in 0..2 {
        two = step(two, 20, &mut file, &mut lock);
    }
    assert_eq!(two.action(), Action::CleanUp(false));
    assert_eq!(lock, Some(20));
    assert_eq!(file, b"");
    for _ in 0..3 {
        two = step(two, 20, &mut file, &mut lock);
    }
    assert_eq!(two.action(), Action::Return);
    assert_eq!(lock, None);
}

/// However many processes are there together, and in whatever order they leave,
/// one of them sets up, all use the chroot, and one cleans up.
#[test]
fn one_setup_and_one_cleanup() {
    let pids = [30u32, 10, 20];
    for order in [[0, 1, 2], [0, 2, 1], [1, 0, 2], [1, 2, 0], [2, 0, 1], [2, 1, 0]] {
        let mut file = Vec::new();
        let mut lock = None;
        let mut actions: Vec<(u32, Action)> = Vec::new();
        let mut sessions = Vec::new();
        for pid in pids {
            let mut session = Session::new();
            while !matches!(session.action(), Action::Use(_)) {
                actions.push((pid, session.action()));
                session = step(session, pid, &mut file, &mut lock);
            }
            sessions.push(Some(session));
        }
        assert_eq!(file, b"10\n20\n30");
        for index in order {
            let index: usize = index;
            let pid = pids[index];
            let mut session = sessions[index].take().unwrap();
            while session.action() != Action::Return {
                actions.push((pid, session.action()));
                session = step(session, pid, &mut file, &mut lock);
            }
        }
        assert_eq!(file, b"");
        assert_eq!(lock, None);

        let of = |kind: fn(&Action) -> bool| -> Vec<(u32, Action)> {
            actions.iter().copied().filter(|(_, action)| kind(action)).collect()
        };
        let last = pids[order[2]];
        assert_eq!(of(|action| *action == Action::SetUp), vec![(30, Action::SetUp)]);
        assert_eq!(
            of(|action| matches!(action, Action::Use(_))).len(),
            pids.len()
        );
        assert_eq!(
            of(|action| matches!(action, Action::CleanUp(_))),
            vec![(last, Action::CleanUp(last == 30))]
        );
        assert_eq!(
            of(|action| *action == Action::DeletePidFile),
            vec![(last, Action::DeletePidFile)]
        );
    }
}
