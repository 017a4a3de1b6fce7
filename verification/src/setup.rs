//! How a chroot is set up.
//!
//! A [`Setup`] says what is to be done next. Its caller does it and reports back
//! what came of it.

use vstd::prelude::*;
use vstd::slice::slice_to_vec;
use vstd::string::*;

use crate::chroot::repos_path;
use crate::command::{CommandLine, Invocation};
use crate::context::{describe, Context, Failure};
use crate::path::join;
use crate::results::first_error;

verus! {

/// A command that mounts something.
#[derive(Debug)]
pub struct MountStep {
    /// The directory to create before that, if any.
    pub directory: Option<Vec<u8>>,
    /// The command.
    pub command: CommandLine,
}

/// What a chroot needs once its files are there. All of it may be done at the
/// same time.
#[derive(Debug)]
pub struct SetupPlan {
    /// The mounts.
    pub mounts: Vec<MountStep>,
    /// The file with the name servers, which is to be copied once all symbolic
    /// links in its path are resolved.
    pub resolver: Vec<u8>,
    /// What it is to be copied to.
    pub resolver_copy: Vec<u8>,
}

/// What a mount step does.
#[verifier::ext_equal]
pub struct Mount {
    /// The directory that is created first, if any.
    pub directory: Option<Seq<u8>>,
    /// The command that is run.
    pub command: Invocation,
}

impl View for MountStep {
    type V = Mount;

    open spec fn view(&self) -> Mount {
        Mount {
            directory: match self.directory {
                Some(directory) => Some(directory@),
                None => None,
            },
            command: self.command@,
        }
    }
}

/// Create a directory, and bind another one to it.
pub open spec fn bind_mount(option: &str, source: &str, target: Seq<u8>) -> Mount {
    Mount {
        directory: Some(target),
        command: Invocation {
            program: "mount".spec_bytes(),
            args: seq![option.spec_bytes(), source.spec_bytes(), target],
        },
    }
}

/// What is mounted into a chroot, and how.
pub open spec fn chroot_mounts(chroot: Seq<u8>) -> Seq<Mount> {
    seq![
        Mount {
            directory: None,
            command: Invocation {
                program: "mount".spec_bytes(),
                args: seq![
                    "-t".spec_bytes(),
                    "proc".spec_bytes(),
                    "proc".spec_bytes(),
                    crate::chroot::entry(chroot, "proc"),
                ],
            },
        },
        bind_mount("--rbind", "/dev", crate::chroot::entry(chroot, "dev")),
        bind_mount("--rbind", "/sys", crate::chroot::entry(chroot, "sys")),
        bind_mount("--bind", "/var/db/repos", crate::chroot::repos_directory(chroot)),
        bind_mount("--bind", "/tmp", crate::chroot::entry(chroot, "tmp")),
        bind_mount("--bind", "/run", crate::chroot::entry(chroot, "run")),
    ]
}

/// The file with the name servers.
pub open spec fn resolver_path() -> Seq<u8> {
    "/etc/resolv.conf".spec_bytes()
}

/// What the file with the name servers is copied to.
pub open spec fn resolver_copy_path(chroot: Seq<u8>) -> Seq<u8> {
    crate::chroot::entry(crate::chroot::entry(chroot, "etc"), "resolv.conf")
}

/// What each of a number of mount steps does.
pub open spec fn mount_views(steps: Seq<MountStep>) -> Seq<Mount> {
    steps.map_values(|step: MountStep| step@)
}

/// A command line that binds a directory to another one, which is created
/// first.
fn bind_step(option: &str, source: &str, target: Vec<u8>) -> (r: MountStep)
    ensures
        r@ == bind_mount(option, source, target@),
{
    let directory = slice_to_vec(target.as_slice());
    let args: Vec<Vec<u8>> = vec![option.as_bytes_vec(), source.as_bytes_vec(), target];
    let command = CommandLine { program: "mount".as_bytes_vec(), args };
    assert(crate::command::contents(command.args@) =~= seq![
        option.spec_bytes(),
        source.spec_bytes(),
        target@,
    ]);
    MountStep { directory: Some(directory), command }
}

/// What a chroot needs once its files are there.
pub fn setup_plan(chroot: &[u8]) -> (r: SetupPlan)
    ensures
        mount_views(r.mounts@) == chroot_mounts(chroot@),
        r.resolver@ == "/etc/resolv.conf".spec_bytes(),
        r.resolver_copy@ == crate::chroot::entry(crate::chroot::entry(chroot@, "etc"), "resolv.conf"),
        r.resolver@ == resolver_path(),
        r.resolver_copy@ == resolver_copy_path(chroot@),
{
    let args: Vec<Vec<u8>> = vec![
        "-t".as_bytes_vec(),
        "proc".as_bytes_vec(),
        "proc".as_bytes_vec(),
        join(chroot, "proc".as_bytes()),
    ];
    let command = CommandLine { program: "mount".as_bytes_vec(), args };
    assert(crate::command::contents(command.args@) =~= seq![
        "-t".spec_bytes(),
        "proc".spec_bytes(),
        "proc".spec_bytes(),
        crate::chroot::entry(chroot@, "proc"),
    ]);
    let mounts: Vec<MountStep> = vec![
        MountStep { directory: None, command },
        bind_step("--rbind", "/dev", join(chroot, "dev".as_bytes())),
        bind_step("--rbind", "/sys", join(chroot, "sys".as_bytes())),
        bind_step("--bind", "/var/db/repos", repos_path(chroot)),
        bind_step("--bind", "/tmp", join(chroot, "tmp".as_bytes())),
        bind_step("--bind", "/run", join(chroot, "run".as_bytes())),
    ];
    assert(mount_views(mounts@) =~= chroot_mounts(chroot@));
    let etc = join(chroot, "etc".as_bytes());
    SetupPlan {
        mounts,
        resolver: "/etc/resolv.conf".as_bytes_vec(),
        resolver_copy: join(etc.as_slice(), "resolv.conf".as_bytes()),
    }
}

/// A system call that creating a mount namespace takes.
#[derive(Debug, Clone, Copy, PartialEq, Eq, Structural)]
pub enum NamespaceCall {
    /// Move this process to a new mount namespace.
    Unshare,
    /// Keep all mounts of the namespace to itself.
    MakePrivate,
}

impl NamespaceCall {
    /// The first system call.
    pub fn first() -> (r: NamespaceCall)
        ensures
            r == NamespaceCall::Unshare,
    {
        NamespaceCall::Unshare
    }
}

/// What follows a system call.
#[derive(Debug, Clone, Copy, PartialEq, Eq, Structural)]
pub enum NamespaceStep {
    /// Another system call.
    Call(NamespaceCall),
    /// Nothing: the namespace is ready.
    Done,
    /// Nothing: the system call failed.
    Failed(Context),
}

/// What follows a system call that returned the given code. Any code but zero
/// tells of a failure.
pub open spec fn namespace_next(call: NamespaceCall, code: i32) -> NamespaceStep {
    match call {
        NamespaceCall::Unshare => if code == 0 {
            NamespaceStep::Call(NamespaceCall::MakePrivate)
        } else {
            NamespaceStep::Failed(Context::CreateNamespace)
        },
        NamespaceCall::MakePrivate => if code == 0 {
            NamespaceStep::Done
        } else {
            NamespaceStep::Failed(Context::MakePrivate)
        },
    }
}

/// Decide what follows a system call that returned the given code.
pub fn namespace_step(call: NamespaceCall, code: i32) -> (r: NamespaceStep)
    ensures
        r == namespace_next(call, code),
{
    match call {
        NamespaceCall::Unshare => if code != 0 {
            NamespaceStep::Failed(Context::CreateNamespace)
        } else {
            NamespaceStep::Call(NamespaceCall::MakePrivate)
        },
        NamespaceCall::MakePrivate => if code != 0 {
            NamespaceStep::Failed(Context::MakePrivate)
        } else {
            NamespaceStep::Done
        },
    }
}

/// The system calls that are made, from the given one on, and how that ends. Given
/// are the code that each call returns, and a limit on the number of calls.
pub open spec fn namespace_course(
    call: NamespaceCall,
    codes: spec_fn(NamespaceCall) -> i32,
    limit: nat,
) -> (Seq<NamespaceCall>, NamespaceStep)
    decreases limit,
{
    let next = namespace_next(call, codes(call));
    match next {
        NamespaceStep::Call(other) => if limit <= 1 {
            (seq![call], next)
        } else {
            let rest = namespace_course(other, codes, (limit - 1) as nat);
            (seq![call] + rest.0, rest.1)
        },
        _ => (seq![call], next),
    }
}

/// Creating a mount namespace takes two system calls. The namespace is ready if
/// and only if both succeed, and the second is made only where the first does.
pub proof fn namespace_runs_its_course(codes: spec_fn(NamespaceCall) -> i32, limit: nat)
    requires
        limit >= 2,
    ensures
        namespace_course(NamespaceCall::Unshare, codes, limit) == if codes(NamespaceCall::Unshare)
            != 0 {
            (seq![NamespaceCall::Unshare], NamespaceStep::Failed(Context::CreateNamespace))
        } else if codes(NamespaceCall::MakePrivate) != 0 {
            (
                seq![NamespaceCall::Unshare, NamespaceCall::MakePrivate],
                NamespaceStep::Failed(Context::MakePrivate),
            )
        } else {
            (seq![NamespaceCall::Unshare, NamespaceCall::MakePrivate], NamespaceStep::Done)
        },
{
    reveal_with_fuel(namespace_course, 3);
    let (calls, end) = namespace_course(NamespaceCall::Unshare, codes, limit);
    assert(calls =~= if codes(NamespaceCall::Unshare) != 0 {
        seq![NamespaceCall::Unshare]
    } else {
        seq![NamespaceCall::Unshare, NamespaceCall::MakePrivate]
    });
}

/// A step of unpacking an archive.
#[derive(Debug, Clone, Copy, PartialEq, Eq, Structural)]
pub enum UnpackStep {
    /// Create the directory to unpack to.
    CreateDirectory,
    /// Open the archive.
    OpenArchive,
    /// Decompress and unpack the archive.
    Unpack,
}

impl UnpackStep {
    /// The first step.
    pub fn first() -> (r: UnpackStep)
        ensures
            r == UnpackStep::CreateDirectory,
    {
        UnpackStep::CreateDirectory
    }
}

/// What a step of unpacking an archive leads to: the next step, if any, or a
/// failure.
pub open spec fn unpack_next<E>(step: UnpackStep, result: Result<(), E>) -> Result<
    Option<UnpackStep>,
    Failure<E>,
> {
    match (step, result) {
        (UnpackStep::CreateDirectory, Ok(())) => Ok(Some(UnpackStep::OpenArchive)),
        (UnpackStep::OpenArchive, Ok(())) => Ok(Some(UnpackStep::Unpack)),
        (UnpackStep::Unpack, Ok(())) => Ok(None),
        (UnpackStep::CreateDirectory, Err(error)) => Err(
            Failure { context: Context::CreateDirectory, error },
        ),
        (UnpackStep::OpenArchive, Err(error)) => Err(
            Failure { context: Context::OpenArchive, error },
        ),
        (UnpackStep::Unpack, Err(error)) => Err(
            Failure { context: Context::UnpackArchive, error },
        ),
    }
}

/// Decide what a step of unpacking an archive leads to.
pub fn unpack_step<E>(step: UnpackStep, result: Result<(), E>) -> (r: Result<
    Option<UnpackStep>,
    Failure<E>,
>)
    ensures
        r == unpack_next(step, result),
{
    match result {
        Ok(()) => Ok(
            match step {
                UnpackStep::CreateDirectory => Some(UnpackStep::OpenArchive),
                UnpackStep::OpenArchive => Some(UnpackStep::Unpack),
                UnpackStep::Unpack => None,
            },
        ),
        Err(error) => {
            let context = match step {
                UnpackStep::CreateDirectory => Context::CreateDirectory,
                UnpackStep::OpenArchive => Context::OpenArchive,
                UnpackStep::Unpack => Context::UnpackArchive,
            };
            Err(Failure { context, error })
        },
    }
}

/// The steps of unpacking an archive that are done, from the given one on, and
/// how that ends. Given are the result of each step, and a limit on the number of
/// steps.
pub open spec fn unpack_course<E>(
    step: UnpackStep,
    results: spec_fn(UnpackStep) -> Result<(), E>,
    limit: nat,
) -> (Seq<UnpackStep>, Result<Option<UnpackStep>, Failure<E>>)
    decreases limit,
{
    let next = unpack_next(step, results(step));
    match next {
        Ok(Some(other)) => if limit <= 1 {
            (seq![step], next)
        } else {
            let rest = unpack_course(other, results, (limit - 1) as nat);
            (seq![step] + rest.0, rest.1)
        },
        _ => (seq![step], next),
    }
}

/// Unpacking an archive takes three steps: the directory is created, the archive
/// is opened and its content is unpacked. It ends with the first of them that
/// fails, and that failure tells the step.
pub proof fn unpack_runs_its_course<E>(
    results: spec_fn(UnpackStep) -> Result<(), E>,
    limit: nat,
)
    requires
        limit >= 3,
    ensures
        unpack_course(UnpackStep::CreateDirectory, results, limit) == match (
            results(UnpackStep::CreateDirectory),
            results(UnpackStep::OpenArchive),
            results(UnpackStep::Unpack),
        ) {
            (Err(error), _, _) => (
                seq![UnpackStep::CreateDirectory],
                Err(Failure { context: Context::CreateDirectory, error }),
            ),
            (_, Err(error), _) => (
                seq![UnpackStep::CreateDirectory, UnpackStep::OpenArchive],
                Err(Failure { context: Context::OpenArchive, error }),
            ),
            (_, _, Err(error)) => (
                seq![UnpackStep::CreateDirectory, UnpackStep::OpenArchive, UnpackStep::Unpack],
                Err(Failure { context: Context::UnpackArchive, error }),
            ),
            _ => (
                seq![UnpackStep::CreateDirectory, UnpackStep::OpenArchive, UnpackStep::Unpack],
                Ok(None::<UnpackStep>),
            ),
        },
{
    reveal_with_fuel(unpack_course, 4);
    let (steps, end) = unpack_course(UnpackStep::CreateDirectory, results, limit);
    assert(steps =~= if results(UnpackStep::CreateDirectory) is Err {
        seq![UnpackStep::CreateDirectory]
    } else if results(UnpackStep::OpenArchive) is Err {
        seq![UnpackStep::CreateDirectory, UnpackStep::OpenArchive]
    } else {
        seq![UnpackStep::CreateDirectory, UnpackStep::OpenArchive, UnpackStep::Unpack]
    });
}

/// What the setup of a chroot wants to have done.
#[derive(Debug, Clone, Copy, PartialEq, Eq, Structural)]
pub enum SetupAction {
    /// Create a mount namespace.
    CreateNamespace,
    /// Check whether the chroot directory exists.
    CheckExistence,
    /// Extract the archive into the chroot directory.
    Extract,
    /// Do what the setup plan says, and report on all of it.
    Mount,
    /// Return the result.
    Return,
}

/// What came of an action.
#[derive(Debug)]
pub enum SetupEvent<E> {
    /// The mount namespace was created.
    NamespaceCreated(Result<(), E>),
    /// It was checked whether the chroot directory exists.
    ExistenceChecked(Result<bool, E>),
    /// The archive was extracted.
    Extracted(Result<(), E>),
    /// The mounts of the setup plan were made, in their order, and the file
    /// with the name servers was copied.
    Mounted(Vec<Result<(), E>>),
}

/// Why a setup failed.
#[derive(Debug)]
pub struct SetupFault<E> {
    /// The error.
    pub error: E,
    /// The step that it came up in, if the error does not tell.
    pub context: Option<Context>,
}

/// How far the setup of a chroot has come.
#[derive(Debug)]
pub enum Setup<E> {
    /// The mount namespace is to be created.
    CreatingNamespace,
    /// It is to be checked whether the chroot directory exists.
    Checking,
    /// The archive is to be extracted.
    Extracting,
    /// The setup plan is to be carried out.
    Mounting,
    /// The setup is over.
    Done(Result<(), SetupFault<E>>),
}

impl<E> Setup<E> {
    /// What is to be done next.
    pub open spec fn pending(self) -> SetupAction {
        match self {
            Setup::CreatingNamespace => SetupAction::CreateNamespace,
            Setup::Checking => SetupAction::CheckExistence,
            Setup::Extracting => SetupAction::Extract,
            Setup::Mounting => SetupAction::Mount,
            Setup::Done(_) => SetupAction::Return,
        }
    }

    /// The setup has failed.
    pub open spec fn failed(error: E, context: Option<Context>) -> Setup<E> {
        Setup::Done(Err(SetupFault { error, context }))
    }

    /// What a setup comes to by an event. An event that does not report on the
    /// pending action changes nothing.
    pub open spec fn after(self, event: SetupEvent<E>) -> Setup<E> {
        match (self, event) {
            (Setup::CreatingNamespace, SetupEvent::NamespaceCreated(result)) => match result {
                Ok(()) => Setup::Checking,
                Err(error) => Setup::failed(error, None),
            },
            (Setup::Checking, SetupEvent::ExistenceChecked(result)) => match result {
                Ok(true) => Setup::Mounting,
                Ok(false) => Setup::Extracting,
                Err(error) => Setup::failed(error, Some(Context::CheckExistence)),
            },
            (Setup::Extracting, SetupEvent::Extracted(result)) => match result {
                Ok(()) => Setup::Mounting,
                Err(error) => Setup::failed(error, Some(Context::ExtractArchive)),
            },
            (Setup::Mounting, SetupEvent::Mounted(results)) => match crate::results::first_error_of(
                results@,
            ) {
                None => Setup::Done(Ok(())),
                Some(error) => Setup::failed(error, None),
            },
            (setup, _) => setup,
        }
    }

    /// A setup that has not begun.
    pub fn new() -> (r: Setup<E>)
        ensures
            r == Setup::<E>::CreatingNamespace,
    {
        Setup::CreatingNamespace
    }

    /// What is to be done next.
    pub fn action(&self) -> (r: SetupAction)
        ensures
            r == self.pending(),
    {
        match self {
            Setup::CreatingNamespace => SetupAction::CreateNamespace,
            Setup::Checking => SetupAction::CheckExistence,
            Setup::Extracting => SetupAction::Extract,
            Setup::Mounting => SetupAction::Mount,
            Setup::Done(_) => SetupAction::Return,
        }
    }

    /// Go on with what came of the pending action. An event that does not
    /// report on the pending action changes nothing.
    pub fn step(self, event: SetupEvent<E>) -> (r: Setup<E>)
        ensures
            r == self.after(event),
    {
        match (self, event) {
            (Setup::CreatingNamespace, SetupEvent::NamespaceCreated(result)) => match result {
                Ok(()) => Setup::Checking,
                Err(error) => Setup::Done(Err(SetupFault { error, context: None })),
            },
            (Setup::Checking, SetupEvent::ExistenceChecked(result)) => match result {
                Ok(present) => if present {
                    Setup::Mounting
                } else {
                    Setup::Extracting
                },
                Err(error) => Setup::Done(
                    Err(SetupFault { error, context: Some(Context::CheckExistence) }),
                ),
            },
            (Setup::Extracting, SetupEvent::Extracted(result)) => match result {
                Ok(()) => Setup::Mounting,
                Err(error) => Setup::Done(
                    Err(SetupFault { error, context: Some(Context::ExtractArchive) }),
                ),
            },
            (Setup::Mounting, SetupEvent::Mounted(results)) => match first_error(results) {
                Ok(()) => Setup::Done(Ok(())),
                Err(error) => Setup::Done(Err(SetupFault { error, context: None })),
            },
            (setup, _) => setup,
        }
    }
}

/// What is said of a step of the setup that failed.
pub open spec fn setup_context_text(
    context: Context,
    archive: Seq<char>,
    chroot: Seq<char>,
) -> Seq<char> {
    if context is ExtractArchive {
        crate::context::context_text(context, archive, chroot)
    } else {
        crate::context::context_text(context, chroot, chroot)
    }
}

/// What is said of a step of the setup that failed, from the bytes of the paths.
pub open spec fn setup_text(context: Context, archive: Seq<u8>, chroot: Seq<u8>) -> Seq<char> {
    setup_context_text(
        context,
        crate::text::displayed(archive),
        crate::text::displayed(chroot),
    )
}

/// What is said of a step of the setup that failed, from the paths of the
/// archive and of the chroot.
pub fn setup_message(context: Context, archive: &[u8], chroot: &[u8]) -> (r: String)
    ensures
        r@ == setup_context_text(
            context,
            crate::text::displayed(archive@),
            crate::text::displayed(chroot@),
        ),
        r@ == setup_text(context, archive@, chroot@),
{
    match context {
        Context::ExtractArchive => describe(context, archive, chroot),
        _ => describe(context, chroot, chroot),
    }
}

/// What comes of each action in the course of a setup.
pub struct SetupScript<E> {
    /// What comes of creating the mount namespace.
    pub namespace: Result<(), E>,
    /// What comes of the check for the chroot directory.
    pub present: Result<bool, E>,
    /// What comes of extracting the archive.
    pub extracted: Result<(), E>,
    /// What comes of carrying out the setup plan.
    pub mounted: Vec<Result<(), E>>,
}

impl<E> SetupScript<E> {
    /// The report on an action.
    pub open spec fn report(self, action: SetupAction) -> SetupEvent<E> {
        match action {
            SetupAction::CreateNamespace => SetupEvent::NamespaceCreated(self.namespace),
            SetupAction::CheckExistence => SetupEvent::ExistenceChecked(self.present),
            SetupAction::Extract => SetupEvent::Extracted(self.extracted),
            SetupAction::Mount => SetupEvent::Mounted(self.mounted),
            SetupAction::Return => SetupEvent::Mounted(self.mounted),
        }
    }

    /// What is done in the course of a setup, in this order.
    pub open spec fn actions(self) -> Seq<SetupAction> {
        let checked = seq![SetupAction::CreateNamespace, SetupAction::CheckExistence];
        if self.namespace is Err {
            seq![SetupAction::CreateNamespace]
        } else {
            match self.present {
                Err(_) => checked,
                Ok(true) => checked.push(SetupAction::Mount),
                Ok(false) => if self.extracted is Err {
                    checked.push(SetupAction::Extract)
                } else {
                    checked.push(SetupAction::Extract).push(SetupAction::Mount)
                },
            }
        }
    }

    /// What a setup returns.
    pub open spec fn result(self) -> Result<(), SetupFault<E>> {
        match self.namespace {
            Err(error) => Err(SetupFault { error, context: None }),
            Ok(()) => match (self.present, self.extracted) {
                (Err(error), _) => Err(
                    SetupFault { error, context: Some(Context::CheckExistence) },
                ),
                (Ok(false), Err(error)) => Err(
                    SetupFault { error, context: Some(Context::ExtractArchive) },
                ),
                _ => match crate::results::first_error_of(self.mounted@) {
                    Some(error) => Err(SetupFault { error, context: None }),
                    None => Ok(()),
                },
            },
        }
    }
}

impl<E> Setup<E> {
    /// What a setup comes to by at most the given number of actions.
    pub open spec fn course(self, script: SetupScript<E>, limit: nat) -> Setup<E>
        decreases limit,
    {
        if limit == 0 || self is Done {
            self
        } else {
            self.after(script.report(self.pending())).course(script, (limit - 1) as nat)
        }
    }

    /// What is done in the course of a setup, up to the given number of actions.
    pub open spec fn doings(self, script: SetupScript<E>, limit: nat) -> Seq<SetupAction>
        decreases limit,
    {
        if limit == 0 || self is Done {
            Seq::empty()
        } else {
            seq![self.pending()] + self.after(script.report(self.pending())).doings(
                script,
                (limit - 1) as nat,
            )
        }
    }
}

/// Every setup comes to its end after four actions at most. The mount namespace
/// is created first, before anything is mounted; the archive is extracted only
/// where the chroot directory does not exist; and nothing is mounted once
/// something failed.
pub proof fn setup_runs_its_course<E>(script: SetupScript<E>, limit: nat)
    requires
        limit >= 4,
    ensures
        Setup::<E>::CreatingNamespace.course(script, limit) == Setup::Done(script.result()),
        Setup::<E>::CreatingNamespace.doings(script, limit) == script.actions(),
{
    reveal_with_fuel(Setup::course, 5);
    reveal_with_fuel(Setup::doings, 5);
    assert(Setup::<E>::CreatingNamespace.doings(script, limit) =~= script.actions());
}

/// A mount step creates its directory and runs its command, and the steps of a plan
/// do so each in its turn.
pub proof fn mount_steps_are_carried_out(steps: Seq<MountStep>, i: int)
    requires
        0 <= i < steps.len(),
    ensures
        mount_views(steps).len() == steps.len(),
        mount_views(steps)[i].command == steps[i].command@,
        mount_views(steps)[i].directory is Some <==> steps[i].directory is Some,
        steps[i].directory matches Some(directory) ==> mount_views(steps)[i].directory == Some(
            directory@,
        ),
{
}

/// Directories of the host are mounted at the same place inside the chroot, which
/// is created first: `/dev` and `/sys` with everything below them, and
/// `/var/db/repos`, `/tmp` and `/run` without that. A process file system is
/// mounted at the place of `/proc`, which is not created.
pub proof fn host_is_mounted_in_place(chroot: Seq<u8>)
    ensures
        ({
            let mounts = chroot_mounts(chroot);
            &&& mounts.len() == 6
            &&& forall|i: int|
                0 <= i < 6 ==> (#[trigger] mounts[i]).command.program == "mount".spec_bytes()
            &&& mounts[0].directory is None
            &&& mounts[0].command.args == seq![
                "-t".spec_bytes(),
                "proc".spec_bytes(),
                "proc".spec_bytes(),
                crate::chroot::place_of("/proc".spec_bytes(), chroot),
            ]
            &&& forall|i: int|
                1 <= i < 6 ==> {
                    &&& (#[trigger] mounts[i]).command.args.len() == 3
                    &&& mounts[i].command.args[2] == crate::chroot::place_of(
                        mounts[i].command.args[1],
                        chroot,
                    )
                    &&& mounts[i].directory == Some(mounts[i].command.args[2])
                }
            &&& mounts[1].command.args[0] == "--rbind".spec_bytes()
            &&& mounts[1].command.args[1] == "/dev".spec_bytes()
            &&& mounts[2].command.args[0] == "--rbind".spec_bytes()
            &&& mounts[2].command.args[1] == "/sys".spec_bytes()
            &&& mounts[3].command.args[0] == "--bind".spec_bytes()
            &&& mounts[3].command.args[1] == "/var/db/repos".spec_bytes()
            &&& mounts[4].command.args[0] == "--bind".spec_bytes()
            &&& mounts[4].command.args[1] == "/tmp".spec_bytes()
            &&& mounts[5].command.args[0] == "--bind".spec_bytes()
            &&& mounts[5].command.args[1] == "/run".spec_bytes()
        }),
{
    let mounts = chroot_mounts(chroot);
    crate::chroot::entries_lie_in_chroot(chroot);
    assert forall|i: int| 0 <= i < 6 implies (#[trigger] mounts[i]).command.program
        == "mount".spec_bytes() by {
        assert(i == 0 || i == 1 || i == 2 || i == 3 || i == 4 || i == 5);
    }
    assert forall|i: int| 1 <= i < 6 implies {
        &&& (#[trigger] mounts[i]).command.args.len() == 3
        &&& mounts[i].command.args[2] == crate::chroot::place_of(
            mounts[i].command.args[1],
            chroot,
        )
        &&& mounts[i].directory == Some(mounts[i].command.args[2])
    } by {
        assert(i == 1 || i == 2 || i == 3 || i == 4 || i == 5);
    }
}

/// A system call that returns anything but zero has failed, and the failure tells
/// the call. The mounts are made private once there is a namespace of their own,
/// and nothing else is left to do after that.
pub proof fn namespace_call_must_succeed(code: i32)
    ensures
        namespace_next(NamespaceCall::Unshare, 0) == NamespaceStep::Call(
            NamespaceCall::MakePrivate,
        ),
        namespace_next(NamespaceCall::MakePrivate, 0) == NamespaceStep::Done,
        code != 0 ==> namespace_next(NamespaceCall::Unshare, code) == NamespaceStep::Failed(
            Context::CreateNamespace,
        ),
        code != 0 ==> namespace_next(NamespaceCall::MakePrivate, code) == NamespaceStep::Failed(
            Context::MakePrivate,
        ),
{
}

/// A step of unpacking that failed is the last one, and the failure tells it along
/// with its error.
pub proof fn unpack_failure_is_told<E>(error: E)
    ensures
        unpack_next(UnpackStep::CreateDirectory, Err(error)) == Err::<Option<UnpackStep>, _>(
            Failure { context: Context::CreateDirectory, error },
        ),
        unpack_next(UnpackStep::OpenArchive, Err(error)) == Err::<Option<UnpackStep>, _>(
            Failure { context: Context::OpenArchive, error },
        ),
        unpack_next(UnpackStep::Unpack, Err(error)) == Err::<Option<UnpackStep>, _>(
            Failure { context: Context::UnpackArchive, error },
        ),
        unpack_next::<E>(UnpackStep::CreateDirectory, Ok(())) == Ok::<_, Failure<E>>(
            Some(UnpackStep::OpenArchive),
        ),
        unpack_next::<E>(UnpackStep::OpenArchive, Ok(())) == Ok::<_, Failure<E>>(
            Some(UnpackStep::Unpack),
        ),
        unpack_next::<E>(UnpackStep::Unpack, Ok(())) == Ok::<_, Failure<E>>(None::<UnpackStep>),
{
}

/// A setup creates the namespace and looks for the chroot directory. It extracts
/// the archive if and only if that is not there, and carries out the setup plan
/// after that. The first failure ends it, and is what it returns: with the check
/// or the extraction that it came up in, and else as it is.
pub proof fn setup_keeps_to_its_order<E>(error: E, results: Vec<Result<(), E>>, n: int)
    ensures
        ({
            let start = Setup::<E>::CreatingNamespace;
            let checking = start.after(SetupEvent::NamespaceCreated(Ok(())));
            let extracting = checking.after(SetupEvent::ExistenceChecked(Ok(false)));
            let mounting = checking.after(SetupEvent::ExistenceChecked(Ok(true)));
            let end = mounting.after(SetupEvent::Mounted(results));
            &&& start.pending() == SetupAction::CreateNamespace
            &&& checking.pending() == SetupAction::CheckExistence
            &&& extracting.pending() == SetupAction::Extract
            &&& extracting.after(SetupEvent::Extracted(Ok(()))) == mounting
            &&& mounting.pending() == SetupAction::Mount
            &&& end.pending() == SetupAction::Return
            &&& start.after(SetupEvent::NamespaceCreated(Err(error))) == Setup::Done(
                Err(SetupFault { error, context: None }),
            )
            &&& checking.after(SetupEvent::ExistenceChecked(Err(error))) == Setup::Done(
                Err(SetupFault { error, context: Some(Context::CheckExistence) }),
            )
            &&& extracting.after(SetupEvent::Extracted(Err(error))) == Setup::Done(
                Err(SetupFault { error, context: Some(Context::ExtractArchive) }),
            )
            &&& end == Setup::<E>::Done(Ok(())) <==> forall|i: int|
                0 <= i < results@.len() ==> #[trigger] results@[i] is Ok
            &&& 0 <= n < results@.len() && results@[n] is Err && (forall|i: int|
                0 <= i < n ==> #[trigger] results@[i] is Ok) ==> end == Setup::Done(
                Err(SetupFault { error: results@[n]->Err_0, context: None }),
            )
        }),
{
    crate::results::first_error_is_first(results@, n);
}

/// What is said of a setup that failed quotes the chroot, and the archive too where
/// that could not be extracted.
pub proof fn failed_setup_is_told(archive: Seq<char>, chroot: Seq<char>)
    ensures
        setup_context_text(Context::CheckExistence, archive, chroot)
            == "failed to check existence of `"@ + chroot + "`"@,
        setup_context_text(Context::ExtractArchive, archive, chroot)
            == "failed to extract archive `"@ + archive + "` into chroot `"@ + chroot + "`"@,
{
    crate::context::failed_step_is_told(archive, chroot);
    crate::context::failed_step_is_told(chroot, chroot);
}

/// The file with the name servers is copied to the same place inside the chroot.
pub proof fn resolver_is_copied_in_place(chroot: Seq<u8>)
    ensures
        resolver_path() == "/etc/resolv.conf".spec_bytes(),
        resolver_copy_path(chroot) == crate::chroot::place_of(resolver_path(), chroot),
{
    crate::chroot::entries_lie_in_chroot(chroot);
}

/// What is said of a setup that failed displays the paths as they are.
pub proof fn paths_of_setup_are_told(archive: Seq<u8>, chroot: Seq<u8>)
    ensures
        setup_text(Context::CheckExistence, archive, chroot)
            == "failed to check existence of `"@ + crate::text::displayed(chroot) + "`"@,
        setup_text(Context::ExtractArchive, archive, chroot) == "failed to extract archive `"@
            + crate::text::displayed(archive) + "` into chroot `"@ + crate::text::displayed(chroot)
            + "`"@,
{
    failed_setup_is_told(crate::text::displayed(archive), crate::text::displayed(chroot));
}

/// An event that does not report on what is to be done next changes nothing.
pub proof fn other_events_are_ignored<E>(setup: Setup<E>, event: SetupEvent<E>)
    ensures
        match (setup.pending(), event) {
            (SetupAction::CreateNamespace, SetupEvent::NamespaceCreated(_)) => true,
            (SetupAction::CheckExistence, SetupEvent::ExistenceChecked(_)) => true,
            (SetupAction::Extract, SetupEvent::Extracted(_)) => true,
            (SetupAction::Mount, SetupEvent::Mounted(_)) => true,
            _ => setup.after(event) == setup,
        },
{
}

} // verus!
