//! What the program is asked to do.

use vstd::prelude::*;

verus! {

/// The arguments of the program.
#[derive(Debug)]
pub struct Args {
    /// What to do.
    pub command: Command,
}

/// A command of the program.
#[derive(Debug)]
pub enum Command {
    /// Deploy a chroot.
    Deploy(Deploy),
}

/// The `deploy` command.
#[derive(Debug)]
pub struct Deploy {
    /// The path to the compressed archive representing the chroot to deploy.
    pub archive: Vec<u8>,
    /// The user to log in as.
    pub user: Option<Vec<u8>>,
    /// Whether or not to remove the unpacked chroot file system after the last
    /// user left.
    pub remove: bool,
    /// The optional command to execute after deployment.
    pub command: Option<Vec<Vec<u8>>>,
}

/// Why arguments were not accepted.
#[derive(Debug, Clone, Copy, PartialEq, Eq, Structural)]
pub enum ParseErrorKind {
    /// The version was asked for.
    DisplayVersion,
    /// Help was asked for.
    DisplayHelp,
    /// Something is missing, and help is given on it.
    DisplayHelpOnMissingArgumentOrSubcommand,
    /// Anything else.
    Other,
}

/// What to do about the arguments of the program.
#[derive(Debug)]
pub enum Run<E> {
    /// Deploy a chroot.
    Deploy(Deploy),
    /// Print the message, and report success.
    Print(E),
    /// Report the error.
    Fail(E),
}

/// What to do about arguments, or about the error that was found in them.
/// Messages that were asked for, and help on missing arguments, are no errors.
pub open spec fn run_of<E>(parsed: Result<Args, (ParseErrorKind, E)>) -> Run<E> {
    match parsed {
        Ok(args) => match args.command {
            Command::Deploy(deploy) => Run::Deploy(deploy),
        },
        Err((ParseErrorKind::Other, error)) => Run::Fail(error),
        Err((_, error)) => Run::Print(error),
    }
}

/// Decide what to do about the arguments of the program, or about the error that
/// was found in them.
pub fn run<E>(parsed: Result<Args, (ParseErrorKind, E)>) -> (r: Run<E>)
    ensures
        r == run_of(parsed),
{
    match parsed {
        Ok(args) => match args.command {
            Command::Deploy(deploy) => Run::Deploy(deploy),
        },
        Err((kind, error)) => match kind {
            ParseErrorKind::DisplayVersion
            | ParseErrorKind::DisplayHelp
            | ParseErrorKind::DisplayHelpOnMissingArgumentOrSubcommand => Run::Print(error),
            ParseErrorKind::Other => Run::Fail(error),
        },
    }
}

/// A request that was parsed is the very request that is carried out: nothing of
/// its archive, user, removal and command is lost or changed. Nothing is deployed
/// without one.
pub proof fn request_is_carried_out<E>(request: Deploy, parsed: Result<Args, (ParseErrorKind, E)>)
    ensures
        run_of::<E>(Ok(Args { command: Command::Deploy(request) })) == Run::<E>::Deploy(request),
        run_of(parsed) == Run::<E>::Deploy(request) <==> parsed == Ok::<
            Args,
            (ParseErrorKind, E),
        >(Args { command: Command::Deploy(request) }),
{
}

/// What was found in the arguments is printed as it is where the version or help
/// was asked for, or help is given on something that is missing. Everything else
/// is reported as it is.
pub proof fn message_is_passed_on<E>(error: E)
    ensures
        run_of(Err((ParseErrorKind::DisplayVersion, error))) == Run::Print(error),
        run_of(Err((ParseErrorKind::DisplayHelp, error))) == Run::Print(error),
        run_of(Err((ParseErrorKind::DisplayHelpOnMissingArgumentOrSubcommand, error)))
            == Run::Print(error),
        run_of(Err((ParseErrorKind::Other, error))) == Run::Fail(error),
{
}

} // verus!
