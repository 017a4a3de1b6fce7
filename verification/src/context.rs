//! What was being done when something failed.

use vstd::prelude::*;
use vstd::string::*;

use crate::text::display;

verus! {

/// A step that can fail.
#[derive(Debug, Clone, Copy, PartialEq, Eq, Structural)]
pub enum Context {
    /// The file stem of a path was extracted.
    FileStem,
    /// The PID file was opened.
    OpenPidFile,
    /// The PID file was locked.
    LockFile,
    /// The PID file was truncated.
    TruncatePidFile,
    /// PIDs were written to the PID file.
    WritePids,
    /// A directory was created.
    CreateDirectory,
    /// An archive was opened.
    OpenArchive,
    /// The content of an archive was unpacked.
    UnpackArchive,
    /// A mount namespace was created.
    CreateNamespace,
    /// The propagation of mount events was turned off.
    MakePrivate,
    /// It was checked whether a directory exists.
    CheckExistence,
    /// An archive was extracted into a chroot.
    ExtractArchive,
}

/// An error, and the step that it came up in.
#[derive(Debug)]
pub struct Failure<E> {
    /// The step.
    pub context: Context,
    /// The error.
    pub error: E,
}

/// A text in backticks, between two other texts.
pub open spec fn quoted(before: Seq<char>, path: Seq<char>, after: Seq<char>) -> Seq<char> {
    before + "`"@ + path + "`"@ + after
}

/// What is said of a step that failed. The path is the one that the step works
/// on, and the target the directory that an archive is extracted into.
pub open spec fn context_text(
    context: Context,
    path: Seq<char>,
    target: Seq<char>,
) -> Seq<char> {
    match context {
        Context::FileStem => quoted("failed to extract file stem of path "@, path, ""@),
        Context::OpenPidFile => quoted("failed to open "@, path, ""@),
        Context::LockFile => "failed to lock file"@,
        Context::TruncatePidFile => "failed to truncate PID file"@,
        Context::WritePids => "failed to write PIDs"@,
        Context::CreateDirectory => quoted("failed to create directory "@, path, ""@),
        Context::OpenArchive => "failed to open archive"@,
        Context::UnpackArchive => "failed to unpack archive"@,
        Context::CreateNamespace => "failed to create mount namespace"@,
        Context::MakePrivate => "failed to set mount propagation to private"@,
        Context::CheckExistence => quoted("failed to check existence of "@, path, ""@),
        Context::ExtractArchive => quoted(
            "failed to extract archive "@,
            path,
            quoted(" into chroot "@, target, ""@),
        ),
    }
}

/// What is said of a step that failed, from the bytes of its paths.
pub open spec fn described(context: Context, path: Seq<u8>, target: Seq<u8>) -> Seq<char> {
    context_text(context, crate::text::displayed(path), crate::text::displayed(target))
}

/// A text in backticks, between two other texts.
fn quote(before: &str, path: &str, after: &str) -> (r: String)
    ensures
        r@ == quoted(before@, path@, after@),
{
    let mut r: String = before.to_owned();
    r.append("`");
    r.append(path);
    r.append("`");
    r.append(after);
    r
}

/// What is said of a step that failed, from the texts of its paths.
pub fn context_message(context: Context, path: &str, target: &str) -> (r: String)
    ensures
        r@ == context_text(context, path@, target@),
{
    match context {
        Context::FileStem => quote("failed to extract file stem of path ", path, ""),
        Context::OpenPidFile => quote("failed to open ", path, ""),
        Context::LockFile => "failed to lock file".to_owned(),
        Context::TruncatePidFile => "failed to truncate PID file".to_owned(),
        Context::WritePids => "failed to write PIDs".to_owned(),
        Context::CreateDirectory => quote("failed to create directory ", path, ""),
        Context::OpenArchive => "failed to open archive".to_owned(),
        Context::UnpackArchive => "failed to unpack archive".to_owned(),
        Context::CreateNamespace => "failed to create mount namespace".to_owned(),
        Context::MakePrivate => "failed to set mount propagation to private".to_owned(),
        Context::CheckExistence => quote("failed to check existence of ", path, ""),
        Context::ExtractArchive => quote(
            "failed to extract archive ",
            path,
            quote(" into chroot ", target, "").as_str(),
        ),
    }
}

/// What is said of a step that failed, from its paths.
pub fn describe(context: Context, path: &[u8], target: &[u8]) -> (r: String)
    ensures
        r@ == context_text(
            context,
            crate::text::displayed(path@),
            crate::text::displayed(target@),
        ),
        r@ == described(context, path@, target@),
{
    context_message(context, display(path).as_str(), display(target).as_str())
}

/// What is said of a step that failed names the step, and quotes the path that it
/// works on, if any. What is said of the extraction of an archive quotes the
/// archive first, and the directory that it goes to second.
pub proof fn failed_step_is_told(path: Seq<char>, target: Seq<char>)
    ensures
        context_text(Context::FileStem, path, target) == "failed to extract file stem of path `"@
            + path + "`"@,
        context_text(Context::OpenPidFile, path, target) == "failed to open `"@ + path + "`"@,
        context_text(Context::LockFile, path, target) == "failed to lock file"@,
        context_text(Context::TruncatePidFile, path, target) == "failed to truncate PID file"@,
        context_text(Context::WritePids, path, target) == "failed to write PIDs"@,
        context_text(Context::CreateDirectory, path, target) == "failed to create directory `"@
            + path + "`"@,
        context_text(Context::OpenArchive, path, target) == "failed to open archive"@,
        context_text(Context::UnpackArchive, path, target) == "failed to unpack archive"@,
        context_text(Context::CreateNamespace, path, target)
            == "failed to create mount namespace"@,
        context_text(Context::MakePrivate, path, target)
            == "failed to set mount propagation to private"@,
        context_text(Context::CheckExistence, path, target) == "failed to check existence of `"@
            + path + "`"@,
        context_text(Context::ExtractArchive, path, target) == "failed to extract archive `"@
            + path + "` into chroot `"@ + target + "`"@,
{
    reveal_strlit("");
    reveal_strlit("`");
    reveal_strlit("failed to extract file stem of path ");
    reveal_strlit("failed to extract file stem of path `");
    assert(context_text(Context::FileStem, path, target)
        =~= "failed to extract file stem of path `"@ + path + "`"@);
    reveal_strlit("failed to open ");
    reveal_strlit("failed to open `");
    assert(context_text(Context::OpenPidFile, path, target) =~= "failed to open `"@ + path + "`"@);
    reveal_strlit("failed to create directory ");
    reveal_strlit("failed to create directory `");
    assert(context_text(Context::CreateDirectory, path, target)
        =~= "failed to create directory `"@ + path + "`"@);
    reveal_strlit("failed to check existence of ");
    reveal_strlit("failed to check existence of `");
    assert(context_text(Context::CheckExistence, path, target)
        =~= "failed to check existence of `"@ + path + "`"@);
    reveal_strlit("failed to extract archive ");
    reveal_strlit("failed to extract archive `");
    reveal_strlit(" into chroot ");
    reveal_strlit("` into chroot `");
    assert(context_text(Context::ExtractArchive, path, target) =~= "failed to extract archive `"@
        + path + "` into chroot `"@ + target + "`"@);
}

/// What is said of a step that failed displays its paths as they are.
pub proof fn paths_of_failed_step_are_told(path: Seq<u8>, target: Seq<u8>)
    ensures
        described(Context::FileStem, path, target) == "failed to extract file stem of path `"@
            + crate::text::displayed(path) + "`"@,
        described(Context::OpenPidFile, path, target) == "failed to open `"@
            + crate::text::displayed(path) + "`"@,
        described(Context::LockFile, path, target) == "failed to lock file"@,
        described(Context::TruncatePidFile, path, target) == "failed to truncate PID file"@,
        described(Context::WritePids, path, target) == "failed to write PIDs"@,
        described(Context::CreateDirectory, path, target) == "failed to create directory `"@
            + crate::text::displayed(path) + "`"@,
        described(Context::OpenArchive, path, target) == "failed to open archive"@,
        described(Context::UnpackArchive, path, target) == "failed to unpack archive"@,
        described(Context::CreateNamespace, path, target) == "failed to create mount namespace"@,
        described(Context::MakePrivate, path, target)
            == "failed to set mount propagation to private"@,
        described(Context::CheckExistence, path, target) == "failed to check existence of `"@
            + crate::text::displayed(path) + "`"@,
        described(Context::ExtractArchive, path, target) == "failed to extract archive `"@
            + crate::text::displayed(path) + "` into chroot `"@ + crate::text::displayed(target)
            + "`"@,
{
    failed_step_is_told(crate::text::displayed(path), crate::text::displayed(target));
}

} // verus!
