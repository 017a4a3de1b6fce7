//! Command lines and messages.

use chroot_deploy::chroot::{chroot, chroot_line, session_command};
use chroot_deploy::cleanup::cleanup_plan;
use chroot_deploy::command::{
    check_command, command_environment, concat_command, evaluate, failure_message, format_command,
    not_run_message, run_command, CommandLine, ExitStatus,
};
use chroot_deploy::context::{context_message, describe, Context};
use chroot_deploy::setup::setup_plan;
use chroot_deploy::text::{display, trim_end, white_space};

fn words(words: &[&str]) -> Vec<Vec<u8>> {
    words.iter().map(|word| word.as_bytes().to_vec()).collect()
}

/// A command line as one text.
fn line(command: &CommandLine) -> String {
    format_command(&command.program, &command.args)
}

#[test]
fn commands_are_concatenated() {
    assert_eq!(concat_command(b"ls", &[]), b"ls");
    assert_eq!(concat_command(b"ls", &words(&["-l", "", "/"])), b"ls -l  /");
    let raw = vec![b"\xff".to_vec()];
    assert_eq!(concat_command(b"a", &raw), b"a \xff");
    assert_eq!(format_command(b"a", &raw), "a \u{fffd}");
    assert_eq!(format_command("ä".as_bytes(), &words(&["ö"])), "ä ö");
}

#[test]
fn invalid_text_is_replaced() {
    assert_eq!(display(b"plain"), "plain");
    assert_eq!(display("grün €".as_bytes()), "grün €");
    assert_eq!(display(b"a\xc3(b"), "a\u{fffd}(b");
}

#[test]
fn trailing_white_space_is_trimmed() {
    for text in ["", " ", "a", " a b \r\n\t", "a\u{3000}\u{2009}", "\u{200b}", "x\u{85}\u{a0} y"] {
        assert_eq!(trim_end(text), text.trim_end(), "{text:?}");
    }
}

#[test]
fn white_space_is_that_of_unicode() {
    for n in 0..=0x10ffffu32 {
        if let Some(c) = char::from_u32(n) {
            assert_eq!(white_space(c), c.is_whitespace(), "{c:?}");
        }
    }
}

fn status(success: bool, code: Option<i32>) -> ExitStatus {
    ExitStatus { success, code }
}

#[test]
fn success_is_no_error() {
    let args = words(&["x"]);
    assert_eq!(evaluate(status(true, Some(0)), b"ls", &args, Some(b"warning")), Ok(()));
}

#[test]
fn failures_are_reported() {
    let args = words(&["-l", "/x"]);
    assert_eq!(
        evaluate(status(false, Some(2)), b"ls", &args, None),
        Err("`ls -l /x` reported non-zero exit-status (2)".to_string())
    );
    assert_eq!(
        evaluate(status(false, Some(-7)), b"ls", &[], Some(b" no such file \n\n")),
        Err("`ls` reported non-zero exit-status (-7):  no such file".to_string())
    );
    assert_eq!(
        evaluate(status(false, None), b"ls", &[], Some(b" \n")),
        Err("`ls` reported non-zero exit-status (terminated by signal)".to_string())
    );
    assert_eq!(
        evaluate(status(false, None), b"ls", &[], Some(b"\xff!")),
        Err("`ls` reported non-zero exit-status (terminated by signal): \u{fffd}!".to_string())
    );
    assert_eq!(
        failure_message("cmd", Some(1), "bad\n"),
        "`cmd` reported non-zero exit-status (1): bad"
    );
}

#[test]
fn commands_that_were_run() {
    let args = words(&["/x"]);
    assert_eq!(run_command(Ok((status(true, Some(0)), vec![])), b"umount", &args), Ok(()));
    assert_eq!(
        run_command(Ok((status(false, Some(32)), b"busy\n".to_vec())), b"umount", &args),
        Err("`umount /x` reported non-zero exit-status (32): busy".to_string())
    );
    assert_eq!(
        run_command(Err("not found".to_string()), b"umount", &args),
        Err("failed to run `umount /x`: not found".to_string())
    );
    assert_eq!(check_command(Ok(status(true, Some(0))), b"umount", &args), Ok(()));
    assert_eq!(
        check_command(Ok(status(false, Some(1))), b"umount", &args),
        Err("`umount /x` reported non-zero exit-status (1)".to_string())
    );
    assert_eq!(
        check_command(Err("not found".to_string()), b"umount", &args),
        Err("failed to run `umount /x`: not found".to_string())
    );
    assert_eq!(not_run_message("a b", "c"), "failed to run `a b`: c");
}

#[test]
fn only_the_path_is_inherited() {
    let var = |name: &str, value: &str| (name.to_string(), value.to_string());
    let vars = vec![var("HOME", "/root"), var("PATH", "/bin"), var("PATHS", "x"), var("", "PATH")];
    assert_eq!(command_environment(&vars), vec![var("PATH", "/bin")]);
    assert_eq!(command_environment(&vec![]), vec![]);
}

const SHELL: &str = "/bin/env PS1=\"(chroot) \\[\\033[01;32m\\]\\u@\\h\\[\\033[01;34m\\] \\w \
                     \\$\\[\\033[00m\\] \" bash --norc -i";

#[test]
fn session_commands() {
    assert_eq!(session_command(None), SHELL);
    assert_eq!(session_command(Some(&[])), SHELL);
    assert_eq!(session_command(Some(&words(&["ls"]))), "ls");
    assert_eq!(session_command(Some(&words(&["ls", "-l", "/"]))), "ls -l /");
}

#[test]
fn chroot_of_first_user() {
    let command = words(&["emerge", "--info"]);
    let command = chroot(b"/tmp/x", None, Some(&command), None);
    assert_eq!(command.program, b"chroot");
    assert_eq!(
        command.args,
        words(&["/tmp/x", "/bin/su", "--login", "root", "--session-command", "emerge --info"])
    );
}

#[test]
fn chroot_of_later_user() {
    let command = chroot(b"/tmp/x", Some(1234), None, Some(b"user"));
    assert_eq!(command.program, b"nsenter");
    assert_eq!(
        command.args,
        words(&[
            "--target=1234",
            "--mount",
            "--",
            "chroot",
            "/tmp/x",
            "/bin/su",
            "--login",
            "user",
            "--session-command",
            SHELL,
        ])
    );
}

/// Joining a namespace runs the same thing from inside it.
#[test]
fn joining_runs_the_same() {
    let own = chroot_line(b"/tmp/x", None, "täst", Some(b"u"));
    let joined = chroot_line(b"/tmp/x", Some(0), "täst", Some(b"u"));
    assert_eq!(joined.args[0], b"--target=0");
    assert_eq!(joined.args[3], own.program);
    assert_eq!(joined.args[4..], own.args[..]);
    assert_eq!(own.args[5], "täst".as_bytes());
}

#[test]
fn mounts_of_setup() {
    let plan = setup_plan(b"/tmp/x");
    let mounts: Vec<String> = plan.mounts.iter().map(|step| line(&step.command)).collect();
    assert_eq!(
        mounts,
        vec![
            "mount -t proc proc /tmp/x/proc",
            "mount --rbind /dev /tmp/x/dev",
            "mount --rbind /sys /tmp/x/sys",
            "mount --bind /var/db/repos /tmp/x/var/db/repos",
            "mount --bind /tmp /tmp/x/tmp",
            "mount --bind /run /tmp/x/run",
        ]
    );
    let directories: Vec<Option<Vec<u8>>> =
        plan.mounts.into_iter().map(|step| step.directory).collect();
    assert_eq!(
        directories,
        vec![
            None,
            Some(b"/tmp/x/dev".to_vec()),
            Some(b"/tmp/x/sys".to_vec()),
            Some(b"/tmp/x/var/db/repos".to_vec()),
            Some(b"/tmp/x/tmp".to_vec()),
            Some(b"/tmp/x/run".to_vec()),
        ]
    );
    assert_eq!(plan.resolver, b"/etc/resolv.conf");
    assert_eq!(plan.resolver_copy, b"/tmp/x/etc/resolv.conf");
}

#[test]
fn unmounts_of_cleanup() {
    let plan = cleanup_plan(b"/tmp/x");
    let unmounts: Vec<String> = plan.unmounts.iter().map(line).collect();
    assert_eq!(
        unmounts,
        vec![
            "umount --recursive /tmp/x/dev",
            "umount --recursive /tmp/x/sys",
            "umount /tmp/x/var/db/repos",
            "umount /tmp/x/tmp",
            "umount /tmp/x/run",
        ]
    );
    assert_eq!(line(&plan.unmount_proc), "umount /tmp/x/proc");
}

/// Every mount is undone.
#[test]
fn mounts_are_unmounted() {
    let mounts = setup_plan(b"/c").mounts;
    let plan = cleanup_plan(b"/c");
    let mut mounted: Vec<Vec<u8>> =
        mounts.iter().map(|step| step.command.args.last().unwrap().clone()).collect();
    let mut unmounted: Vec<Vec<u8>> =
        plan.unmounts.iter().map(|command| command.args.last().unwrap().clone()).collect();
    unmounted.push(plan.unmount_proc.args.last().unwrap().clone());
    mounted.sort();
    unmounted.sort();
    assert_eq!(mounted, unmounted);
}

#[test]
fn contexts_are_described() {
    let text = |context: Context| describe(context, b"/a", b"/b");
    assert_eq!(text(Context::FileStem), "failed to extract file stem of path `/a`");
    assert_eq!(text(Context::OpenPidFile), "failed to open `/a`");
    assert_eq!(text(Context::LockFile), "failed to lock file");
    assert_eq!(text(Context::TruncatePidFile), "failed to truncate PID file");
    assert_eq!(text(Context::WritePids), "failed to write PIDs");
    assert_eq!(text(Context::CreateDirectory), "failed to create directory `/a`");
    assert_eq!(text(Context::OpenArchive), "failed to open archive");
    assert_eq!(text(Context::UnpackArchive), "failed to unpack archive");
    assert_eq!(text(Context::CreateNamespace), "failed to create mount namespace");
    assert_eq!(text(Context::MakePrivate), "failed to set mount propagation to private");
    assert_eq!(text(Context::CheckExistence), "failed to check existence of `/a`");
    assert_eq!(
        text(Context::ExtractArchive),
        "failed to extract archive `/a` into chroot `/b`"
    );
    assert_eq!(describe(Context::OpenPidFile, b"/\xff", b""), "failed to open `/\u{fffd}`");
    assert_eq!(context_message(Context::OpenPidFile, "p", ""), "failed to open `p`");
}
