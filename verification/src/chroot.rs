//! The layout of a chroot, and how it is entered.

use vstd::prelude::*;
use vstd::slice::{slice_subrange, slice_to_vec};
use vstd::string::*;

use crate::command::{format_command, CommandLine, Invocation};
use crate::decimal::push_decimal;
use crate::path::join;

verus! {

/// The path of an entry of a directory.
pub open spec fn entry(directory: Seq<u8>, name: &str) -> Seq<u8> {
    crate::path::joined(directory, name.spec_bytes())
}

/// The directory of a chroot that the package repositories are mounted at.
pub open spec fn repos_directory(chroot: Seq<u8>) -> Seq<u8> {
    entry(entry(entry(chroot, "var"), "db"), "repos")
}

/// The directory of a chroot that the package repositories are mounted at.
pub(crate) fn repos_path(chroot: &[u8]) -> (r: Vec<u8>)
    ensures
        r@ == repos_directory(chroot@),
{
    let var = join(chroot, "var".as_bytes());
    let db = join(var.as_slice(), "db".as_bytes());
    join(db.as_slice(), "repos".as_bytes())
}

/// The arguments of the interactive shell that is run in a chroot by default.
pub open spec fn shell_args() -> Seq<Seq<u8>> {
    seq![
        r#"PS1="(chroot) \[\033[01;32m\]\u@\h\[\033[01;34m\] \w \$\[\033[00m\] ""#.spec_bytes(),
        "bash".spec_bytes(),
        "--norc".spec_bytes(),
        "-i".spec_bytes(),
    ]
}

/// The text of the command that is run in a chroot: the given one, or an
/// interactive shell where none is given.
pub open spec fn session_text(command: Option<Seq<Seq<u8>>>) -> Seq<char> {
    match command {
        Some(words) => if words.len() > 0 {
            crate::command::command_text(words[0], words.skip(1))
        } else {
            crate::command::command_text("/bin/env".spec_bytes(), shell_args())
        },
        None => crate::command::command_text("/bin/env".spec_bytes(), shell_args()),
    }
}

/// What follows `chroot` on a command line that runs a command in a chroot, as
/// a user or else as root.
pub open spec fn chroot_args(
    chroot_dir: Seq<u8>,
    session: Seq<char>,
    user: Option<Seq<u8>>,
) -> Seq<Seq<u8>> {
    seq![
        chroot_dir,
        "/bin/su".spec_bytes(),
        "--login".spec_bytes(),
        match user {
            Some(user) => user,
            None => "root".spec_bytes(),
        },
        "--session-command".spec_bytes(),
        vstd::utf8::encode_utf8(session),
    ]
}

/// What runs a command in a chroot, in the mount namespace of the given process
/// if there is one.
pub open spec fn chroot_invocation(
    chroot_dir: Seq<u8>,
    ns_pid: Option<u32>,
    session: Seq<char>,
    user: Option<Seq<u8>>,
) -> Invocation {
    match ns_pid {
        Some(pid) => Invocation {
            program: "nsenter".spec_bytes(),
            args: seq![
                "--target=".spec_bytes() + crate::decimal::decimal(pid as nat),
                "--mount".spec_bytes(),
                "--".spec_bytes(),
                "chroot".spec_bytes(),
            ] + chroot_args(chroot_dir, session, user),
        },
        None => Invocation {
            program: "chroot".spec_bytes(),
            args: chroot_args(chroot_dir, session, user),
        },
    }
}

/// The words of a command that may be given.
pub open spec fn given_words(command: Option<&[Vec<u8>]>) -> Option<Seq<Seq<u8>>> {
    match command {
        Some(words) => Some(crate::command::contents(words@)),
        None => None,
    }
}

/// The name of a user that may be given.
pub open spec fn given_user(user: Option<&[u8]>) -> Option<Seq<u8>> {
    match user {
        Some(user) => Some(user@),
        None => None,
    }
}

/// What runs a command, given by its words, in a chroot.
pub open spec fn chroot_entry(
    chroot_dir: Seq<u8>,
    ns_pid: Option<u32>,
    command: Option<Seq<Seq<u8>>>,
    user: Option<Seq<u8>>,
) -> Invocation {
    chroot_invocation(chroot_dir, ns_pid, session_text(command), user)
}

/// The text of the command that is run in a chroot.
pub fn session_command(command: Option<&[Vec<u8>]>) -> (r: String)
    ensures
        r@ == session_text(
            match command {
                Some(words) => Some(crate::command::contents(words@)),
                None => None,
            },
        ),
        r@ == session_text(given_words(command)),
{
    if let Some(words) = command {
        if words.len() > 0 {
            let rest = slice_subrange(words, 1, words.len());
            assert(crate::command::contents(rest@) =~= crate::command::contents(words@).skip(1));
            return format_command(words[0].as_slice(), rest);
        }
    }
    let args: Vec<Vec<u8>> = vec![
        r#"PS1="(chroot) \[\033[01;32m\]\u@\h\[\033[01;34m\] \w \$\[\033[00m\] ""#.as_bytes_vec(),
        "bash".as_bytes_vec(),
        "--norc".as_bytes_vec(),
        "-i".as_bytes_vec(),
    ];
    assert(crate::command::contents(args@) =~= shell_args());
    format_command("/bin/env".as_bytes(), args.as_slice())
}

/// The command line that runs a command, given by its text, in a chroot.
pub fn chroot_line(
    chroot_dir: &[u8],
    ns_pid: Option<u32>,
    session: &str,
    user: Option<&[u8]>,
) -> (r: CommandLine)
    ensures
        r@ == chroot_invocation(
            chroot_dir@,
            ns_pid,
            session@,
            match user {
                Some(user) => Some(user@),
                None => None,
            },
        ),
        r@ == chroot_invocation(chroot_dir@, ns_pid, session@, given_user(user)),
{
    let user: Vec<u8> = match user {
        Some(user) => slice_to_vec(user),
        None => "root".as_bytes_vec(),
    };
    let mut chroot_args: Vec<Vec<u8>> = vec![
        slice_to_vec(chroot_dir),
        "/bin/su".as_bytes_vec(),
        "--login".as_bytes_vec(),
        user,
        "--session-command".as_bytes_vec(),
        session.as_bytes_vec(),
    ];
    let ghost inner = crate::command::contents(chroot_args@);
    assert(inner =~= self::chroot_args(
        chroot_dir@,
        session@,
        Some(user@),
    ));
    match ns_pid {
        Some(pid) => {
            let mut target: Vec<u8> = "--target=".as_bytes_vec();
            push_decimal(&mut target, pid);
            let mut args: Vec<Vec<u8>> = vec![
                target,
                "--mount".as_bytes_vec(),
                "--".as_bytes_vec(),
                "chroot".as_bytes_vec(),
            ];
            args.append(&mut chroot_args);
            let r = CommandLine { program: "nsenter".as_bytes_vec(), args };
            assert(crate::command::contents(r.args@) =~= seq![
                target@,
                "--mount".spec_bytes(),
                "--".spec_bytes(),
                "chroot".spec_bytes(),
            ] + inner);
            r
        },
        None => CommandLine { program: "chroot".as_bytes_vec(), args: chroot_args },
    }
}

/// The command line that runs a command in a chroot: as the given user or else
/// as root, and in the mount namespace of the given process if there is one.
pub fn chroot(
    chroot_dir: &[u8],
    ns_pid: Option<u32>,
    command: Option<&[Vec<u8>]>,
    user: Option<&[u8]>,
) -> (r: CommandLine)
    ensures
        r@ == chroot_invocation(
            chroot_dir@,
            ns_pid,
            session_text(
                match command {
                    Some(words) => Some(crate::command::contents(words@)),
                    None => None,
                },
            ),
            match user {
                Some(user) => Some(user@),
                None => None,
            },
        ),
        r@ == chroot_entry(chroot_dir@, ns_pid, given_words(command), given_user(user)),
{
    let session = session_command(command);
    chroot_line(chroot_dir, ns_pid, session.as_str(), user)
}

/// Joining the namespace of another process runs just what is run without that,
/// only from inside that namespace.
pub proof fn joining_wraps_chroot(
    chroot_dir: Seq<u8>,
    pid: u32,
    session: Seq<char>,
    user: Option<Seq<u8>>,
)
    ensures
        ({
            let own = chroot_invocation(chroot_dir, None, session, user);
            let joined = chroot_invocation(chroot_dir, Some(pid), session, user);
            &&& joined.program == "nsenter".spec_bytes()
            &&& joined.args.skip(3) == seq![own.program] + own.args
        }),
{
    let own = chroot_invocation(chroot_dir, None, session, user);
    let joined = chroot_invocation(chroot_dir, Some(pid), session, user);
    assert(joined.args.skip(3) =~= seq![own.program] + own.args);
}

/// Joining a namespace targets the process with the given PID: what follows
/// `--target=` is its decimal notation, which is parsed as that PID and no other.
pub proof fn joining_targets_process(
    chroot_dir: Seq<u8>,
    pid: u32,
    session: Seq<char>,
    user: Option<Seq<u8>>,
)
    ensures
        ({
            let args = chroot_invocation(chroot_dir, Some(pid), session, user).args;
            &&& args[0].take(9) == "--target=".spec_bytes()
            &&& args[0].skip(9) == crate::decimal::decimal(pid as nat)
            &&& crate::decimal::parsed_u32(args[0].skip(9)) == Some(pid)
            &&& args[1] == "--mount".spec_bytes()
            &&& args[2] == "--".spec_bytes()
        }),
{
    let args = chroot_invocation(chroot_dir, Some(pid), session, user).args;
    crate::decimal::parse_reads_decimal(pid);
    reveal_strlit("--target=");
    is_ascii_spec_bytes("--target=");
    assert(args[0].take(9) =~= "--target=".spec_bytes());
    assert(args[0].skip(9) =~= crate::decimal::decimal(pid as nat));
}

/// The command lines that join the namespaces of different processes are
/// different.
pub proof fn joining_tells_processes_apart(
    chroot_dir: Seq<u8>,
    pid: u32,
    other: u32,
    session: Seq<char>,
    user: Option<Seq<u8>>,
)
    requires
        chroot_invocation(chroot_dir, Some(pid), session, user) == chroot_invocation(
            chroot_dir,
            Some(other),
            session,
            user,
        ),
    ensures
        pid == other,
{
    joining_targets_process(chroot_dir, pid, session, user);
    joining_targets_process(chroot_dir, other, session, user);
}

/// The command is run in the given directory, as the given user or else as root,
/// and is handed on as it is.
pub proof fn chroot_is_entered(
    chroot_dir: Seq<u8>,
    ns_pid: Option<u32>,
    session: Seq<char>,
    user: Option<Seq<u8>>,
)
    ensures
        ({
            let line = chroot_invocation(chroot_dir, ns_pid, session, user);
            let inner = if ns_pid is Some {
                line.args.skip(4)
            } else {
                line.args
            };
            &&& line.program == if ns_pid is Some {
                "nsenter".spec_bytes()
            } else {
                "chroot".spec_bytes()
            }
            &&& ns_pid is Some ==> line.args[3] == "chroot".spec_bytes()
            &&& inner.len() == 6
            &&& inner[0] == chroot_dir
            &&& inner[1] == "/bin/su".spec_bytes()
            &&& inner[2] == "--login".spec_bytes()
            &&& user matches Some(user) ==> inner[3] == user
            &&& user is None ==> inner[3] == "root".spec_bytes()
            &&& inner[4] == "--session-command".spec_bytes()
            &&& inner[5] == vstd::utf8::encode_utf8(session)
            &&& vstd::utf8::valid_utf8(inner[5])
            &&& vstd::utf8::decode_utf8(inner[5]) == session
        }),
{
    vstd::utf8::encode_utf8_valid_utf8(session);
    vstd::utf8::encode_utf8_decode_utf8(session);
}

/// Command lines that enter different chroots, run different commands or do so as
/// different users are different.
pub proof fn chroot_tells_requests_apart(
    chroot_dir: Seq<u8>,
    session: Seq<char>,
    user: Seq<u8>,
    other_dir: Seq<u8>,
    other_session: Seq<char>,
    other_user: Seq<u8>,
    ns_pid: Option<u32>,
)
    requires
        chroot_invocation(chroot_dir, ns_pid, session, Some(user)) == chroot_invocation(
            other_dir,
            ns_pid,
            other_session,
            Some(other_user),
        ),
    ensures
        chroot_dir == other_dir,
        session == other_session,
        user == other_user,
{
    chroot_is_entered(chroot_dir, ns_pid, session, Some(user));
    chroot_is_entered(other_dir, ns_pid, other_session, Some(other_user));
}

/// A command that is given is run with all its words, in their order and with one
/// space between each two of them, however many there are.
pub proof fn whole_command_is_run(first: Seq<char>, rest: Seq<Seq<char>>)
    ensures
        session_text(
            Some(seq![vstd::utf8::encode_utf8(first)] + crate::command::encoded(rest)),
        ) == crate::command::words_text(first, rest),
{
    let words = seq![vstd::utf8::encode_utf8(first)] + crate::command::encoded(rest);
    assert(words[0] == vstd::utf8::encode_utf8(first));
    assert(words.skip(1) =~= crate::command::encoded(rest));
    crate::command::words_are_displayed(first, rest);
}

/// A word alone is run as it is, and a word that is added to a command is run
/// behind all the others, with a space in front of it.
pub proof fn each_word_is_run(words: Seq<Seq<char>>, last: Seq<char>)
    ensures
        session_text(Some(seq![vstd::utf8::encode_utf8(last)])) == last,
        words.len() > 0 ==> session_text(
            Some(crate::command::encoded(words).push(vstd::utf8::encode_utf8(last))),
        ) == session_text(Some(crate::command::encoded(words))).push(' ') + last,
{
    let none = Seq::<Seq<char>>::empty();
    let alone = seq![vstd::utf8::encode_utf8(last)];
    assert(alone.skip(1) =~= Seq::<Seq<u8>>::empty());
    crate::command::each_argument_is_displayed(last, none, last);
    if words.len() > 0 {
        let all = crate::command::encoded(words);
        let more = all.push(vstd::utf8::encode_utf8(last));
        let rest = words.skip(1);
        crate::command::each_argument_is_displayed(words[0], rest, last);
        assert(all.skip(1) =~= crate::command::encoded(rest));
        assert(more.skip(1) =~= crate::command::encoded(rest).push(
            vstd::utf8::encode_utf8(last),
        ));
        assert(more[0] == vstd::utf8::encode_utf8(words[0]));
    }
}

/// A command whose words are not encoded in UTF-8 is run with all of them too, as
/// they are displayed.
pub proof fn whole_command_is_displayed(words: Seq<Seq<u8>>)
    requires
        words.len() > 0,
    ensures
        session_text(Some(words)) == crate::text::displayed(
            crate::command::spaced(words[0], words.skip(1)),
        ),
{
}

/// Where no command is given, and where one without words is given, an interactive
/// shell is run.
pub proof fn shell_is_run_by_default()
    ensures
        session_text(None)
            == r#"/bin/env PS1="(chroot) \[\033[01;32m\]\u@\h\[\033[01;34m\] \w \$\[\033[00m\] " bash --norc -i"#@,
        session_text(Some(Seq::empty())) == session_text(None),
{
    let env = "/bin/env"@;
    let prompt = r#"PS1="(chroot) \[\033[01;32m\]\u@\h\[\033[01;34m\] \w \$\[\033[00m\] ""#@;
    let words = seq![prompt, "bash"@, "--norc"@, "-i"@];
    crate::command::words_are_displayed(env, words);
    assert(crate::command::encoded(words) =~= shell_args());
    reveal_with_fuel(crate::command::words_text, 5);
    assert(words.drop_last() =~= seq![prompt, "bash"@, "--norc"@]);
    assert(words.drop_last().drop_last() =~= seq![prompt, "bash"@]);
    assert(words.drop_last().drop_last().drop_last() =~= seq![prompt]);
    assert(words.drop_last().drop_last().drop_last().drop_last() =~= Seq::<Seq<char>>::empty());
    assert(session_text(None) == env + seq![' '] + prompt + seq![' '] + "bash"@ + seq![' ']
        + "--norc"@ + seq![' '] + "-i"@);
    reveal_strlit("/bin/env");
    reveal_strlit(r#"PS1="(chroot) \[\033[01;32m\]\u@\h\[\033[01;34m\] \w \$\[\033[00m\] ""#);
    reveal_strlit("bash");
    reveal_strlit("--norc");
    reveal_strlit("-i");
    reveal_strlit(
        r#"/bin/env PS1="(chroot) \[\033[01;32m\]\u@\h\[\033[01;34m\] \w \$\[\033[00m\] " bash --norc -i"#,
    );
    assert(env + seq![' '] + prompt + seq![' '] + "bash"@ + seq![' '] + "--norc"@ + seq![' ']
        + "-i"@
        =~= r#"/bin/env PS1="(chroot) \[\033[01;32m\]\u@\h\[\033[01;34m\] \w \$\[\033[00m\] " bash --norc -i"#@);
}

/// The place that an absolute path has inside a chroot: the path of the chroot,
/// followed by that path. A separator at the end of the former, and the one in
/// front of the latter, count once.
pub open spec fn place_of(path: Seq<u8>, chroot: Seq<u8>) -> Seq<u8> {
    if chroot.len() == 0 {
        path.skip(1)
    } else if chroot.last() == '/' as u8 {
        chroot.drop_last() + path
    } else {
        chroot + path
    }
}

/// An entry of a chroot has the place of the path that leads to it from the root.
proof fn lemma_place(chroot: Seq<u8>, name: &str, path: &str)
    requires
        name.spec_bytes().len() > 0,
        name.spec_bytes()[0] != '/' as u8,
        path.spec_bytes() == seq!['/' as u8] + name.spec_bytes(),
    ensures
        entry(chroot, name) == place_of(path.spec_bytes(), chroot),
{
    assert(entry(chroot, name) =~= place_of(path.spec_bytes(), chroot));
}

/// Entries of a chroot lie inside it, at the place that they have under the root.
pub proof fn entries_lie_in_chroot(chroot: Seq<u8>)
    ensures
        entry(chroot, "proc") == place_of("/proc".spec_bytes(), chroot),
        entry(chroot, "dev") == place_of("/dev".spec_bytes(), chroot),
        entry(chroot, "sys") == place_of("/sys".spec_bytes(), chroot),
        entry(chroot, "tmp") == place_of("/tmp".spec_bytes(), chroot),
        entry(chroot, "run") == place_of("/run".spec_bytes(), chroot),
        repos_directory(chroot) == place_of("/var/db/repos".spec_bytes(), chroot),
        entry(entry(chroot, "etc"), "resolv.conf") == place_of(
            "/etc/resolv.conf".spec_bytes(),
            chroot,
        ),
{
    reveal_strlit("proc");
    is_ascii_spec_bytes("proc");
    reveal_strlit("/proc");
    is_ascii_spec_bytes("/proc");
    assert("/proc".spec_bytes() =~= seq!['/' as u8] + "proc".spec_bytes());
    lemma_place(chroot, "proc", "/proc");
    reveal_strlit("dev");
    is_ascii_spec_bytes("dev");
    reveal_strlit("/dev");
    is_ascii_spec_bytes("/dev");
    assert("/dev".spec_bytes() =~= seq!['/' as u8] + "dev".spec_bytes());
    lemma_place(chroot, "dev", "/dev");
    reveal_strlit("sys");
    is_ascii_spec_bytes("sys");
    reveal_strlit("/sys");
    is_ascii_spec_bytes("/sys");
    assert("/sys".spec_bytes() =~= seq!['/' as u8] + "sys".spec_bytes());
    lemma_place(chroot, "sys", "/sys");
    reveal_strlit("tmp");
    is_ascii_spec_bytes("tmp");
    reveal_strlit("/tmp");
    is_ascii_spec_bytes("/tmp");
    assert("/tmp".spec_bytes() =~= seq!['/' as u8] + "tmp".spec_bytes());
    lemma_place(chroot, "tmp", "/tmp");
    reveal_strlit("run");
    is_ascii_spec_bytes("run");
    reveal_strlit("/run");
    is_ascii_spec_bytes("/run");
    assert("/run".spec_bytes() =~= seq!['/' as u8] + "run".spec_bytes());
    lemma_place(chroot, "run", "/run");
    reveal_strlit("var");
    is_ascii_spec_bytes("var");
    reveal_strlit("db");
    is_ascii_spec_bytes("db");
    reveal_strlit("repos");
    is_ascii_spec_bytes("repos");
    reveal_strlit("/var/db/repos");
    is_ascii_spec_bytes("/var/db/repos");
    assert(repos_directory(chroot) =~= place_of("/var/db/repos".spec_bytes(), chroot));
    reveal_strlit("etc");
    is_ascii_spec_bytes("etc");
    reveal_strlit("resolv.conf");
    is_ascii_spec_bytes("resolv.conf");
    reveal_strlit("/etc/resolv.conf");
    is_ascii_spec_bytes("/etc/resolv.conf");
    assert(entry(entry(chroot, "etc"), "resolv.conf") =~= place_of(
        "/etc/resolv.conf".spec_bytes(),
        chroot,
    ));
}

/// What is given is taken as it is, and what is not given is not made up.
pub proof fn given_is_taken(words: &[Vec<u8>], user: &[u8])
    ensures
        given_words(Some(words)) == Some(crate::command::contents(words@)),
        given_words(None) is None,
        given_user(Some(user)) == Some(user@),
        given_user(None) is None,
{
}

/// A process enters the given directory, in the namespace of the given process if
/// there is one, and runs there all words of the given command as the given user.
pub proof fn request_is_entered(
    chroot_dir: Seq<u8>,
    pid: u32,
    first: Seq<char>,
    rest: Seq<Seq<char>>,
    user: Seq<u8>,
)
    ensures
        ({
            let command = Some(seq![vstd::utf8::encode_utf8(first)] + crate::command::encoded(rest));
            let own = chroot_entry(chroot_dir, None, command, Some(user));
            let joined = chroot_entry(chroot_dir, Some(pid), command, Some(user));
            &&& own.program == "chroot".spec_bytes()
            &&& own.args == seq![
                chroot_dir,
                "/bin/su".spec_bytes(),
                "--login".spec_bytes(),
                user,
                "--session-command".spec_bytes(),
                vstd::utf8::encode_utf8(crate::command::words_text(first, rest)),
            ]
            &&& joined.program == "nsenter".spec_bytes()
            &&& joined.args.len() == 10
            &&& crate::decimal::parsed_u32(joined.args[0].skip(9)) == Some(pid)
            &&& joined.args.skip(4) == own.args
        }),
{
    let command = Some(seq![vstd::utf8::encode_utf8(first)] + crate::command::encoded(rest));
    let own = chroot_entry(chroot_dir, None, command, Some(user));
    let joined = chroot_entry(chroot_dir, Some(pid), command, Some(user));
    whole_command_is_run(first, rest);
    joining_targets_process(chroot_dir, pid, session_text(command), Some(user));
    assert(joined.args.skip(4) =~= own.args);
}

/// Without a user the command is run as root, and without a command an interactive
/// shell is run.
pub proof fn root_and_shell_are_defaults(
    chroot_dir: Seq<u8>,
    ns_pid: Option<u32>,
    command: Option<Seq<Seq<u8>>>,
    user: Option<Seq<u8>>,
)
    ensures
        chroot_entry(chroot_dir, ns_pid, command, None) == chroot_entry(
            chroot_dir,
            ns_pid,
            command,
            Some("root".spec_bytes()),
        ),
        chroot_entry(chroot_dir, ns_pid, None, user).args.last() == vstd::utf8::encode_utf8(
            session_text(None),
        ),
        chroot_entry(chroot_dir, ns_pid, Some(Seq::empty()), user) == chroot_entry(
            chroot_dir,
            ns_pid,
            None,
            user,
        ),
{
    assert(chroot_entry(chroot_dir, ns_pid, command, None).args =~= chroot_entry(
        chroot_dir,
        ns_pid,
        command,
        Some("root".spec_bytes()),
    ).args);
}

} // verus!
