//! Command lines, and what came of running them.

use vstd::prelude::*;
use vstd::slice::slice_to_vec;
use vstd::string::*;

use crate::ascii::SPACE;
use crate::decimal::append_signed_decimal;
use crate::text::{display, trim_end};

verus! {

/// A program and the arguments that it is run with.
#[derive(Debug)]
pub struct CommandLine {
    /// The program, as a path or as a name to look up.
    pub program: Vec<u8>,
    /// The arguments, without the program itself.
    pub args: Vec<Vec<u8>>,
}

/// How a process ended.
#[derive(Debug, Clone, Copy, PartialEq, Eq, Structural)]
pub struct ExitStatus {
    /// Whether the process reported success.
    pub success: bool,
    /// The exit code; none where a signal terminated the process.
    pub code: Option<i32>,
}

/// The content of each of a number of byte strings.
pub open spec fn contents(args: Seq<Vec<u8>>) -> Seq<Seq<u8>> {
    args.map_values(|arg: Vec<u8>| arg@)
}

/// What a command line runs.
#[verifier::ext_equal]
pub struct Invocation {
    /// The program.
    pub program: Seq<u8>,
    /// The arguments.
    pub args: Seq<Seq<u8>>,
}

impl View for CommandLine {
    type V = Invocation;

    open spec fn view(&self) -> Invocation {
        Invocation { program: self.program@, args: contents(self.args@) }
    }
}

/// A command followed by its arguments, with a space in front of each of them.
pub open spec fn spaced(command: Seq<u8>, args: Seq<Seq<u8>>) -> Seq<u8>
    decreases args.len(),
{
    if args.len() == 0 {
        command
    } else {
        spaced(command, args.drop_last()) + seq![SPACE] + args.last()
    }
}

/// The text that is displayed for a command and its arguments.
pub open spec fn command_text(command: Seq<u8>, args: Seq<Seq<u8>>) -> Seq<char> {
    crate::text::displayed(spaced(command, args))
}

/// What a message says of an exit code.
pub open spec fn code_text(code: Option<i32>) -> Seq<char> {
    match code {
        Some(code) => " ("@ + crate::decimal::signed_decimal(code as int) + ")"@,
        None => " (terminated by signal)"@,
    }
}

/// What a message says of the error output of a process.
pub open spec fn stderr_text(stderr: Seq<char>) -> Seq<char> {
    let trimmed = crate::text::trimmed_end(stderr);
    if trimmed.len() > 0 {
        ": "@ + trimmed
    } else {
        Seq::empty()
    }
}

/// The message about a process that did not report success.
pub open spec fn failure_text(
    command: Seq<char>,
    code: Option<i32>,
    stderr: Seq<char>,
) -> Seq<char> {
    "`"@ + command + "` reported non-zero exit-status"@ + code_text(code) + stderr_text(stderr)
}

/// The message about a process that could not be run.
pub open spec fn not_run_text(command: Seq<char>, error: Seq<char>) -> Seq<char> {
    "failed to run `"@ + command + "`: "@ + error
}

/// What is told of a process by how it ended: nothing where it reported success.
pub open spec fn ending_text(
    status: ExitStatus,
    command: Seq<u8>,
    args: Seq<Seq<u8>>,
    stderr: Option<Seq<u8>>,
) -> Option<Seq<char>> {
    if status.success {
        None
    } else {
        Some(
            failure_text(
                command_text(command, args),
                status.code,
                match stderr {
                    Some(stderr) => crate::text::displayed(stderr),
                    None => Seq::empty(),
                },
            ),
        )
    }
}

/// What is told of a command from what came of running it: how it ended, with its
/// error output if that was captured, or why it could not be run.
pub open spec fn running_text(
    output: Result<(ExitStatus, Option<Seq<u8>>), Seq<char>>,
    command: Seq<u8>,
    args: Seq<Seq<u8>>,
) -> Option<Seq<char>> {
    match output {
        Ok((status, stderr)) => ending_text(status, command, args, stderr),
        Err(error) => Some(not_run_text(command_text(command, args), error)),
    }
}

/// The message that a result has, if it is an error.
pub open spec fn message_of(result: Result<(), String>) -> Option<Seq<char>> {
    match result {
        Ok(()) => None,
        Err(message) => Some(message@),
    }
}

/// Concatenate a command and its arguments into a single string.
pub fn concat_command(command: &[u8], args: &[Vec<u8>]) -> (r: Vec<u8>)
    ensures
        r@ == spaced(command@, contents(args@)),
{
    let mut r = slice_to_vec(command);
    let ghost all = contents(args@);
    let mut i: usize = 0;
    assert(all.take(0) =~= Seq::<Seq<u8>>::empty());
    while i < args.len()
        invariant
            i <= args@.len(),
            all == contents(args@),
            r@ == spaced(command@, all.take(i as int)),
        decreases args@.len() - i,
    {
        let ghost before = r@;
        r.push(SPACE);
        r.extend_from_slice(args[i].as_slice());
        i += 1;
        proof {
            assert(all.take(i as int).drop_last() =~= all.take(i - 1));
            assert(r@ =~= before + seq![SPACE] + all[i - 1]);
        }
    }
    assert(all.take(i as int) =~= all);
    r
}

/// Format a command with the given list of arguments as a string.
pub fn format_command(command: &[u8], args: &[Vec<u8>]) -> (r: String)
    ensures
        r@ == command_text(command@, contents(args@)),
{
    display(concat_command(command, args).as_slice())
}

/// The message about a process that did not report success.
pub fn failure_message(command: &str, code: Option<i32>, stderr: &str) -> (r: String)
    ensures
        r@ == failure_text(command@, code, stderr@),
{
    let mut r: String = "`".to_owned();
    r.append(command);
    r.append("` reported non-zero exit-status");
    match code {
        Some(code) => {
            r.append(" (");
            append_signed_decimal(&mut r, code);
            r.append(")");
            assert(r@ =~= "`"@ + command@ + "` reported non-zero exit-status"@ + code_text(
                Some(code),
            ));
        },
        None => {
            r.append(" (terminated by signal)");
        },
    }
    let stderr = trim_end(stderr);
    let ghost before = r@;
    if !stderr.is_empty() {
        r.append(": ");
        r.append(stderr);
        assert(r@ =~= before + (": "@ + stderr@));
    } else {
        assert(r@ =~= before + Seq::<char>::empty());
    }
    r
}

/// The message about a process that could not be run.
pub fn not_run_message(command: &str, error: &str) -> (r: String)
    ensures
        r@ == not_run_text(command@, error@),
{
    let mut r: String = "failed to run `".to_owned();
    r.append(command);
    r.append("`: ");
    r.append(error);
    r
}

/// Turn the exit status of a process into a result.
pub fn evaluate(
    status: ExitStatus,
    command: &[u8],
    args: &[Vec<u8>],
    stderr: Option<&[u8]>,
) -> (r: Result<(), String>)
    ensures
        r is Ok <==> status.success,
        r matches Err(message) ==> message@ == failure_text(
            command_text(command@, contents(args@)),
            status.code,
            match stderr {
                Some(stderr) => crate::text::displayed(stderr@),
                None => Seq::empty(),
            },
        ),
        message_of(r) == ending_text(
            status,
            command@,
            contents(args@),
            match stderr {
                Some(stderr) => Some(stderr@),
                None => None,
            },
        ),
{
    if !status.success {
        let stderr: String = match stderr {
            Some(stderr) => display(stderr),
            None => String::new(),
        };
        let command = format_command(command, args);
        Err(failure_message(command.as_str(), status.code, stderr.as_str()))
    } else {
        Ok(())
    }
}

/// The result of a command, from what came of running it with its output
/// captured: how it ended and its error output, or why it could not be run.
pub fn run_command(
    output: Result<(ExitStatus, Vec<u8>), String>,
    command: &[u8],
    args: &[Vec<u8>],
) -> (r: Result<(), String>)
    ensures
        r is Ok <==> (output matches Ok(output) && output.0.success),
        r matches Err(message) ==> message@ == match output {
            Ok((status, stderr)) => failure_text(
                command_text(command@, contents(args@)),
                status.code,
                crate::text::displayed(stderr@),
            ),
            Err(error) => not_run_text(command_text(command@, contents(args@)), error@),
        },
        message_of(r) == running_text(
            match output {
                Ok((status, stderr)) => Ok((status, Some(stderr@))),
                Err(error) => Err(error@),
            },
            command@,
            contents(args@),
        ),
{
    match output {
        Ok((status, stderr)) => evaluate(status, command, args, Some(stderr.as_slice())),
        Err(error) => Err(
            not_run_message(format_command(command, args).as_str(), error.as_str()),
        ),
    }
}

/// The result of a command, from what came of running it: how it ended, or why
/// it could not be run.
pub fn check_command(
    status: Result<ExitStatus, String>,
    command: &[u8],
    args: &[Vec<u8>],
) -> (r: Result<(), String>)
    ensures
        r is Ok <==> (status matches Ok(status) && status.success),
        r matches Err(message) ==> message@ == match status {
            Ok(status) => failure_text(
                command_text(command@, contents(args@)),
                status.code,
                Seq::empty(),
            ),
            Err(error) => not_run_text(command_text(command@, contents(args@)), error@),
        },
        message_of(r) == running_text(
            match status {
                Ok(status) => Ok((status, None)),
                Err(error) => Err(error@),
            },
            command@,
            contents(args@),
        ),
{
    match status {
        Ok(status) => evaluate(status, command, args, None),
        Err(error) => Err(
            not_run_message(format_command(command, args).as_str(), error.as_str()),
        ),
    }
}

/// Of a number of variables, those that commands are run with: `PATH` alone.
pub open spec fn environment(vars: Seq<(String, String)>) -> Seq<(String, String)> {
    vars.filter(|var: (String, String)| var.0@ == "PATH"@)
}

/// The environment that commands are run with: of all variables, `PATH` alone.
pub fn command_environment(vars: &Vec<(String, String)>) -> (r: Vec<(String, String)>)
    ensures
        r@ == vars@.filter(|var: (String, String)| var.0@ == "PATH"@),
        r@ == environment(vars@),
{
    let ghost pred = |var: (String, String)| var.0@ == "PATH"@;
    let path: String = "PATH".to_owned();
    let mut r: Vec<(String, String)> = Vec::new();
    let mut i: usize = 0;
    assert(vars@.take(0).filter(pred) =~= r@) by {
        reveal(Seq::filter);
    }
    while i < vars.len()
        invariant
            i <= vars@.len(),
            path@ == "PATH"@,
            pred == (|var: (String, String)| var.0@ == "PATH"@),
            r@ == vars@.take(i as int).filter(pred),
        decreases vars@.len() - i,
    {
        proof {
            reveal(Seq::filter);
            assert(vars@.take(i + 1).drop_last() =~= vars@.take(i as int));
        }
        if vars[i].0 == path {
            r.push((vars[i].0.clone(), vars[i].1.clone()));
        }
        i += 1;
    }
    assert(vars@.take(i as int) =~= vars@);
    r
}

/// Words, with a space in front of each but the first.
pub open spec fn words_text(first: Seq<char>, rest: Seq<Seq<char>>) -> Seq<char>
    decreases rest.len(),
{
    if rest.len() == 0 {
        first
    } else {
        words_text(first, rest.drop_last()) + seq![' '] + rest.last()
    }
}

/// The encoding of two texts in a row is that of the first followed by that of
/// the second.
proof fn lemma_encode_add(a: Seq<char>, b: Seq<char>)
    ensures
        vstd::utf8::encode_utf8(a + b) == vstd::utf8::encode_utf8(a) + vstd::utf8::encode_utf8(b),
    decreases a.len(),
{
    if a.len() == 0 {
        assert(a + b =~= b);
        assert(vstd::utf8::encode_utf8(a) + vstd::utf8::encode_utf8(b) =~= vstd::utf8::encode_utf8(
            b,
        ));
    } else {
        assert((a + b).drop_first() =~= a.drop_first() + b);
        lemma_encode_add(a.drop_first(), b);
        let first = vstd::utf8::encode_scalar(a[0] as u32);
        assert(first + (vstd::utf8::encode_utf8(a.drop_first()) + vstd::utf8::encode_utf8(b))
            =~= first + vstd::utf8::encode_utf8(a.drop_first()) + vstd::utf8::encode_utf8(b));
    }
}

proof fn lemma_encode_space()
    ensures
        vstd::utf8::encode_utf8(seq![' ']) == seq![SPACE],
{
    vstd::utf8::is_ascii_chars_encode_utf8(seq![' ']);
    assert(vstd::utf8::encode_utf8(seq![' ']) =~= seq![SPACE]);
}

/// Concatenating words that are encoded in UTF-8 gives the encoding of the words
/// with spaces between them.
proof fn lemma_spaced_words(first: Seq<char>, rest: Seq<Seq<char>>)
    ensures
        spaced(
            vstd::utf8::encode_utf8(first),
            rest.map_values(|word: Seq<char>| vstd::utf8::encode_utf8(word)),
        ) == vstd::utf8::encode_utf8(words_text(first, rest)),
    decreases rest.len(),
{
    let encoded = rest.map_values(|word: Seq<char>| vstd::utf8::encode_utf8(word));
    if rest.len() > 0 {
        let earlier = rest.drop_last();
        lemma_spaced_words(first, earlier);
        assert(encoded.drop_last() =~= earlier.map_values(
            |word: Seq<char>| vstd::utf8::encode_utf8(word),
        ));
        lemma_encode_space();
        lemma_encode_add(words_text(first, earlier), seq![' ']);
        lemma_encode_add(words_text(first, earlier) + seq![' '], rest.last());
    }
}

/// A command and arguments that are encoded in UTF-8 are displayed as they are,
/// with spaces between them.
pub proof fn words_are_displayed(first: Seq<char>, rest: Seq<Seq<char>>)
    ensures
        command_text(
            vstd::utf8::encode_utf8(first),
            rest.map_values(|word: Seq<char>| vstd::utf8::encode_utf8(word)),
        ) == words_text(first, rest),
{
    lemma_spaced_words(first, rest);
    crate::text::displayed_text(words_text(first, rest));
}

/// A command line runs its program with its arguments: all of them, in their order
/// and as they are.
pub proof fn command_line_is_run(line: CommandLine, i: int)
    ensures
        line@.program == line.program@,
        line@.args == contents(line.args@),
        contents(line.args@).len() == line.args@.len(),
        0 <= i < line.args@.len() ==> contents(line.args@)[i] == line.args@[i]@,
{
}

/// Concatenating a command with no arguments gives the command, with one argument
/// the two with a space between them, and with a number of arguments what comes of
/// concatenating it with some of them first and with the others behind that.
pub proof fn arguments_follow_each_other(
    command: Seq<u8>,
    word: Seq<u8>,
    args: Seq<Seq<u8>>,
    more: Seq<Seq<u8>>,
)
    ensures
        spaced(command, Seq::empty()) == command,
        spaced(command, seq![word]) == command + seq![' ' as u8] + word,
        spaced(command, args + more) == spaced(spaced(command, args), more),
    decreases more.len(),
{
    assert(seq![word].drop_last() =~= Seq::<Seq<u8>>::empty());
    assert(spaced(command, seq![word].drop_last()) == command);
    if more.len() == 0 {
        assert(args + more =~= args);
    } else {
        arguments_follow_each_other(command, word, args, more.drop_last());
        assert((args + more).drop_last() =~= args + more.drop_last());
    }
}

/// The encodings of a number of texts.
pub open spec fn encoded(texts: Seq<Seq<char>>) -> Seq<Seq<u8>> {
    texts.map_values(|text: Seq<char>| vstd::utf8::encode_utf8(text))
}

/// A command is displayed as it is, and each further argument behind what is
/// displayed without it, with a space in between, however many there are.
pub proof fn each_argument_is_displayed(
    command: Seq<char>,
    args: Seq<Seq<char>>,
    last: Seq<char>,
)
    ensures
        command_text(vstd::utf8::encode_utf8(command), Seq::empty()) == command,
        command_text(vstd::utf8::encode_utf8(command), encoded(args).push(vstd::utf8::encode_utf8(last)))
            == command_text(vstd::utf8::encode_utf8(command), encoded(args)).push(' ') + last,
{
    words_are_displayed(command, Seq::empty());
    words_are_displayed(command, args);
    words_are_displayed(command, args.push(last));
    assert(encoded(Seq::empty()) =~= Seq::<Seq<u8>>::empty());
    assert(encoded(args.push(last)) =~= encoded(args).push(vstd::utf8::encode_utf8(last)));
    assert(args.push(last).drop_last() =~= args);
    let text = words_text(command, args);
    assert(text + seq![' '] + last =~= text.push(' ') + last);
}

/// A command line that is not valid UTF-8 is displayed as
/// `String::from_utf8_lossy` decodes the whole of it.
pub proof fn invalid_command_is_decoded(command: Seq<u8>, args: Seq<Seq<u8>>)
    requires
        !vstd::utf8::valid_utf8(spaced(command, args)),
    ensures
        command_text(command, args) == crate::text::lossy_text(spaced(command, args)),
{
}

/// The message about a process that did not report success quotes the command,
/// tells the exit code or else that there is none, and ends with the error output
/// without trailing white space, unless there is nothing else in that.
pub proof fn failure_is_told(command: Seq<char>, code: i32, stderr: Seq<char>)
    ensures
        ({
            let exited = "`"@ + command + "` reported non-zero exit-status ("@
                + crate::decimal::signed_decimal(code as int) + ")"@;
            let killed = "`"@ + command
                + "` reported non-zero exit-status (terminated by signal)"@;
            let output = crate::text::trimmed_end(stderr);
            if forall|i: int|
                0 <= i < stderr.len() ==> crate::text::is_white_space(#[trigger] stderr[i]) {
                &&& failure_text(command, Some(code), stderr) == exited
                &&& failure_text(command, None, stderr) == killed
            } else {
                &&& failure_text(command, Some(code), stderr) == exited + ": "@ + output
                &&& failure_text(command, None, stderr) == killed + ": "@ + output
            }
        }),
{
    let number = crate::decimal::signed_decimal(code as int);
    let output = crate::text::trimmed_end(stderr);
    crate::text::trimming_cuts_white_space(stderr);
    reveal_strlit(" (");
    reveal_strlit(" (terminated by signal)");
    reveal_strlit("` reported non-zero exit-status");
    reveal_strlit("` reported non-zero exit-status (");
    reveal_strlit("` reported non-zero exit-status (terminated by signal)");
    assert("` reported non-zero exit-status"@ + " ("@ =~= "` reported non-zero exit-status ("@);
    assert("` reported non-zero exit-status"@ + " (terminated by signal)"@
        =~= "` reported non-zero exit-status (terminated by signal)"@);
    let exited = "`"@ + command + "` reported non-zero exit-status ("@ + number + ")"@;
    let killed = "`"@ + command + "` reported non-zero exit-status (terminated by signal)"@;
    let head = "`"@ + command;
    assert(head + "` reported non-zero exit-status"@ + code_text(Some(code)) =~= head + (
    "` reported non-zero exit-status"@ + " ("@) + number + ")"@);
    assert(head + "` reported non-zero exit-status"@ + code_text(None) =~= head + (
    "` reported non-zero exit-status"@ + " (terminated by signal)"@));
    if output.len() > 0 {
        assert(!crate::text::is_white_space(output.last()));
        assert(output.last() == stderr[output.len() - 1]);
        assert(exited + (": "@ + output) =~= exited + ": "@ + output);
        assert(killed + (": "@ + output) =~= killed + ": "@ + output);
    } else {
        assert(exited + Seq::<char>::empty() =~= exited);
        assert(killed + Seq::<char>::empty() =~= killed);
    }
}

/// The message about a process that could not be run quotes the command and ends
/// with the error.
pub proof fn not_run_is_told(command: Seq<char>, error: Seq<char>)
    ensures
        not_run_text(command, error) == "failed to run `"@ + command + "`: "@ + error,
{
}

/// Commands are run with each variable that is named `PATH`, as it is and in its
/// place, and with no other one.
pub proof fn path_alone_is_inherited(
    vars: Seq<(String, String)>,
    more: Seq<(String, String)>,
    var: (String, String),
)
    ensures
        environment(vars + more) == environment(vars) + environment(more),
        environment(seq![var]) == if var.0@ == seq!['P', 'A', 'T', 'H'] {
            seq![var]
        } else {
            Seq::<(String, String)>::empty()
        },
{
    let pred = |var: (String, String)| var.0@ == "PATH"@;
    reveal_strlit("PATH");
    assert("PATH"@ =~= seq!['P', 'A', 'T', 'H']);
    Seq::filter_distributes_over_add(vars, more, pred);
    reveal_with_fuel(Seq::filter, 2);
    assert(seq![var].drop_last() =~= Seq::<(String, String)>::empty());
    assert(Seq::<(String, String)>::empty().push(var) =~= seq![var]);
}

/// A command has succeeded if and only if it was run and its process reported
/// success, whatever its exit code and its error output. Else the message quotes
/// the whole command line, and tells why it could not be run, or else the exit code
/// and the error output.
pub proof fn command_must_succeed(
    status: ExitStatus,
    command: Seq<u8>,
    args: Seq<Seq<u8>>,
    stderr: Option<Seq<u8>>,
    error: Seq<char>,
    result: Result<(), String>,
)
    ensures
        ending_text(status, command, args, stderr) is None <==> status.success,
        running_text(Ok((status, stderr)), command, args) == ending_text(
            status,
            command,
            args,
            stderr,
        ),
        running_text(Err(error), command, args) == Some(
            "failed to run `"@ + command_text(command, args) + "`: "@ + error,
        ),
        ending_text(status, command, args, stderr) matches Some(message) ==> ("`"@ + command_text(
            command,
            args,
        ) + "` reported non-zero exit-status ("@).is_prefix_of(message),
        !status.success && stderr is Some ==> ending_text(status, command, args, stderr) == Some(
            failure_text(
                command_text(command, args),
                status.code,
                crate::text::displayed(stderr->0),
            ),
        ),
        !status.success && stderr is None ==> ending_text(status, command, args, stderr) == Some(
            failure_text(command_text(command, args), status.code, Seq::empty()),
        ),
        message_of(result) is None <==> result is Ok,
        result matches Err(message) ==> message_of(result) == Some(message@),
{
    let text = command_text(command, args);
    let output = match stderr {
        Some(stderr) => crate::text::displayed(stderr),
        None => Seq::empty(),
    };
    let head = "`"@ + text + "` reported non-zero exit-status ("@;
    reveal_strlit("` reported non-zero exit-status (");
    reveal_strlit("` reported non-zero exit-status (terminated by signal)");
    if let Some(message) = ending_text(status, command, args, stderr) {
        let code = match status.code {
            Some(code) => code,
            None => 0,
        };
        failure_is_told(text, code, output);
        assert(head =~= message.take(head.len() as int));
    }
}

} // verus!
