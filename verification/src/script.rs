use crate::cmdline::arguments;
use crate::command::{Command, CommandView};
use crate::escape::{command_line, escaped, escaped_all, joined, windows_escape_arg};
use crate::round_trip::lemma_command_line_round_trip;
use crate::sentinel::{SentinelFileSet, SentinelFilesView};
use crate::text::push_char;
use vstd::prelude::*;
use vstd::string::*;

verus! {

/// The line that opens the script: command echoing is switched off.
pub open spec fn script_header() -> Seq<char> {
    "@echo off\r\n"@
}

/// The line that sets one environment variable. The value is written as it
/// is given.
pub open spec fn env_line(entry: (Seq<char>, Seq<char>)) -> Seq<char> {
    "set "@ + entry.0 + "="@ + entry.1 + "\r\n"@
}

/// One line for each environment variable, in the order of `envs`.
pub open spec fn env_lines(envs: Seq<(Seq<char>, Seq<char>)>) -> Seq<char>
    decreases envs.len(),
{
    if envs.len() == 0 {
        Seq::empty()
    } else {
        env_lines(envs.drop_last()) + env_line(envs.last())
    }
}

/// What follows the command on its line: standard output and standard error
/// are sent to the two capture files.
pub open spec fn redirection(files: SentinelFilesView) -> Seq<char> {
    " 1>\""@ + files.stdout + "\" 2>\""@ + files.stderr + "\"\r\n"@
}

/// The closing statement: the exit code of the command that has just run is
/// written to the exit-code file.
pub open spec fn exit_capture(files: SentinelFilesView) -> Seq<char> {
    "echo %ERRORLEVEL%>\""@ + files.exit_code + "\""@
}

/// The text of the wrapper script for `cmd`.
pub open spec fn script_text(cmd: CommandView, files: SentinelFilesView) -> Seq<char> {
    script_header() + env_lines(cmd.envs) + command_line(cmd.argv()) + redirection(files)
        + exit_capture(files)
}

/// The command as the script states it splits back into the program and its
/// arguments, each exactly as the caller gave it.
pub proof fn lemma_script_command_splits_back(cmd: CommandView)
    ensures
        arguments(command_line(cmd.argv())) == cmd.argv(),
{
    lemma_command_line_round_trip(cmd.argv());
}

/// A line of tokens grows by a space and the new token, or by the token
/// alone where it is the first.
pub proof fn lemma_joined_push(tokens: Seq<Seq<char>>, token: Seq<char>)
    ensures
        joined(tokens.push(token)) == if tokens.len() == 0 {
            token
        } else {
            joined(tokens) + seq![' '] + token
        },
    decreases tokens.len(),
{
    let longer = tokens.push(token);
    if tokens.len() == 0 {
    } else if tokens.len() == 1 {
        assert(longer.drop_first() =~= seq![token]);
        assert(joined(longer.drop_first()) == token);
    } else {
        lemma_joined_push(tokens.drop_first(), token);
        assert(longer.drop_first() =~= tokens.drop_first().push(token));
        assert(joined(longer) =~= joined(tokens) + seq![' '] + token);
    }
}

/// Appends the line that sets one environment variable.
fn push_env_line(out: &mut String, name: &str, value: &str)
    ensures
        final(out)@ == old(out)@ + env_line((name@, value@)),
{
    out.append("set ");
    out.append(name);
    out.append("=");
    out.append(value);
    out.append("\r\n");
    assert(out@ =~= old(out)@ + env_line((name@, value@)));
}

/// Appends the program and its arguments, each escaped, with single spaces
/// between them.
fn push_command_line(out: &mut String, cmd: &Command)
    ensures
        final(out)@ == old(out)@ + command_line(cmd@.argv()),
{
    let ghost argv = cmd@.argv();
    let ghost tokens = escaped_all(argv);
    let program = windows_escape_arg(cmd.program.as_str());
    out.append(program.as_str());
    assert(tokens.take(1) =~= seq![escaped(cmd@.program)]);
    let count = cmd.args.len();
    let mut i: usize = 0;
    while i < count
        invariant
            i <= count,
            count == cmd.args.len(),
            argv == cmd@.argv(),
            tokens == escaped_all(argv),
            out@ == old(out)@ + joined(tokens.take(i + 1)),
        decreases count - i,
    {
        let token = windows_escape_arg(cmd.args[i].as_str());
        push_char(out, ' ');
        out.append(token.as_str());
        proof {
            let done = tokens.take(i + 1);
            assert(argv[i + 1] == cmd.args@[i as int]@);
            assert(tokens[i + 1] == token@);
            assert(tokens.take(i + 2) =~= done.push(token@));
            lemma_joined_push(done, token@);
            assert(out@ =~= old(out)@ + joined(tokens.take(i + 2)));
        }
        i = i + 1;
    }
    assert(tokens.take(count + 1) =~= tokens);
}

/// Writes the wrapper script for `cmd`: echoing off, one assignment for each
/// environment variable, the command with its output sent to `files`, and the
/// statement that records the command's exit code. The script does not
/// change directory, and it does not name itself.
pub fn build_script(cmd: &Command, files: &SentinelFileSet) -> (script: String)
    ensures
        script@ == script_text(cmd@, files@),
{
    let mut out = String::new();
    out.append("@echo off\r\n");
    assert(out@ =~= script_header());
    let ghost envs = cmd@.envs;
    let count = cmd.envs.len();
    let mut i: usize = 0;
    assert(envs.take(0) =~= Seq::<(Seq<char>, Seq<char>)>::empty());
    assert(out@ =~= script_header() + env_lines(envs.take(0)));
    while i < count
        invariant
            i <= count,
            count == cmd.envs.len(),
            envs == cmd@.envs,
            out@ == script_header() + env_lines(envs.take(i as int)),
        decreases count - i,
    {
        let entry = &cmd.envs[i];
        push_env_line(&mut out, entry.0.as_str(), entry.1.as_str());
        proof {
            let longer = envs.take(i + 1);
            assert(longer.drop_last() =~= envs.take(i as int));
            assert(longer.last() == (entry.0@, entry.1@));
            assert(out@ =~= script_header() + env_lines(longer));
        }
        i = i + 1;
    }
    assert(envs.take(count as int) =~= envs);
    push_command_line(&mut out, cmd);
    out.append(" 1>\"");
    out.append(files.stdout.as_str());
    out.append("\" 2>\"");
    out.append(files.stderr.as_str());
    out.append("\"\r\n");
    out.append("echo %ERRORLEVEL%>\"");
    out.append(files.exit_code.as_str());
    out.append("\"");
    assert(out@ =~= script_text(cmd@, files@));
    out
}

} // verus!
