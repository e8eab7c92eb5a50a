//! Commands on the local host: what is spawned, and what is made of the child's output
//! and exit.

use crate::common::Register;
use crate::modules::command::{ExecError, ExecErrorModel};
use crate::text::{join, opt_view, views};
use vstd::prelude::*;
use vstd::string::*;

verus! {

/// The words that `shell_words::split` makes of a command line, or nothing where a quote
/// is left open.
pub uninterp spec fn shell_words(command: Seq<char>) -> Option<Seq<Seq<char>>>;

/// The model of a list of words that may be absent.
pub open spec fn words_view(words: Option<Vec<String>>) -> Option<Seq<Seq<char>>> {
    match words {
        Some(w) => Some(views(w@)),
        None => None,
    }
}

/// Splits a command line with `shell_words::split`. The result is whatever that function
/// makes of the line, which the contract names and does not describe.
#[verifier::external_body]
fn split_words(command: &str) -> (words: Option<Vec<String>>)
    ensures
        words_view(words) == shell_words(command@),
{
    shell_words::split(command).ok()
}

/// What is spawned for a command: a program with its arguments, in a working directory.
#[derive(Debug, Clone, PartialEq, Eq)]
pub struct Invocation {
    /// The program.
    pub program: String,
    /// Its arguments, in order.
    pub args: Vec<String>,
    /// The directory that the child starts in; its parent's where there is none.
    pub chdir: Option<String>,
}

/// The mathematical model of an [`Invocation`].
pub struct InvocationModel {
    pub program: Seq<char>,
    pub args: Seq<Seq<char>>,
    pub chdir: Option<Seq<char>>,
}

impl View for Invocation {
    type V = InvocationModel;

    open spec fn view(&self) -> InvocationModel {
        InvocationModel {
            program: self.program@,
            args: views(self.args@),
            chdir: opt_view(self.chdir),
        }
    }
}

/// The model of an invocation, or of the failure in its place.
pub open spec fn invocation_view(r: Result<Invocation, ExecError>) -> Result<
    InvocationModel,
    ExecErrorModel,
> {
    match r {
        Ok(i) => Ok(i@),
        Err(e) => Err(e@),
    }
}

/// What is spawned for a command, given the words that the command line splits into.
/// Through the shell it is `sh -c` with the command as it stands. Else the first word is
/// the program and the other words are its arguments; a command line with an open quote,
/// and one without any word, cannot be spawned. The child starts in `chdir`.
pub open spec fn invocation_spec(
    command: Seq<char>,
    use_shell: bool,
    chdir: Option<Seq<char>>,
    words: Option<Seq<Seq<char>>>,
) -> Result<InvocationModel, ExecErrorModel> {
    if use_shell {
        Ok(InvocationModel { program: "sh"@, args: seq!["-c"@, command], chdir })
    } else {
        match words {
            None => Err(
                ExecErrorModel::CommandSpawnError(
                    "Failed to parse command: missing closing quote"@,
                ),
            ),
            Some(w) => if w.len() == 0 {
                Err(ExecErrorModel::CommandSpawnError("Failed to parse command: no program"@))
            } else {
                Ok(InvocationModel { program: w[0], args: w.skip(1), chdir })
            },
        }
    }
}

/// Decides what is spawned for `command`, given the words that it splits into.
pub fn invocation_of(
    command: &str,
    use_shell: bool,
    chdir: &Option<String>,
    words: Option<Vec<String>>,
) -> (r: Result<Invocation, ExecError>)
    ensures
        invocation_view(r) == invocation_spec(
            command@,
            use_shell,
            opt_view(*chdir),
            words_view(words),
        ),
{
    if use_shell {
        let mut args: Vec<String> = Vec::new();
        args.push("-c".to_owned());
        args.push(command.to_owned());
        assert(views(args@) =~= seq!["-c"@, command@]);
        return Ok(Invocation { program: "sh".to_owned(), args, chdir: chdir.clone() });
    }
    match words {
        None => Err(
            ExecError::CommandSpawnError(
                "Failed to parse command: missing closing quote".to_owned(),
            ),
        ),
        Some(w) => {
            if w.len() == 0 {
                Err(ExecError::CommandSpawnError("Failed to parse command: no program".to_owned()))
            } else {
                let program = w[0].clone();
                let mut args: Vec<String> = Vec::new();
                let mut i: usize = 1;
                while i < w.len()
                    invariant
                        1 <= i <= w.len(),
                        args@.len() == i - 1,
                        forall|k: int| 0 <= k < args@.len() ==> (#[trigger] args@[k])@ == w@[k + 1]@,
                    decreases w.len() - i,
                {
                    args.push(w[i].clone());
                    i += 1;
                }
                assert(views(args@) =~= views(w@).skip(1));
                Ok(Invocation { program, args, chdir: chdir.clone() })
            }
        },
    }
}

/// Prepares the execution of a command on the local host: decides what is spawned. That
/// is `sh -c` with the command where it goes through the shell, and else the program and
/// arguments that the command line splits into by the rules of the shell for words and
/// quotes; either way in the directory `chdir`.
pub fn execute_local_command(command: &str, use_shell: bool, chdir: &Option<String>) -> (r: Result<
    Invocation,
    ExecError,
>)
    ensures
        invocation_view(r) == invocation_spec(
            command@,
            use_shell,
            opt_view(*chdir),
            shell_words(command@),
        ),
{
    let words = split_words(command);
    invocation_of(command, use_shell, chdir, words)
}

/// Joins the lines that a stream has given, with a line break between neighbours and none
/// at the end.
pub fn join_lines(lines: &Vec<String>) -> (text: String)
    ensures
        text@ == join(views(lines@), seq!['\n']),
{
    let ghost all = views(lines@);
    let mut text = String::new();
    let mut i: usize = 0;
    assert(all.take(0) =~= Seq::<Seq<char>>::empty());
    proof {
        reveal_strlit("\n");
        assert("\n"@ =~= seq!['\n']);
    }
    while i < lines.len()
        invariant
            i <= lines.len(),
            all == views(lines@),
            "\n"@ == seq!['\n'],
            text@ == join(all.take(i as int), seq!['\n']),
        decreases lines.len() - i,
    {
        proof {
            let next = all.take(i + 1);
            assert(next.drop_last() =~= all.take(i as int));
            assert(next.last() == lines@[i as int]@);
            if i == 0 {
                assert(text@ + lines@[i as int]@ =~= lines@[i as int]@);
            }
        }
        if i > 0 {
            text.append("\n");
        }
        text.append(lines[i].as_str());
        i += 1;
    }
    assert(all.take(i as int) =~= all);
    text
}

/// The exit code that stands for a child's exit: the code that it has reported, or -1
/// where it has reported none because a signal has ended it.
pub open spec fn exit_code_spec(code: Option<i32>) -> i32 {
    match code {
        Some(c) => c,
        None => -1i32,
    }
}

/// The exit code of a child: the code that it has reported, or -1 where it has reported
/// none because a signal has ended it.
pub fn exit_code(code: Option<i32>) -> (rc: i32)
    ensures
        rc == exit_code_spec(code),
{
    match code {
        Some(c) => c,
        None => -1,
    }
}

/// The result of a local command: the lines of each stream joined, and the exit code.
pub fn local_result(stdout: &Vec<String>, stderr: &Vec<String>, code: Option<i32>) -> (out:
    Register)
    ensures
        out.stdout@ == join(views(stdout@), seq!['\n']),
        out.stderr@ == join(views(stderr@), seq!['\n']),
        out.rc == exit_code_spec(code),
{
    Register { stdout: join_lines(stdout), stderr: join_lines(stderr), rc: exit_code(code) }
}

} // verus!
