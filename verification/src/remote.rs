//! Commands on a remote host: the command line that is sent, the order in which the two
//! output streams are served, and the choice of a credential.

use crate::common::Register;
use crate::modules::command::{ExecError, ExecErrorModel};
use crate::text::opt_view;
use vstd::prelude::*;
use vstd::string::*;

verus! {

/// The command as the remote side is to run it: through the shell where that is asked
/// for.
pub open spec fn wrapped_command(command: Seq<char>, use_shell: bool) -> Seq<char> {
    if use_shell {
        "sh -c \""@ + command + "\""@
    } else {
        command
    }
}

/// The command line that is sent: the command, after a change into the working directory
/// where there is one.
pub open spec fn command_line_spec(command: Seq<char>, use_shell: bool, chdir: Option<Seq<char>>)
    -> Seq<char> {
    match chdir {
        Some(dir) => "cd "@ + dir + " && "@ + wrapped_command(command, use_shell),
        None => wrapped_command(command, use_shell),
    }
}

/// Builds the command line that is sent to the remote host.
pub fn remote_command_line(command: &str, use_shell: bool, chdir: &Option<String>) -> (line: String)
    ensures
        line@ == command_line_spec(command@, use_shell, opt_view(*chdir)),
{
    let mut line = String::new();
    match chdir {
        Some(dir) => {
            line.append("cd ");
            line.append(dir.as_str());
            line.append(" && ");
        },
        None => {},
    }
    let ghost prefix = line@;
    if use_shell {
        line.append("sh -c \"");
        line.append(command);
        line.append("\"");
    } else {
        line.append(command);
    }
    proof {
        let w = wrapped_command(command@, use_shell);
        assert(line@ =~= prefix + w);
        match chdir {
            Some(dir) => {
                assert(prefix =~= "cd "@ + dir@ + " && "@);
            },
            None => {
                assert(prefix + w =~= w);
            },
        }
    }
    line
}

/// One of the two output streams of a command.
#[derive(Debug, Clone, Copy, PartialEq, Eq, Structural)]
pub enum Stream {
    /// Standard output.
    Stdout,
    /// Standard error.
    Stderr,
}

/// What an attempt to read from a stream has brought.
#[derive(Debug, Clone, PartialEq, Eq)]
pub enum ReadOutcome {
    /// Bytes were read; none where the stream had none to give.
    Data(Vec<u8>),
    /// Nothing is there yet, and the read did not wait.
    WouldBlock,
    /// The read failed.
    Failed(String),
}

/// The mathematical model of a [`ReadOutcome`].
pub enum ReadOutcomeModel {
    Data(Seq<u8>),
    WouldBlock,
    Failed(Seq<char>),
}

impl View for ReadOutcome {
    type V = ReadOutcomeModel;

    open spec fn view(&self) -> ReadOutcomeModel {
        match self {
            ReadOutcome::Data(bytes) => ReadOutcomeModel::Data(bytes@),
            ReadOutcome::WouldBlock => ReadOutcomeModel::WouldBlock,
            ReadOutcome::Failed(message) => ReadOutcomeModel::Failed(message@),
        }
    }
}

/// The text that `String::from_utf8_lossy` makes of bytes: what they spell in UTF-8, with
/// the replacement character wherever they spell nothing.
pub uninterp spec fn utf8_lossy(bytes: Seq<u8>) -> Seq<char>;

/// `String::from_utf8_lossy`, with the result as a `String`.
#[verifier::external_body]
fn decode_lossy(bytes: &Vec<u8>) -> (text: String)
    ensures
        text@ == utf8_lossy(bytes@),
{
    String::from_utf8_lossy(bytes).into_owned()
}

/// The output of a command as far as it has been read.
pub struct Captured {
    stdout: String,
    stderr: String,
}

/// The mathematical model of a [`Captured`].
pub struct CapturedModel {
    pub stdout: Seq<char>,
    pub stderr: Seq<char>,
}

impl View for Captured {
    type V = CapturedModel;

    closed spec fn view(&self) -> CapturedModel {
        CapturedModel { stdout: self.stdout@, stderr: self.stderr@ }
    }
}

/// A command whose output is being read, at the point where one of its streams is to be
/// read next.
pub struct ReadTurn {
    captured: Captured,
    stream: Stream,
}

/// The mathematical model of a [`ReadTurn`].
pub struct ReadTurnModel {
    pub captured: CapturedModel,
    pub stream: Stream,
}

impl View for ReadTurn {
    type V = ReadTurnModel;

    closed spec fn view(&self) -> ReadTurnModel {
        ReadTurnModel { captured: self.captured@, stream: self.stream }
    }
}

/// A command whose output is being read, at the point where both streams have had their
/// turn and the question is whether the remote side has ended its output.
pub struct EofTurn {
    captured: Captured,
}

impl View for EofTurn {
    type V = CapturedModel;

    closed spec fn view(&self) -> CapturedModel {
        self.captured@
    }
}

/// What follows a read.
pub enum AfterRead {
    /// The other stream is read next. The text is what the read has brought, to be shown
    /// where output is displayed.
    Read(Option<String>, ReadTurn),
    /// Both streams have had their turn. The text is as above.
    AskEof(Option<String>, EofTurn),
    /// The read failed, and the command with it.
    Failed(ExecError),
}

/// The mathematical model of an [`AfterRead`].
pub enum AfterReadModel {
    Read(Option<Seq<char>>, ReadTurnModel),
    AskEof(Option<Seq<char>>, CapturedModel),
    Failed(ExecErrorModel),
}

impl View for AfterRead {
    type V = AfterReadModel;

    open spec fn view(&self) -> AfterReadModel {
        match self {
            AfterRead::Read(text, turn) => AfterReadModel::Read(opt_view(*text), turn@),
            AfterRead::AskEof(text, turn) => AfterReadModel::AskEof(opt_view(*text), turn@),
            AfterRead::Failed(e) => AfterReadModel::Failed(e@),
        }
    }
}

/// What follows the answer to the question whether the output has ended.
pub enum AfterEof {
    /// It has not: standard output is read again.
    Read(ReadTurn),
    /// It has: the channel is to be closed and the exit status read.
    Close(Captured),
}

/// The text that a read has brought: none where the stream had nothing to give.
pub open spec fn text_read(outcome: ReadOutcomeModel) -> Option<Seq<char>> {
    match outcome {
        ReadOutcomeModel::Data(bytes) => if bytes.len() > 0 {
            Some(utf8_lossy(bytes))
        } else {
            None
        },
        _ => None,
    }
}

/// `captured` with `text` added to what was read from `stream`.
pub open spec fn add_text(captured: CapturedModel, stream: Stream, text: Option<Seq<char>>)
    -> CapturedModel {
    match text {
        None => captured,
        Some(t) => match stream {
            Stream::Stdout => CapturedModel { stdout: captured.stdout + t, stderr: captured.stderr },
            Stream::Stderr => CapturedModel { stdout: captured.stdout, stderr: captured.stderr + t },
        },
    }
}

/// What follows a read of the stream whose turn it is. A read that failed fails the
/// command; a read that would have had to wait counts as one that brought nothing. After
/// standard output comes standard error, whatever the read has brought, and only after
/// standard error is it asked whether the output has ended: so neither stream waits for
/// the other.
pub open spec fn read_spec(turn: ReadTurnModel, outcome: ReadOutcomeModel) -> AfterReadModel {
    match outcome {
        ReadOutcomeModel::Failed(message) => AfterReadModel::Failed(
            ExecErrorModel::CommandSpawnError(message),
        ),
        _ => {
            let text = text_read(outcome);
            let captured = add_text(turn.captured, turn.stream, text);
            match turn.stream {
                Stream::Stdout => AfterReadModel::Read(
                    text,
                    ReadTurnModel { captured, stream: Stream::Stderr },
                ),
                Stream::Stderr => AfterReadModel::AskEof(text, captured),
            }
        },
    }
}

impl ReadTurn {
    /// The beginning: nothing is read yet, and standard output is read first.
    pub fn start() -> (turn: ReadTurn)
        ensures
            turn@ == (ReadTurnModel {
                captured: CapturedModel { stdout: Seq::empty(), stderr: Seq::empty() },
                stream: Stream::Stdout,
            }),
    {
        ReadTurn {
            captured: Captured { stdout: String::new(), stderr: String::new() },
            stream: Stream::Stdout,
        }
    }

    /// The stream that is to be read.
    pub fn stream(&self) -> (stream: Stream)
        ensures
            stream == self@.stream,
    {
        self.stream
    }

    /// Takes in what the read of the stream has brought.
    pub fn read(self, outcome: ReadOutcome) -> (after: AfterRead)
        ensures
            after@ == read_spec(self@, outcome@),
    {
        let ReadTurn { captured, stream } = self;
        let Captured { stdout, stderr } = captured;
        let mut stdout = stdout;
        let mut stderr = stderr;
        let text: Option<String> = match outcome {
            ReadOutcome::Failed(message) => {
                return AfterRead::Failed(ExecError::CommandSpawnError(message));
            },
            ReadOutcome::WouldBlock => None,
            ReadOutcome::Data(bytes) => {
                if bytes.len() > 0 {
                    Some(decode_lossy(&bytes))
                } else {
                    None
                }
            },
        };
        match stream {
            Stream::Stdout => {
                match &text {
                    Some(t) => {
                        stdout.append(t.as_str());
                    },
                    None => {},
                }
                AfterRead::Read(
                    text,
                    ReadTurn { captured: Captured { stdout, stderr }, stream: Stream::Stderr },
                )
            },
            Stream::Stderr => {
                match &text {
                    Some(t) => {
                        stderr.append(t.as_str());
                    },
                    None => {},
                }
                AfterRead::AskEof(text, EofTurn { captured: Captured { stdout, stderr } })
            },
        }
    }
}

/// Begins the execution of a command on a remote host: gives the command line that is to
/// be sent, and the first turn of reading what the command writes.
pub fn execute_ssh_command(command: &str, use_shell: bool, chdir: &Option<String>) -> (r: (
    String,
    ReadTurn,
))
    ensures
        r.0@ == command_line_spec(command@, use_shell, opt_view(*chdir)),
        r.1@ == (ReadTurnModel {
            captured: CapturedModel { stdout: Seq::empty(), stderr: Seq::empty() },
            stream: Stream::Stdout,
        }),
{
    (remote_command_line(command, use_shell, chdir), ReadTurn::start())
}

impl EofTurn {
    /// Takes in whether the remote side has ended its output: if so, reading is over, and
    /// else both streams are read once more, standard output first.
    pub fn eof(self, ended: bool) -> (after: AfterEof)
        ensures
            match after {
                AfterEof::Close(captured) => ended && captured@ == self@,
                AfterEof::Read(turn) => !ended && turn@ == (ReadTurnModel {
                    captured: self@,
                    stream: Stream::Stdout,
                }),
            },
    {
        if ended {
            AfterEof::Close(self.captured)
        } else {
            AfterEof::Read(ReadTurn { captured: self.captured, stream: Stream::Stdout })
        }
    }
}

impl Captured {
    /// The result of the command, once its channel is closed: what was read, with the exit
    /// status; or a failure where the close or the status failed.
    pub fn exit(self, status: Result<i32, String>) -> (r: Result<Register, ExecError>)
        ensures
            match r {
                Ok(out) => status == Ok::<i32, String>(out.rc) && out.stdout@ == self@.stdout
                    && out.stderr@ == self@.stderr,
                Err(e) => status is Err && e@ == ExecErrorModel::CommandSpawnError(
                    status->Err_0@,
                ),
            },
    {
        match status {
            Ok(rc) => Ok(Register { stdout: self.stdout, stderr: self.stderr, rc }),
            Err(message) => Err(ExecError::CommandSpawnError(message)),
        }
    }
}

} // verus!
