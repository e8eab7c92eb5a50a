//! The commands of a task: how one is to be run, and what follows its execution.

use crate::common::{register_model, Register};
use crate::context::{bind, Binding, Context};
use crate::text::opt_view;
use crate::utils::{render_spec, replace_placeholders, RenderError, RenderErrorModel};
use vstd::prelude::*;

verus! {

/// A command that is ready to run.
#[derive(Debug, Clone, PartialEq, Eq)]
pub struct CommandRequest {
    /// The command, expanded.
    pub command: String,
    /// Whether the command goes through the shell.
    pub use_shell: bool,
    /// Whether the command's output is shown while it runs.
    pub display_output: bool,
    /// The directory to run the command in.
    pub chdir: Option<String>,
}

/// The mathematical model of a [`CommandRequest`].
pub struct CommandRequestModel {
    pub command: Seq<char>,
    pub use_shell: bool,
    pub display_output: bool,
    pub chdir: Option<Seq<char>>,
}

impl View for CommandRequest {
    type V = CommandRequestModel;

    open spec fn view(&self) -> CommandRequestModel {
        CommandRequestModel {
            command: self.command@,
            use_shell: self.use_shell,
            display_output: self.display_output,
            chdir: opt_view(self.chdir),
        }
    }
}

/// Why a command did not do its work.
#[derive(Debug, Clone, PartialEq, Eq)]
pub enum ExecError {
    /// The command could not be started, or its output could not be read.
    CommandSpawnError(String),
    /// The command ran, and ended with an exit code other than zero.
    NonZeroExit(i32),
}

/// The mathematical model of an [`ExecError`].
pub enum ExecErrorModel {
    CommandSpawnError(Seq<char>),
    NonZeroExit(int),
}

impl View for ExecError {
    type V = ExecErrorModel;

    open spec fn view(&self) -> ExecErrorModel {
        match self {
            ExecError::CommandSpawnError(message) => ExecErrorModel::CommandSpawnError(message@),
            ExecError::NonZeroExit(code) => ExecErrorModel::NonZeroExit(*code as int),
        }
    }
}

/// How the command with the template `template` is to be run in the context `vars`: its
/// expansion is what runs, and its output is shown unless it is to be registered.
pub open spec fn request_spec(
    template: Seq<char>,
    use_shell: bool,
    chdir: Option<Seq<char>>,
    register: Option<Seq<char>>,
    vars: Seq<Binding>,
) -> Result<CommandRequestModel, RenderErrorModel> {
    match render_spec(template, vars) {
        Ok(command) => Ok(
            CommandRequestModel { command, use_shell, display_output: register is None, chdir },
        ),
        Err(e) => Err(e),
    }
}

/// The model of a request, or of the failure in its place.
pub open spec fn request_view(r: Result<CommandRequest, RenderError>) -> Result<
    CommandRequestModel,
    RenderErrorModel,
> {
    match r {
        Ok(request) => Ok(request@),
        Err(e) => Err(e@),
    }
}

/// Makes the next command of a task ready to run.
pub fn process(
    template: &str,
    use_shell: bool,
    task_chdir: &Option<String>,
    register: &Option<String>,
    vars: &Context,
) -> (r: Result<CommandRequest, RenderError>)
    ensures
        request_view(r) == request_spec(
            template@,
            use_shell,
            opt_view(*task_chdir),
            opt_view(*register),
            vars@,
        ),
{
    match replace_placeholders(template, vars) {
        Ok(command) => Ok(
            CommandRequest {
                command,
                use_shell,
                display_output: register.is_none(),
                chdir: task_chdir.clone(),
            },
        ),
        Err(e) => Err(e),
    }
}

/// The model of what an execution hands back.
pub open spec fn execution_view(r: Result<Register, String>) -> Result<
    (Seq<char>, Seq<char>, int),
    Seq<char>,
> {
    match r {
        Ok(out) => Ok((out.stdout@, out.stderr@, out.rc as int)),
        Err(message) => Err(message@),
    }
}

/// What follows a command's execution. An execution that could not take place, and one
/// that ended with an exit code other than zero, are failures and leave the context
/// alone. After any other the context is as before, or, where the output is to be
/// registered under a name, holds the output under that name; that name is the result.
pub open spec fn execution_spec(
    result: Result<(Seq<char>, Seq<char>, int), Seq<char>>,
    register: Option<Seq<char>>,
    vars: Seq<Binding>,
) -> (Seq<Binding>, Result<Option<Seq<char>>, ExecErrorModel>) {
    match result {
        Err(message) => (vars, Err(ExecErrorModel::CommandSpawnError(message))),
        Ok((stdout, stderr, rc)) => if rc != 0 {
            (vars, Err(ExecErrorModel::NonZeroExit(rc)))
        } else {
            match register {
                Some(name) => (bind(vars, name, register_model(stdout, stderr, rc)), Ok(Some(name))),
                None => (vars, Ok(None)),
            }
        },
    }
}

/// The model of what [`handle_command_execution`] returns.
pub open spec fn handled_view(r: Result<Option<String>, ExecError>) -> Result<
    Option<Seq<char>>,
    ExecErrorModel,
> {
    match r {
        Ok(name) => Ok(opt_view(name)),
        Err(e) => Err(e@),
    }
}

/// Takes in the outcome of a command's execution: fails where the command failed, and
/// else registers the output where the task asks for it. The result names the variable
/// that has received the output, if any.
pub fn handle_command_execution(
    result: Result<Register, String>,
    register: &Option<String>,
    vars_map: &mut Context,
) -> (r: Result<Option<String>, ExecError>)
    ensures
        (final(vars_map)@, handled_view(r)) == execution_spec(
            execution_view(result),
            opt_view(*register),
            old(vars_map)@,
        ),
{
    match result {
        Err(message) => Err(ExecError::CommandSpawnError(message)),
        Ok(out) => {
            if out.rc != 0 {
                Err(ExecError::NonZeroExit(out.rc))
            } else {
                match register {
                    Some(name) => {
                        vars_map.insert(name.clone(), out.to_value());
                        Ok(Some(name.clone()))
                    },
                    None => Ok(None),
                }
            }
        },
    }
}

} // verus!
