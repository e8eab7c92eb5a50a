//! The task engine: a machine that works through a list of tasks one small step at a
//! time, and stops wherever something has to be done outside of it: a command to run, or
//! a file of tasks to read. Whoever drives the machine does that and hands the outcome
//! back.

use crate::common::{
    models, register_model, text_entries, text_map_get_index, text_map_len, Register,
    Task, TaskModel,
    TextPair,
};
use crate::context::{bind, unbind, Binding, Context};
use crate::json::{Json, JsonModel};
use crate::modules::command::{
    execution_spec, execution_view, handle_command_execution, request_spec, CommandRequest,
    CommandRequestModel, ExecError, ExecErrorModel,
};
use crate::modules::debug::{debug_spec, entries_of, pair_views, render_messages};
use crate::modules::include_tasks::{loaded_view, task_views, IncludeResolutionError};
use crate::modules::when::when_spec;
use crate::text::{opt_view, views};
use crate::utils::{
    coerce_spec, render_spec, replace_placeholders, replace_placeholders_vars, split_commands,
    split_commands_spec, RenderError, RenderErrorModel,
};
use indexmap::IndexMap;
use vstd::prelude::*;

verus! {

/// Why a run has ended before its tasks were done.
#[derive(Debug, Clone, PartialEq, Eq)]
pub enum RunError {
    /// A template could not be expanded.
    Render(RenderError),
    /// A command failed.
    Command(ExecError),
    /// A file of tasks could not be included.
    Include(IncludeResolutionError),
}

/// The mathematical model of a [`RunError`].
pub enum RunErrorModel {
    Render(RenderErrorModel),
    Command(ExecErrorModel),
    Include { file: Seq<char>, message: Seq<char> },
}

impl View for RunError {
    type V = RunErrorModel;

    open spec fn view(&self) -> RunErrorModel {
        match self {
            RunError::Render(e) => RunErrorModel::Render(e@),
            RunError::Command(e) => RunErrorModel::Command(e@),
            RunError::Include(e) => RunErrorModel::Include { file: e.file@, message: e.message@ },
        }
    }
}

/// Something to tell the operator.
#[derive(Debug, Clone, PartialEq, Eq)]
pub enum Notice {
    /// A task is passed over because its condition does not hold.
    Skipping(String),
    /// A task begins.
    Executing(String),
    /// The debug messages of a task: labels with messages.
    Debug(Vec<(String, String)>),
    /// The output of a command has been stored under a name.
    Registering(String),
    /// A task has ended.
    TaskDone,
}

/// The mathematical model of a [`Notice`].
pub enum NoticeModel {
    Skipping(Seq<char>),
    Executing(Seq<char>),
    Debug(Seq<TextPair>),
    Registering(Seq<char>),
    TaskDone,
}

impl View for Notice {
    type V = NoticeModel;

    open spec fn view(&self) -> NoticeModel {
        match self {
            Notice::Skipping(name) => NoticeModel::Skipping(name@),
            Notice::Executing(name) => NoticeModel::Executing(name@),
            Notice::Debug(lines) => NoticeModel::Debug(pair_views(lines@)),
            Notice::Registering(name) => NoticeModel::Registering(name@),
            Notice::TaskDone => NoticeModel::TaskDone,
        }
    }
}

/// The model of a notice that may be absent.
pub open spec fn opt_notice(notice: Option<Notice>) -> Option<NoticeModel> {
    match notice {
        Some(n) => Some(n@),
        None => None,
    }
}

/// What is left when the variables `entries` are set one after the other in the context
/// `vars`, each to what its template stands for in the context as the earlier ones have
/// left it; and the failure of the first template that stands for nothing, after which no
/// further variable is set.
pub open spec fn merge_spec(entries: Seq<TextPair>, vars: Seq<Binding>) -> (
    Seq<Binding>,
    Option<RenderErrorModel>,
)
    decreases entries.len(),
{
    if entries.len() == 0 {
        (vars, None)
    } else {
        let (before, failure) = merge_spec(entries.drop_last(), vars);
        match failure {
            Some(e) => (before, Some(e)),
            None => match coerce_spec(entries.last().1, before) {
                Ok(value) => (bind(before, entries.last().0, value), None),
                Err(e) => (before, Some(e)),
            },
        }
    }
}

/// A failure among the first variables ends the merge.
proof fn lemma_merge_failure(entries: Seq<TextPair>, k: nat, vars: Seq<Binding>)
    requires
        k <= entries.len(),
        merge_spec(entries.take(k as int), vars).1 is Some,
    ensures
        merge_spec(entries, vars) == merge_spec(entries.take(k as int), vars),
    decreases entries.len(),
{
    if k < entries.len() {
        assert(entries.drop_last().take(k as int) =~= entries.take(k as int));
        lemma_merge_failure(entries.drop_last(), k, vars);
    } else {
        assert(entries.take(k as int) =~= entries);
    }
}

/// The model of a failure that may be absent.
pub open spec fn failure_view(r: Result<(), RenderError>) -> Option<RenderErrorModel> {
    match r {
        Ok(_) => None,
        Err(e) => Some(e@),
    }
}

/// Sets the variables of `vars` in the context, in their order; each template sees what the
/// ones before it have set.
pub fn merge_vars(vars: &IndexMap<String, String>, context: &mut Context) -> (r: Result<
    (),
    RenderError,
>)
    ensures
        (final(context)@, failure_view(r)) == merge_spec(text_entries(*vars), old(context)@),
{
    let ghost all = text_entries(*vars);
    let ghost start = context@;
    let n: usize = text_map_len(vars);
    let mut i: usize = 0;
    assert(all.take(0) =~= Seq::<TextPair>::empty());
    while i < n
        invariant
            n == all.len(),
            i <= n,
            all == text_entries(*vars),
            start == old(context)@,
            merge_spec(all.take(i as int), start) == (context@, None::<RenderErrorModel>),
        decreases n - i,
    {
        let ghost before = all.take(i as int);
        let ghost next = all.take(i + 1);
        proof {
            assert(next.drop_last() =~= before);
            assert(next.last() == all[i as int]);
        }
        match text_map_get_index(vars, i) {
            Some((name, template)) => {
                match replace_placeholders_vars(template.as_str(), context) {
                    Ok(value) => {
                        context.insert(name.clone(), value);
                    },
                    Err(e) => {
                        proof {
                            assert(merge_spec(next, start) == (context@, Some(e@)));
                            lemma_merge_failure(all, (i + 1) as nat, start);
                        }
                        return Err(e);
                    },
                }
            },
            None => {},
        }
        i += 1;
    }
    assert(all.take(i as int) =~= all);
    Ok(())
}

/// One pending piece of a run.
#[derive(Debug)]
pub enum Instr {
    /// A task begins: its name is expanded and its condition decided.
    Start { task: Task, chdir: Option<String> },
    /// A task that runs is laid out: its variables are set, its working directory is
    /// found, and its iterations take its place.
    Prepare { task: Task, chdir: Option<String> },
    /// An iteration begins: `item` is bound anew.
    Bind(Json),
    /// Debug messages are shown: labels with message templates.
    Debug(Vec<(String, String)>),
    /// A command runs.
    Run { template: String, use_shell: bool, register: Option<String>, chdir: Option<String> },
    /// A file of tasks is included.
    Include { file: String, chdir: Option<String> },
    /// A task ends.
    Finish,
}

/// The mathematical model of an [`Instr`].
pub enum InstrModel {
    Start { task: TaskModel, chdir: Option<Seq<char>> },
    Prepare { task: TaskModel, chdir: Option<Seq<char>> },
    Bind(JsonModel),
    Debug(Seq<TextPair>),
    Run {
        template: Seq<char>,
        use_shell: bool,
        register: Option<Seq<char>>,
        chdir: Option<Seq<char>>,
    },
    Include { file: Seq<char>, chdir: Option<Seq<char>> },
    Finish,
}

impl View for Instr {
    type V = InstrModel;

    open spec fn view(&self) -> InstrModel {
        match self {
            Instr::Start { task, chdir } => InstrModel::Start {
                task: task@,
                chdir: opt_view(*chdir),
            },
            Instr::Prepare { task, chdir } => InstrModel::Prepare {
                task: task@,
                chdir: opt_view(*chdir),
            },
            Instr::Bind(item) => InstrModel::Bind(item@),
            Instr::Debug(entries) => InstrModel::Debug(pair_views(entries@)),
            Instr::Run { template, use_shell, register, chdir } => InstrModel::Run {
                template: template@,
                use_shell: *use_shell,
                register: opt_view(*register),
                chdir: opt_view(*chdir),
            },
            Instr::Include { file, chdir } => InstrModel::Include {
                file: file@,
                chdir: opt_view(*chdir),
            },
            Instr::Finish => InstrModel::Finish,
        }
    }
}

/// The models of a sequence of instructions, in its order.
pub open spec fn instr_views(instrs: Seq<Instr>) -> Seq<InstrModel> {
    Seq::new(instrs.len(), |i: int| instrs[i]@)
}

/// The models of a stack of instructions, from its top, which is the end of the
/// sequence, to its bottom.
pub open spec fn stack_view(stack: Seq<Instr>) -> Seq<InstrModel> {
    Seq::new(stack.len(), |i: int| stack[stack.len() - 1 - i]@)
}

/// What is pushed becomes the top.
pub proof fn lemma_stack_push(stack: Seq<Instr>, top: Instr)
    ensures
        stack_view(stack.push(top)) == seq![top@] + stack_view(stack),
{
    assert(stack_view(stack.push(top)) =~= seq![top@] + stack_view(stack));
}

/// What is popped was the top.
pub proof fn lemma_stack_pop(stack: Seq<Instr>)
    requires
        stack.len() > 0,
    ensures
        stack_view(stack)[0] == stack.last()@,
        stack_view(stack.drop_last()) == stack_view(stack).drop_first(),
{
    assert(stack_view(stack.drop_last()) =~= stack_view(stack).drop_first());
}

/// Puts `plan` on the stack, so that its first instruction becomes the top.
pub fn push_plan(pending: &mut Vec<Instr>, plan: Vec<Instr>)
    ensures
        stack_view(final(pending)@) == instr_views(plan@) + stack_view(old(pending)@),
{
    let ghost all = instr_views(plan@);
    let ghost base = stack_view(pending@);
    let mut plan = plan;
    assert(all.skip(plan@.len() as int) + base =~= base);
    assert(all.take(plan@.len() as int) =~= instr_views(plan@));
    loop
        invariant
            plan@.len() <= all.len(),
            instr_views(plan@) == all.take(plan@.len() as int),
            stack_view(pending@) == all.skip(plan@.len() as int) + base,
        ensures
            stack_view(pending@) == all + base,
        decreases plan@.len(),
    {
        let ghost before = plan@;
        match plan.pop() {
            Some(instr) => {
                proof {
                    lemma_stack_push(pending@, instr);
                    assert(instr@ == all[before.len() - 1]) by {
                        assert(instr_views(before)[before.len() - 1] == instr@);
                    }
                    assert(instr_views(plan@) =~= all.take(plan@.len() as int));
                    assert(seq![instr@] + (all.skip(before.len() as int) + base) =~= all.skip(
                        plan@.len() as int,
                    ) + base);
                }
                pending.push(instr);
            },
            None => {
                assert(all.skip(0) =~= all);
                break ;
            },
        }
    }
}

/// One `Run` for each of `commands`, in order.
pub open spec fn runs(
    commands: Seq<Seq<char>>,
    use_shell: bool,
    register: Option<Seq<char>>,
    chdir: Option<Seq<char>>,
) -> Seq<InstrModel> {
    Seq::new(
        commands.len(),
        |i: int| InstrModel::Run { template: commands[i], use_shell, register, chdir },
    )
}

/// The `Run`s of a field of commands that may be absent.
pub open spec fn field_runs(
    field: Option<Seq<char>>,
    use_shell: bool,
    register: Option<Seq<char>>,
    chdir: Option<Seq<char>>,
) -> Seq<InstrModel> {
    match field {
        Some(text) => runs(split_commands_spec(text), use_shell, register, chdir),
        None => Seq::empty(),
    }
}

/// What one iteration of `task` does once `item` is bound: it shows the debug messages,
/// runs the commands of `shell` through the shell and then those of `command` directly,
/// and includes the file of tasks; each of these where the task has it. `chdir` is the
/// task's working directory.
pub open spec fn body_plan(task: TaskModel, chdir: Option<Seq<char>>) -> Seq<InstrModel> {
    (match task.debug {
        Some(entries) => seq![InstrModel::Debug(entries)],
        None => Seq::empty(),
    }) + field_runs(task.shell, true, task.register, chdir) + field_runs(
        task.command,
        false,
        task.register,
        chdir,
    ) + (match task.include_tasks {
        Some(file) => seq![InstrModel::Include { file, chdir }],
        None => Seq::empty(),
    })
}

/// One iteration for each of `items`, in order: the item is bound, then `body` follows.
pub open spec fn iterations(items: Seq<JsonModel>, body: Seq<InstrModel>) -> Seq<InstrModel>
    decreases items.len(),
{
    if items.len() == 0 {
        Seq::empty()
    } else {
        iterations(items.drop_last(), body) + seq![InstrModel::Bind(items.last())] + body
    }
}

/// The values that a task runs for: those of its loop, or `null` alone where it has none.
pub open spec fn loop_values(task: TaskModel) -> Seq<JsonModel> {
    match task.loop_items {
        Some(items) => items,
        None => seq![JsonModel::Null],
    }
}

/// What takes the place of a task that runs: its iterations, and its end.
pub open spec fn plan_spec(task: TaskModel, chdir: Option<Seq<char>>) -> Seq<InstrModel> {
    iterations(loop_values(task), body_plan(task, chdir)) + seq![InstrModel::Finish]
}

/// One `Start` for each of `tasks`, in order.
pub open spec fn starts(tasks: Seq<TaskModel>, chdir: Option<Seq<char>>) -> Seq<InstrModel> {
    Seq::new(tasks.len(), |i: int| InstrModel::Start { task: tasks[i], chdir })
}

/// Appends one `Run` for each logical command of `text`.
fn push_runs(
    plan: &mut Vec<Instr>,
    text: &str,
    use_shell: bool,
    register: &Option<String>,
    chdir: &Option<String>,
)
    ensures
        instr_views(final(plan)@) == instr_views(old(plan)@) + runs(
            split_commands_spec(text@),
            use_shell,
            opt_view(*register),
            opt_view(*chdir),
        ),
{
    let commands = split_commands(text);
    let ghost base = instr_views(plan@);
    let ghost all = runs(views(commands@), use_shell, opt_view(*register), opt_view(*chdir));
    let mut i: usize = 0;
    assert(base + all.take(0) =~= base);
    while i < commands.len()
        invariant
            i <= commands.len(),
            all == runs(views(commands@), use_shell, opt_view(*register), opt_view(*chdir)),
            instr_views(plan@) == base + all.take(i as int),
        decreases commands.len() - i,
    {
        let instr = Instr::Run {
            template: commands[i].clone(),
            use_shell,
            register: register.clone(),
            chdir: chdir.clone(),
        };
        proof {
            assert(all.len() == commands@.len());
            assert(views(commands@)[i as int] == commands@[i as int]@);
            assert(instr@ == all[i as int]);
            let next = instr_views(plan@.push(instr));
            let want = base + all.take(i + 1);
            assert(all.take(i as int).len() == i);
            assert(all.take(i + 1).len() == i + 1);
            assert(instr_views(plan@).len() == plan@.len());
            assert((base + all.take(i as int)).len() == base.len() + i);
            assert(next.len() == want.len());
            assert forall|k: int| 0 <= k < next.len() implies next[k] == want[k] by {
                if k < plan@.len() {
                    assert(next[k] == instr_views(plan@)[k]);
                    assert((base + all.take(i as int))[k] == want[k]);
                }
            }
            assert(next =~= want);
        }
        plan.push(instr);
        i += 1;
    }
    assert(all.take(i as int) =~= all);
}

/// Appends what one iteration of `task` does once its item is bound.
fn push_body(plan: &mut Vec<Instr>, task: &Task, chdir: &Option<String>)
    ensures
        instr_views(final(plan)@) == instr_views(old(plan)@) + body_plan(task@, opt_view(*chdir)),
{
    let ghost base = instr_views(plan@);
    let ghost t = task@;
    let ghost c = opt_view(*chdir);
    let ghost part1 = match t.debug {
        Some(entries) => seq![InstrModel::Debug(entries)],
        None => Seq::empty(),
    };
    match &task.debug {
        Some(debug) => {
            let instr = Instr::Debug(entries_of(debug));
            proof {
                assert(instr_views(plan@.push(instr)) =~= base + part1);
            }
            plan.push(instr);
        },
        None => {
            assert(base + part1 =~= base);
        },
    }
    match &task.shell {
        Some(text) => {
            push_runs(plan, text.as_str(), true, &task.register, chdir);
        },
        None => {
            assert(instr_views(plan@) + field_runs(t.shell, true, t.register, c) =~= instr_views(
                plan@,
            ));
        },
    }
    match &task.command {
        Some(text) => {
            push_runs(plan, text.as_str(), false, &task.register, chdir);
        },
        None => {
            assert(instr_views(plan@) + field_runs(t.command, false, t.register, c)
                =~= instr_views(plan@));
        },
    }
    let ghost part3 = base + part1 + field_runs(t.shell, true, t.register, c) + field_runs(
        t.command,
        false,
        t.register,
        c,
    );
    assert(instr_views(plan@) == part3);
    match &task.include_tasks {
        Some(file) => {
            let instr = Instr::Include { file: file.clone(), chdir: chdir.clone() };
            proof {
                assert(instr_views(plan@.push(instr)) =~= part3 + seq![instr@]);
            }
            plan.push(instr);
        },
        None => {
            assert(part3 + Seq::<InstrModel>::empty() =~= part3);
        },
    }
    assert(instr_views(plan@) =~= base + body_plan(t, c));
}

/// Lays out a task that runs: its iterations in order, and its end.
fn build_plan(task: &Task, chdir: &Option<String>) -> (plan: Vec<Instr>)
    ensures
        instr_views(plan@) == plan_spec(task@, opt_view(*chdir)),
{
    let ghost body = body_plan(task@, opt_view(*chdir));
    let ghost values = loop_values(task@);
    let mut plan: Vec<Instr> = Vec::new();
    assert(instr_views(plan@) =~= iterations(values.take(0), body));
    match &task.loop_items {
        Some(items) => {
            let mut i: usize = 0;
            while i < items.len()
                invariant
                    i <= items.len(),
                    values == models(items@),
                    body == body_plan(task@, opt_view(*chdir)),
                    instr_views(plan@) == iterations(values.take(i as int), body),
                decreases items.len() - i,
            {
                let instr = Instr::Bind(items[i].clone());
                proof {
                    let next = values.take(i + 1);
                    assert(next.drop_last() =~= values.take(i as int));
                    assert(next.last() == items@[i as int]@);
                    assert(instr_views(plan@.push(instr)) =~= instr_views(plan@) + seq![instr@]);
                }
                plan.push(instr);
                push_body(&mut plan, task, chdir);
                i += 1;
            }
            assert(values.take(i as int) =~= values);
        },
        None => {
            let instr = Instr::Bind(Json::Null);
            proof {
                assert(values.drop_last() =~= values.take(0));
                assert(instr_views(plan@.push(instr)) =~= instr_views(plan@) + seq![instr@]);
            }
            plan.push(instr);
            push_body(&mut plan, task, chdir);
        },
    }
    proof {
        assert(instr_views(plan@.push(Instr::Finish)) =~= instr_views(plan@)
            + seq![InstrModel::Finish]);
    }
    plan.push(Instr::Finish);
    plan
}

/// Puts one `Start` for each of `tasks` on the stack, so that the first task becomes the
/// top.
fn push_tasks(pending: &mut Vec<Instr>, tasks: Vec<Task>, chdir: &Option<String>)
    ensures
        stack_view(final(pending)@) == starts(task_views(tasks@), opt_view(*chdir)) + stack_view(
            old(pending)@,
        ),
{
    let ghost all = starts(task_views(tasks@), opt_view(*chdir));
    let ghost base = stack_view(pending@);
    let ghost original = tasks@;
    let mut tasks = tasks;
    assert(all.skip(tasks@.len() as int) + base =~= base);
    assert(original.take(tasks@.len() as int) =~= tasks@);
    loop
        invariant
            tasks@.len() <= original.len(),
            tasks@ == original.take(tasks@.len() as int),
            all == starts(task_views(original), opt_view(*chdir)),
            stack_view(pending@) == all.skip(tasks@.len() as int) + base,
        ensures
            stack_view(pending@) == all + base,
        decreases tasks@.len(),
    {
        let ghost before = tasks@;
        match tasks.pop() {
            Some(task) => {
                let instr = Instr::Start { task, chdir: chdir.clone() };
                proof {
                    lemma_stack_push(pending@, instr);
                    assert(task == original[before.len() - 1]);
                    assert(instr@ == all[before.len() - 1]);
                    assert(tasks@ =~= original.take(tasks@.len() as int));
                    assert(seq![instr@] + (all.skip(before.len() as int) + base) =~= all.skip(
                        tasks@.len() as int,
                    ) + base);
                }
                pending.push(instr);
            },
            None => {
                assert(all.skip(0) =~= all);
                break ;
            },
        }
    }
}

/// The name under which the value of an iteration is bound.
pub open spec fn item_name() -> Seq<char> {
    seq!['i', 't', 'e', 'm']
}

/// The context as an iteration finds it: the binding of `item` is removed, and where the
/// value of the iteration is not `null`, `item` is bound to it.
pub open spec fn rebind_item(vars: Seq<Binding>, item: JsonModel) -> Seq<Binding> {
    if item == JsonModel::Null {
        unbind(vars, item_name())
    } else {
        bind(unbind(vars, item_name()), item_name(), item)
    }
}

/// The task engine between two steps: the context, and what is still to be done.
pub struct Engine {
    context: Context,
    pending: Vec<Instr>,
}

/// The mathematical model of an [`Engine`].
pub struct EngineModel {
    /// The variables.
    pub context: Seq<Binding>,
    /// What is still to be done, next first.
    pub pending: Seq<InstrModel>,
}

impl View for Engine {
    type V = EngineModel;

    closed spec fn view(&self) -> EngineModel {
        EngineModel { context: self.context@, pending: stack_view(self.pending@) }
    }
}

/// An engine that waits for the outcome of a command.
pub struct AwaitingCommand {
    engine: Engine,
    register: Option<String>,
}

/// The mathematical model of an [`AwaitingCommand`].
pub struct AwaitingCommandModel {
    pub engine: EngineModel,
    /// The variable that is to receive the command's output.
    pub register: Option<Seq<char>>,
}

impl View for AwaitingCommand {
    type V = AwaitingCommandModel;

    closed spec fn view(&self) -> AwaitingCommandModel {
        AwaitingCommandModel { engine: self.engine@, register: opt_view(self.register) }
    }
}

/// An engine that waits for a file of tasks to be read.
pub struct AwaitingTasks {
    engine: Engine,
    file: String,
    chdir: Option<String>,
}

/// The mathematical model of an [`AwaitingTasks`].
pub struct AwaitingTasksModel {
    pub engine: EngineModel,
    /// The file, as the task names it.
    pub file: Seq<char>,
    /// The working directory that the included tasks inherit.
    pub chdir: Option<Seq<char>>,
}

impl View for AwaitingTasks {
    type V = AwaitingTasksModel;

    closed spec fn view(&self) -> AwaitingTasksModel {
        AwaitingTasksModel {
            engine: self.engine@,
            file: self.file@,
            chdir: opt_view(self.chdir),
        }
    }
}

/// Where a step has led.
pub enum Progress {
    /// One thing was done without help; there may be something to tell.
    Advanced(Option<Notice>, Engine),
    /// A command is to be run, and its outcome handed back.
    Run(CommandRequest, AwaitingCommand),
    /// A file of tasks is to be read, and its tasks handed back.
    Load(String, AwaitingTasks),
    /// Nothing is left to do; the context is as the tasks have left it.
    Finished(Context),
    /// The run has failed, and nothing of it goes on.
    Failed(RunError),
}

/// The mathematical model of a [`Progress`].
pub enum ProgressModel {
    Advanced(Option<NoticeModel>, EngineModel),
    Run(CommandRequestModel, AwaitingCommandModel),
    Load(Seq<char>, AwaitingTasksModel),
    Finished(Seq<Binding>),
    Failed(RunErrorModel),
}

impl View for Progress {
    type V = ProgressModel;

    open spec fn view(&self) -> ProgressModel {
        match self {
            Progress::Advanced(notice, engine) => ProgressModel::Advanced(
                opt_notice(*notice),
                engine@,
            ),
            Progress::Run(request, waiting) => ProgressModel::Run(request@, waiting@),
            Progress::Load(file, waiting) => ProgressModel::Load(file@, waiting@),
            Progress::Finished(context) => ProgressModel::Finished(context@),
            Progress::Failed(e) => ProgressModel::Failed(e@),
        }
    }
}

/// What the beginning of a task leads to. The name is expanded for display, and a name
/// that cannot be expanded ends the run; so does a condition that cannot be decided. A
/// task whose condition does not hold is passed over: the context stays as it is, and
/// nothing of the task is left to do. Any other task is laid out next.
pub open spec fn start_spec(
    task: TaskModel,
    chdir: Option<Seq<char>>,
    vars: Seq<Binding>,
    rest: Seq<InstrModel>,
) -> ProgressModel {
    match render_spec(task.name, vars) {
        Err(e) => ProgressModel::Failed(RunErrorModel::Render(e)),
        Ok(name) => match when_spec(task.when, vars) {
            Err(e) => ProgressModel::Failed(RunErrorModel::Render(e)),
            Ok(runs) => if runs {
                ProgressModel::Advanced(
                    Some(NoticeModel::Executing(name)),
                    EngineModel {
                        context: vars,
                        pending: seq![InstrModel::Prepare { task, chdir }] + rest,
                    },
                )
            } else {
                ProgressModel::Advanced(
                    Some(NoticeModel::Skipping(name)),
                    EngineModel { context: vars, pending: rest },
                )
            },
        },
    }
}

/// The context once the variables of a task are set, and the failure that has ended the
/// setting, if any.
pub open spec fn task_vars_spec(task: TaskModel, vars: Seq<Binding>) -> (
    Seq<Binding>,
    Option<RenderErrorModel>,
) {
    match task.vars {
        Some(entries) => merge_spec(entries, vars),
        None => (vars, None),
    }
}

/// The template of a task's working directory: its own, or else the one it inherits.
pub open spec fn chdir_template(task: TaskModel, inherited: Option<Seq<char>>) -> Option<
    Seq<char>,
> {
    match task.chdir {
        Some(own) => Some(own),
        None => inherited,
    }
}

/// What the laying out of a task leads to: its variables are set, its working directory
/// is expanded in the context that they leave, and its iterations and its end come before
/// what was pending. A template that cannot be expanded ends the run.
pub open spec fn prepare_spec(
    task: TaskModel,
    chdir: Option<Seq<char>>,
    vars: Seq<Binding>,
    rest: Seq<InstrModel>,
) -> ProgressModel {
    let (merged, failure) = task_vars_spec(task, vars);
    match failure {
        Some(e) => ProgressModel::Failed(RunErrorModel::Render(e)),
        None => match chdir_template(task, chdir) {
            None => ProgressModel::Advanced(
                None,
                EngineModel { context: merged, pending: plan_spec(task, None) + rest },
            ),
            Some(template) => match render_spec(template, merged) {
                Err(e) => ProgressModel::Failed(RunErrorModel::Render(e)),
                Ok(dir) => ProgressModel::Advanced(
                    None,
                    EngineModel { context: merged, pending: plan_spec(task, Some(dir)) + rest },
                ),
            },
        },
    }
}

/// Where one step leads from the state `m`: the next pending instruction is carried out,
/// or handed out where it needs something done outside.
pub open spec fn step_spec(m: EngineModel) -> ProgressModel {
    if m.pending.len() == 0 {
        ProgressModel::Finished(m.context)
    } else {
        let rest = m.pending.drop_first();
        let after = EngineModel { context: m.context, pending: rest };
        match m.pending[0] {
            InstrModel::Start { task, chdir } => start_spec(task, chdir, m.context, rest),
            InstrModel::Prepare { task, chdir } => prepare_spec(task, chdir, m.context, rest),
            InstrModel::Bind(item) => ProgressModel::Advanced(
                None,
                EngineModel { context: rebind_item(m.context, item), pending: rest },
            ),
            InstrModel::Debug(entries) => match debug_spec(entries, m.context) {
                Ok(lines) => ProgressModel::Advanced(Some(NoticeModel::Debug(lines)), after),
                Err(e) => ProgressModel::Failed(RunErrorModel::Render(e)),
            },
            InstrModel::Run { template, use_shell, register, chdir } => match request_spec(
                template,
                use_shell,
                chdir,
                register,
                m.context,
            ) {
                Ok(request) => ProgressModel::Run(
                    request,
                    AwaitingCommandModel { engine: after, register },
                ),
                Err(e) => ProgressModel::Failed(RunErrorModel::Render(e)),
            },
            InstrModel::Include { file, chdir } => ProgressModel::Load(
                file,
                AwaitingTasksModel { engine: after, file, chdir },
            ),
            InstrModel::Finish => ProgressModel::Advanced(Some(NoticeModel::TaskDone), after),
        }
    }
}

/// Where the outcome of a command leads: a command that failed ends the run; after any
/// other the run goes on, with the output registered where the task asks for it.
pub open spec fn finished_spec(
    w: AwaitingCommandModel,
    result: Result<(Seq<char>, Seq<char>, int), Seq<char>>,
) -> ProgressModel {
    let (vars, handled) = execution_spec(result, w.register, w.engine.context);
    match handled {
        Err(e) => ProgressModel::Failed(RunErrorModel::Command(e)),
        Ok(name) => ProgressModel::Advanced(
            match name {
                Some(n) => Some(NoticeModel::Registering(n)),
                None => None,
            },
            EngineModel { context: vars, pending: w.engine.pending },
        ),
    }
}

/// Where the reading of a file of tasks leads: a file that could not be read ends the
/// run; the tasks of any other come before what was pending, in their order, and inherit
/// the working directory of the task that includes them.
pub open spec fn loaded_spec(
    w: AwaitingTasksModel,
    loaded: Result<Seq<TaskModel>, Seq<char>>,
) -> ProgressModel {
    match loaded {
        Err(message) => ProgressModel::Failed(
            RunErrorModel::Include { file: w.file, message },
        ),
        Ok(tasks) => ProgressModel::Advanced(
            None,
            EngineModel {
                context: w.engine.context,
                pending: starts(tasks, w.chdir) + w.engine.pending,
            },
        ),
    }
}

impl Engine {
    /// An engine that is to work through `tasks` in their order, with `chdir` as the
    /// working directory that they inherit, in the context `context`.
    pub fn new(tasks: Vec<Task>, chdir: Option<String>, context: Context) -> (engine: Engine)
        ensures
            engine@ == (EngineModel {
                context: context@,
                pending: starts(task_views(tasks@), opt_view(chdir)),
            }),
    {
        let mut pending: Vec<Instr> = Vec::new();
        push_tasks(&mut pending, tasks, &chdir);
        proof {
            let s = starts(task_views(tasks@), opt_view(chdir));
            assert(s + stack_view(Seq::<Instr>::empty()) =~= s);
        }
        Engine { context, pending }
    }

    /// The context as it stands.
    pub fn context(&self) -> (context: &Context)
        ensures
            context@ == self@.context,
    {
        &self.context
    }

    /// Whether anything is left to do.
    pub fn is_done(&self) -> (done: bool)
        ensures
            done == (self@.pending.len() == 0),
    {
        self.pending.len() == 0
    }

    fn start_task(self, task: Task, chdir: Option<String>) -> (progress: Progress)
        ensures
            progress@ == start_spec(task@, opt_view(chdir), self@.context, self@.pending),
    {
        let Engine { context, pending } = self;
        let mut pending = pending;
        let name = match replace_placeholders(task.name.as_str(), &context) {
            Ok(name) => name,
            Err(e) => {
                return Progress::Failed(RunError::Render(e));
            },
        };
        match crate::modules::when::process(&task.when, &context) {
            Err(e) => Progress::Failed(RunError::Render(e)),
            Ok(runs) => {
                if runs {
                    let instr = Instr::Prepare { task, chdir };
                    proof {
                        lemma_stack_push(pending@, instr);
                    }
                    pending.push(instr);
                    Progress::Advanced(Some(Notice::Executing(name)), Engine { context, pending })
                } else {
                    Progress::Advanced(Some(Notice::Skipping(name)), Engine { context, pending })
                }
            },
        }
    }

    fn prepare_task(self, task: Task, chdir: Option<String>) -> (progress: Progress)
        ensures
            progress@ == prepare_spec(task@, opt_view(chdir), self@.context, self@.pending),
    {
        let Engine { context, pending } = self;
        let mut pending = pending;
        let mut context = context;
        match &task.vars {
            Some(vars) => {
                match merge_vars(vars, &mut context) {
                    Ok(_) => {},
                    Err(e) => {
                        return Progress::Failed(RunError::Render(e));
                    },
                }
            },
            None => {},
        }
        let template: &Option<String> = match &task.chdir {
            Some(_) => &task.chdir,
            None => &chdir,
        };
        assert(opt_view(*template) == chdir_template(task@, opt_view(chdir)));
        let dir: Option<String> = match template {
            None => None,
            Some(t) => match replace_placeholders(t.as_str(), &context) {
                Ok(dir) => Some(dir),
                Err(e) => {
                    return Progress::Failed(RunError::Render(e));
                },
            },
        };
        let plan = build_plan(&task, &dir);
        push_plan(&mut pending, plan);
        Progress::Advanced(None, Engine { context, pending })
    }

    /// Takes one step: carries out what is next, or hands it out where it needs something
    /// done outside.
    pub fn next(self) -> (progress: Progress)
        ensures
            progress@ == step_spec(self@),
    {
        let Engine { context, pending } = self;
        let mut pending = pending;
        let mut context = context;
        let ghost before = pending@;
        let instr = match pending.pop() {
            None => {
                return Progress::Finished(context);
            },
            Some(instr) => instr,
        };
        proof {
            lemma_stack_pop(before);
        }
        match instr {
            Instr::Start { task, chdir } => (Engine { context, pending }).start_task(task, chdir),
            Instr::Prepare { task, chdir } => (Engine { context, pending }).prepare_task(
                task,
                chdir,
            ),
            Instr::Bind(item) => {
                proof {
                    reveal_strlit("item");
                    assert("item"@ =~= item_name());
                }
                context.remove("item");
                if !item.is_null() {
                    context.insert("item".to_owned(), item);
                }
                Progress::Advanced(None, Engine { context, pending })
            },
            Instr::Debug(entries) => match render_messages(&entries, &context) {
                Ok(lines) => Progress::Advanced(
                    Some(Notice::Debug(lines)),
                    Engine { context, pending },
                ),
                Err(e) => Progress::Failed(RunError::Render(e)),
            },
            Instr::Run { template, use_shell, register, chdir } => {
                match crate::modules::command::process(
                    template.as_str(),
                    use_shell,
                    &chdir,
                    &register,
                    &context,
                ) {
                    Ok(request) => Progress::Run(
                        request,
                        AwaitingCommand { engine: Engine { context, pending }, register },
                    ),
                    Err(e) => Progress::Failed(RunError::Render(e)),
                }
            },
            Instr::Include { file, chdir } => Progress::Load(
                file.clone(),
                AwaitingTasks { engine: Engine { context, pending }, file, chdir },
            ),
            Instr::Finish => Progress::Advanced(
                Some(Notice::TaskDone),
                Engine { context, pending },
            ),
        }
    }
}

impl AwaitingCommand {
    /// Takes in the outcome of the command: what it wrote and how it ended, or why it
    /// could not run.
    pub fn finished(self, result: Result<Register, String>) -> (progress: Progress)
        ensures
            progress@ == finished_spec(self@, execution_view(result)),
    {
        let AwaitingCommand { engine, register } = self;
        let Engine { context, pending } = engine;
        let mut context = context;
        match handle_command_execution(result, &register, &mut context) {
            Err(e) => Progress::Failed(RunError::Command(e)),
            Ok(name) => {
                let notice = match name {
                    Some(n) => Some(Notice::Registering(n)),
                    None => None,
                };
                Progress::Advanced(notice, Engine { context, pending })
            },
        }
    }
}

impl AwaitingTasks {
    /// Takes in the tasks of the file, or the reason why it could not be read.
    pub fn loaded(self, loaded: Result<Vec<Task>, String>) -> (progress: Progress)
        ensures
            progress@ == loaded_spec(self@, loaded_view(loaded)),
    {
        let AwaitingTasks { engine, file, chdir } = self;
        let Engine { context, pending } = engine;
        let mut pending = pending;
        match crate::modules::include_tasks::process(file.as_str(), loaded) {
            Err(e) => Progress::Failed(RunError::Include(e)),
            Ok(tasks) => {
                push_tasks(&mut pending, tasks, &chdir);
                Progress::Advanced(None, Engine { context, pending })
            },
        }
    }
}

/// A task whose condition expands to exactly `false` has no effect: the step that begins
/// it either ends the run, because the task's name cannot be expanded, or leaves the
/// context as it is and leaves nothing of the task to do. Either way none of its
/// variables is set, none of its commands runs, and nothing is registered.
pub proof fn lemma_skipped_task_has_no_effect(m: EngineModel, condition: Seq<char>)
    requires
        m.pending.len() > 0,
        m.pending[0] is Start,
        m.pending[0]->Start_task.when == Some(condition),
        render_spec(crate::modules::when::condition_template(condition), m.context) == Ok::<
            Seq<char>,
            RenderErrorModel,
        >("false"@),
    ensures
        match render_spec(m.pending[0]->Start_task.name, m.context) {
            Ok(name) => step_spec(m) == ProgressModel::Advanced(
                Some(NoticeModel::Skipping(name)),
                EngineModel { context: m.context, pending: m.pending.drop_first() },
            ),
            Err(e) => step_spec(m) == ProgressModel::Failed(RunErrorModel::Render(e)),
        },
{
}

/// After a command that ended with the exit code zero, the context holds under the name
/// that the task registers an object with the command's output and exit code.
pub proof fn lemma_register_holds_output(
    w: AwaitingCommandModel,
    name: Seq<char>,
    stdout: Seq<char>,
    stderr: Seq<char>,
)
    requires
        w.register == Some(name),
    ensures
        finished_spec(w, Ok((stdout, stderr, 0int))) is Advanced,
        crate::context::lookup(
            finished_spec(w, Ok((stdout, stderr, 0int)))->Advanced_1.context,
            name,
        ) == Some(register_model(stdout, stderr, 0)),
        finished_spec(w, Ok((stdout, stderr, 0int)))->Advanced_1.pending == w.engine.pending,
{
    crate::context::lemma_lookup_bound(w.engine.context, name, register_model(stdout, stderr, 0));
}

/// A command that ends with an exit code other than zero ends the run: what comes of it
/// is a failure that names the code, and no engine is left that could take a further step.
pub proof fn lemma_failed_command_ends_run(
    w: AwaitingCommandModel,
    stdout: Seq<char>,
    stderr: Seq<char>,
    rc: int,
)
    requires
        rc != 0,
    ensures
        finished_spec(w, Ok((stdout, stderr, rc))) == ProgressModel::Failed(
            RunErrorModel::Command(ExecErrorModel::NonZeroExit(rc)),
        ),
{
}

/// An iteration binds `item` to its value, unless the value is `null`: then `item` is
/// bound to nothing. Every other variable stays as it was.
pub proof fn lemma_iteration_binds_item(m: EngineModel, item: JsonModel, other: Seq<char>)
    requires
        m.pending.len() > 0,
        m.pending[0] == InstrModel::Bind(item),
        other != item_name(),
    ensures
        step_spec(m) is Advanced,
        step_spec(m)->Advanced_1.pending == m.pending.drop_first(),
        crate::context::lookup(step_spec(m)->Advanced_1.context, item_name()) == if item
            == JsonModel::Null {
            None
        } else {
            Some(item)
        },
        crate::context::lookup(step_spec(m)->Advanced_1.context, other) == crate::context::lookup(
            m.context,
            other,
        ),
{
    let removed = unbind(m.context, item_name());
    crate::context::lemma_lookup_unbound(m.context, item_name());
    crate::context::lemma_lookup_unbind_other(m.context, item_name(), other);
    crate::context::lemma_lookup_bound(removed, item_name(), item);
    crate::context::lemma_lookup_bind_other(removed, item_name(), item, other);
}

/// A loop runs its body once for each of its values, in their order: the iterations of
/// `items` are as many stretches of one binding and the body, and the stretch of the
/// `k`-th value begins with the binding of that value.
pub proof fn lemma_iterations_layout(items: Seq<JsonModel>, body: Seq<InstrModel>, k: int)
    requires
        0 <= k < items.len(),
    ensures
        iterations(items, body).len() == items.len() * (1 + body.len()),
        iterations(items, body)[k * (1 + body.len())] == InstrModel::Bind(items[k]),
        iterations(items, body).subrange(
            k * (1 + body.len()) + 1,
            (k + 1) * (1 + body.len()),
        ) == body,
    decreases items.len(),
{
    let width = 1 + body.len();
    let init = items.drop_last();
    let before = iterations(init, body);
    let all = iterations(items, body);
    lemma_iterations_len(init, body);
    lemma_iterations_len(items, body);
    assert(init.len() * width + width == items.len() * width) by (nonlinear_arith)
        requires
            init.len() + 1 == items.len(),
    ;
    assert(k * width + width == (k + 1) * width) by (nonlinear_arith);
    if k < init.len() {
        lemma_iterations_layout(init, body, k);
        assert((k + 1) * width <= init.len() * width) by (nonlinear_arith)
            requires
                k + 1 <= init.len(),
                width >= 0,
        ;
        assert(0 <= k * width) by (nonlinear_arith)
            requires
                0 <= k,
                width >= 0,
        ;
        assert(all[k * width] == before[k * width]);
        assert(all.subrange(k * width + 1, (k + 1) * width) =~= before.subrange(
            k * width + 1,
            (k + 1) * width,
        ));
    } else {
        assert(k * width == before.len());
        assert(all[k * width] == InstrModel::Bind(items.last()));
        assert(all.subrange(k * width + 1, (k + 1) * width) =~= body);
    }
}

/// The iterations of `items` hold one binding and one body for each value.
pub proof fn lemma_iterations_len(items: Seq<JsonModel>, body: Seq<InstrModel>)
    ensures
        iterations(items, body).len() == items.len() * (1 + body.len()),
    decreases items.len(),
{
    if items.len() > 0 {
        lemma_iterations_len(items.drop_last(), body);
        assert((items.len() - 1) * (1 + body.len()) + 1 + body.len() == items.len() * (1
            + body.len())) by (nonlinear_arith);
    }
}

} // verus!
