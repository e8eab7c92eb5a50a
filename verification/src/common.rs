//! The data of a deployment: tasks, their debug messages, and what a command leaves behind.

use crate::json::{lemma_object_view, Json, JsonModel, MemberModel};
use crate::text::opt_view;
use indexmap::IndexMap;
use vstd::prelude::*;

verus! {

/// A pair of texts: a name with a template, or a label with a message.
pub type TextPair = (Seq<char>, Seq<char>);

/// What a map from names to templates holds: its entries in the map's order.
pub uninterp spec fn text_entries(map: IndexMap<String, String>) -> Seq<TextPair>;

/// `IndexMap::len`: the number of entries.
#[verifier::external_body]
pub(crate) fn text_map_len(map: &IndexMap<String, String>) -> (n: usize)
    ensures
        n == text_entries(*map).len(),
{
    map.len()
}

/// `IndexMap::get_index`: the entry at a position of the map's order, if the map has as
/// many.
#[verifier::external_body]
pub(crate) fn text_map_get_index(map: &IndexMap<String, String>, index: usize) -> (entry: Option<
    (&String, &String),
>)
    ensures
        match entry {
            Some((k, v)) => index < text_entries(*map).len() && (k@, v@) == text_entries(
                *map,
            )[index as int],
            None => index >= text_entries(*map).len(),
        },
{
    map.get_index(index)
}

/// `IndexMap::clone`: a map with the same entries in the same order.
#[verifier::external_body]
pub(crate) fn text_map_clone(map: &IndexMap<String, String>) -> (copy: IndexMap<String, String>)
    ensures
        text_entries(copy) == text_entries(*map),
{
    map.clone()
}

/// The model of a map that may be absent.
pub open spec fn opt_entries(map: Option<IndexMap<String, String>>) -> Option<Seq<TextPair>> {
    match map {
        Some(m) => Some(text_entries(m)),
        None => None,
    }
}

/// The models of a sequence of values.
pub open spec fn models(values: Seq<Json>) -> Seq<JsonModel> {
    Seq::new(values.len(), |i: int| values[i]@)
}

/// The debug messages of a task: labels with message templates, in order.
#[derive(Debug)]
pub struct Debug(pub IndexMap<String, String>);

impl Clone for Debug {
    fn clone(&self) -> (copy: Debug)
        ensures
            copy@ == self@,
    {
        Debug(text_map_clone(&self.0))
    }
}

/// Copies a list of values.
pub fn clone_values(values: &Vec<Json>) -> (copies: Vec<Json>)
    ensures
        models(copies@) == models(values@),
{
    let mut copies: Vec<Json> = Vec::new();
    let mut i: usize = 0;
    while i < values.len()
        invariant
            i <= values.len(),
            copies@.len() == i,
            forall|k: int| 0 <= k < i ==> (#[trigger] copies@[k])@ == values@[k]@,
        decreases values.len() - i,
    {
        copies.push(values[i].clone());
        i += 1;
    }
    assert(models(copies@) =~= models(values@));
    copies
}

impl View for Debug {
    type V = Seq<TextPair>;

    open spec fn view(&self) -> Seq<TextPair> {
        text_entries(self.0)
    }
}

/// What a finished command leaves behind.
#[derive(Debug, Clone)]
pub struct Register {
    /// Everything the command wrote to its standard output.
    pub stdout: String,
    /// Everything the command wrote to its standard error.
    pub stderr: String,
    /// The exit code.
    pub rc: i32,
}

/// The model of the value that stands for a command's result in the context: an object
/// with the members `stdout`, `stderr` and `rc`.
pub open spec fn register_model(stdout: Seq<char>, stderr: Seq<char>, rc: int) -> JsonModel {
    JsonModel::Object(
        seq![
            MemberModel {
                name: seq!['s', 't', 'd', 'o', 'u', 't'],
                value: JsonModel::Str(stdout),
            },
            MemberModel {
                name: seq!['s', 't', 'd', 'e', 'r', 'r'],
                value: JsonModel::Str(stderr),
            },
            MemberModel { name: seq!['r', 'c'], value: JsonModel::Int(rc) },
        ],
    )
}

impl Register {
    /// The value that stands for this result in the context.
    pub fn to_value(self) -> (value: Json)
        ensures
            value@ == register_model(self.stdout@, self.stderr@, self.rc as int),
    {
        let ghost model = register_model(self.stdout@, self.stderr@, self.rc as int);
        let stdout = Json::Str(self.stdout);
        let stderr = Json::Str(self.stderr);
        let rc = Json::Int(self.rc as i64);
        proof {
            reveal_strlit("stdout");
            reveal_strlit("stderr");
            reveal_strlit("rc");
            assert("stdout"@ =~= seq!['s', 't', 'd', 'o', 'u', 't']);
            assert("stderr"@ =~= seq!['s', 't', 'd', 'e', 'r', 'r']);
            assert("rc"@ =~= seq!['r', 'c']);
            assert(stdout@ == model->Object_0[0].value);
            assert(stderr@ == model->Object_0[1].value);
            assert(rc@ == model->Object_0[2].value);
        }
        let mut members: Vec<(String, Json)> = Vec::new();
        members.push(("stdout".to_owned(), stdout));
        members.push(("stderr".to_owned(), stderr));
        members.push(("rc".to_owned(), rc));
        let value = Json::Object(members);
        proof {
            lemma_object_view(members);
            assert(value@->Object_0 =~= model->Object_0);
        }
        value
    }
}

/// One unit of declarative work.
#[derive(Debug)]
pub struct Task {
    /// The display name, a template.
    pub name: String,
    /// Commands to run through the shell.
    pub shell: Option<String>,
    /// Commands to run directly.
    pub command: Option<String>,
    /// The variable that receives the result of the task's commands.
    pub register: Option<String>,
    /// Messages to show before the commands run.
    pub debug: Option<Debug>,
    /// Variables to set before anything else is done.
    pub vars: Option<IndexMap<String, String>>,
    /// The working directory, a template; it takes the place of the deployment's.
    pub chdir: Option<String>,
    /// The condition under which the task runs.
    pub when: Option<String>,
    /// The values to run the task for, one after the other.
    pub loop_items: Option<Vec<Json>>,
    /// A file of further tasks to run.
    pub include_tasks: Option<String>,
}

impl Clone for Task {
    fn clone(&self) -> (copy: Task)
        ensures
            copy@ == self@,
    {
        Task {
            name: self.name.clone(),
            shell: self.shell.clone(),
            command: self.command.clone(),
            register: self.register.clone(),
            debug: match &self.debug {
                Some(d) => Some(d.clone()),
                None => None,
            },
            vars: match &self.vars {
                Some(v) => Some(text_map_clone(v)),
                None => None,
            },
            chdir: self.chdir.clone(),
            when: self.when.clone(),
            loop_items: match &self.loop_items {
                Some(items) => Some(clone_values(items)),
                None => None,
            },
            include_tasks: self.include_tasks.clone(),
        }
    }
}

/// Copies a list of tasks.
pub fn clone_tasks(tasks: &Vec<Task>) -> (copies: Vec<Task>)
    ensures
        copies@.len() == tasks@.len(),
        forall|k: int| 0 <= k < tasks@.len() ==> (#[trigger] copies@[k])@ == tasks@[k]@,
{
    let mut copies: Vec<Task> = Vec::new();
    let mut i: usize = 0;
    while i < tasks.len()
        invariant
            i <= tasks.len(),
            copies@.len() == i,
            forall|k: int| 0 <= k < i ==> (#[trigger] copies@[k])@ == tasks@[k]@,
        decreases tasks.len() - i,
    {
        copies.push(tasks[i].clone());
        i += 1;
    }
    copies
}

/// The mathematical model of a [`Task`].
pub struct TaskModel {
    pub name: Seq<char>,
    pub shell: Option<Seq<char>>,
    pub command: Option<Seq<char>>,
    pub register: Option<Seq<char>>,
    pub debug: Option<Seq<TextPair>>,
    pub vars: Option<Seq<TextPair>>,
    pub chdir: Option<Seq<char>>,
    pub when: Option<Seq<char>>,
    pub loop_items: Option<Seq<JsonModel>>,
    pub include_tasks: Option<Seq<char>>,
}

impl View for Task {
    type V = TaskModel;

    open spec fn view(&self) -> TaskModel {
        TaskModel {
            name: self.name@,
            shell: opt_view(self.shell),
            command: opt_view(self.command),
            register: opt_view(self.register),
            debug: match self.debug {
                Some(d) => Some(d@),
                None => None,
            },
            vars: opt_entries(self.vars),
            chdir: opt_view(self.chdir),
            when: opt_view(self.when),
            loop_items: match self.loop_items {
                Some(items) => Some(models(items@)),
                None => None,
            },
            include_tasks: opt_view(self.include_tasks),
        }
    }
}

} // verus!
