use deploy_helper::common::{Register, Task};
use deploy_helper::context::Context;
use deploy_helper::driver::{parse_extra_vars, set_json_vars, set_members, set_pairs, ExtraVars};
use deploy_helper::engine::{Engine, Notice, Progress, RunError};
use deploy_helper::json::Json;
use deploy_helper::modules::command::{CommandRequest, ExecError};
use deploy_helper::utils::RenderError;
use indexmap::IndexMap;

/// A task with a name and nothing else.
fn task(name: &str) -> Task {
    Task {
        name: name.to_string(),
        shell: None,
        command: None,
        register: None,
        debug: None,
        vars: None,
        chdir: None,
        when: None,
        loop_items: None,
        include_tasks: None,
    }
}

fn map(pairs: &[(&str, &str)]) -> IndexMap<String, String> {
    let mut m = IndexMap::new();
    for (k, v) in pairs {
        m.insert(k.to_string(), v.to_string());
    }
    m
}

fn some(text: &str) -> Option<String> {
    Some(text.to_string())
}

/// Stands in for a host: `echo` writes its arguments, `pwd` the working directory, `fail`
/// ends with the exit code 3 and writes to standard error, anything else cannot start.
fn fake_host(request: &CommandRequest) -> Result<Register, String> {
    let line = request.command.as_str();
    if let Some(rest) = line.strip_prefix("echo ") {
        Ok(Register { stdout: rest.to_string(), stderr: String::new(), rc: 0 })
    } else if line == "pwd" {
        Ok(Register { stdout: request.chdir.clone().unwrap_or_default(), stderr: String::new(), rc: 0 })
    } else if line == "fail" {
        Ok(Register { stdout: String::new(), stderr: "it failed".to_string(), rc: 3 })
    } else {
        Err(format!("cannot start {}", line))
    }
}

struct Played {
    /// Everything that happened, in order: `notice ...`, `run ...`, `load ...`.
    log: Vec<String>,
    requests: Vec<CommandRequest>,
    result: Result<Context, RunError>,
}

fn play_with(
    tasks: Vec<Task>,
    chdir: Option<String>,
    context: Context,
    included: fn(&str) -> Result<Vec<Task>, String>,
) -> Played {
    let mut log = Vec::new();
    let mut requests = Vec::new();
    let mut engine = Engine::new(tasks, chdir, context);
    let mut steps = 0;
    loop {
        steps += 1;
        assert!(steps < 10_000, "the run does not end");
        let progress = match engine.next() {
            Progress::Run(request, waiting) => {
                log.push(format!("run {}", request.command));
                let outcome = fake_host(&request);
                requests.push(request);
                waiting.finished(outcome)
            }
            Progress::Load(file, waiting) => {
                log.push(format!("load {}", file));
                waiting.loaded(included(&file))
            }
            other => other,
        };
        match progress {
            Progress::Advanced(notice, next) => {
                match notice {
                    Some(Notice::Skipping(name)) => log.push(format!("notice skipping {}", name)),
                    Some(Notice::Executing(name)) => log.push(format!("notice executing {}", name)),
                    Some(Notice::Debug(lines)) => {
                        for (label, message) in lines {
                            log.push(format!("notice debug {}: {}", label, message));
                        }
                    }
                    Some(Notice::Registering(name)) => log.push(format!("notice registering {}", name)),
                    Some(Notice::TaskDone) => log.push("notice done".to_string()),
                    None => {}
                }
                engine = next;
            }
            Progress::Finished(context) => return Played { log, requests, result: Ok(context) },
            Progress::Failed(e) => return Played { log, requests, result: Err(e) },
            Progress::Run(..) | Progress::Load(..) => unreachable!(),
        }
    }
}

fn nothing_included(file: &str) -> Result<Vec<Task>, String> {
    Err(format!("no such file: {}", file))
}

fn play(tasks: Vec<Task>, chdir: Option<String>, context: Context) -> Played {
    play_with(tasks, chdir, context, nothing_included)
}

/// The tasks that stand for the deploy file of a scenario.
fn deployment(file: &str) -> (Option<String>, Vec<Task>) {
    match file {
        "test-ymls/setting-and-debugging-vars.yml" => {
            let mut t = task("set and show");
            t.vars = Some(map(&[("first", "one"), ("second", "{{ first }} and two")]));
            t.debug = Some(deploy_helper::common::Debug(map(&[("value", "{{ second }}")])));
            (None, vec![t])
        }
        "test-ymls/use-vars-in-command-and-shell.yml" => {
            let mut a = task("set");
            a.vars = Some(map(&[("word", "hello")]));
            let mut b = task("use {{ word }}");
            b.command = some("echo {{ word }} command");
            b.shell = some("echo {{ word }} shell");
            (None, vec![a, b])
        }
        "test-ymls/setting-working-directory-before-running-commands.yml" => {
            let mut t = task("in a directory");
            t.vars = Some(map(&[("dir", "/tmp")]));
            t.chdir = some("{{ dir }}/work");
            t.command = some("pwd");
            (some("/srv"), vec![t])
        }
        "test-ymls/nested-json-parsing.yml" => {
            let mut t = task("nested");
            t.vars = Some(map(&[("data", "{{ '{\"outer\": {\"inner\": [1, 2, 3]}}' | from_json }}")]));
            t.debug = Some(deploy_helper::common::Debug(map(&[("second", "{{ data.outer.inner[1] }}")])));
            (None, vec![t])
        }
        "test-ymls/setting-global-working-directory-before-running-commands.yml" => {
            let mut a = task("inherits");
            a.command = some("pwd");
            let mut b = task("overrides");
            b.chdir = some("/opt");
            b.shell = some("pwd");
            (some("/srv"), vec![a, b])
        }
        "test-ymls/dont-run-2nd-task-or-2nd-deploy-if-1st-fails.yml" => {
            let mut a = task("fails");
            a.command = some("fail");
            let mut b = task("never");
            b.command = some("echo never");
            (None, vec![a, b])
        }
        "test-ymls/use-output-of-one-task-shell-in-another-task-shell.yml" => {
            let mut a = task("produce");
            a.shell = some("echo produced");
            a.register = some("result");
            let mut b = task("consume");
            b.shell = some("echo got {{ result.stdout }} with {{ result.rc }}");
            (None, vec![a, b])
        }
        "test-ymls/set-and-use-vars-immediately-in-shell-and-command.yml" => {
            let mut t = task("at once");
            t.vars = Some(map(&[("x", "{{ 1 + 1 }}")]));
            t.shell = some("echo shell {{ x }}");
            t.command = some("echo command {{ x }}");
            (None, vec![t])
        }
        "test-ymls/debug-should-come-before-command-and-shell.yml" => {
            let mut t = task("ordered");
            t.debug = Some(deploy_helper::common::Debug(map(&[("first", "shown"), ("second", "shown too")])));
            t.shell = some("echo shell");
            t.command = some("echo command");
            (None, vec![t])
        }
        "test-ymls/nested-json-parsing-missing-property-error.yml" => {
            let mut t = task("nested");
            t.vars = Some(map(&[("data", "{{ '{\"outer\": {\"inner\": 1}}' | from_json }}")]));
            t.debug = Some(deploy_helper::common::Debug(map(&[("missing", "{{ data.outer.absent }}")])));
            (None, vec![t])
        }
        "test-ymls/missing-var-error.yml" => {
            let mut t = task("missing");
            t.command = some("echo {{ nowhere }}");
            (None, vec![t])
        }
        "test-ymls/invalid-json-error.yml" => {
            let mut t = task("invalid");
            t.vars = Some(map(&[("data", "{{ 'not json' | from_json }}")]));
            t.command = some("echo never");
            (None, vec![t])
        }
        "test-ymls/extra-vars.yml" => {
            let mut t = task("extra");
            t.command = some("echo {{ cat }} {{ bat }}");
            (None, vec![t])
        }
        "test-ymls/when-condition.yml" => {
            let mut a = task("runs");
            a.when = some("condition == 'true'");
            a.command = some("echo yes");
            let mut b = task("skipped");
            b.when = some("condition == 'false'");
            b.vars = Some(map(&[("leak", "set")]));
            b.register = some("out");
            b.command = some("echo no");
            (None, vec![a, b])
        }
        "test-ymls/loop-item.yml" => {
            let mut a = task("loop");
            a.loop_items = Some(vec![Json::Int(1), Json::Int(2), Json::Int(3)]);
            a.command = some("echo {{ item }}");
            let mut b = task("after {{ item }}");
            b.vars = Some(map(&[("kept", "{{ item }}")]));
            b.command = some("echo still {{ kept }}");
            (None, vec![a, b])
        }
        _ => panic!("no such scenario: {}", file),
    }
}

fn run_file(file: &str, context: Context) -> Played {
    let (chdir, tasks) = deployment(file);
    play(tasks, chdir, context)
}

fn commands(played: &Played) -> Vec<String> {
    played.requests.iter().map(|r| r.command.clone()).collect()
}

#[test]
fn setting_and_debugging_vars() {
    let played = run_file("test-ymls/setting-and-debugging-vars.yml", Context::new());
    let context = played.result.unwrap();
    assert_eq!(context.get("first"), Some(&Json::Str("one".to_string())));
    assert_eq!(context.get("second"), Some(&Json::Str("one and two".to_string())));
    assert_eq!(
        played.log,
        vec!["notice executing set and show", "notice debug value: one and two", "notice done"]
    );
}

#[test]
fn use_vars_in_command_and_shell() {
    let played = run_file("test-ymls/use-vars-in-command-and-shell.yml", Context::new());
    assert!(played.result.is_ok());
    assert_eq!(commands(&played), vec!["echo hello shell", "echo hello command"]);
    assert!(played.requests[0].use_shell);
    assert!(!played.requests[1].use_shell);
    assert!(played.log.contains(&"notice executing use hello".to_string()));
}

#[test]
fn setting_working_directory_before_running_commands() {
    let played =
        run_file("test-ymls/setting-working-directory-before-running-commands.yml", Context::new());
    assert!(played.result.is_ok());
    assert_eq!(played.requests.len(), 1);
    assert_eq!(played.requests[0].chdir, Some("/tmp/work".to_string()));
}

#[test]
fn nested_json_parsing() {
    let played = run_file("test-ymls/nested-json-parsing.yml", Context::new());
    let context = played.result.unwrap();
    let expected = Json::Object(vec![(
        "outer".to_string(),
        Json::Object(vec![(
            "inner".to_string(),
            Json::Array(vec![Json::Int(1), Json::Int(2), Json::Int(3)]),
        )]),
    )]);
    assert_eq!(context.get("data"), Some(&expected));
    assert!(played.log.contains(&"notice debug second: 2".to_string()));
}

#[test]
fn setting_global_working_directory_before_running_commands() {
    let played = run_file(
        "test-ymls/setting-global-working-directory-before-running-commands.yml",
        Context::new(),
    );
    assert!(played.result.is_ok());
    assert_eq!(played.requests[0].chdir, Some("/srv".to_string()));
    assert_eq!(played.requests[1].chdir, Some("/opt".to_string()));
}

#[test]
fn dont_run_2nd_deploy_if_1st_fails() {
    let played =
        run_file("test-ymls/dont-run-2nd-task-or-2nd-deploy-if-1st-fails.yml", Context::new());
    assert_eq!(commands(&played), vec!["fail"]);
    assert!(!played.log.iter().any(|line| line.contains("never")));
    assert_eq!(played.result.err(), Some(RunError::Command(ExecError::NonZeroExit(3))));
}

#[test]
fn use_output_of_one_task_shell_in_another_task_shell() {
    let played = run_file(
        "test-ymls/use-output-of-one-task-shell-in-another-task-shell.yml",
        Context::new(),
    );
    let issued = commands(&played);
    let context = played.result.unwrap();
    assert_eq!(issued, vec!["echo produced", "echo got produced with 0"]);
    assert!(!played.requests[0].display_output);
    assert!(played.requests[1].display_output);
    let expected = Json::Object(vec![
        ("stdout".to_string(), Json::Str("produced".to_string())),
        ("stderr".to_string(), Json::Str(String::new())),
        ("rc".to_string(), Json::Int(0)),
    ]);
    assert_eq!(context.get("result"), Some(&expected));
    assert!(played.log.contains(&"notice registering result".to_string()));
}

#[test]
fn set_and_use_vars_immediately_in_shell_and_command() {
    let played = run_file(
        "test-ymls/set-and-use-vars-immediately-in-shell-and-command.yml",
        Context::new(),
    );
    assert!(played.result.is_ok());
    assert_eq!(commands(&played), vec!["echo shell 2", "echo command 2"]);
}

#[test]
fn debug_should_come_before_command_and_shell() {
    let played =
        run_file("test-ymls/debug-should-come-before-command-and-shell.yml", Context::new());
    assert!(played.result.is_ok());
    assert_eq!(
        played.log,
        vec![
            "notice executing ordered",
            "notice debug first: shown",
            "notice debug second: shown too",
            "run echo shell",
            "run echo command",
            "notice done",
        ]
    );
}

#[test]
fn nested_json_parsing_missing_property_error() {
    let played =
        run_file("test-ymls/nested-json-parsing-missing-property-error.yml", Context::new());
    match played.result {
        Err(RunError::Render(RenderError::UndefinedVariable { template, available })) => {
            assert_eq!(template, "{{ data.outer.absent }}");
            assert_eq!(available, vec!["data".to_string()]);
        }
        other => panic!("unexpected: {:?}", other.err()),
    }
}

#[test]
fn missing_var_error() {
    let mut context = Context::new();
    context.insert("known".to_string(), Json::Int(1));
    let played = run_file("test-ymls/missing-var-error.yml", context);
    match played.result {
        Err(RunError::Render(RenderError::UndefinedVariable { template, available })) => {
            assert_eq!(template, "echo {{ nowhere }}");
            assert_eq!(available, vec!["known".to_string()]);
        }
        other => panic!("unexpected: {:?}", other.err()),
    }
    assert!(played.requests.is_empty());
}

#[test]
fn invalid_json_error() {
    let played = run_file("test-ymls/invalid-json-error.yml", Context::new());
    match played.result {
        Err(RunError::Render(RenderError::InvalidJson { template, rendered, message })) => {
            assert_eq!(template, "{{ 'not json' | from_json }}");
            assert_eq!(rendered, "not json");
            assert!(!message.is_empty());
        }
        other => panic!("unexpected: {:?}", other.err()),
    }
    assert!(played.requests.is_empty());
}

#[test]
fn extra_vars() {
    let mut first = Context::new();
    match parse_extra_vars("cat=1 bat=2") {
        ExtraVars::Pairs(pairs) => set_pairs(&mut first, pairs),
        other => panic!("unexpected: {:?}", other),
    }
    assert_eq!(first.get("cat"), Some(&Json::Str("1".to_string())));
    let played = run_file("test-ymls/extra-vars.yml", first);
    assert_eq!(commands(&played), vec!["echo 1 2"]);

    let mut second = Context::new();
    match parse_extra_vars("{ \"cat\": 1, \"bat\": 2 }") {
        ExtraVars::Json(text) => set_json_vars(&mut second, &text).unwrap(),
        other => panic!("unexpected: {:?}", other),
    }
    assert_eq!(second.get("cat"), Some(&Json::Int(1)));
    let played = run_file("test-ymls/extra-vars.yml", second);
    assert_eq!(commands(&played), vec!["echo 1 2"]);

    let mut third = Context::new();
    match parse_extra_vars("@test-ymls/extra-vars.vars.yml") {
        ExtraVars::File(path) => assert_eq!(path, "test-ymls/extra-vars.vars.yml"),
        other => panic!("unexpected: {:?}", other),
    }
    set_members(
        &mut third,
        vec![("cat".to_string(), Json::Int(1)), ("bat".to_string(), Json::Int(2))],
    );
    let played = run_file("test-ymls/extra-vars.yml", third);
    assert_eq!(commands(&played), vec!["echo 1 2"]);
}

#[test]
fn when_condition() {
    let mut context = Context::new();
    match parse_extra_vars("condition=true") {
        ExtraVars::Pairs(pairs) => set_pairs(&mut context, pairs),
        other => panic!("unexpected: {:?}", other),
    }
    let played = run_file("test-ymls/when-condition.yml", context);
    let issued = commands(&played);
    let context = played.result.unwrap();
    assert_eq!(issued, vec!["echo yes"]);
    assert_eq!(
        played.log,
        vec!["notice executing runs", "run echo yes", "notice done", "notice skipping skipped"]
    );
    assert_eq!(context.get("leak"), None);
    assert_eq!(context.get("out"), None);
    assert_eq!(context.len(), 1);
}

#[test]
fn loop_item() {
    let played = run_file("test-ymls/loop-item.yml", Context::new());
    let issued = commands(&played);
    let context = played.result.unwrap();
    assert_eq!(issued, vec!["echo 1", "echo 2", "echo 3", "echo still 3"]);
    assert!(played.log.contains(&"notice executing after 3".to_string()));
    assert_eq!(context.get("kept"), Some(&Json::Str("3".to_string())));
    assert_eq!(context.get("item"), None);

    let (chdir, mut tasks) = deployment("test-ymls/loop-item.yml");
    tasks.truncate(1);
    let alone = play(tasks, chdir, Context::new());
    assert_eq!(alone.requests.len(), 3);
    assert_eq!(alone.result.unwrap().get("item"), Some(&Json::Int(3)));
}

#[test]
fn a_single_command_is_asked_for_and_its_output_shown() {
    let mut t = task("greet");
    t.command = some("echo hello");
    let played = play(vec![t], None, Context::new());
    assert_eq!(played.requests.len(), 1);
    assert_eq!(
        played.requests[0],
        CommandRequest {
            command: "echo hello".to_string(),
            use_shell: false,
            display_output: true,
            chdir: None,
        }
    );
    assert_eq!(played.log, vec!["notice executing greet", "run echo hello", "notice done"]);
    assert!(played.result.is_ok());
}

#[test]
fn a_condition_on_an_unknown_variable_ends_the_run() {
    let mut t = task("guarded");
    t.when = some("x == 1");
    t.command = some("echo never");
    let mut later = task("later");
    later.command = some("echo never");
    let played = play(vec![t, later], None, Context::new());
    assert!(played.requests.is_empty());
    assert!(played.log.is_empty());
    assert!(matches!(
        played.result,
        Err(RunError::Render(RenderError::UndefinedVariable { .. }))
    ));
}

#[test]
fn a_command_that_cannot_start_ends_the_run() {
    let mut t = task("broken");
    t.shell = some("unknown-program\necho never");
    let played = play(vec![t], None, Context::new());
    assert_eq!(played.requests.len(), 1);
    assert_eq!(
        played.result.err(),
        Some(RunError::Command(ExecError::CommandSpawnError(
            "cannot start unknown-program".to_string()
        )))
    );
}

#[test]
fn a_null_value_in_a_loop_binds_nothing() {
    let mut t = task("loop");
    t.loop_items = Some(vec![Json::Str("a".to_string()), Json::Null]);
    t.debug = Some(deploy_helper::common::Debug(map(&[("defined", "{{ item is defined }}")])));
    let mut context = Context::new();
    context.insert("item".to_string(), Json::Int(0));
    context.insert("other".to_string(), Json::Int(1));
    let played = play(vec![t], None, context);
    let context = played.result.unwrap();
    assert_eq!(context.get("item"), None);
    assert_eq!(context.names(), vec!["other"]);
    assert_eq!(played.log.len(), 4);
}

#[test]
fn an_empty_loop_runs_nothing() {
    let mut t = task("loop");
    t.loop_items = Some(Vec::new());
    t.command = some("echo never");
    let played = play(vec![t], None, Context::new());
    assert!(played.requests.is_empty());
    assert_eq!(played.log, vec!["notice executing loop", "notice done"]);
}
