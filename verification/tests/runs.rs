use deploy_helper::common::Task;
use deploy_helper::context::Context;
use deploy_helper::driver::{ConnectError, Credential, Deployment, Target, TargetHost};
use deploy_helper::engine::Progress;
use deploy_helper::json::Json;
use deploy_helper::run::{HostRequest, Run, RunFailure, RunNotice, RunProgress};
use deploy_helper::utils::RenderError;
use indexmap::IndexMap;

fn plain(name: &str) -> Task {
    Task {
        name: name.to_string(),
        shell: None,
        command: None,
        register: None,
        debug: None,
        vars: None,
        chdir: None,
        when: None,
        loop_items: None,
        include_tasks: None,
    }
}

fn deployment(name: &str, hosts: &str, vars: &[(&str, &str)], tasks: Vec<Task>) -> Deployment {
    let mut map = IndexMap::new();
    for (k, v) in vars {
        map.insert(k.to_string(), v.to_string());
    }
    Deployment {
        name: name.to_string(),
        hosts: hosts.to_string(),
        chdir: Some("/srv".to_string()),
        vars: if vars.is_empty() { None } else { Some(map) },
        tasks,
    }
}

fn inventory() -> IndexMap<String, TargetHost> {
    let mut map = IndexMap::new();
    map.insert(
        "here".to_string(),
        TargetHost { host: "localhost".to_string(), port: None, user: None, password: None, ssh_key_path: None },
    );
    map.insert(
        "there".to_string(),
        TargetHost {
            host: "example.org".to_string(),
            port: Some(2200),
            user: Some("deploy".to_string()),
            password: Some("pw".to_string()),
            ssh_key_path: None,
        },
    );
    map.insert(
        "broken".to_string(),
        TargetHost { host: "example.net".to_string(), port: None, user: None, password: None, ssh_key_path: None },
    );
    map
}

/// Plays a run: every host is connected, and every command succeeds unless it is `fail`.
fn play_run(deployments: Vec<Deployment>) -> (Vec<String>, Result<Context, String>) {
    let mut log = Vec::new();
    let mut run = Run::new(deployments, inventory(), Context::new());
    loop {
        run = match run.next() {
            RunProgress::Advanced(notice, next) => {
                match notice {
                    Some(RunNotice::Starting(name)) => log.push(format!("starting {}", name)),
                    Some(RunNotice::HostSkipped(ConnectError::MissingHostConfig(name))) => {
                        log.push(format!("unknown {}", name))
                    }
                    Some(RunNotice::HostSkipped(e)) => panic!("skipped for {:?}", e),
                    None => {}
                }
                next
            }
            RunProgress::Connect(request, turn) => {
                log.push(format!("host {} several={}", request.name, request.several));
                let (mut engine, rest) = turn.start();
                let context = loop {
                    engine = match engine.next() {
                        Progress::Advanced(_, next) => next,
                        Progress::Run(command, waiting) => {
                            log.push(format!("run {} in {:?}", command.command, command.chdir));
                            let rc = if command.command == "fail" { 1 } else { 0 };
                            let out = deploy_helper::common::Register {
                                stdout: String::new(),
                                stderr: String::new(),
                                rc,
                            };
                            match waiting.finished(Ok(out)) {
                                Progress::Advanced(_, next) => next,
                                Progress::Failed(e) => return (log, Err(format!("{:?}", e))),
                                _ => unreachable!(),
                            }
                        }
                        Progress::Finished(context) => break context,
                        Progress::Failed(e) => return (log, Err(format!("{:?}", e))),
                        Progress::Load(..) => unreachable!(),
                    };
                };
                rest.resume(context)
            }
            RunProgress::Finished(context) => return (log, Ok(context)),
            RunProgress::Failed(e) => return (log, Err(format!("{:?}", e))),
        };
    }
}

fn with_command(name: &str, command: &str) -> Task {
    let mut t = plain(name);
    t.command = Some(command.to_string());
    t
}

#[test]
fn deployments_and_hosts_run_in_order() {
    let first = deployment("one", "here, there", &[("v", "1")], vec![with_command("t", "echo {{ v }}")]);
    let second = deployment("two", "here", &[("v", "{{ v }}2")], vec![with_command("t", "echo {{ v }}")]);
    let (log, result) = play_run(vec![first, second]);
    assert_eq!(
        log,
        vec![
            "starting one",
            "host here several=true",
            "run echo 1 in Some(\"/srv\")",
            "host there several=true",
            "run echo 1 in Some(\"/srv\")",
            "starting two",
            "host here several=false",
            "run echo 12 in Some(\"/srv\")",
        ]
    );
    assert_eq!(result.unwrap().get("v"), Some(&Json::Str("12".to_string())));
}

#[test]
fn an_unknown_host_is_passed_over() {
    let d = deployment("d", "ghost, here", &[], vec![with_command("t", "echo x")]);
    let (log, result) = play_run(vec![d]);
    assert_eq!(
        log,
        vec!["starting d", "unknown ghost", "host here several=true", "run echo x in Some(\"/srv\")"]
    );
    assert!(result.is_ok());
}

#[test]
fn a_failed_command_ends_the_whole_run() {
    let first = deployment(
        "one",
        "here, there",
        &[],
        vec![with_command("a", "fail"), with_command("b", "echo never")],
    );
    let second = deployment("two", "here", &[], vec![with_command("c", "echo never")]);
    let (log, result) = play_run(vec![first, second]);
    assert_eq!(log, vec!["starting one", "host here several=true", "run fail in Some(\"/srv\")"]);
    assert!(result.unwrap_err().contains("NonZeroExit(1)"));
}

#[test]
fn a_host_without_user_ends_the_run() {
    let d = deployment("d", "here,broken,there", &[], vec![with_command("t", "echo x")]);
    let (log, result) = play_run(vec![d]);
    assert_eq!(log, vec!["starting d", "host here several=true", "run echo x in Some(\"/srv\")"]);
    assert!(result.unwrap_err().contains("Missing user for remote host"));
}

#[test]
fn the_variables_of_a_deployment_may_fail() {
    let d = deployment("d", "here", &[("v", "{{ nothing }}")], vec![with_command("t", "echo x")]);
    let run = Run::new(vec![d], inventory(), Context::new());
    let run = match run.next() {
        RunProgress::Advanced(Some(RunNotice::Starting(name)), next) => {
            assert_eq!(name, "d");
            next
        }
        _ => panic!("the deployment should have been announced"),
    };
    match run.next() {
        RunProgress::Failed(RunFailure::Render(RenderError::UndefinedVariable { template, .. })) => {
            assert_eq!(template, "{{ nothing }}")
        }
        _ => panic!("the run should have failed"),
    }
}

#[test]
fn a_remote_host_is_handed_out_with_its_credential() {
    let d = deployment("d", "there", &[], Vec::new());
    let run = Run::new(vec![d], inventory(), Context::new());
    assert_eq!(run.context().len(), 0);
    let run = match run.next() {
        RunProgress::Advanced(_, next) => next,
        _ => panic!("announced"),
    };
    let run = match run.next() {
        RunProgress::Advanced(None, next) => next,
        _ => panic!("begun"),
    };
    match run.next() {
        RunProgress::Connect(request, _) => assert_eq!(
            request,
            HostRequest {
                name: "there".to_string(),
                several: false,
                target: Target::Remote {
                    host: "example.org".to_string(),
                    port: 2200,
                    user: "deploy".to_string(),
                    credential: Credential::Password("pw".to_string()),
                },
            }
        ),
        _ => panic!("the host should have been handed out"),
    }
}

#[test]
fn a_run_without_deployments_is_done() {
    let mut context = Context::new();
    context.insert("k".to_string(), Json::Null);
    match Run::new(Vec::new(), IndexMap::new(), context).next() {
        RunProgress::Finished(context) => assert_eq!(context.names(), vec!["k"]),
        _ => panic!("the run should have been done"),
    }
    let unused = ConnectError::MissingHostConfig("x".to_string());
    assert!(deploy_helper::driver::is_recoverable(&unused));
}
