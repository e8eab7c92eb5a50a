use deploy_helper::common::Register;
use deploy_helper::context::Context;
use deploy_helper::json::Json;
use deploy_helper::local::{
    execute_local_command, exit_code, invocation_of, join_lines, local_result, Invocation,
};
use deploy_helper::modules::command::{
    handle_command_execution, process, CommandRequest, ExecError,
};
use deploy_helper::remote::{
    execute_ssh_command, remote_command_line, AfterEof, AfterRead, ReadOutcome, ReadTurn, Stream,
};
use deploy_helper::utils::RenderError;

fn strings(items: &[&str]) -> Vec<String> {
    items.iter().map(|s| s.to_string()).collect()
}

#[test]
fn one_local_command_of_one_word_and_one_argument() {
    assert_eq!(
        execute_local_command("echo hello", false, &None),
        Ok(Invocation { program: "echo".to_string(), args: strings(&["hello"]), chdir: None })
    );
}

#[test]
fn through_the_shell_the_command_goes_as_it_stands() {
    assert_eq!(
        execute_local_command("echo \"a b\" | wc -c", true, &None),
        Ok(Invocation { program: "sh".to_string(), args: strings(&["-c", "echo \"a b\" | wc -c"]), chdir: None })
    );
}

#[test]
fn words_follow_the_quoting_of_the_shell() {
    assert_eq!(
        execute_local_command("cp 'a b' \"c d\" e\\ f", false, &None),
        Ok(Invocation { program: "cp".to_string(), args: strings(&["a b", "c d", "e f"]), chdir: None })
    );
    assert_eq!(
        execute_local_command("ls", false, &None),
        Ok(Invocation { program: "ls".to_string(), args: Vec::new(), chdir: None })
    );
}

#[test]
fn an_open_quote_cannot_be_spawned() {
    assert_eq!(
        execute_local_command("echo 'open", false, &None),
        Err(ExecError::CommandSpawnError("Failed to parse command: missing closing quote".to_string()))
    );
}

#[test]
fn a_command_without_words_cannot_be_spawned() {
    assert_eq!(
        execute_local_command("   ", false, &None),
        Err(ExecError::CommandSpawnError("Failed to parse command: no program".to_string()))
    );
    assert_eq!(
        invocation_of("x", false, &None, Some(Vec::new())),
        Err(ExecError::CommandSpawnError("Failed to parse command: no program".to_string()))
    );
    assert_eq!(
        invocation_of("x", false, &Some("/d".to_string()), Some(strings(&["p", "q"]))),
        Ok(Invocation { program: "p".to_string(), args: strings(&["q"]), chdir: Some("/d".to_string()) })
    );
}

#[test]
fn lines_are_joined_by_line_breaks() {
    assert_eq!(join_lines(&Vec::new()), "");
    assert_eq!(join_lines(&strings(&["a"])), "a");
    assert_eq!(join_lines(&strings(&["a", "b", "c"])), "a\nb\nc");
    assert_eq!(join_lines(&strings(&["", "b", ""])), "\nb\n");
}

#[test]
fn a_child_without_exit_code_counts_as_minus_one() {
    assert_eq!(exit_code(Some(0)), 0);
    assert_eq!(exit_code(Some(127)), 127);
    assert_eq!(exit_code(None), -1);
    let out = local_result(&strings(&["o1", "o2"]), &strings(&["e"]), None);
    assert_eq!(out.stdout, "o1\no2");
    assert_eq!(out.stderr, "e");
    assert_eq!(out.rc, -1);
}

#[test]
fn a_remote_command_begins_with_its_line_and_standard_output() {
    let (line, turn) = execute_ssh_command("ls", true, &Some("/srv".to_string()));
    assert_eq!(line, "cd /srv && sh -c \"ls\"");
    assert_eq!(turn.stream(), Stream::Stdout);
}

#[test]
fn the_remote_command_line() {
    assert_eq!(remote_command_line("ls -l", false, &None), "ls -l");
    assert_eq!(remote_command_line("ls -l", true, &None), "sh -c \"ls -l\"");
    assert_eq!(remote_command_line("ls", false, &Some("/srv".to_string())), "cd /srv && ls");
    assert_eq!(
        remote_command_line("ls | wc", true, &Some("/srv".to_string())),
        "cd /srv && sh -c \"ls | wc\""
    );
}

fn read(turn: ReadTurn, outcome: ReadOutcome) -> (Option<String>, Option<ReadTurn>, Option<deploy_helper::remote::EofTurn>) {
    match turn.read(outcome) {
        AfterRead::Read(text, next) => (text, Some(next), None),
        AfterRead::AskEof(text, next) => (text, None, Some(next)),
        AfterRead::Failed(e) => panic!("unexpected failure: {:?}", e),
    }
}

#[test]
fn both_streams_are_read_in_every_round() {
    let turn = ReadTurn::start();
    assert_eq!(turn.stream(), Stream::Stdout);
    let (text, turn, _) = read(turn, ReadOutcome::Data(b"out1 ".to_vec()));
    assert_eq!(text, Some("out1 ".to_string()));
    let turn = turn.unwrap();
    assert_eq!(turn.stream(), Stream::Stderr);
    let (text, _, eof) = read(turn, ReadOutcome::WouldBlock);
    assert_eq!(text, None);
    let turn = match eof.unwrap().eof(false) {
        AfterEof::Read(turn) => turn,
        AfterEof::Close(_) => panic!("closed too early"),
    };
    assert_eq!(turn.stream(), Stream::Stdout);
    let (text, turn, _) = read(turn, ReadOutcome::Data(Vec::new()));
    assert_eq!(text, None);
    let (text, _, eof) = read(turn.unwrap(), ReadOutcome::Data(b"err\xff".to_vec()));
    assert_eq!(text, Some("err\u{FFFD}".to_string()));
    let turn = match eof.unwrap().eof(false) {
        AfterEof::Read(turn) => turn,
        AfterEof::Close(_) => panic!("closed too early"),
    };
    let (_, turn, _) = read(turn, ReadOutcome::Data(b"out2".to_vec()));
    let (_, _, eof) = read(turn.unwrap(), ReadOutcome::Data(Vec::new()));
    let captured = match eof.unwrap().eof(true) {
        AfterEof::Close(captured) => captured,
        AfterEof::Read(_) => panic!("not closed"),
    };
    let out = captured.exit(Ok(4)).unwrap();
    assert_eq!(out.stdout, "out1 out2");
    assert_eq!(out.stderr, "err\u{FFFD}");
    assert_eq!(out.rc, 4);
}

#[test]
fn a_failed_read_fails_the_command() {
    match ReadTurn::start().read(ReadOutcome::Failed("broken".to_string())) {
        AfterRead::Failed(e) => assert_eq!(e, ExecError::CommandSpawnError("broken".to_string())),
        _ => panic!("the read should have failed"),
    }
    let (_, turn, _) = read(ReadTurn::start(), ReadOutcome::WouldBlock);
    match turn.unwrap().read(ReadOutcome::Failed("broken".to_string())) {
        AfterRead::Failed(e) => assert_eq!(e, ExecError::CommandSpawnError("broken".to_string())),
        _ => panic!("the read should have failed"),
    }
}

#[test]
fn a_failed_close_fails_the_command() {
    let (_, turn, _) = read(ReadTurn::start(), ReadOutcome::WouldBlock);
    let (_, _, eof) = read(turn.unwrap(), ReadOutcome::WouldBlock);
    match eof.unwrap().eof(true) {
        AfterEof::Close(captured) => assert_eq!(
            captured.exit(Err("gone".to_string())).err(),
            Some(ExecError::CommandSpawnError("gone".to_string()))
        ),
        AfterEof::Read(_) => panic!("not closed"),
    }
}

#[test]
fn a_command_is_expanded_before_it_runs() {
    let mut c = Context::new();
    c.insert("x".to_string(), Json::Int(5));
    let dir = Some("/d".to_string());
    assert_eq!(
        process("echo {{ x }}", true, &dir, &None, &c),
        Ok(CommandRequest {
            command: "echo 5".to_string(),
            use_shell: true,
            display_output: true,
            chdir: Some("/d".to_string()),
        })
    );
    assert_eq!(
        process("echo {{ x }}", false, &None, &Some("r".to_string()), &c),
        Ok(CommandRequest {
            command: "echo 5".to_string(),
            use_shell: false,
            display_output: false,
            chdir: None,
        })
    );
    assert!(matches!(
        process("echo {{ y }}", false, &None, &None, &c),
        Err(RenderError::UndefinedVariable { .. })
    ));
}

#[test]
fn the_outcome_of_a_command_is_taken_in() {
    let out = |rc: i32| Register { stdout: "o".to_string(), stderr: "e".to_string(), rc };
    let name = Some("r".to_string());

    let mut c = Context::new();
    assert_eq!(handle_command_execution(Ok(out(0)), &name, &mut c), Ok(Some("r".to_string())));
    assert_eq!(c.get("r"), Some(&out(0).to_value()));

    let mut c = Context::new();
    assert_eq!(handle_command_execution(Ok(out(0)), &None, &mut c), Ok(None));
    assert_eq!(c.len(), 0);

    let mut c = Context::new();
    assert_eq!(handle_command_execution(Ok(out(2)), &name, &mut c), Err(ExecError::NonZeroExit(2)));
    assert_eq!(c.len(), 0);

    let mut c = Context::new();
    assert_eq!(handle_command_execution(Ok(out(-1)), &name, &mut c), Err(ExecError::NonZeroExit(-1)));

    let mut c = Context::new();
    assert_eq!(
        handle_command_execution(Err("no such program".to_string()), &name, &mut c),
        Err(ExecError::CommandSpawnError("no such program".to_string()))
    );
    assert_eq!(c.len(), 0);
}
