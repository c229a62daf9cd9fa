use statix_agent::failure::{format_error_chain, Failure};
use statix_agent::jobs::archive::archive_args;
use statix_agent::jobs::host::{after_run, spawn_failed, HostOutcome, HostRunner, HostStream};
use statix_agent::jobs::output::{
    command_result, summarize_command_output, summarize_command_texts, truncate_output,
};
use statix_agent::jobs::shell::{
    export_text, is_variable_name, shell_escape, shell_join,
};
use statix_agent::jobs::{
    check_run, execute, execute_spec, runner_environment_label, CommandError, CommandSpec,
    ExecutionContext, JobLogStream, RunError, RunnerEnvironment, SelectedRunner,
};

fn texts(words: &[&str]) -> Vec<String> {
    words.iter().map(|word| word.to_string()).collect()
}

fn context() -> ExecutionContext {
    ExecutionContext {
        job_id: "job".to_owned(),
        attempt_id: "attempt".to_owned(),
        timeout_seconds: 60,
    }
}

#[test]
fn command_spec_rejects_empty_argv() {
    assert!(CommandSpec::new(&[]).is_err());
    assert!(CommandSpec::new(&[String::new()]).is_err());
}

#[test]
fn command_spec_preserves_argv_and_defaults() {
    let argv = vec![
        "printf".to_string(),
        "%s".to_string(),
        "hello world".to_string(),
    ];
    let command = CommandSpec::new(&argv).unwrap();
    assert_eq!(command.argv, argv);
    assert!(command.env.is_empty());
    assert!(command.cwd.is_none());
}

#[test]
fn command_spec_rejects_invalid_environment_names() {
    let mut command = CommandSpec::new(&["true".to_string()]).unwrap();
    command
        .env
        .insert("bad-name".to_string(), "value".to_string());
    assert!(command.validate().is_err());
}

#[test]
fn command_errors_say_what_is_wrong() {
    let error = CommandSpec::new(&["  ".to_string()]).unwrap_err();
    assert_eq!(error.message(), "command must contain at least one non-empty token");
    let mut command = CommandSpec::new(&["true".to_string()]).unwrap();
    assert!(command.validate().is_ok());
    command.env.insert("GOOD_1".to_string(), "v".to_string());
    assert!(command.validate().is_ok());
    command.env.insert("z z".to_string(), "v".to_string());
    command.env.insert("1A".to_string(), "v".to_string());
    let error = command.validate().unwrap_err();
    assert!(matches!(&error, CommandError::InvalidName(name) if name == "1A"));
    assert_eq!(error.message(), "invalid environment variable name: 1A");
    command.argv.clear();
    assert!(matches!(command.validate(), Err(CommandError::Empty)));
}

#[test]
fn words_are_escaped_for_a_shell() {
    assert_eq!(shell_escape(""), "''");
    assert_eq!(shell_escape("a@%_-+=:,./Z9"), "a@%_-+=:,./Z9");
    assert_eq!(shell_escape("a b"), "'a b'");
    assert_eq!(shell_escape("it's"), "'it'\\''s'");
    assert_eq!(shell_escape("$HOME"), "'$HOME'");
    assert_eq!(shell_join(&texts(&["echo", "a b", ""])), "echo 'a b' ''");
    assert_eq!(shell_join(&texts(&[])), "");
    assert_eq!(export_text("A", "x y"), "export A='x y';");
    assert!(is_variable_name("_a1"));
    assert!(!is_variable_name("1a"));
    assert!(!is_variable_name(""));
    assert!(!is_variable_name("a-b"));
}

#[test]
fn streams_and_environments_are_named() {
    assert_eq!(JobLogStream::Stdout.as_str(), "stdout");
    assert_eq!(JobLogStream::Stderr.as_str(), "stderr");
    let container = RunnerEnvironment::Container {
        image: "ubuntu:24.04".to_owned(),
        cpu: None,
        memory_mb: None,
    };
    assert_eq!(runner_environment_label(&container), "container");
    let microvm = RunnerEnvironment::Microvm { image: "i".to_owned(), cpu: Some(1), memory_mb: None };
    assert_eq!(runner_environment_label(&microvm), "microvm");
    let project = RunnerEnvironment::ProjectMicrovm {
        project_id: "p".to_owned(),
        environment: "e".to_owned(),
        image: "i".to_owned(),
        cpu: None,
        memory_mb: Some(512),
    };
    assert_eq!(runner_environment_label(&project), "project microvm");
    let (runner, command) = execute(&project, &texts(&["true"])).ok().unwrap();
    assert_eq!(command.argv, texts(&["true"]));
    match runner {
        SelectedRunner::ProjectMicrovm(runner) => {
            assert_eq!(runner.project_id, "p");
            assert_eq!(runner.environment, "e");
            assert_eq!(runner.memory_mb, Some(512));
        }
        _ => panic!("another runner"),
    }
    assert!(matches!(execute(&microvm, &[]), Err(CommandError::Empty)));
    let selected = execute_spec(&container, &command);
    assert!(matches!(selected, Ok(SelectedRunner::Container(_))));
    assert!(matches!(execute_spec(&microvm, &command), Ok(SelectedRunner::Microvm(_))));
}

#[test]
fn runs_are_checked() {
    let command = texts(&["true"]);
    assert_eq!(check_run(1, &command), Ok(()));
    assert_eq!(check_run(3600, &command), Ok(()));
    assert_eq!(check_run(0, &command), Err(RunError::Timeout));
    assert_eq!(check_run(3601, &command), Err(RunError::Timeout));
    assert_eq!(check_run(5, &texts(&[])), Err(RunError::NoCommand));
    assert_eq!(RunError::Timeout.message(), "run timeoutSeconds must be between 1 and 3600");
    assert_eq!(RunError::NoCommand.message(), "run command must contain at least one token");
}

#[test]
fn outputs_are_summarized() {
    assert_eq!(summarize_command_output("/w", b" ", b""), "/w: command completed with no output");
    assert_eq!(summarize_command_output("/w", b"out\n", b""), "/w: out");
    assert_eq!(summarize_command_output("/w", b"", b"err\xff"), "/w: err\u{fffd}");
    assert_eq!(
        summarize_command_texts("/w", "out", "err"),
        "/w: stdout:\nout\n\nstderr:\nerr"
    );
    let long = "x".repeat(2_001);
    assert_eq!(truncate_output(&long), format!("{}...", "x".repeat(2_000)));
    assert_eq!(truncate_output(&"y".repeat(2_000)), "y".repeat(2_000));
    let result = command_result("/w", false, b"", b"no");
    assert_eq!(result.status, "failed");
    assert_eq!(result.message, Some("/w: no".to_owned()));
    assert_eq!(command_result("/w", true, b"", b"").status, "succeeded");
}

#[test]
fn host_commands_are_prepared() {
    let mut command = CommandSpec::new(&texts(&["ls", "-l", "x"])).unwrap();
    command.env.insert("A".to_owned(), "1".to_owned());
    let prepared = HostRunner.command(&command, "/w");
    assert_eq!(prepared.program, "ls");
    assert_eq!(prepared.args, texts(&["-l", "x"]));
    assert_eq!(prepared.cwd, "/w");
    assert_eq!(prepared.env.get("A").unwrap(), "1");
    command.cwd = Some("/other".to_owned());
    assert_eq!(HostRunner.command(&command, "/w").cwd, "/other");
    assert_eq!(archive_args("/a.tgz", "/w"), texts(&["-C", "/w", "-czf", "/a.tgz", "."]));
}

#[test]
fn host_runs_are_reported() {
    let (line, failure) =
        spawn_failed(&context(), "ls", "/w", Failure::new("not found".to_owned()));
    assert_eq!(line.line, "not found");
    assert_eq!(line.stream, JobLogStream::Stderr);
    assert_eq!(line.job_id, "job");
    assert_eq!(
        failure.causes,
        texts(&["failed to run ls in /w for attempt attempt", "not found"])
    );
    let (line, result) = after_run(&context(), "/w", HostOutcome::TimedOut);
    assert_eq!(line.unwrap().line, "command timed out after 60 seconds");
    assert_eq!(result.unwrap_err().causes, texts(&["command timed out after 60 seconds"]));
    let (line, result) = after_run(&context(), "/w", HostOutcome::Broken("pipe".to_owned()));
    assert!(line.is_none());
    assert_eq!(result.unwrap_err().causes, texts(&["command execution failed: pipe"]));
    let outcome = HostOutcome::Exited {
        success: true,
        stdout: "fine".to_owned(),
        stderr: String::new(),
    };
    let (line, result) = after_run(&context(), "/w", outcome);
    assert!(line.is_none());
    let result = result.unwrap();
    assert_eq!(result.status, "succeeded");
    assert_eq!(result.message, Some("/w: fine".to_owned()));
}

#[test]
fn host_streams_are_collected_by_line() {
    let mut stream = HostStream::new();
    let line = stream.push(&context(), JobLogStream::Stdout, "one\r\n");
    assert_eq!(line.line, "one");
    assert_eq!(line.attempt_id, "attempt");
    stream.push(&context(), JobLogStream::Stdout, "\n");
    stream.push(&context(), JobLogStream::Stdout, " two");
    assert_eq!(stream.text(), "one\n\n two");
}

#[test]
fn failures_are_told_in_one_line() {
    let failure = Failure::new("c".to_owned())
        .context("b".to_owned())
        .context("b".to_owned())
        .context("a".to_owned());
    assert_eq!(failure.causes, texts(&["a", "b", "b", "c"]));
    assert_eq!(format_error_chain(&failure), "a: b: c");
    assert_eq!(format_error_chain(&Failure { causes: Vec::new() }), "");
}
