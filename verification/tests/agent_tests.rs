use statix_agent::agent::bundle::{
    check_bundle, check_digest, deployment_api_url, deployment_files, extract_args, extracted,
    safe_path_segment, session_failure, BundleError, DownloadSession,
};
use statix_agent::agent::deploy::{
    deploy_target, env_command, project_systemd_command, shell_env_key, DeployAction, Deployment,
};
use statix_agent::agent::git::{
    job_workdir, prepared_workspace, repo_dir, repositories_dir, run_git_output, Checkout,
    GitOutcome, GitStep,
};
use statix_agent::agent::session::{
    applies_wireguard, auth_timeout_message, await_ready, completed_status,
    connect_timeout_message, connects_again, publish_system_info_if_needed, started_statuses,
    JobStatus, ReadyEvent, ReadyStep, ServerMessage, Session, SessionAction, SessionEvent,
};
use statix_agent::agent::test_job::{
    cargo_test_command, check_preset, plan_checked_test, plan_test,
};
use statix_agent::agent::update::{
    after_start, after_sudo, journal_args, start_command, update_result, update_service, UpdateOutcome,
    UpdateStep,
};
use statix_agent::agent::{
    AgentJob, AgentJobSpec, DeployJob, DeploymentBundle, DeploymentSetup, JobEnvironment,
    JobExecutionConfig, JobSource, TestJob,
};
use statix_agent::cli::LoginArgs;
use statix_agent::config::{AgentConfig, LoginConfig, WireGuardPeerConfig};
use statix_agent::enrollment::flow::{LoginAction, LoginEvent, LoginRun, LoginTerms};
use statix_agent::enrollment::{
    approval_lines, check_dependencies, check_poll, check_start, enrolled_lines, finish_url, poll_url,
    requested_name, required_commands, run_login, start_request, start_url,
    EnrollmentPollResponse, EnrollmentWireGuardConfig, LoginOptions, LoginStep,
};
use statix_agent::environment::Environment;
use statix_agent::failure::Failure;
use statix_agent::jobs::archive::{archived, ArchivePlace};
use statix_agent::jobs::microvm::commands::{disk_made, keypair_made, seed_made};
use statix_agent::jobs::output::ToolOutcome;
use statix_agent::jobs::{JobExecutionResult, JobLogLine, JobLogStream, RunnerEnvironment};
use statix_agent::string_map::StringMap;
use statix_agent::system_info::SystemInfo;
use statix_agent::wireguard::WireGuardIdentity;

fn texts(words: &[&str]) -> Vec<String> {
    words.iter().map(|word| word.to_string()).collect()
}

fn failure(text: &str) -> Failure {
    Failure::new(text.to_owned())
}

fn config() -> AgentConfig {
    AgentConfig {
        node_id: "n".to_owned(),
        node_token: "t".to_owned(),
        agent_ws_url: "ws://h".to_owned(),
        api_base_url: "http://h/api".to_owned(),
        publish_interval_ms: 1,
        system_info_check_interval_ms: 1,
        system_info_republish_interval_ms: 1,
        reconnect_delay_ms: 1,
        connect_timeout_ms: 1,
        wireguard: None,
        microvm_default_image: "default-image".to_owned(),
        microvm_default_cpu: 2,
        microvm_default_memory_mb: 4096,
    }
}

fn job(id: &str) -> AgentJob {
    AgentJob {
        id: id.to_owned(),
        issued_at: 0,
        spec: AgentJobSpec::UpdateAgent { target_version: None, channel: None },
    }
}

fn pairs(list: &[(&str, &str)]) -> StringMap<String> {
    let mut map = StringMap::new();
    for (key, value) in list {
        map.insert(key.to_string(), value.to_string());
    }
    map
}

fn deploy_job(setup: Vec<DeploymentSetup>, dry_run: bool) -> DeployJob {
    DeployJob {
        deployment_id: "d1".to_owned(),
        project_id: "p/1".to_owned(),
        environment: "prod".to_owned(),
        dry_run,
        bundle: DeploymentBundle {
            download_session_url: "/api/x".to_owned(),
            sha256: "AB".to_owned(),
            size_bytes: 2,
        },
        setup,
        command: Vec::new(),
        env: pairs(&[("STATIX_DEPLOYMENT_ID", "fake"), ("A", "1")]),
        timeout_seconds: None,
        execution: None,
    }
}

#[test]
fn request_update_falls_back_to_sudo_when_systemctl_is_denied() {
    let env: Environment = StringMap::new();
    let service = update_service(&env);
    let mut calls: Vec<(String, Vec<String>)> = Vec::new();

    let first = start_command(&service);
    calls.push((first.program.to_string(), first.args));
    let denied = UpdateOutcome::Exited { success: false, stderr: b"Permission denied".to_vec() };
    match after_start(&service, denied) {
        UpdateStep::Sudo { command, context } => {
            calls.push((command.program.to_string(), command.args));
            let outcome = UpdateOutcome::Exited { success: true, stderr: Vec::new() };
            after_sudo(&service, context, outcome).unwrap();
        }
        _ => panic!("no fallback"),
    }

    assert_eq!(
        calls,
        vec![
            (
                "systemctl".to_string(),
                vec![
                    "start".to_string(),
                    "statix-agent-update.service".to_string()
                ]
            ),
            (
                "sudo".to_string(),
                vec![
                    "-n".to_string(),
                    "systemctl".to_string(),
                    "start".to_string(),
                    "statix-agent-update.service".to_string()
                ]
            ),
        ]
    );
}

#[test]
fn update_requests_end() {
    let exited = |success: bool, stderr: &str| UpdateOutcome::Exited {
        success,
        stderr: stderr.as_bytes().to_vec(),
    };
    assert!(matches!(after_start("s", exited(true, "")), UpdateStep::Started));
    match after_start("s", exited(false, " unit not found\n")) {
        UpdateStep::Failed(failure) => {
            assert_eq!(failure.causes, texts(&["systemctl start s failed: unit not found"]))
        }
        _ => panic!("not failed"),
    }
    match after_start("s", UpdateOutcome::NotRun(failure("no such file"))) {
        UpdateStep::Sudo { context, .. } => {
            assert_eq!(context, "failed to start update service: no such file");
            let error = after_sudo("s", context, UpdateOutcome::NotRun(failure("no sudo")));
            assert_eq!(
                error.unwrap_err().causes,
                texts(&["failed to start update service: no such file", "no sudo"])
            );
        }
        _ => panic!("no fallback"),
    }
    let error = after_sudo("s", "c".to_owned(), exited(false, "")).unwrap_err();
    assert_eq!(error.causes, texts(&["systemctl start s failed: unknown error"]));
    assert_eq!(update_service(&pairs(&[("STATIX_UPDATE_SERVICE", " x ")])), " x ");
    assert_eq!(
        update_service(&pairs(&[("STATIX_UPDATE_SERVICE", " ")])),
        "statix-agent-update.service"
    );
}

#[test]
fn sessions_run_one_job_at_a_time_and_in_order() {
    let mut session = Session::new();
    assert!(session.next_job().is_none());
    for id in ["a", "b"] {
        let event = SessionEvent::Message(ServerMessage::Job { job: job(id) });
        assert!(matches!(session.handle(event, false), SessionAction::Continue));
    }
    let first = session.next_job().unwrap();
    assert_eq!(first.id, "a");
    let (accepted, started) = started_statuses(&first);
    assert_eq!(accepted.status, "accepted");
    assert_eq!(started.status, "started");
    assert_eq!(started.job_id, "a");
    assert!(session.next_job().is_none());
    let done = completed_status("a", Err(failure("late").context("run".to_owned())));
    assert_eq!(done.status, "failed");
    assert_eq!(done.message, Some("run: late".to_owned()));
    match session.handle(SessionEvent::JobDone(Some(done)), false) {
        SessionAction::SendStatus(status) => assert_eq!(status.job_id, "a"),
        _ => panic!("no status"),
    }
    assert_eq!(session.next_job().unwrap().id, "b");
    let result = JobExecutionResult { status: "succeeded", message: None };
    let done = completed_status("b", Ok(result));
    assert_eq!(done.status, "succeeded");
    assert!(matches!(
        session.handle(SessionEvent::JobDone(Some(done)), false),
        SessionAction::SendStatus(_)
    ));
    assert!(session.next_job().is_none());
}

#[test]
fn sessions_act_on_events() {
    let mut session = Session::new();
    let mut fails = |event: SessionEvent| match session.handle(event, false) {
        SessionAction::Fail(failure) => failure.causes,
        _ => panic!("no failure"),
    };
    let error = ServerMessage::Error { error: "x".to_owned() };
    assert_eq!(fails(SessionEvent::Message(error)), texts(&["server error: x"]));
    assert_eq!(fails(SessionEvent::Closed(None)), texts(&["websocket closed"]));
    assert_eq!(fails(SessionEvent::Closed(Some("bye".to_owned()))), texts(&["bye"]));
    assert_eq!(
        fails(SessionEvent::Broken(failure("io"))),
        texts(&["websocket session failed", "io"])
    );
    assert_eq!(fails(SessionEvent::Ended), texts(&["websocket connection ended"]));
    assert_eq!(fails(SessionEvent::JobDone(None)), texts(&["job completion channel closed"]));
    assert_eq!(fails(SessionEvent::JobLog(None)), texts(&["job log channel closed"]));
    assert!(matches!(session.handle(SessionEvent::Ended, true), SessionAction::Stop));
    assert!(matches!(
        session.handle(SessionEvent::Broken(failure("io")), true),
        SessionAction::Stop
    ));
    assert!(matches!(session.handle(SessionEvent::StopChanged(true), false), SessionAction::Stop));
    assert!(matches!(
        session.handle(SessionEvent::StopChanged(false), false),
        SessionAction::Continue
    ));
    assert!(matches!(
        session.handle(SessionEvent::PublishTick, false),
        SessionAction::PublishMetrics
    ));
    assert!(matches!(
        session.handle(SessionEvent::SystemTick, false),
        SessionAction::PublishSystemInfo
    ));
    assert!(matches!(session.handle(SessionEvent::Unknown, false), SessionAction::Continue));
    assert!(matches!(session.handle(SessionEvent::Other, false), SessionAction::Continue));
    let line = JobLogLine {
        job_id: "j".to_owned(),
        attempt_id: "a".to_owned(),
        stream: JobLogStream::Stdout,
        line: "l".to_owned(),
    };
    match session.handle(SessionEvent::JobLog(Some(line)), false) {
        SessionAction::SendLog(line) => assert_eq!(line.line, "l"),
        _ => panic!("no line"),
    }
}

#[test]
fn nodes_wait_to_be_let_in() {
    let ready = |id: &str| ReadyEvent::Message(ServerMessage::Ready { node_id: id.to_owned() });
    assert!(matches!(await_ready("n", ready("n")), ReadyStep::Ready));
    let fails = |event: ReadyEvent| match await_ready("n", event) {
        ReadyStep::Fail(failure) => failure.causes,
        _ => panic!("no failure"),
    };
    assert_eq!(
        fails(ready("m")),
        texts(&["websocket authenticated for unexpected node: m"])
    );
    assert_eq!(fails(ReadyEvent::Closed(None)), texts(&["websocket closed during auth"]));
    assert_eq!(
        fails(ReadyEvent::Broken(failure("io"))),
        texts(&["websocket auth failed", "io"])
    );
    assert_eq!(fails(ReadyEvent::Ended), texts(&["websocket closed before ready"]));
    let error = ServerMessage::Error { error: "x".to_owned() };
    assert_eq!(fails(ReadyEvent::Message(error)), texts(&["server error: x"]));
    let early = ReadyEvent::Message(ServerMessage::Job { job: job("a") });
    assert!(matches!(await_ready("n", early), ReadyStep::Wait));
    assert!(matches!(await_ready("n", ReadyEvent::Other), ReadyStep::Wait));
    assert_eq!(auth_timeout_message(8), "websocket auth timed out after 8 ms");
    assert_eq!(connect_timeout_message(8), "ws connect timed out after 8 ms");
}

#[test]
fn system_info_is_published_when_needed() {
    assert!(publish_system_info_if_needed(false, None, "h", Some(0), 10));
    assert!(publish_system_info_if_needed(false, Some("g"), "h", Some(0), 10));
    assert!(publish_system_info_if_needed(false, Some("h"), "h", Some(10), 10));
    assert!(publish_system_info_if_needed(false, Some("h"), "h", None, 10));
    assert!(publish_system_info_if_needed(true, Some("h"), "h", Some(0), 10));
    assert!(!publish_system_info_if_needed(false, Some("h"), "h", Some(9), 10));
    assert!(connects_again(false, false));
    assert!(!connects_again(true, false));
    assert!(!connects_again(false, true));
    assert!(applies_wireguard(&pairs(&[("STATIX_APPLY_WIREGUARD", "on")]), true));
    assert!(!applies_wireguard(&pairs(&[("STATIX_APPLY_WIREGUARD", "on")]), false));
    assert!(!applies_wireguard(&pairs(&[]), true));
}

#[test]
fn test_jobs_are_planned() {
    let mut job = TestJob {
        preset: "cargo_test".to_owned(),
        source: JobSource::GitCheckout {
            repo_url: "u".to_owned(),
            git_ref: "r".to_owned(),
            commit_sha: "c".to_owned(),
            subdir: None,
        },
        args: texts(&["--", "a b"]),
        timeout_seconds: None,
        execution: None,
    };
    assert!(check_preset(&job).is_ok());
    let plan = plan_test(&config(), "j", &job);
    match &plan.environment {
        RunnerEnvironment::Microvm { image, cpu, memory_mb } => {
            assert_eq!(image, "default-image");
            assert_eq!(*cpu, Some(2));
            assert_eq!(*memory_mb, Some(4096));
        }
        _ => panic!("another environment"),
    }
    assert_eq!(plan.context.job_id, "j");
    assert_eq!(plan.context.attempt_id, "j");
    assert_eq!(plan.context.timeout_seconds, 1800);
    assert_eq!(
        plan.command,
        texts(&[
            "bash",
            "-lc",
            "if [ -f \"$HOME/.cargo/env\" ]; then . \"$HOME/.cargo/env\"; fi; exec cargo test -- 'a b'"
        ])
    );
    job.execution = Some(JobExecutionConfig {
        job_id: Some("other".to_owned()),
        attempt_id: None,
        environment: Some(JobEnvironment::Microvm {
            image: Some("i".to_owned()),
            cpu: None,
            memory_mb: Some(512),
        }),
    });
    job.timeout_seconds = Some(5);
    let plan = plan_test(&config(), "j", &job);
    match &plan.environment {
        RunnerEnvironment::Microvm { image, cpu, memory_mb } => {
            assert_eq!(image, "i");
            assert_eq!(*cpu, Some(2));
            assert_eq!(*memory_mb, Some(512));
        }
        _ => panic!("another environment"),
    }
    assert_eq!(plan.context.job_id, "other");
    assert_eq!(plan.context.attempt_id, "j");
    assert_eq!(plan.context.timeout_seconds, 5);
    let checked = plan_checked_test(&config(), "j", &job).unwrap();
    assert_eq!(checked.command, plan.command);
    assert_eq!(checked.context.job_id, "other");
    assert_eq!(checked.context.timeout_seconds, 5);
    assert!(matches!(
        checked.environment,
        RunnerEnvironment::Microvm { image, cpu: Some(2), memory_mb: Some(512) } if image == "i"
    ));
    job.preset = "npm".to_owned();
    assert_eq!(check_preset(&job), Err("unsupported test preset: npm".to_owned()));
    assert_eq!(
        plan_checked_test(&config(), "j", &job).unwrap_err(),
        "unsupported test preset: npm"
    );
    assert_eq!(cargo_test_command(&Vec::new()).len(), 3);
}

#[test]
fn deployments_set_their_variables() {
    let setup = vec![
        DeploymentSetup {
            name: "one".to_owned(),
            run: texts(&["make", "x y"]),
            exports: pairs(&[("A", "2"), ("B", "3")]),
        },
        DeploymentSetup { name: "two".to_owned(), run: Vec::new(), exports: pairs(&[]) },
    ];
    let job = deploy_job(setup, false);
    let mut deployment = Deployment::new(&job);
    match deployment.next(&job) {
        DeployAction::Setup(command) => assert_eq!(
            command,
            texts(&[
                "bash",
                "-lc",
                "export A=1; export STATIX_DEPLOYMENT_ENVIRONMENT=prod; export STATIX_DEPLOYMENT_ID=d1; exec make 'x y'"
            ])
        ),
        _ => panic!("no setup"),
    }
    let error = deployment.after_setup(&job, Err(failure("vm"))).unwrap_err();
    assert_eq!(error.causes, texts(&["deployment setup `one` failed", "vm"]));
    deployment.after_setup(&job, Ok(())).unwrap();
    assert_eq!(deployment.variables.get("A").unwrap(), "2");
    assert_eq!(deployment.variables.get("B").unwrap(), "3");
    match deployment.next(&job) {
        DeployAction::End(Err(failure)) => assert_eq!(
            failure.causes,
            texts(&["deployment setup `two` command must not be empty"])
        ),
        _ => panic!("no end"),
    }
}

#[test]
fn deployments_end_in_a_unit() {
    let dry = deploy_job(Vec::new(), true);
    match Deployment::new(&dry).next(&dry) {
        DeployAction::End(Ok(result)) => {
            assert_eq!(result.status, "succeeded");
            assert_eq!(result.message, Some("deployment dry run completed".to_owned()));
        }
        _ => panic!("no end"),
    }
    let job = deploy_job(Vec::new(), false);
    match Deployment::new(&job).next(&job) {
        DeployAction::Deploy(command) => {
            assert_eq!(command[0], "bash");
            assert!(command[2].starts_with("printf %s '[Unit]\nDescription=Statix project p/1 (prod)\n"));
            assert!(command[2].contains("WorkingDirectory=/home/statix/docker\n"));
            assert!(command[2].contains("./statix/deploy.sh"));
            assert!(command[2].ends_with(
                "sudo systemctl enable --now statix-project-p_1-prod.service && sudo systemctl restart statix-project-p_1-prod.service"
            ));
        }
        _ => panic!("no command"),
    }
    let (environment, context) = deploy_target(&config(), "j", &job);
    match environment {
        RunnerEnvironment::ProjectMicrovm { project_id, environment, image, .. } => {
            assert_eq!(project_id, "p/1");
            assert_eq!(environment, "prod");
            assert_eq!(image, "default-image");
        }
        _ => panic!("another environment"),
    }
    assert_eq!(context.job_id, "d1");
    assert_eq!(context.attempt_id, "j");
    assert_eq!(
        project_systemd_command("p", "e", &texts(&["run", "it's"]))[2],
        "printf %s '[Unit]\nDescription=Statix project p (e)\nAfter=network-online.target\nWants=network-online.target\n\n[Service]\nType=simple\nUser=statix\nWorkingDirectory=/home/statix/docker\nEnvironment=HOME=/home/statix\nExecStart=/bin/bash -lc '\\''run '\\''\\'\\'''\\''it'\\''\\'\\'''\\''\\'\\''\\'\\'''\\'''\\''\\'\\'''\\''s'\\''\\'\\'''\\'''\\''\nRestart=always\nRestartSec=5\n\n[Install]\nWantedBy=multi-user.target\n' | sudo tee /etc/systemd/system/statix-project-p-e.service >/dev/null && sudo systemctl daemon-reload && sudo systemctl enable --now statix-project-p-e.service && sudo systemctl restart statix-project-p-e.service"
    );
}

#[test]
fn variables_are_exported() {
    let command = texts(&["a b"]);
    assert_eq!(env_command(&command, &pairs(&[])), command);
    assert_eq!(
        env_command(&command, &pairs(&[(" X ", "1 2"), ("no-name", "3")])),
        texts(&["bash", "-lc", "export X='1 2'; exec 'a b'"])
    );
    assert_eq!(
        env_command(&command, &pairs(&[("no-name", "3")])),
        texts(&["bash", "-lc", " exec 'a b'"])
    );
    assert_eq!(shell_env_key(" _A1 "), Some("_A1".to_owned()));
    assert_eq!(shell_env_key("1A"), None);
    assert_eq!(shell_env_key(""), None);
}

#[test]
fn bundles_are_checked() {
    let bundle = |sha: &str, size: u64| DeploymentBundle {
        download_session_url: String::new(),
        sha256: sha.to_owned(),
        size_bytes: size,
    };
    let session = |sha: &str, size: u64| DownloadSession {
        url: String::new(),
        sha256: sha.to_owned(),
        size_bytes: size,
    };
    let sha = "B94D27B9934D3E08A52E52D7DA7DABFAC484EFE37A5380EE9088F7ACE2EFCDE9";
    let lower = sha.to_lowercase();
    assert!(check_bundle(b"hello world", &bundle(sha, 11), &session(&lower, 11)).is_ok());
    let error = check_bundle(b"hello world", &bundle(sha, 11), &session(&lower, 12)).unwrap_err();
    assert_eq!(
        error.message(),
        "deployment bundle size mismatch: downloaded 11, expected 11"
    );
    let error = check_bundle(b"hello world", &bundle("00", 11), &session(&lower, 11)).unwrap_err();
    assert_eq!(
        error.message(),
        format!("deployment bundle sha256 mismatch: downloaded {lower}, expected 00")
    );
    assert!(matches!(
        check_digest(1, "ab", &bundle("AB", 1), &session("cd", 1)),
        Err(BundleError::Digest { .. })
    ));
    assert!(check_digest(1, "ab", &bundle("AB", 1), &session("aB", 1)).is_ok());
}

#[test]
fn bundles_are_found_and_placed() {
    assert_eq!(deployment_api_url("https://h/api/", "/api/x/y"), "https://h/api/x/y");
    assert_eq!(deployment_api_url("https://h/api", "x"), "https://h/api/x");
    assert_eq!(deployment_api_url("https://h", "/api/x"), "https://h/api/x");
    assert_eq!(deployment_api_url("https://h/api", "/api/api//x"), "https://h/api/x");
    assert_eq!(safe_path_segment("a/b c.d-e_f"), "a_b_c.d-e_f");
    let files = deployment_files("/s", "j/1");
    assert_eq!(files.root, "/s/jobs/deployments");
    assert_eq!(files.job_root, "/s/jobs/deployments/j_1");
    assert_eq!(files.archive, "/s/jobs/deployments/j_1/project.tar.zst");
    assert_eq!(files.workdir, "/s/jobs/deployments/j_1/workspace");
    assert_eq!(extract_args("/a", "/w"), texts(&["--zstd", "-xf", "/a", "-C", "/w"]));
    assert_eq!(
        session_failure("404 Not Found", "no"),
        "deployment bundle download session failed (404 Not Found): no"
    );
}

#[test]
fn checkouts_are_stepped_through() {
    let checkout = Checkout {
        repo_url: "https://r".to_owned(),
        git_ref: "main".to_owned(),
        commit_sha: "abc".to_owned(),
        repo_dir: "/d".to_owned(),
    };
    assert_eq!(checkout.first_step(true), GitStep::SetUrl);
    let mut step = checkout.first_step(false);
    let mut all = Vec::new();
    loop {
        all.push(checkout.args(step));
        let gave = if step == GitStep::Resolve { "abc\n" } else { "" };
        match checkout.advance(step, Ok(gave.to_owned())).unwrap() {
            Some(next) => step = next,
            None => break,
        }
    }
    assert_eq!(
        all,
        vec![
            (texts(&["clone", "--no-checkout", "https://r", "/d"]), false),
            (texts(&["fetch", "--depth", "1", "origin", "main"]), true),
            (texts(&["rev-parse", "FETCH_HEAD"]), true),
            (texts(&["checkout", "--force", "abc"]), true),
            (texts(&["clean", "-fdx"]), true),
        ]
    );
    let causes = |step: GitStep| {
        checkout.advance(step, Err(failure("x"))).unwrap_err().causes
    };
    assert_eq!(causes(GitStep::Clone), texts(&["failed to clone https://r", "x"]));
    assert_eq!(causes(GitStep::SetUrl), texts(&["failed to update origin url for /d", "x"]));
    assert_eq!(causes(GitStep::Fetch), texts(&["failed to fetch main from https://r", "x"]));
    assert_eq!(causes(GitStep::Resolve), texts(&["failed to resolve FETCH_HEAD", "x"]));
    assert_eq!(causes(GitStep::Checkout), texts(&["failed to checkout abc", "x"]));
    assert_eq!(causes(GitStep::Clean), texts(&["failed to clean checkout", "x"]));
    let error = checkout.advance(GitStep::Resolve, Ok("abd".to_owned())).unwrap_err();
    assert_eq!(
        error.causes,
        texts(&["fetched commit abd does not match expected abc for ref main"])
    );
}

#[test]
fn git_runs_are_judged() {
    let exited = |success: bool, stdout: &str, stderr: &str| GitOutcome::Exited {
        success,
        stdout: stdout.as_bytes().to_vec(),
        stderr: stderr.as_bytes().to_vec(),
    };
    let args = texts(&["rev-parse", "HEAD"]);
    assert_eq!(run_git_output(&args, exited(true, " a\n", "")).unwrap(), "a");
    assert_eq!(
        run_git_output(&args, exited(false, "", "fatal\n")).unwrap_err().causes,
        texts(&["git rev-parse HEAD failed: fatal"])
    );
    assert_eq!(
        run_git_output(&args, exited(false, "", "")).unwrap_err().causes,
        texts(&["git rev-parse HEAD failed: unknown error"])
    );
    assert_eq!(
        run_git_output(&args, GitOutcome::NotRun(failure("x"))).unwrap_err().causes,
        texts(&["x"])
    );
    assert_eq!(repositories_dir("/s"), "/s/jobs/git");
    assert!(repo_dir("/s", "u").starts_with("/s/jobs/git/"));
    assert_eq!(repo_dir("/s", "u").len(), "/s/jobs/git/".len() + 16);
    assert_eq!(job_workdir("/r", Some(" sub ")), "/r/sub");
    assert_eq!(job_workdir("/r", Some(" ")), "/r");
    assert_eq!(job_workdir("/r", None), "/r");
}

fn login() -> LoginConfig {
    LoginConfig { api_base_url: "https://h/api".to_owned() }
}

fn identity() -> WireGuardIdentity {
    WireGuardIdentity { private_key: "priv".to_owned(), public_key: "pub".to_owned() }
}

fn info(hostname: &str) -> SystemInfo {
    SystemInfo {
        os_platform: "linux".to_owned(),
        os_release: "6".to_owned(),
        os_arch: "x86_64".to_owned(),
        hostname: hostname.to_owned(),
        cpu_model: "c".to_owned(),
        cpu_cores: 1,
        mem_total: 1,
        agent_version: Some("1".to_owned()),
        agent_commit: None,
        agent_built_at: None,
        wireguard: None,
        gpus: Vec::new(),
    }
}

#[test]
fn logins_ask_to_be_let_in() {
    assert_eq!(required_commands(), texts(&["wg", "ip", "tar"]));
    assert_eq!(check_dependencies(&vec![true, true, true]), Ok(()));
    assert_eq!(
        check_dependencies(&vec![false, true, false]),
        Err("Missing required dependencies: wg, tar. Please install them before proceeding.".to_owned())
    );
    assert_eq!(requested_name(Some(" a "), "h"), Some(" a ".to_owned()));
    assert_eq!(requested_name(Some(" "), " h "), Some("h".to_owned()));
    assert_eq!(requested_name(None, " "), None);
    let options = LoginOptions { api_base_url: None, requested_name: None };
    let request = start_request(&options, &info("host"), Vec::new(), &identity());
    assert_eq!(request.requested_name, Some("host".to_owned()));
    assert_eq!(request.mac_addresses, None);
    assert_eq!(request.wireguard_public_key, Some("pub".to_owned()));
    assert_eq!(request.agent_version, Some("1".to_owned()));
    let request = start_request(&options, &info("host"), texts(&["m"]), &identity());
    assert_eq!(request.mac_addresses, Some(texts(&["m"])));
    assert_eq!(start_url(&login()), "https://h/api/nodes/enroll/start");
    assert_eq!(poll_url(&login()), "https://h/api/nodes/enroll/poll");
    assert_eq!(finish_url(&login()), "https://h/api/nodes/enroll/finish");
    assert!(check_start(201, "").is_ok());
    assert_eq!(check_start(500, ""), Err("enrollment start failed (500): unknown error".to_owned()));
    assert_eq!(check_start(400, "bad"), Err("enrollment start failed (400): bad".to_owned()));
    let args = LoginArgs {
        api_base_url: None,
        requested_name: Some("n".to_owned()),
        api_base_url_positional: Some("u".to_owned()),
    };
    let options = args.into_options();
    assert_eq!(options.api_base_url, Some("u".to_owned()));
    assert_eq!(options.requested_name, Some("n".to_owned()));
}

#[test]
fn logins_wait_for_approval() {
    assert!(check_poll(200, "").is_ok());
    assert_eq!(check_poll(409, "taken"), Err("enrollment conflict: taken".to_owned()));
    assert_eq!(check_poll(409, ""), Err("enrollment conflict: unknown error".to_owned()));
    assert_eq!(check_poll(410, "x"), Err("enrollment expired".to_owned()));
    assert_eq!(check_poll(503, "down"), Err("enrollment poll failed (503): down".to_owned()));
    let pending = || EnrollmentPollResponse::Pending;
    assert!(matches!(run_login(pending(), 10, &login(), &identity()), LoginStep::Wait(1_000)));
    assert!(matches!(run_login(pending(), 2_500, &login(), &identity()), LoginStep::Wait(2_500)));
    let approved = EnrollmentPollResponse::Approved {
        node_id: "n".to_owned(),
        node_token: "t".to_owned(),
        agent_ws_url: "wss://h".to_owned(),
        wireguard: Some(EnrollmentWireGuardConfig {
            interface_name: "wg0".to_owned(),
            addresses: texts(&["a", "b"]),
            dns: Vec::new(),
            server: WireGuardPeerConfig {
                public_key: "s".to_owned(),
                endpoint: "e".to_owned(),
                allowed_ips: texts(&["i"]),
                preshared_key: None,
                persistent_keepalive_seconds: Some(25),
            },
        }),
    };
    let saved = match run_login(approved, 10, &login(), &identity()) {
        LoginStep::Save(saved) => saved,
        LoginStep::Wait(_) => panic!("waits"),
    };
    assert_eq!(saved.node_id, "n");
    assert_eq!(saved.api_base_url, Some("https://h/api".to_owned()));
    let wireguard = saved.wireguard.as_ref().unwrap();
    assert_eq!(wireguard.private_key, "priv");
    assert_eq!(wireguard.public_key, "pub");
    assert_eq!(wireguard.server.persistent_keepalive_seconds, Some(25));
    assert_eq!(
        enrolled_lines(&saved, "/c"),
        texts(&[
            "Node enrolled successfully.",
            "Node ID: n",
            "Agent websocket: wss://h",
            "WireGuard: wg0 a, b",
            "Saved config: /c"
        ])
    );
}

fn polled(status: u16, response: EnrollmentPollResponse) -> LoginEvent {
    LoginEvent::Polled { status, payload: "no".to_owned(), response: Ok(response) }
}

fn approval() -> EnrollmentPollResponse {
    EnrollmentPollResponse::Approved {
        node_id: "n".to_owned(),
        node_token: "t".to_owned(),
        agent_ws_url: "wss://h".to_owned(),
        wireguard: None,
    }
}

fn login_run() -> LoginRun {
    LoginRun::new(LoginTerms { login: login(), identity: identity(), poll_interval_ms: 1_500 })
}

fn login_fails(run: &mut LoginRun, event: LoginEvent) -> Vec<String> {
    match run.advance(event) {
        LoginAction::Fail(failure) => failure.causes,
        _ => panic!("no failure"),
    }
}

#[test]
fn logins_save_then_finish_then_end() {
    for (status, text, warning) in [
        (204, None, None),
        (500, Some("down"), Some("enrollment finished locally but finalize failed: down")),
        (
            404,
            None,
            Some("enrollment finished locally but finalize failed: unable to read finalize response"),
        ),
    ] {
        let mut run = login_run();
        let pending = polled(200, EnrollmentPollResponse::Pending);
        assert!(matches!(run.advance(pending), LoginAction::Wait(1_500)));
        match run.advance(polled(200, approval())) {
            LoginAction::Save(saved) => {
                assert_eq!(saved.node_id, "n");
                assert_eq!(saved.api_base_url, Some("https://h/api".to_owned()));
            }
            _ => panic!("nothing saved"),
        }
        let early = LoginEvent::Finished { status, text: None };
        assert!(matches!(run.advance(early), LoginAction::Ignore));
        let saved = LoginEvent::Saved { path: "/c".to_owned() };
        assert!(matches!(run.advance(saved), LoginAction::Finish));
        match run.advance(LoginEvent::Finished { status, text: text.map(str::to_owned) }) {
            LoginAction::Done { lines, warning: told } => {
                assert_eq!(
                    lines,
                    texts(&[
                        "Node enrolled successfully.",
                        "Node ID: n",
                        "Agent websocket: wss://h",
                        "Saved config: /c"
                    ])
                );
                assert_eq!(told.as_deref(), warning);
            }
            _ => panic!("no end"),
        }
        assert!(matches!(run.advance(polled(200, approval())), LoginAction::Ignore));
    }
}

#[test]
fn refused_logins_save_nothing() {
    let mut run = login_run();
    assert_eq!(
        login_fails(&mut run, polled(409, approval())),
        texts(&["enrollment conflict: no"])
    );
    assert!(matches!(run.advance(polled(200, approval())), LoginAction::Ignore));
    let broken = LoginEvent::Polled {
        status: 200,
        payload: String::new(),
        response: Err(failure("x")),
    };
    assert_eq!(
        login_fails(&mut login_run(), broken),
        texts(&["invalid enrollment poll payload", "x"])
    );
    assert_eq!(
        login_fails(&mut login_run(), LoginEvent::NotSent(failure("x"))),
        texts(&["failed to poll enrollment", "x"])
    );
    assert_eq!(
        login_fails(&mut login_run(), LoginEvent::NotRead(failure("x"))),
        texts(&["failed to read poll response", "x"])
    );
    let mut run = login_run();
    run.advance(polled(200, approval()));
    assert_eq!(login_fails(&mut run, LoginEvent::NotSaved(failure("x"))), texts(&["x"]));
    let mut run = login_run();
    run.advance(polled(200, approval()));
    run.advance(LoginEvent::Saved { path: "/c".to_owned() });
    assert_eq!(
        login_fails(&mut run, LoginEvent::NotSent(failure("x"))),
        texts(&["failed to finalize enrollment", "x"])
    );
    assert_eq!(
        approval_lines("u", "c", "e"),
        texts(&[
            "Open this link in your browser and sign in to approve the node:",
            "u",
            "Code: c",
            "Expires: e",
            "Waiting for approval..."
        ])
    );
}

#[test]
fn tools_of_a_job_are_judged() {
    assert!(extracted(ToolOutcome::Exited(true), "").is_ok());
    assert_eq!(
        extracted(ToolOutcome::Exited(false), "exit status: 2").unwrap_err().causes,
        texts(&["tar failed to extract deployment bundle with status exit status: 2"])
    );
    assert_eq!(
        extracted(ToolOutcome::NotRun(failure("gone")), "").unwrap_err().causes,
        texts(&["failed to launch tar", "gone"])
    );
    assert_eq!(prepared_workspace("/r".to_owned(), true).unwrap().workdir, "/r");
    assert_eq!(
        prepared_workspace("/r".to_owned(), false).unwrap_err(),
        "resolved workdir does not exist: /r"
    );
    assert_eq!(
        journal_args("s"),
        texts(&["--follow", "--no-pager", "--lines=0", "--unit", "s"])
    );
    let result = update_result(Ok(())).unwrap();
    assert_eq!(result.status, "succeeded");
    assert_eq!(result.message, Some("agent update requested".to_owned()));
    assert_eq!(update_result(Err(failure("x"))).unwrap_err().causes, texts(&["x"]));
    for (place, name) in [(ArchivePlace::Microvm, "microvm"), (ArchivePlace::Container, "container")] {
        assert!(archived(place, ToolOutcome::Exited(true)).is_ok());
        assert_eq!(
            archived(place, ToolOutcome::Exited(false)).unwrap_err().causes,
            vec![format!("failed to archive workspace for {name} execution")]
        );
    }
}

#[test]
fn tools_of_a_machine_are_judged() {
    let launch = |program: &str, package: &str| {
        format!("failed to launch {program}; install the '{package}' package and ensure {program} is on PATH")
    };
    assert!(disk_made(ToolOutcome::Exited(true)).is_ok());
    assert_eq!(
        disk_made(ToolOutcome::NotRun(failure("x"))).unwrap_err().causes,
        vec![launch("qemu-img", "qemu-utils"), "x".to_owned()]
    );
    assert_eq!(
        disk_made(ToolOutcome::Exited(false)).unwrap_err().causes,
        texts(&["qemu-img failed to create overlay disk"])
    );
    assert!(seed_made(ToolOutcome::Exited(true)).is_ok());
    assert_eq!(
        seed_made(ToolOutcome::NotRun(failure("x"))).unwrap_err().causes,
        vec![launch("cloud-localds", "cloud-image-utils"), "x".to_owned()]
    );
    assert_eq!(
        seed_made(ToolOutcome::Exited(false)).unwrap_err().causes,
        texts(&["cloud-localds failed to create the seed image"])
    );
    assert!(keypair_made(ToolOutcome::Exited(true), true).is_ok());
    assert_eq!(
        keypair_made(ToolOutcome::Exited(true), false).unwrap_err().causes,
        texts(&["ssh-keygen did not create a public key"])
    );
    assert_eq!(
        keypair_made(ToolOutcome::Exited(false), true).unwrap_err().causes,
        texts(&["ssh-keygen failed to create guest keypair"])
    );
    assert_eq!(
        keypair_made(ToolOutcome::NotRun(failure("x")), false).unwrap_err().causes,
        texts(&["failed to launch ssh-keygen", "x"])
    );
}

#[test]
fn statuses_are_kept_as_they_are() {
    let status = JobStatus { job_id: "j".to_owned(), status: "failed", message: None };
    let mut session = Session::new();
    match session.handle(SessionEvent::JobDone(Some(status)), false) {
        SessionAction::SendStatus(status) => {
            assert_eq!(status.status, "failed");
            assert_eq!(status.message, None);
        }
        _ => panic!("no status"),
    }
}
