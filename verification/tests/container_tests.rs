use statix_agent::environment::Environment;
use statix_agent::failure::Failure;
use statix_agent::jobs::container::diagnostics::{
    lxc_log_excerpt, lxc_start_failure_message, proc_mount_uses_noatime,
    summarize_raw_command_output, tail_for_log, KERNEL_HINT, NICS_HINT, NOATIME_HINT, ROOTFS_HINT,
    UNKNOWN_HINT,
};
use statix_agent::jobs::container::image::{lxc_arch, LxcImage, LxcImageError};
use statix_agent::jobs::container::lxc::{
    after_command, after_guest_dns, after_guest_network, after_setup, after_task, attach_command,
    check_dependencies, configures_guest_dns, create_command, create_failure, create_log_path,
    destroy_command, enforce_lxc_limits, guest_command, info_command,
    job_log_path, lxc_helper_path, lxc_process_home, lxc_storage_path, process_variables,
    receive_command, redacted_command, required_commands, runtime_command, runtime_config,
    runtime_config_path, runtime_ipv4, runtime_log_path, shell_env_key, start_command,
    start_failure, stop_command, task_failure, traversable_mode, wait_command, wait_failure,
    write_job_lxc_config, UNPACK,
};
use statix_agent::jobs::container::network::{
    bridge_args, guest_ipv4_address, guest_network_command, lxc_bridge_network, parse_ipv4,
    parse_lxc_bridge_network, runtime_address, Ipv4, LxcBridgeNetwork,
};
use statix_agent::jobs::container::output::StreamCollector;
use statix_agent::jobs::container::run::{ContainerEvent, ContainerRun, ContainerStep};
use statix_agent::jobs::container::{container_name, truncate_for_name, ContainerRunner};
use statix_agent::jobs::output::ProcessOutcome;
use statix_agent::jobs::{CommandSpec, JobExecutionResult};
use statix_agent::string_map::StringMap;

fn texts(words: &[&str]) -> Vec<String> {
    words.iter().map(|word| word.to_string()).collect()
}

fn no_env() -> Environment {
    StringMap::new()
}

fn state_env() -> Environment {
    let mut env: Environment = StringMap::new();
    env.insert("STATE_DIRECTORY".to_owned(), "/state".to_owned());
    env
}

#[test]
fn runtime_command_uses_privileged_helper_and_explicit_storage() {
    let command = runtime_command(
        &no_env(),
        "lxc-attach",
        "statix-project-runtime",
        &vec!["--".into(), "true".into()],
    );

    assert_eq!(command[0], "sudo");
    assert_eq!(command[3], "/usr/local/libexec/statix-agent-lxc");
    assert_eq!(command[4], "lxc-attach");
    assert!(
        command
            .windows(2)
            .any(|pair| pair == ["-n", "statix-project-runtime"])
    );
    assert_eq!(command[7], "-P");
    assert!(command[8] == "/var/lib/lxc" || command[8].ends_with("/lxc/containers"));
    assert_eq!(&command[9..], ["--", "true"]);
}

#[test]
fn containers_are_named() {
    assert_eq!(container_name("attempt-lxc"), "statix-attempt-lxc");
    assert_eq!(container_name("--A_b--"), "statix-a-b");
    assert_eq!(container_name("__"), "statix-job");
    assert_eq!(container_name(&"x".repeat(100)), format!("statix-{}", "x".repeat(56)));
    assert_eq!(truncate_for_name("abc", 2), "ab");
    assert_eq!(truncate_for_name("abc", 5), "abc");
    let runner = ContainerRunner::new("i".to_owned(), Some(1), None);
    assert_eq!(runner.image, "i");
}

#[test]
fn container_images_are_parsed() {
    let image = LxcImage::parse(" ubuntu : 24.04 ").unwrap();
    assert_eq!(image.distribution, "ubuntu");
    assert_eq!(image.release, "noble");
    assert_eq!(LxcImage::parse("ubuntu:22.04").unwrap().release, "jammy");
    assert_eq!(LxcImage::parse("ubuntu:20.04").unwrap().release, "focal");
    assert_eq!(LxcImage::parse("debian:24.04").unwrap().release, "24.04");
    assert_eq!(LxcImage::parse("a:b:c").unwrap().release, "b:c");
    assert_eq!(LxcImage::parse(" ").unwrap_err(), LxcImageError::Empty);
    assert_eq!(LxcImage::parse("ubuntu").unwrap_err(), LxcImageError::Format);
    assert_eq!(LxcImage::parse("ubuntu: ").unwrap_err(), LxcImageError::Format);
    assert_eq!(LxcImageError::Empty.message(), "container image must not be empty");
    assert_eq!(
        LxcImageError::Format.message(),
        "container image must use distribution:release format, for example ubuntu:24.04"
    );
    assert_eq!(lxc_arch("x86_64"), "amd64");
    assert_eq!(lxc_arch("aarch64"), "arm64");
    assert_eq!(lxc_arch("riscv64"), "riscv64");
}

#[test]
fn container_dependencies_are_checked() {
    assert_eq!(required_commands().len(), 7);
    assert_eq!(check_dependencies(&vec![true; 7], true), Ok(()));
    let mut found = vec![true; 7];
    found[0] = false;
    found[4] = false;
    assert_eq!(
        check_dependencies(&found, true),
        Err("Missing required LXC dependencies: sudo, lxc-attach. Please install the 'lxc' package before creating containers.".to_owned())
    );
    assert_eq!(
        check_dependencies(&vec![true; 7], false),
        Err("Missing LXC privilege helper at /usr/local/libexec/statix-agent-lxc; reinstall statix-agent".to_owned())
    );
    assert_eq!(lxc_helper_path(), "/usr/local/libexec/statix-agent-lxc");
}

#[test]
fn container_paths_follow_the_state_directory() {
    assert_eq!(lxc_process_home(&no_env()), None);
    assert_eq!(lxc_storage_path(&no_env()), "/var/lib/lxc");
    assert!(process_variables(&no_env()).is_empty());
    let env = state_env();
    assert_eq!(lxc_process_home(&env), Some("/state/lxc".to_owned()));
    assert_eq!(lxc_storage_path(&env), "/state/lxc/containers");
    let variables = process_variables(&env);
    assert_eq!(variables[0].name, "HOME");
    assert_eq!(variables[0].value, "/state/lxc");
    assert_eq!(variables[3].name, "XDG_DATA_HOME");
    assert_eq!(variables[3].value, "/state/lxc/.local/share");
    assert_eq!(runtime_config_path(&env, "c"), "/state/lxc/containers/c/config");
    assert_eq!(runtime_log_path(&env, "c"), "/state/lxc/containers/c/statix-runtime.log");
    assert_eq!(job_log_path(&env, "c"), "/state/lxc/containers/c/statix-lxc.log");
    assert_eq!(create_log_path(&env, "c"), "/state/lxc/containers/c.create.log");
}

#[test]
fn container_commands_are_listed() {
    let env = no_env();
    let command = create_command(&env, "c", "ubuntu", "noble", "amd64");
    assert_eq!(
        &command[4..],
        [
            "lxc-create",
            "-n",
            "c",
            "-P",
            "/var/lib/lxc",
            "--logfile",
            "/var/lib/lxc/c.create.log",
            "--logpriority",
            "DEBUG",
            "-t",
            "download",
            "--",
            "-d",
            "ubuntu",
            "-r",
            "noble",
            "-a",
            "amd64"
        ]
    );
    assert_eq!(
        &start_command(&env, "c")[9..],
        ["--logfile", "/var/lib/lxc/c/statix-lxc.log", "--logpriority", "DEBUG", "-d"]
    );
    assert_eq!(&wait_command(&env, "c")[9..], ["-s", "RUNNING", "-t", "30"]);
    assert_eq!(&attach_command(&env, "c", "ls")[9..], ["--", "sh", "-lc", "ls"]);
    assert_eq!(&stop_command(&env, "c")[9..], ["--kill"]);
    assert_eq!(destroy_command(&env, "c").len(), 9);
    assert_eq!(destroy_command(&env, "c")[4], "lxc-destroy");
    assert_eq!(&info_command(&env, "c")[9..], ["-iH"]);
    assert_eq!(receive_command(), "cat > /tmp/statix-workspace.tar.gz");
}

#[test]
fn guest_commands_run_as_the_user() {
    let mut command = CommandSpec::new(&texts(&["echo", "a b"])).unwrap();
    command.env.insert("A".to_owned(), "x".to_owned());
    command.env.insert("b-c".to_owned(), "y z".to_owned());
    let text = guest_command(&command).unwrap();
    assert_eq!(
        text,
        format!(
            "{}{}",
            UNPACK,
            "'cd /home/statix/docker && export A=x; export STATIX_INVALID_ENV='\\''y z'\\''; exec echo '\\''a b'\\'''"
        )
    );
    command.cwd = Some("/workspace".to_owned());
    assert_eq!(guest_command(&command).unwrap(), text);
    command.cwd = Some("/home/statix/docker/sub".to_owned());
    assert!(guest_command(&command).unwrap().contains("cd /home/statix/docker/sub && "));
    command.cwd = Some("/etc".to_owned());
    assert_eq!(
        guest_command(&command),
        Err("container command cwd must be inside /home/statix/docker")
    );
    assert_eq!(shell_env_key("A_1"), "A_1");
    assert_eq!(shell_env_key(" A"), "STATIX_INVALID_ENV");
}

#[test]
fn secrets_are_left_out_of_commands() {
    assert_eq!(
        redacted_command(&texts(&["login", "--Token", "s3cret", "-p", "pw", "a b"])),
        "login --Token <redacted> -p <redacted> 'a b'"
    );
    assert_eq!(
        redacted_command(&texts(&["x", "--api-key", "--secret", "y"])),
        "x --api-key <redacted> <redacted>"
    );
    assert_eq!(redacted_command(&texts(&[])), "");
}

#[test]
fn container_limits_are_written() {
    assert_eq!(
        write_job_lxc_config(2, 512, true),
        "\n# Statix job runtime config\nlxc.cgroup2.memory.max = 536870912\nlxc.cgroup2.cpu.max = 200000 100000\nlxc.apparmor.profile = unconfined\nlxc.apparmor.allow_nesting = 1\nlxc.mount.auto = proc:rw sys:rw\n"
    );
    assert_eq!(
        write_job_lxc_config(2, 512, false),
        "\n# Statix job runtime config\n# cgroup limits requested by Statix are not written because enforcement was disabled.\nlxc.apparmor.profile = unconfined\nlxc.apparmor.allow_nesting = 1\nlxc.mount.auto = proc:rw sys:rw\n"
    );
    assert!(runtime_config(1_000, 1, true).contains("cpu.max = 25500000 100000"));
    assert!(runtime_config(3, 1, true).contains("cpu.max = 300000 100000"));
    assert!(!enforce_lxc_limits(&no_env()));
    assert_eq!(traversable_mode(0o700), 0o711);
    assert_eq!(traversable_mode(0o755), 0o755);
}

#[test]
fn container_failures_are_told() {
    assert_eq!(
        create_failure("c", "exit status: 1", "ubuntu", "noble", "amd64", "log"),
        "lxc-create failed for container c with exit status: 1 (requested ubuntu:noble, arch amd64): log. Verify the lxc-download template and image availability with `lxc-create -t download -n probe -- --list`"
    );
    assert_eq!(
        start_failure("c", "exit status: 1", "log", None),
        "lxc-start failed for container c with exit status: 1: log"
    );
    assert_eq!(
        wait_failure("c", "exit status: 1", "log"),
        "lxc-wait did not observe container c running: exit status: 1: log"
    );
    assert_eq!(
        task_failure("configure lxc container network", "exit status: 2", b"", b"no\n"),
        "failed to configure lxc container network with exit status: 2: stderr:\nno"
    );
    let error = after_setup("c", "/w", 9, ProcessOutcome::TimedOut).unwrap_err();
    assert_eq!(error.causes, texts(&["lxc command timed out after 9 seconds"]));
    let cause = Failure::new("gone".to_owned());
    let error = after_command("c", "/w", 9, ProcessOutcome::NotRun(cause)).unwrap_err();
    assert_eq!(
        error.causes,
        texts(&["failed to execute command inside lxc container c", "gone"])
    );
    let exited = |success: bool| ProcessOutcome::Exited {
        success,
        stdout: b"out".to_vec(),
        stderr: Vec::new(),
    };
    assert!(after_setup("c", "/w", 9, exited(true)).unwrap().is_none());
    assert_eq!(after_setup("c", "/w", 9, exited(false)).unwrap().unwrap().status, "failed");
    assert_eq!(after_command("c", "/w", 9, exited(true)).unwrap().status, "succeeded");
}

#[test]
fn tasks_in_a_container_end() {
    let exited = |success: bool| ProcessOutcome::Exited {
        success,
        stdout: Vec::new(),
        stderr: b"no\n".to_vec(),
    };
    assert!(after_task("c", "do it", 9, "exit status: 0", exited(true)).is_ok());
    assert_eq!(
        after_task("c", "do it", 9, "exit status: 2", exited(false)).unwrap_err().causes,
        texts(&["failed to do it with exit status: 2: stderr:\nno"])
    );
    assert_eq!(
        after_task("c", "do it", 9, "", ProcessOutcome::TimedOut).unwrap_err().causes,
        texts(&["lxc command timed out after 9 seconds"])
    );
    let cause = Failure::new("gone".to_owned());
    assert_eq!(
        after_task("c", "do it", 9, "", ProcessOutcome::NotRun(cause)).unwrap_err().causes,
        texts(&["failed to execute command inside lxc container c", "gone"])
    );
    assert!(after_guest_network("c", 9, "exit status: 0", exited(true)).is_ok());
    assert_eq!(
        after_guest_network("c", 9, "exit status: 2", exited(false)).unwrap_err().causes,
        texts(&["failed to configure lxc container network with exit status: 2: stderr:\nno"])
    );
    assert!(after_guest_dns("c", 9, "exit status: 0", exited(true)).is_ok());
    assert_eq!(
        after_guest_dns("c", 9, "exit status: 2", exited(false)).unwrap_err().causes,
        texts(&["failed to configure lxc container DNS with exit status: 2: stderr:\nno"])
    );
}

#[test]
fn name_resolution_is_configured_where_there_is_a_resolver() {
    assert!(!configures_guest_dns(&Vec::new(), false));
    assert!(configures_guest_dns(&Vec::new(), true));
    assert!(configures_guest_dns(&texts(&["9.9.9.9"]), false));
    assert!(configures_guest_dns(&texts(&["9.9.9.9"]), true));
}

#[test]
fn container_logs_are_explained() {
    assert_eq!(summarize_raw_command_output(b" ", b""), "no output");
    assert_eq!(summarize_raw_command_output(b"a", b""), "stdout:\na");
    assert_eq!(summarize_raw_command_output(b"", b"b"), "stderr:\nb");
    assert_eq!(summarize_raw_command_output(b"a", b"b"), "stdout:\na\n\nstderr:\nb");
    assert_eq!(tail_for_log("abcdef", 3), "...def");
    assert_eq!(tail_for_log("abc", 3), "abc");
    assert_eq!(lxc_log_excerpt("/l", Ok(" x ")), "x");
    assert_eq!(lxc_log_excerpt("/l", Ok(" ")), "lxc log /l was empty");
    assert_eq!(lxc_log_excerpt("/l", Err("denied")), "failed to read lxc log /l: denied");
    let nics = "lxc-user-nic failed to configure requested network: Read-only file system /run/lxc/nics";
    assert_eq!(lxc_start_failure_message(nics, None), format!("{nics}{NICS_HINT}"));
    let proc_log = "Failed to mount \"proc\" on /usr/lib/x86_64/lxc/rootfs/proc: Operation not permitted";
    assert_eq!(
        lxc_start_failure_message(proc_log, Some(true)),
        format!("{proc_log}{ROOTFS_HINT}{NOATIME_HINT}")
    );
    assert_eq!(
        lxc_start_failure_message(proc_log, Some(false)),
        format!("{proc_log}{ROOTFS_HINT}{KERNEL_HINT}")
    );
    assert_eq!(
        lxc_start_failure_message(proc_log, None),
        format!("{proc_log}{ROOTFS_HINT}{UNKNOWN_HINT}")
    );
    assert_eq!(lxc_start_failure_message("other", Some(true)), "other");
    let mounts = "1 2 0:3 / /sys rw,noatime - sysfs sysfs rw\n4 5 0:6 / /proc rw,nosuid - proc proc rw\n";
    assert_eq!(proc_mount_uses_noatime(Some(mounts)), Some(false));
    let noatime = format!("{mounts}7 8 0:9 / /proc rw,noatime - proc proc rw\n");
    assert_eq!(proc_mount_uses_noatime(Some(&noatime)), Some(true));
    assert_eq!(proc_mount_uses_noatime(Some("1 2 0:3 / /sys rw - x y z")), None);
    assert_eq!(proc_mount_uses_noatime(None), None);
}

#[test]
fn addresses_are_parsed() {
    for text in ["10.0.3.1", "0.0.0.0", "255.255.255.255", "1.2.3.0"] {
        assert_eq!(parse_ipv4(text).map(|address| address.to_text()), Some(text.to_owned()));
    }
    let wrong = [
        "256.0.0.1", "1.2.3", "1.2.3.4.5", "01.2.3.4", "00.2.3.4", "1..2.3", "", "+1.2.3.4",
        "a.b.c.d", "1.2.3.4 ", "1000.1.1.1",
    ];
    for text in wrong {
        assert!(parse_ipv4(text).is_none(), "{text}");
    }
}

#[test]
fn bridges_are_found() {
    let output = "3: lxcbr0    inet 10.0.3.1/24 brd 10.0.3.255 scope global lxcbr0\\ valid_lft";
    let network = parse_lxc_bridge_network(output).unwrap();
    assert_eq!(network.gateway, Ipv4 { a: 10, b: 0, c: 3, d: 1 });
    assert_eq!(network.prefix_len, 24);
    assert_eq!(parse_lxc_bridge_network("x 10.0.3.1/31 10.0.4.1/24"), None);
    assert_eq!(parse_lxc_bridge_network("a/b 10.0.3.1/24"), None);
    assert_eq!(parse_lxc_bridge_network("none"), None);
    assert_eq!(lxc_bridge_network(true, output.as_bytes()), Some(network));
    assert_eq!(lxc_bridge_network(false, output.as_bytes()), None);
    assert_eq!(bridge_args(&no_env()), texts(&["-4", "-o", "addr", "show", "dev", "lxcbr0"]));
    let mut env = no_env();
    env.insert("STATIX_LXC_NETWORK_BRIDGE".to_owned(), " br1 ".to_owned());
    assert_eq!(bridge_args(&env)[5], "br1");
}

#[test]
fn guests_get_an_address_of_their_own() {
    let network = LxcBridgeNetwork {
        gateway: Ipv4 { a: 10, b: 0, c: 3, d: 1 },
        prefix_len: 24,
    };
    let address = guest_ipv4_address(&network, "ab");
    assert_eq!(address.to_text(), "10.0.3.205");
    let clash = LxcBridgeNetwork {
        gateway: Ipv4 { a: 10, b: 0, c: 3, d: 205 },
        prefix_len: 24,
    };
    assert_eq!(guest_ipv4_address(&clash, "ab").d, 206);
    let command = guest_network_command(&network, address);
    assert!(command.contains("'$2 != \"lo\" {print $2; exit}'"));
    assert!(command.ends_with(
        "ip addr add 10.0.3.205/24 dev \"$iface\"; ip route replace default via 10.0.3.1 dev \"$iface\""
    ));
    assert_eq!(runtime_address("fe80::1 10.0.3.9 10.0.3.8").unwrap().d, 9);
    assert_eq!(runtime_ipv4("c", true, b"10.0.3.9\n", b"").unwrap().d, 9);
    assert_eq!(
        runtime_ipv4("c", true, b"-", b""),
        Err("lxc runtime c has no IPv4 address".to_owned())
    );
    assert_eq!(
        runtime_ipv4("c", false, b"", b"no"),
        Err("failed to resolve IPv4 address for lxc runtime c: stderr:\nno".to_owned())
    );
}

#[test]
fn container_output_is_told_by_segment() {
    let whole = b"one\r\ntwo\rthree\n\nfour \xff";
    let mut at_once = StreamCollector::new();
    let first = at_once.push(whole);
    assert_eq!(first, texts(&["one", "two", "three"]));
    assert_eq!(at_once.rest(), Some("four \u{fffd}".to_owned()));
    let mut bytewise = StreamCollector::new();
    let mut told = Vec::new();
    for byte in whole {
        told.extend(bytewise.push(&[*byte]));
    }
    assert_eq!(told, first);
    assert_eq!(bytewise.into_bytes(), whole);
    assert_eq!(StreamCollector::new().rest(), None);
}

fn result(status: &'static str) -> JobExecutionResult {
    JobExecutionResult { status, message: Some("ok: success".to_owned()) }
}

#[test]
fn made_containers_are_removed() {
    let steps = [
        ContainerStep::Create,
        ContainerStep::Start,
        ContainerStep::Network,
        ContainerStep::Archive,
        ContainerStep::Copy,
        ContainerStep::Setup,
        ContainerStep::Run,
        ContainerStep::Stop,
        ContainerStep::Destroy,
    ];
    let mut run = ContainerRun::new();
    for step in steps {
        assert_eq!(run.step, Some(step));
        run.advance(match step {
            ContainerStep::Run => ContainerEvent::Ended(result("succeeded")),
            ContainerStep::Stop => ContainerEvent::Failed(Failure::new("x".to_owned())),
            _ => ContainerEvent::Done,
        });
    }
    assert_eq!(run.step, None);
    let ended = run.result.unwrap().unwrap();
    assert_eq!(ended.status, "succeeded");
    assert_eq!(ended.message, Some("ok: success".to_owned()));

    for broken in 1..7 {
        let mut run = ContainerRun::new();
        for _ in 0..broken {
            run.advance(ContainerEvent::Done);
        }
        assert_eq!(run.step, Some(steps[broken]));
        run.advance(ContainerEvent::Failed(Failure::new("x".to_owned())));
        assert_eq!(run.step, Some(ContainerStep::Stop));
        run.advance(ContainerEvent::Done);
        assert_eq!(run.step, Some(ContainerStep::Destroy));
        run.advance(ContainerEvent::Done);
        assert_eq!(run.step, None);
        assert_eq!(run.result.unwrap().unwrap_err().causes, texts(&["x"]));
    }
}

#[test]
fn containers_that_were_not_made_are_not_removed() {
    let mut run = ContainerRun::new();
    run.advance(ContainerEvent::Failed(Failure::new("x".to_owned())));
    assert_eq!(run.step, None);
    run.advance(ContainerEvent::Done);
    assert_eq!(run.step, None);
    assert_eq!(run.result.unwrap().unwrap_err().causes, texts(&["x"]));
}

#[test]
fn containers_that_were_not_set_up_are_removed() {
    let mut run = ContainerRun::new();
    for _ in 0..5 {
        run.advance(ContainerEvent::Done);
    }
    assert_eq!(run.step, Some(ContainerStep::Setup));
    run.advance(ContainerEvent::Ended(result("failed")));
    assert_eq!(run.step, Some(ContainerStep::Stop));
    assert_eq!(run.result.unwrap().unwrap().status, "failed");
}
