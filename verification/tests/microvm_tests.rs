use statix_agent::environment::Environment;
use statix_agent::failure::Failure;
use statix_agent::jobs::microvm::commands::{
    keypair_args, missing_dependency_message, overlay_args, probe_args, qemu_binary,
    qemu_launch_args, qemu_package_hint, remote_args, seed_args, upload_args,
};
use statix_agent::jobs::microvm::guest::{
    after_command, after_upload, remote_command, user_data, RecentLogs,
};
use statix_agent::jobs::microvm::image::{
    boot_image, cached_image, canonical_ubuntu_image_url, microvm_base_image, resolve_base_image,
    ImageError, ImageSource,
};
use statix_agent::jobs::microvm::readiness::{
    not_ready_message, readiness_probe_failure, readiness_stderr_is_non_actionable, AfterProbe,
    BeforeProbe, ProbeOutcome, Wait,
};
use statix_agent::jobs::microvm::run::{VmEvent, VmRun, VmStep};
use statix_agent::jobs::microvm::{
    image_cache_key, machine_size, microvm_files, project_files, project_vm_key,
    project_vm_key_of, project_vm_ssh_port, project_vm_ssh_port_of, safe_path_segment,
    MicrovmRunner, ProjectMicrovmRunner,
};
use statix_agent::jobs::output::ProcessOutcome;
use statix_agent::jobs::JobExecutionResult;
use statix_agent::string_map::StringMap;

fn texts(words: &[&str]) -> Vec<String> {
    words.iter().map(|word| word.to_string()).collect()
}

#[test]
fn qemu_launch_args_enable_kvm_fallback_and_split_wx_tcg() {
    let overlay_image = "/tmp/disk.qcow2";
    let seed_iso = "/tmp/seed.iso";

    let args = qemu_launch_args(overlay_image, seed_iso, 4, 2048, 2222);

    assert_eq!(
        args,
        vec![
            "-m",
            "2048",
            "-smp",
            "4",
            "-accel",
            "kvm",
            "-accel",
            "tcg,split-wx=on,thread=multi",
            "-drive",
            "if=virtio,format=qcow2,file=/tmp/disk.qcow2",
            "-drive",
            "if=virtio,format=raw,file=/tmp/seed.iso,media=cdrom",
            "-netdev",
            "user,id=net0,hostfwd=tcp::2222-:22",
            "-device",
            "virtio-net-pci,netdev=net0",
            "-nographic",
        ]
        .into_iter()
        .map(String::from)
        .collect::<Vec<_>>()
    );
}

#[test]
fn readiness_known_host_warning_is_non_actionable() {
    assert!(readiness_stderr_is_non_actionable(""));
    assert!(readiness_stderr_is_non_actionable(
        "Warning: Permanently added '[127.0.0.1]:2222' (ED25519) to the list of known hosts."
    ));
    assert!(!readiness_stderr_is_non_actionable(
        "Permission denied (publickey)."
    ));
}

#[test]
fn runners_keep_what_they_are_given() {
    let runner = MicrovmRunner::new("image".to_owned(), Some(3), None);
    assert_eq!(runner.image, "image");
    assert_eq!(runner.cpu, Some(3));
    assert_eq!(machine_size(runner.cpu, runner.memory_mb), (3, 4096));
    let runner = ProjectMicrovmRunner::new(
        "p".to_owned(),
        "e".to_owned(),
        "i".to_owned(),
        None,
        Some(512),
    );
    assert_eq!(runner.project_id, "p");
    assert_eq!(runner.environment, "e");
    assert_eq!(machine_size(runner.cpu, runner.memory_mb), (2, 512));
}

#[test]
fn segments_are_names_of_files() {
    assert_eq!(safe_path_segment("My App!!(v2)"), "My-App-v2");
    assert_eq!(safe_path_segment("--a---b--"), "a-b");
    assert_eq!(safe_path_segment("a_b"), "a_b");
    assert_eq!(safe_path_segment("../x"), "x");
    assert_eq!(safe_path_segment("//"), "default");
    assert_eq!(safe_path_segment(""), "default");
}

#[test]
fn machines_are_keyed_by_digests() {
    assert_eq!(
        image_cache_key("hello world"),
        "b94d27b9934d3e08a52e52d7da7dabfac484efe37a5380ee9088f7ace2efcde9"
    );
    assert_eq!(project_vm_key_of("a b", "prod", "0123456789abcdef"), "a-b-prod-0123456789ab");
    let key = project_vm_key("a b", "prod");
    assert_eq!(key, format!("a-b-prod-{}", &image_cache_key("a b:prod")[..12]));
    assert_eq!(project_vm_ssh_port_of(&vec![0xb9, 0x4d, 1]), 22_200 + (0xb94d % 1_000));
    assert_eq!(project_vm_ssh_port("hello world"), 22_200 + (0xb94d % 1_000));
    assert_eq!(project_vm_ssh_port_of(&vec![255, 255]), 22_735);
}

#[test]
fn machine_files_lie_in_the_state_directory() {
    let files = microvm_files("/s", "job", "attempt");
    assert_eq!(files.root, "/s/microvm/job/attempt");
    assert_eq!(files.overlay_image, "/s/microvm/job/attempt/disk.qcow2");
    assert_eq!(files.private_key, "/s/microvm/job/attempt/ssh/id_ed25519");
    assert_eq!(files.public_key, "/s/microvm/job/attempt/ssh/id_ed25519.pub");
    assert_eq!(files.user_data, "/s/microvm/job/attempt/seed.user-data");
    assert_eq!(files.workspace_tar, "/s/microvm/job/attempt/workspace.tar.gz");
    let files = project_files("/s", "key", "a/b");
    assert_eq!(files.root, "/s/microvm/projects/key");
    assert_eq!(files.workspace_tar, "/s/microvm/projects/key/workspace-a-b.tar.gz");
}

#[test]
fn base_images_are_resolved() {
    let mut env: Environment = StringMap::new();
    assert_eq!(microvm_base_image(&env), "ubuntu-24.04");
    env.insert("STATIX_MICROVM_BASE_IMAGE".to_owned(), " /img.qcow2 ".to_owned());
    assert_eq!(microvm_base_image(&env), "/img.qcow2");
    assert!(matches!(
        boot_image(&env, true, "x86_64"),
        Ok(ImageSource::File(path)) if path == "/img.qcow2"
    ));
    let error = boot_image(&env, false, "x86_64").unwrap_err();
    assert_eq!(error.message(), "unsupported microvm image reference: /img.qcow2");
    env.insert("STATIX_MICROVM_BASE_IMAGE".to_owned(), "https://x/y.img".to_owned());
    assert!(matches!(
        boot_image(&env, false, "x86_64"),
        Ok(ImageSource::Url(url)) if url == "https://x/y.img"
    ));
    env.insert("STATIX_MICROVM_BASE_IMAGE".to_owned(), "  ".to_owned());
    assert!(matches!(
        boot_image(&env, false, "aarch64"),
        Ok(ImageSource::Url(url)) if url == canonical_ubuntu_image_url("aarch64")
    ));
    assert!(matches!(resolve_base_image("  ", false, "x86_64"), Err(ImageError::Empty)));
    assert!(matches!(
        resolve_base_image(" /img ", true, "x86_64"),
        Ok(ImageSource::File(path)) if path == "/img"
    ));
    assert!(matches!(
        resolve_base_image("ubuntu-noble", false, "aarch64"),
        Ok(ImageSource::Url(url)) if url == canonical_ubuntu_image_url("aarch64")
    ));
    assert!(matches!(
        resolve_base_image("https://x/y.img", false, "x86_64"),
        Ok(ImageSource::Url(url)) if url == "https://x/y.img"
    ));
    let error = resolve_base_image("ubuntu:24.04", false, "x86_64").unwrap_err();
    assert_eq!(error.message(), "unsupported microvm image reference: ubuntu:24.04");
    assert_eq!(ImageError::Empty.message(), "microvm image must not be empty");
    assert_eq!(
        canonical_ubuntu_image_url("riscv64"),
        "https://cloud-images.ubuntu.com/noble/current/noble-server-cloudimg-amd64.img"
    );
    assert_eq!(
        cached_image("/r", "hello world"),
        "/r/images/b94d27b9934d3e08a52e52d7da7dabfac484efe37a5380ee9088f7ace2efcde9.img"
    );
}

#[test]
fn programs_are_named_by_architecture() {
    assert_eq!(qemu_binary("x86_64"), Ok("qemu-system-x86_64"));
    assert_eq!(qemu_binary("aarch64"), Ok("qemu-system-aarch64"));
    assert_eq!(
        qemu_binary("mips"),
        Err("unsupported host architecture for microvm runner: mips".to_owned())
    );
    assert_eq!(qemu_package_hint("x86_64"), "qemu-system-x86");
    assert_eq!(qemu_package_hint("aarch64"), "qemu-system-arm");
    assert_eq!(qemu_package_hint("mips"), "qemu-system");
    assert_eq!(
        missing_dependency_message("qemu-img", "qemu-utils"),
        "failed to launch qemu-img; install the 'qemu-utils' package and ensure qemu-img is on PATH"
    );
}

#[test]
fn arguments_are_listed() {
    assert_eq!(
        overlay_args("/base", "/disk"),
        texts(&["create", "-f", "qcow2", "-F", "qcow2", "-b", "/base", "/disk"])
    );
    assert_eq!(keypair_args("/k"), texts(&["-q", "-t", "ed25519", "-N", "", "-f", "/k"]));
    assert_eq!(seed_args("/s", "/u", "/m"), texts(&["/s", "/u", "/m"]));
    let options = |timeout: &str| {
        texts(&[
            "-i",
            "/k",
            "-o",
            "BatchMode=yes",
            "-o",
            timeout,
            "-o",
            "StrictHostKeyChecking=no",
            "-o",
            "UserKnownHostsFile=/dev/null",
            "-o",
            "GlobalKnownHostsFile=/dev/null",
            "-o",
            "LogLevel=ERROR",
        ])
    };
    let mut probe = options("ConnectTimeout=3");
    probe.extend(texts(&[
        "-p",
        "2222",
        "statix@127.0.0.1",
        "test",
        "-f",
        "/var/lib/cloud/instance/boot-finished",
    ]));
    assert_eq!(probe_args("/k", 2222), probe);
    let mut upload = options("ConnectTimeout=5");
    upload.extend(texts(&[
        "-P",
        "2222",
        "/w.tgz",
        "statix@127.0.0.1:/home/statix/workspace.tar.gz",
    ]));
    assert_eq!(upload_args("/k", 2222, "/w.tgz"), upload);
    let mut remote = options("ConnectTimeout=5");
    remote.extend(texts(&["-p", "2222", "statix@127.0.0.1", "sh", "-lc", "true"]));
    assert_eq!(remote_args("/k", 2222, "true"), remote);
    assert_eq!(
        remote_args("/k", 2222, "if [ -f a ]; then echo 'b'; fi").last().unwrap(),
        "'if [ -f a ]; then echo '\\''b'\\''; fi'"
    );
}

#[test]
fn guests_run_in_the_place_of_the_project() {
    assert_eq!(
        remote_command(&texts(&["docker", "compose up"])),
        "if [ -f /home/statix/.cargo/env ]; then . /home/statix/.cargo/env; fi; mkdir -p /home/statix/docker && tar -xzf /home/statix/workspace.tar.gz -C /home/statix/docker && cd /home/statix/docker && exec docker 'compose up'"
    );
    let data = user_data(" ssh-ed25519 AAAA\n");
    assert!(data.starts_with("#cloud-config\nusers:\n  - name: statix\n"));
    assert!(data.contains("      - ssh-ed25519 AAAA\nssh_pwauth: false\n"));
    assert!(data.ends_with("--default-toolchain stable\"]\n"));
}

#[test]
fn recent_logs_are_bounded() {
    let mut logs = RecentLogs::new();
    assert_eq!(
        logs.failure_message("exit status: 1"),
        "qemu exited before the guest became ready: exit status: 1"
    );
    for i in 0..40 {
        logs.push("stderr", &format!("line {i}"));
    }
    let message = logs.failure_message("exit status: 1");
    assert!(message.contains("\nrecent qemu logs:\nstderr: line 8\n"));
    assert!(message.ends_with("stderr: line 39"));
    assert!(!message.contains("line 7\n"));
}

#[test]
fn probes_are_explained() {
    assert_eq!(
        readiness_probe_failure(Some(1), "exit status: 1", b" "),
        "ssh is reachable; waiting for cloud-init boot-finished marker"
    );
    assert_eq!(
        readiness_probe_failure(Some(255), "exit status: 255", b""),
        "ssh readiness probe exited with exit status: 255"
    );
    assert_eq!(
        readiness_probe_failure(None, "signal: 9", b"refused\n"),
        "ssh readiness probe exited with signal: 9: refused"
    );
    let long = "z".repeat(241);
    assert_eq!(
        readiness_probe_failure(Some(1), "exit status: 1", long.as_bytes()),
        format!("ssh readiness probe exited with exit status: 1: {}...", "z".repeat(240))
    );
}

#[test]
fn waits_end_and_tell_their_progress() {
    let mut wait = Wait::new(20);
    assert!(matches!(wait.before_probe(0), BeforeProbe::Probe { milliseconds: 5_000 }));
    assert!(matches!(wait.before_probe(16_500), BeforeProbe::Probe { milliseconds: 3_500 }));
    assert!(matches!(wait.before_probe(19_999), BeforeProbe::Probe { milliseconds: 1 }));
    assert!(matches!(wait.before_probe(20_000), BeforeProbe::TimedOut));
    assert!(matches!(
        wait.after_probe(ProbeOutcome::TimedOut, 14_999, false),
        AfterProbe::Again { progress: None }
    ));
    let step = wait.after_probe(ProbeOutcome::NotReady("no".to_owned()), 15_000, false);
    match step {
        AfterProbe::Again { progress } => assert_eq!(
            progress.unwrap(),
            "waiting for microvm guest readiness for 15s; last probe: no"
        ),
        AfterProbe::Ready => panic!("not ready"),
    }
    assert_eq!(wait.next_progress_seconds, 30);
    let step = wait.after_probe(ProbeOutcome::NotLaunched("e".to_owned()), 31_000, true);
    match step {
        AfterProbe::Again { progress } => assert_eq!(
            progress.unwrap(),
            "waiting for project microvm guest readiness for 31s"
        ),
        AfterProbe::Ready => panic!("not ready"),
    }
    assert!(matches!(wait.after_probe(ProbeOutcome::Ready, 0, false), AfterProbe::Ready));
    assert_eq!(not_ready_message(false), "microvm did not become ready before timeout");
    assert_eq!(not_ready_message(true), "project microvm did not become ready before timeout");
}

fn result() -> JobExecutionResult {
    JobExecutionResult { status: "succeeded", message: None }
}

fn failure(text: &str) -> Failure {
    Failure::new(text.to_owned())
}

#[test]
fn machines_of_their_own_are_ended() {
    let mut run = VmRun::new(false);
    let mut steps = Vec::new();
    while let Some(step) = run.step {
        steps.push(step);
        let event = if step == VmStep::AwaitReady {
            VmEvent::Failed(failure("late"))
        } else {
            VmEvent::Done
        };
        run.advance(event);
    }
    assert_eq!(
        steps,
        vec![
            VmStep::MakeRoot,
            VmStep::FindImage,
            VmStep::MakeDisk,
            VmStep::MakeKeyDir,
            VmStep::MakeKeys,
            VmStep::Archive,
            VmStep::MakeSeed,
            VmStep::Launch,
            VmStep::AwaitReady,
            VmStep::ShutDown,
        ]
    );
    assert_eq!(run.result.unwrap().unwrap_err().causes, texts(&["late"]));
    let mut run = VmRun::new(false);
    run.advance(VmEvent::Done);
    run.advance(VmEvent::Failed(failure("no image")));
    assert!(run.step.is_none());
}

#[test]
fn machines_of_projects_are_kept() {
    let mut run = VmRun::new(true);
    let mut steps = Vec::new();
    while let Some(step) = run.step {
        steps.push(step);
        let event = match step {
            VmStep::HasDisk | VmStep::HasKeys | VmStep::IsReady => VmEvent::Found(true),
            VmStep::HasSeed => VmEvent::Found(false),
            VmStep::Run => VmEvent::Ran(result()),
            VmStep::RemoveArchive => VmEvent::Failed(failure("gone")),
            _ => VmEvent::Done,
        };
        run.advance(event);
    }
    assert_eq!(
        steps,
        vec![
            VmStep::MakeRoot,
            VmStep::FindImage,
            VmStep::HasDisk,
            VmStep::MakeKeyDir,
            VmStep::HasKeys,
            VmStep::HasSeed,
            VmStep::MakeSeed,
            VmStep::IsReady,
            VmStep::AwaitReady,
            VmStep::Archive,
            VmStep::Run,
            VmStep::RemoveArchive,
        ]
    );
    assert_eq!(run.result.unwrap().unwrap().status, "succeeded");
}

#[test]
fn guest_outcomes_are_reported() {
    let error = after_upload("/w", 7, ProcessOutcome::TimedOut).unwrap_err();
    assert_eq!(error.causes, texts(&["microvm archive upload timed out after 7 seconds"]));
    let error = after_upload("/w", 7, ProcessOutcome::NotRun(failure("no scp"))).unwrap_err();
    assert_eq!(
        error.causes,
        texts(&["failed to upload workspace archive to microvm", "no scp"])
    );
    let exited = |success: bool| ProcessOutcome::Exited {
        success,
        stdout: b"out".to_vec(),
        stderr: Vec::new(),
    };
    assert!(after_upload("/w", 7, exited(true)).unwrap().is_none());
    let failed = after_upload("/w", 7, exited(false)).unwrap().unwrap();
    assert_eq!(failed.status, "failed");
    assert_eq!(failed.message, Some("/w: out".to_owned()));
    let error = after_command("/w", 7, ProcessOutcome::TimedOut).unwrap_err();
    assert_eq!(error.causes, texts(&["microvm command timed out after 7 seconds"]));
    let error = after_command("/w", 7, ProcessOutcome::NotRun(failure("no ssh"))).unwrap_err();
    assert_eq!(error.causes, texts(&["failed to execute command inside microvm", "no ssh"]));
    assert_eq!(after_command("/w", 7, exited(true)).unwrap().status, "succeeded");
}
