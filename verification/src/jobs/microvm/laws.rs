//! What holds of virtual machines: their files, how they are started and reached, and what runs in
//! them.

use crate::environment::{self, Environment};
use crate::failure::Failure;
use crate::jobs::microvm::commands;
use crate::jobs::microvm::guest;
use crate::jobs::microvm::image::{self, ImageError, ImageSource};
use crate::jobs::microvm::readiness::{self, AfterProbe, BeforeProbe, ProbeOutcome, Wait};
use crate::jobs::microvm::{self, VmFiles};
use crate::jobs::output::ProcessOutcome;
use crate::jobs::shell;
use crate::jobs::JobExecutionResult;
use crate::paths;
use crate::text::{chars, number, search, split, trim};
use vstd::prelude::*;

verus! {

/// A word stands right behind another one.
pub open spec fn follows(args: Seq<Seq<char>>, flag: Seq<char>, value: Seq<char>) -> bool {
    exists|i: int| 0 <= i < args.len() - 1 && #[trigger] args[i] == flag && args[i + 1] == value
}

/// A machine is started with the disk, the seed, the memory and the processors that it has, and
/// is reached at its port. It is run by the processor where that is possible.
pub proof fn machine_is_started_as_it_is(
    disk: Seq<char>,
    seed: Seq<char>,
    cpu: nat,
    memory_mb: nat,
    port: nat,
)
    ensures
        ({
            let args = commands::launch_args(disk, seed, cpu, memory_mb, port);
            &&& follows(args, "-m"@, number::decimal(memory_mb))
            &&& follows(args, "-smp"@, number::decimal(cpu))
            &&& follows(args, "-drive"@, "if=virtio,format=qcow2,file="@ + disk)
            &&& follows(args, "-drive"@, "if=virtio,format=raw,file="@ + seed + ",media=cdrom"@)
            &&& follows(
                args,
                "-netdev"@,
                "user,id=net0,hostfwd=tcp::"@ + number::decimal(port) + "-:22"@,
            )
            &&& follows(args, "-device"@, "virtio-net-pci,netdev=net0"@)
            &&& args[4] == "-accel"@ && args[5] == "kvm"@
            &&& args.contains("-nographic"@)
        }),
{
    let args = commands::launch_args(disk, seed, cpu, memory_mb, port);
    assert(args[0] == "-m"@ && args[1] == number::decimal(memory_mb));
    assert(args[2] == "-smp"@ && args[3] == number::decimal(cpu));
    assert(args[8] == "-drive"@ && args[9] == "if=virtio,format=qcow2,file="@ + disk);
    assert(args[10] == "-drive"@ && args[11] == "if=virtio,format=raw,file="@ + seed
        + ",media=cdrom"@);
    assert(args[12] == "-netdev"@ && args[13] == "user,id=net0,hostfwd=tcp::"@
        + number::decimal(port) + "-:22"@);
    assert(args[14] == "-device"@ && args[15] == "virtio-net-pci,netdev=net0"@);
    assert(args[16] == "-nographic"@);
}

/// The emulator is that of the host's architecture; there is none for others.
pub proof fn emulator_fits_the_host(arch: Seq<char>)
    ensures
        commands::qemu("x86_64"@) == Some("qemu-system-x86_64"@),
        commands::qemu("aarch64"@) == Some("qemu-system-aarch64"@),
        arch != "x86_64"@ && arch != "aarch64"@ ==> commands::qemu(arch) is None,
{
    reveal_strlit("x86_64");
    reveal_strlit("aarch64");
    assert("x86_64"@.len() != "aarch64"@.len());
}

/// A machine is reached with its own key, at its own port, and without questions: to ask whether
/// it has booted, to bring the workspace, and to run a command.
pub proof fn machine_is_reached_with_its_key(
    key: Seq<char>,
    port: nat,
    archive: Seq<char>,
    command: Seq<char>,
)
    ensures
        ({
            let probe = commands::probe(key, port);
            let upload = commands::upload(key, port, archive);
            let remote = commands::remote(key, port, command);
            &&& follows(probe, "-i"@, key) && follows(upload, "-i"@, key) && follows(
                remote,
                "-i"@,
                key,
            )
            &&& follows(probe, "-p"@, number::decimal(port)) && follows(
                upload,
                "-P"@,
                number::decimal(port),
            ) && follows(remote, "-p"@, number::decimal(port))
            &&& follows(probe, "-o"@, "BatchMode=yes"@) && follows(upload, "-o"@, "BatchMode=yes"@)
                && follows(remote, "-o"@, "BatchMode=yes"@)
            &&& follows(probe, "-o"@, "UserKnownHostsFile=/dev/null"@) && follows(
                upload,
                "-o"@,
                "UserKnownHostsFile=/dev/null"@,
            ) && follows(remote, "-o"@, "UserKnownHostsFile=/dev/null"@)
            &&& follows(probe, "-o"@, "StrictHostKeyChecking=no"@) && follows(
                upload,
                "-o"@,
                "StrictHostKeyChecking=no"@,
            ) && follows(remote, "-o"@, "StrictHostKeyChecking=no"@)
            &&& probe.skip(probe.len() - 4) == seq![
                "statix@127.0.0.1"@,
                "test"@,
                "-f"@,
                "/var/lib/cloud/instance/boot-finished"@,
            ]
            &&& upload.skip(upload.len() - 2) == seq![
                archive,
                "statix@127.0.0.1:/home/statix/workspace.tar.gz"@,
            ]
            &&& remote[remote.len() - 4] == "statix@127.0.0.1"@
        }),
{
    let probe = commands::probe(key, port);
    let upload = commands::upload(key, port, archive);
    let remote = commands::remote(key, port, command);
    assert(probe[0] == "-i"@ && probe[1] == key);
    assert(upload[0] == "-i"@ && upload[1] == key);
    assert(remote[0] == "-i"@ && remote[1] == key);
    assert(probe[14] == "-p"@ && probe[15] == number::decimal(port));
    assert(upload[14] == "-P"@ && upload[15] == number::decimal(port));
    assert(remote[14] == "-p"@ && remote[15] == number::decimal(port));
    assert(probe[2] == "-o"@ && probe[3] == "BatchMode=yes"@);
    assert(upload[2] == "-o"@ && upload[3] == "BatchMode=yes"@);
    assert(remote[2] == "-o"@ && remote[3] == "BatchMode=yes"@);
    assert(probe[6] == "-o"@ && probe[7] == "StrictHostKeyChecking=no"@);
    assert(upload[6] == "-o"@ && upload[7] == "StrictHostKeyChecking=no"@);
    assert(remote[6] == "-o"@ && remote[7] == "StrictHostKeyChecking=no"@);
    assert(probe[8] == "-o"@ && probe[9] == "UserKnownHostsFile=/dev/null"@);
    assert(upload[8] == "-o"@ && upload[9] == "UserKnownHostsFile=/dev/null"@);
    assert(remote[8] == "-o"@ && remote[9] == "UserKnownHostsFile=/dev/null"@);
    assert(probe.skip(probe.len() - 4) =~= seq![
        "statix@127.0.0.1"@,
        "test"@,
        "-f"@,
        "/var/lib/cloud/instance/boot-finished"@,
    ]);
    assert(upload.skip(upload.len() - 2) =~= seq![
        archive,
        "statix@127.0.0.1:/home/statix/workspace.tar.gz"@,
    ]);
}

/// A machine unpacks the archive that is brought to it, to the place of the project's files, and
/// then runs the words of the command there, whatever characters they hold.
pub proof fn machine_runs_the_command(command: Seq<Seq<char>>)
    ensures
        guest::UNPACK@.is_prefix_of(guest::remote_text(command)),
        shell::shell_words(guest::remote_text(command).skip(guest::UNPACK@.len() as int)) == Some(
            command,
        ),
        search::contains(
            guest::UNPACK@,
            "tar -xzf /home/statix/workspace.tar.gz -C /home/statix/docker && cd /home/statix/docker && exec "@,
        ),
        commands::upload(seq![], 0, seq![]).last() == "statix@127.0.0.1:"@
            + "/home/statix/workspace.tar.gz"@,
{
    let text = guest::remote_text(command);
    shell::command_is_read_back(command);
    assert(text.take(guest::UNPACK@.len() as int) =~= guest::UNPACK@);
    assert(text.skip(guest::UNPACK@.len() as int) =~= shell::command_text(command));
    reveal_strlit(
        "if [ -f /home/statix/.cargo/env ]; then . /home/statix/.cargo/env; fi; mkdir -p /home/statix/docker && tar -xzf /home/statix/workspace.tar.gz -C /home/statix/docker && cd /home/statix/docker && exec ",
    );
    let piece =
        "tar -xzf /home/statix/workspace.tar.gz -C /home/statix/docker && cd /home/statix/docker && exec "@;
    reveal_strlit(
        "tar -xzf /home/statix/workspace.tar.gz -C /home/statix/docker && cd /home/statix/docker && exec ",
    );
    let i = guest::UNPACK@.len() - piece.len();
    assert(guest::UNPACK@.subrange(i, i + piece.len()) =~= piece);
    assert(search::occurs_at(guest::UNPACK@, piece, i));
    reveal_strlit("statix@127.0.0.1:");
    reveal_strlit("/home/statix/workspace.tar.gz");
    reveal_strlit("statix@127.0.0.1:/home/statix/workspace.tar.gz");
    assert("statix@127.0.0.1:"@ + "/home/statix/workspace.tar.gz"@
        =~= "statix@127.0.0.1:/home/statix/workspace.tar.gz"@);
}

/// A machine is set up so that its key opens it, for the user that commands run as, and no
/// password does.
pub proof fn key_opens_the_machine(public_key: Seq<char>)
    ensures
        search::contains(
            guest::setup_of(public_key),
            "    ssh_authorized_keys:\n      - "@ + trim::trim(public_key) + "\nssh_pwauth: false\n"@,
        ),
        "#cloud-config\nusers:\n  - name: statix\n"@.is_prefix_of(guest::setup_of(public_key)),
{
    let text = guest::setup_of(public_key);
    reveal_strlit(
        "#cloud-config\nusers:\n  - name: statix\n    groups: [sudo]\n    shell: /bin/bash\n    sudo: ALL=(ALL) NOPASSWD:ALL\n    ssh_authorized_keys:\n      - ",
    );
    reveal_strlit(
        "\nssh_pwauth: false\ndisable_root: true\npackage_update: true\npackages:\n  - build-essential\n  - ca-certificates\n  - curl\n  - docker.io\n  - docker-compose-v2\n  - git\n  - libssl-dev\n  - openssh-server\n  - pkg-config\nruncmd:\n  - [systemctl, enable, --now, docker]\n  - [usermod, -aG, docker, \"statix\"]\n  - [su, \"-\", \"statix\", \"-c\", \"curl --proto '=https' --tlsv1.2 -sSf https://sh.rustup.rs | sh -s -- -y --profile minimal --default-toolchain stable\"]\n",
    );
    let a = "    ssh_authorized_keys:\n      - "@;
    reveal_strlit("    ssh_authorized_keys:\n      - ");
    let b = "\nssh_pwauth: false\n"@;
    reveal_strlit("\nssh_pwauth: false\n");
    let first = "#cloud-config\nusers:\n  - name: statix\n"@;
    reveal_strlit("#cloud-config\nusers:\n  - name: statix\n");
    let head = guest::USER_DATA_HEAD@;
    let tail = guest::USER_DATA_TAIL@;
    let i = head.len() - a.len();
    assert(head.skip(i) =~= a);
    assert(tail.take(b.len() as int) =~= b);
    let piece = a + trim::trim(public_key) + b;
    assert(text.subrange(i, i + piece.len()) =~= piece);
    assert(search::occurs_at(text, piece, i));
    assert(text.take(first.len() as int) =~= first);
}

/// The files of a machine lie in its directory, and its public key stands beside its private one
/// under the name that the program that makes both gives it.
pub proof fn files_lie_in_the_machines_directory(files: VmFiles, root: Seq<char>, archive: Seq<char>)
    requires
        microvm::files_in(files, root, archive),
        root.len() > 0,
        root.last() != '/',
        archive.len() > 0,
        archive[0] != '/',
    ensures
        files.root@ == root,
        files.public_key@ == files.private_key@ + ".pub"@,
        files.workspace_tar@ == root + "/"@ + archive,
        (root + "/"@).is_prefix_of(files.overlay_image@),
        (root + "/"@).is_prefix_of(files.private_key@),
        (root + "/"@).is_prefix_of(files.seed_iso@),
        (root + "/"@).is_prefix_of(files.user_data@),
        (root + "/"@).is_prefix_of(files.meta_data@),
        files.overlay_image@ != files.seed_iso@,
        files.user_data@ != files.meta_data@,
{
    reveal_strlit("disk.qcow2");
    reveal_strlit("ssh");
    reveal_strlit("id_ed25519");
    reveal_strlit("id_ed25519.pub");
    reveal_strlit(".pub");
    reveal_strlit("seed.iso");
    reveal_strlit("seed.user-data");
    reveal_strlit("seed.meta-data");
    reveal_strlit("/");
    let base = root + "/"@;
    let n = base.len() as int;
    assert(files.ssh_dir@ == root + "/"@ + "ssh"@);
    assert(files.ssh_dir@.last() == 'h');
    assert(files.public_key@ =~= files.private_key@ + ".pub"@);
    assert(files.overlay_image@.take(n) =~= base);
    assert(files.private_key@.take(n) =~= base);
    assert(files.seed_iso@.take(n) =~= base);
    assert(files.user_data@.take(n) =~= base);
    assert(files.meta_data@.take(n) =~= base);
    assert(files.overlay_image@.len() != files.seed_iso@.len());
    assert(files.user_data@[n + 5] == 'u');
    assert(files.meta_data@[n + 5] == 'm');
}

/// A text of letters, digits, underscores and single dashes between them is a file's name as it
/// is.
pub proof fn plain_names_are_kept(s: Seq<char>)
    requires
        s.len() > 0,
        microvm::all_kept(s),
        s[0] != '-',
        s.last() != '-',
        forall|i: int| 0 < i < s.len() ==> #[trigger] s[i] != '-' || s[i - 1] != '-',
    ensures
        microvm::segment(s) == s,
{
    let d = microvm::dashed(s);
    assert forall|i: int| 0 <= i < s.len() implies d[i] == s[i] by {
        assert(microvm::kept(s[i]));
    }
    assert(d =~= s);
    lemma_single(s);
}

proof fn lemma_single(s: Seq<char>)
    requires
        forall|i: int| 0 < i < s.len() ==> #[trigger] s[i] != '-' || s[i - 1] != '-',
    ensures
        microvm::single_dashes(s) == s,
    decreases s.len(),
{
    if s.len() > 0 {
        let d = s.drop_last();
        assert forall|i: int| 0 < i < d.len() implies #[trigger] d[i] != '-' || d[i - 1] != '-' by {
            assert(d[i] == s[i] && d[i - 1] == s[i - 1]);
        }
        lemma_single(d);
        if d.len() > 0 {
            assert(s[s.len() - 1] != '-' || s[s.len() - 2] != '-');
        }
        assert(d.push(s.last()) =~= s);
    } else {
        assert(microvm::single_dashes(s) =~= s);
    }
}

/// A project's machine is named after the project and its environment, and the digest that tells
/// it from others.
pub proof fn machine_is_named_after_the_project(
    project_id: Seq<char>,
    environment: Seq<char>,
    key: Seq<char>,
)
    requires
        key.len() >= 12,
    ensures
        ({
            let name = microvm::vm_key(project_id, environment, key);
            let p = microvm::segment(project_id);
            let e = microvm::segment(environment);
            &&& (p + "-"@ + e + "-"@).is_prefix_of(name)
            &&& name.len() == p.len() + e.len() + 14
            &&& name.skip(name.len() - 12) == key.take(12)
        }),
{
    reveal_strlit("-");
    let name = microvm::vm_key(project_id, environment, key);
    let p = microvm::segment(project_id);
    let e = microvm::segment(environment);
    let head = p + "-"@ + e + "-"@;
    assert(name.take(head.len() as int) =~= head);
    assert(name.skip(name.len() - 12) =~= key.take(12));
}

/// The port of a project's machine is told by the first two bytes of the digest of its name, and
/// lies among a thousand ports.
pub proof fn digest_gives_the_port(digest: Seq<u8>)
    requires
        digest.len() >= 2,
    ensures
        22_200 <= microvm::ssh_port(digest) <= 23_199,
        (microvm::ssh_port(digest) - 22_200 - digest[1] as int - 256 * digest[0] as int) % 1_000
            == 0,
{
}

/// The image that machines boot is found where the environment says, as a file where it is one;
/// else by the name of Ubuntu, or at an address; and anything else is refused.
pub proof fn image_is_found(
    reference: Seq<char>,
    exists: bool,
    arch: Seq<char>,
    answer: Result<ImageSource, ImageError>,
)
    requires
        image::tells_source(reference, exists, arch, answer),
    ensures
        reference.len() == 0 <==> answer matches Err(ImageError::Empty),
        reference.len() > 0 && exists ==> (answer matches Ok(ImageSource::File(path)) && path@
            == reference),
        reference.len() > 0 && !exists && (reference == "ubuntu-24.04"@ || reference
            == "ubuntu-24.04-lts"@ || reference == "ubuntu-noble"@) ==> (answer matches Ok(
            ImageSource::Url(url),
        ) && "https://cloud-images.ubuntu.com/noble/"@.is_prefix_of(url@)),
        !exists && reference.len() > 0 && reference[0] != 'u' && ("https://"@.is_prefix_of(
            reference,
        ) || "http://"@.is_prefix_of(reference)) ==> (answer matches Ok(ImageSource::Url(url))
            && url@ == reference),
        answer matches Err(ImageError::Unsupported(name)) ==> name@ == reference && !exists,
{
    reveal_strlit("ubuntu-24.04");
    reveal_strlit("ubuntu-24.04-lts");
    reveal_strlit("ubuntu-noble");
    let start = "https://cloud-images.ubuntu.com/noble/"@;
    reveal_strlit("https://cloud-images.ubuntu.com/noble/");
    reveal_strlit("https://cloud-images.ubuntu.com/noble/current/noble-server-cloudimg-arm64.img");
    reveal_strlit("https://cloud-images.ubuntu.com/noble/current/noble-server-cloudimg-amd64.img");
    let url = image::ubuntu_url(arch);
    assert(url.take(start.len() as int) =~= start);
}

/// Ubuntu's image is that of the host's architecture.
pub proof fn ubuntu_fits_the_host()
    ensures
        "-arm64.img"@.is_suffix_of(image::ubuntu_url("aarch64"@)),
        "-amd64.img"@.is_suffix_of(image::ubuntu_url("x86_64"@)),
{
    reveal_strlit("x86_64");
    reveal_strlit("aarch64");
    reveal_strlit("-arm64.img");
    reveal_strlit("-amd64.img");
    reveal_strlit("https://cloud-images.ubuntu.com/noble/current/noble-server-cloudimg-arm64.img");
    reveal_strlit("https://cloud-images.ubuntu.com/noble/current/noble-server-cloudimg-amd64.img");
    let a = image::ubuntu_url("aarch64"@);
    assert("x86_64"@.len() != "aarch64"@.len());
    let b = image::ubuntu_url("x86_64"@);
    assert(a.skip(a.len() - 10) =~= "-arm64.img"@);
    assert(b.skip(b.len() - 10) =~= "-amd64.img"@);
}

/// The image that machines boot is the one that the environment names, else that of Ubuntu.
pub proof fn environment_names_the_image(env: &Environment)
    ensures
        environment::set_var(env, "STATIX_MICROVM_BASE_IMAGE"@) matches Some(name)
            ==> image::base_image(env) == name,
        environment::set_var(env, "STATIX_MICROVM_BASE_IMAGE"@) is None ==> image::base_image(env)
            == "ubuntu-24.04"@,
{
}

/// A machine is asked while time is left, for at most five seconds and never longer than what is
/// left, and not any more when the time is over.
pub proof fn machine_is_asked_in_time(wait: Wait, elapsed_ms: u64, r: BeforeProbe)
    requires
        readiness::asked(wait, elapsed_ms, r),
    ensures
        r is TimedOut <==> elapsed_ms >= wait.timeout_seconds * 1000,
        r matches BeforeProbe::Probe { milliseconds } ==> {
            &&& 0 < milliseconds <= 5_000
            &&& elapsed_ms + milliseconds <= wait.timeout_seconds * 1000
            &&& milliseconds == 5_000 || elapsed_ms + milliseconds == wait.timeout_seconds * 1000
        },
{
}

/// A wait is over when the machine has booted, and then only; its progress is told at most each
/// quarter of a minute.
pub proof fn wait_ends_with_the_boot(
    before: Wait,
    after: Wait,
    outcome: ProbeOutcome,
    elapsed_ms: u64,
    project: bool,
    r: AfterProbe,
)
    requires
        readiness::waits_on(before, after, outcome, elapsed_ms, project, r),
    ensures
        r is Ready <==> outcome is Ready,
        after.timeout_seconds == before.timeout_seconds,
        r matches AfterProbe::Again { progress } ==> {
            &&& progress is Some <==> elapsed_ms / 1000 >= before.next_progress_seconds
            &&& progress is Some ==> after.next_progress_seconds == before.next_progress_seconds
                + 15
            &&& progress is None ==> after.next_progress_seconds == before.next_progress_seconds
        },
{
}

/// What is said of a machine that has not booted tells how the program that asked ended, and what
/// it said; but where the machine was reached and nothing is wrong, that it still boots.
pub proof fn slow_boot_is_told(code: Option<i32>, status: Seq<char>, stderr: Seq<char>)
    ensures
        ({
            let said = readiness::probe_failure(code, status, stderr);
            let err = trim::trim(stderr);
            &&& code == Some(1i32) && err.len() == 0 ==> said
                == "ssh is reachable; waiting for cloud-init boot-finished marker"@
            &&& code != Some(1i32) ==> ("ssh readiness probe exited with "@ + status).is_prefix_of(
                said,
            )
            &&& code != Some(1i32) && 0 < err.len() <= 240 ==> err.is_suffix_of(said)
            &&& code == Some(1i32) && 0 < err.len() <= 240
                && !"Warning: Permanently added "@.is_prefix_of(err) ==> err.is_suffix_of(said)
        }),
{
    let said = readiness::probe_failure(code, status, stderr);
    let err = trim::trim(stderr);
    let head = "ssh readiness probe exited with "@ + status;
    if code != Some(1i32) {
        assert(said.take(head.len() as int) =~= head);
    }
    if 0 < err.len() <= 240 && (code != Some(1i32)
        || !"Warning: Permanently added "@.is_prefix_of(err)) {
        assert(said == head + ": "@ + err);
        assert(said.skip(said.len() - err.len()) =~= err);
    }
}

/// The workspace was brought to a machine, and the command is run, where that ended well; where it
/// ended otherwise the job has failed.
pub proof fn upload_decides(
    cwd: Seq<char>,
    seconds: u64,
    outcome: ProcessOutcome,
    r: Result<Option<JobExecutionResult>, Failure>,
)
    requires
        guest::upload_ended(cwd, seconds, outcome, r),
    ensures
        r matches Ok(None) <==> (outcome matches ProcessOutcome::Exited { success, .. } && success),
        r matches Ok(Some(result)) ==> result.status@ == "failed"@,
        r is Err <==> !(outcome is Exited),
{
}

/// A job in a machine has succeeded where its command ended well, and failed where it ended
/// otherwise; a command that was not run to its end is a failure that keeps its causes.
pub proof fn command_decides(
    cwd: Seq<char>,
    seconds: u64,
    outcome: ProcessOutcome,
    r: Result<JobExecutionResult, Failure>,
)
    requires
        guest::command_ended(cwd, seconds, outcome, r),
    ensures
        r is Ok <==> outcome is Exited,
        outcome matches ProcessOutcome::Exited { success, .. } ==> (r matches Ok(result)
            && result.status@ == (if success {
            "succeeded"@
        } else {
            "failed"@
        })),
        outcome matches ProcessOutcome::NotRun(cause) ==> (r matches Err(failure)
            && failure.texts().skip(1) == cause.texts()),
{
    if let ProcessOutcome::NotRun(cause) = outcome {
        assert((seq!["failed to execute command inside microvm"@] + cause.texts()).skip(1)
            =~= cause.texts());
    }
}

/// Of what an emulator writes the last lines are kept, at most thirty-two.
pub proof fn last_lines_are_kept(lines: Seq<Seq<char>>)
    ensures
        guest::kept(lines).is_suffix_of(lines),
        lines.len() <= 32 ==> guest::kept(lines).len() == lines.len(),
        lines.len() > 32 ==> guest::kept(lines).len() == 32,
{
    let k = guest::kept(lines);
    assert(lines.skip(lines.len() - k.len()) =~= k);
}

/// What is said of an emulator that ended early tells how, and the last lines that it wrote.
pub proof fn early_exit_is_told(status: Seq<char>, lines: Seq<Seq<char>>)
    ensures
        ("qemu exited before the guest became ready: "@ + status).is_prefix_of(
            guest::early_exit(status, lines),
        ),
        trim::trim(split::join(lines, "\n"@)).len() > 0 ==> split::join(
            lines,
            "\n"@,
        ).is_suffix_of(guest::early_exit(status, lines)),
{
    let said = guest::early_exit(status, lines);
    let head = "qemu exited before the guest became ready: "@ + status;
    let logs = split::join(lines, "\n"@);
    assert(said.take(head.len() as int) =~= head);
    if trim::trim(logs).len() > 0 {
        assert(said.skip(said.len() - logs.len()) =~= logs);
    }
}

/// What to say where a program is missing names the program and its package.
pub proof fn missing_program_is_named(program: Seq<char>, package: Seq<char>)
    ensures
        ("failed to launch "@ + program + "; install the '"@ + package + "' package"@).is_prefix_of(
            commands::missing_dependency(program, package),
        ),
{
    reveal_strlit("' package and ensure ");
    reveal_strlit("' package");
    let said = commands::missing_dependency(program, package);
    let head = "failed to launch "@ + program + "; install the '"@ + package + "' package"@;
    assert(said.take(head.len() as int) =~= head);
}

/// The progress of a wait tells how long it has taken; that of a machine of its own also what was
/// last heard of it.
pub proof fn progress_is_told(seconds: u64, outcome: ProbeOutcome)
    ensures
        readiness::progress_text(seconds, outcome, true)
            == "waiting for project microvm guest readiness for "@ + number::decimal(
            seconds as nat,
        ) + "s"@,
        ("waiting for microvm guest readiness for "@ + number::decimal(seconds as nat)
            + "s"@).is_prefix_of(readiness::progress_text(seconds, outcome, false)),
        readiness::last_probe(outcome).is_suffix_of(
            readiness::progress_text(seconds, outcome, false),
        ),
{
    let text = readiness::progress_text(seconds, outcome, false);
    let head = "waiting for microvm guest readiness for "@ + number::decimal(seconds as nat) + "s"@;
    let tail = readiness::last_probe(outcome);
    assert(text.take(head.len() as int) =~= head);
    assert(text.skip(text.len() - tail.len()) =~= tail);
}

/// A machine for which no size is asked has two processors and four gibibytes, and one of its own
/// is reached at its usual port.
pub proof fn machine_has_its_usual_size()
    ensures
        microvm::DEFAULT_CPU_COUNT == 2,
        microvm::DEFAULT_MEMORY_MB == 4 * 1024,
        microvm::DEFAULT_SSH_PORT == 2222,
{
}

} // verus!
