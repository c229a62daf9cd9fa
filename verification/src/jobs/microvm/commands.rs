//! The programs that a virtual machine is set up, started and reached with, and their arguments.

use crate::failure::Failure;
use crate::jobs::output::{self, ToolOutcome};
use crate::jobs::shell;
use crate::text::{chars, number, split};
use vstd::prelude::*;

verus! {

/// The program that runs a machine on an architecture.
pub open spec fn qemu(arch: Seq<char>) -> Option<Seq<char>> {
    if arch == "x86_64"@ {
        Some("qemu-system-x86_64"@)
    } else if arch == "aarch64"@ {
        Some("qemu-system-aarch64"@)
    } else {
        None
    }
}

/// The program that runs a machine on an architecture; what to say where there is none.
pub fn qemu_binary(arch: &str) -> (r: Result<&'static str, String>)
    ensures
        match r {
            Ok(program) => qemu(arch@) == Some(program@),
            Err(message) => {
                &&& qemu(arch@) is None
                &&& message@ == "unsupported host architecture for microvm runner: "@ + arch@
            },
        },
{
    if chars::same(arch, "x86_64") {
        Ok("qemu-system-x86_64")
    } else if chars::same(arch, "aarch64") {
        Ok("qemu-system-aarch64")
    } else {
        Err(chars::cat("unsupported host architecture for microvm runner: ", arch))
    }
}

/// The package that the program that runs a machine comes with.
pub fn qemu_package_hint(arch: &str) -> (r: &'static str)
    ensures
        r@ == (if arch@ == "x86_64"@ {
            "qemu-system-x86"@
        } else if arch@ == "aarch64"@ {
            "qemu-system-arm"@
        } else {
            "qemu-system"@
        }),
{
    if chars::same(arch, "x86_64") {
        "qemu-system-x86"
    } else if chars::same(arch, "aarch64") {
        "qemu-system-arm"
    } else {
        "qemu-system"
    }
}

/// What to say where a program cannot be started.
pub open spec fn missing_dependency(program: Seq<char>, package: Seq<char>) -> Seq<char> {
    "failed to launch "@ + program + "; install the '"@ + package + "' package and ensure "@
        + program + " is on PATH"@
}

/// What to say where a program cannot be started.
pub fn missing_dependency_message(program: &str, debian_package: &str) -> (r: String)
    ensures
        r@ == missing_dependency(program@, debian_package@),
{
    let mut r = chars::cat3("failed to launch ", program, "; install the '");
    r.append(debian_package);
    r.append("' package and ensure ");
    r.append(program);
    r.append(" is on PATH");
    r
}

/// The arguments that start a machine with a disk, a seed, its size, and the port at which it is
/// reached. It is run by the processor where that is possible, else it is emulated.
pub open spec fn launch_args(
    overlay_image: Seq<char>,
    seed_iso: Seq<char>,
    cpu: nat,
    memory_mb: nat,
    ssh_port: nat,
) -> Seq<Seq<char>> {
    seq![
        "-m"@,
        number::decimal(memory_mb),
        "-smp"@,
        number::decimal(cpu),
        "-accel"@,
        "kvm"@,
        "-accel"@,
        "tcg,split-wx=on,thread=multi"@,
        "-drive"@,
        "if=virtio,format=qcow2,file="@ + overlay_image,
        "-drive"@,
        "if=virtio,format=raw,file="@ + seed_iso + ",media=cdrom"@,
        "-netdev"@,
        "user,id=net0,hostfwd=tcp::"@ + number::decimal(ssh_port) + "-:22"@,
        "-device"@,
        "virtio-net-pci,netdev=net0"@,
        "-nographic"@,
    ]
}

/// The arguments that start a machine.
pub fn qemu_launch_args(
    overlay_image: &str,
    seed_iso: &str,
    cpu: u8,
    memory_mb: u32,
    ssh_port: u16,
) -> (r: Vec<String>)
    ensures
        chars::texts(r@) == launch_args(
            overlay_image@,
            seed_iso@,
            cpu as nat,
            memory_mb as nat,
            ssh_port as nat,
        ),
{
    let mut args = chars::no_texts();
    chars::push_text(&mut args, "-m");
    chars::push_text(&mut args, &number::decimal_text(memory_mb as u64));
    chars::push_text(&mut args, "-smp");
    chars::push_text(&mut args, &number::decimal_text(cpu as u64));
    chars::push_text(&mut args, "-accel");
    chars::push_text(&mut args, "kvm");
    chars::push_text(&mut args, "-accel");
    chars::push_text(&mut args, "tcg,split-wx=on,thread=multi");
    chars::push_text(&mut args, "-drive");
    chars::push_text(&mut args, &chars::cat("if=virtio,format=qcow2,file=", overlay_image));
    chars::push_text(&mut args, "-drive");
    chars::push_text(
        &mut args,
        &chars::cat3("if=virtio,format=raw,file=", seed_iso, ",media=cdrom"),
    );
    chars::push_text(&mut args, "-netdev");
    chars::push_text(
        &mut args,
        &chars::cat3(
            "user,id=net0,hostfwd=tcp::",
            &number::decimal_text(ssh_port as u64),
            "-:22",
        ),
    );
    chars::push_text(&mut args, "-device");
    chars::push_text(&mut args, "virtio-net-pci,netdev=net0");
    chars::push_text(&mut args, "-nographic");
    args
}

/// The arguments with which `qemu-img` makes a disk that holds what differs from an image.
pub fn overlay_args(base_image: &str, overlay_image: &str) -> (r: Vec<String>)
    ensures
        chars::texts(r@) == seq![
            "create"@,
            "-f"@,
            "qcow2"@,
            "-F"@,
            "qcow2"@,
            "-b"@,
            base_image@,
            overlay_image@,
        ],
{
    let mut args = chars::no_texts();
    chars::push_text(&mut args, "create");
    chars::push_text(&mut args, "-f");
    chars::push_text(&mut args, "qcow2");
    chars::push_text(&mut args, "-F");
    chars::push_text(&mut args, "qcow2");
    chars::push_text(&mut args, "-b");
    chars::push_text(&mut args, base_image);
    chars::push_text(&mut args, overlay_image);
    args
}

/// The arguments with which `ssh-keygen` makes the keys of a machine.
pub fn keypair_args(private_key: &str) -> (r: Vec<String>)
    ensures
        chars::texts(r@) == seq!["-q"@, "-t"@, "ed25519"@, "-N"@, ""@, "-f"@, private_key@],
{
    let mut args = chars::no_texts();
    chars::push_text(&mut args, "-q");
    chars::push_text(&mut args, "-t");
    chars::push_text(&mut args, "ed25519");
    chars::push_text(&mut args, "-N");
    chars::push_text(&mut args, "");
    chars::push_text(&mut args, "-f");
    chars::push_text(&mut args, private_key);
    args
}

/// The arguments with which `cloud-localds` makes the seed of a machine.
pub fn seed_args(seed_iso: &str, user_data: &str, meta_data: &str) -> (r: Vec<String>)
    ensures
        chars::texts(r@) == seq![seed_iso@, user_data@, meta_data@],
{
    let mut args = chars::no_texts();
    chars::push_text(&mut args, seed_iso);
    chars::push_text(&mut args, user_data);
    chars::push_text(&mut args, meta_data);
    args
}

/// The options with which machines are reached: no questions, and no known hosts, as the keys of
/// machines change.
pub open spec fn common_options(connect_timeout_seconds: nat) -> Seq<Seq<char>> {
    seq![
        "-o"@,
        "BatchMode=yes"@,
        "-o"@,
        "ConnectTimeout="@ + number::decimal(connect_timeout_seconds),
        "-o"@,
        "StrictHostKeyChecking=no"@,
        "-o"@,
        "UserKnownHostsFile=/dev/null"@,
        "-o"@,
        "GlobalKnownHostsFile=/dev/null"@,
        "-o"@,
        "LogLevel=ERROR"@,
    ]
}

/// Begins the arguments with which a machine is reached.
fn ssh_args(private_key: &str, connect_timeout_seconds: u64) -> (r: Vec<String>)
    ensures
        chars::texts(r@) == seq!["-i"@, private_key@] + common_options(
            connect_timeout_seconds as nat,
        ),
{
    let mut options = chars::no_texts();
    chars::push_text(&mut options, "-o");
    chars::push_text(&mut options, "BatchMode=yes");
    chars::push_text(&mut options, "-o");
    chars::push_text(
        &mut options,
        &chars::cat("ConnectTimeout=", &number::decimal_text(connect_timeout_seconds)),
    );
    chars::push_text(&mut options, "-o");
    chars::push_text(&mut options, "StrictHostKeyChecking=no");
    chars::push_text(&mut options, "-o");
    chars::push_text(&mut options, "UserKnownHostsFile=/dev/null");
    chars::push_text(&mut options, "-o");
    chars::push_text(&mut options, "GlobalKnownHostsFile=/dev/null");
    chars::push_text(&mut options, "-o");
    chars::push_text(&mut options, "LogLevel=ERROR");
    let mut args = chars::no_texts();
    chars::push_text(&mut args, "-i");
    chars::push_text(&mut args, private_key);
    chars::push_texts(&mut args, &options);
    args
}

/// The arguments with which `ssh` asks a machine whether it has booted.
pub open spec fn probe(private_key: Seq<char>, ssh_port: nat) -> Seq<Seq<char>> {
    seq!["-i"@, private_key] + common_options(3) + seq![
        "-p"@,
        number::decimal(ssh_port),
        "statix@127.0.0.1"@,
        "test"@,
        "-f"@,
        "/var/lib/cloud/instance/boot-finished"@,
    ]
}

/// The arguments with which `ssh` asks a machine whether it has booted.
pub fn probe_args(private_key: &str, ssh_port: u16) -> (r: Vec<String>)
    ensures
        chars::texts(r@) == probe(private_key@, ssh_port as nat),
{
    let mut rest = chars::no_texts();
    chars::push_text(&mut rest, "-p");
    chars::push_text(&mut rest, &number::decimal_text(ssh_port as u64));
    chars::push_text(&mut rest, "statix@127.0.0.1");
    chars::push_text(&mut rest, "test");
    chars::push_text(&mut rest, "-f");
    chars::push_text(&mut rest, "/var/lib/cloud/instance/boot-finished");
    let mut args = ssh_args(private_key, 3);
    chars::push_texts(&mut args, &rest);
    args
}

/// The arguments with which `scp` brings the workspace to a machine.
pub open spec fn upload(private_key: Seq<char>, ssh_port: nat, archive: Seq<char>) -> Seq<
    Seq<char>,
> {
    seq!["-i"@, private_key] + common_options(5) + seq![
        "-P"@,
        number::decimal(ssh_port),
        archive,
        "statix@127.0.0.1:/home/statix/workspace.tar.gz"@,
    ]
}

/// The arguments with which `scp` brings the workspace to a machine.
pub fn upload_args(private_key: &str, ssh_port: u16, workspace_tar: &str) -> (r: Vec<String>)
    ensures
        chars::texts(r@) == upload(private_key@, ssh_port as nat, workspace_tar@),
{
    let mut rest = chars::no_texts();
    chars::push_text(&mut rest, "-P");
    chars::push_text(&mut rest, &number::decimal_text(ssh_port as u64));
    chars::push_text(&mut rest, workspace_tar);
    chars::push_text(&mut rest, "statix@127.0.0.1:/home/statix/workspace.tar.gz");
    let mut args = ssh_args(private_key, 5);
    chars::push_texts(&mut args, &rest);
    args
}

/// The arguments with which `ssh` runs a command in a machine. `ssh` puts blanks between the words
/// behind the address, and the machine's shell reads the text that comes of it; so the command is
/// written as one word for that shell.
pub open spec fn remote(private_key: Seq<char>, ssh_port: nat, command: Seq<char>) -> Seq<
    Seq<char>,
> {
    seq!["-i"@, private_key] + common_options(5) + seq![
        "-p"@,
        number::decimal(ssh_port),
        "statix@127.0.0.1"@,
        "sh"@,
        "-lc"@,
        shell::escape(command),
    ]
}

/// The machine's shell gets the command back, whatever characters it holds: from the words that
/// `ssh` hands on, with blanks between them, it reads `sh`, `-lc` and the command.
pub proof fn command_arrives(private_key: Seq<char>, ssh_port: nat, command: Seq<char>)
    ensures
        ({
            let args = remote(private_key, ssh_port, command);
            let handed_on = args.skip(args.len() - 3);
            shell::shell_words(split::join(handed_on, " "@)) == Some(seq!["sh"@, "-lc"@, command])
        }),
{
    reveal_strlit("sh");
    reveal_strlit("-lc");
    let words = seq!["sh"@, "-lc"@, command];
    let args = remote(private_key, ssh_port, command);
    assert(shell::all_plain("sh"@) && shell::all_plain("-lc"@));
    assert(args.skip(args.len() - 3) =~= shell::escaped(words));
    shell::command_is_read_back(words);
}

/// The arguments with which `ssh` runs a command in a machine.
pub fn remote_args(private_key: &str, ssh_port: u16, remote_command: &str) -> (r: Vec<String>)
    ensures
        chars::texts(r@) == remote(private_key@, ssh_port as nat, remote_command@),
{
    let mut rest = chars::no_texts();
    chars::push_text(&mut rest, "-p");
    chars::push_text(&mut rest, &number::decimal_text(ssh_port as u64));
    chars::push_text(&mut rest, "statix@127.0.0.1");
    chars::push_text(&mut rest, "sh");
    chars::push_text(&mut rest, "-lc");
    chars::push_text(&mut rest, &shell::shell_escape(remote_command));
    let mut args = ssh_args(private_key, 5);
    chars::push_texts(&mut args, &rest);
    args
}

/// Decides what follows when `qemu-img` has made the disk of a machine, or has not.
pub fn disk_made(outcome: ToolOutcome) -> (r: Result<(), Failure>)
    ensures
        output::tool_told(
            outcome,
            missing_dependency("qemu-img"@, "qemu-utils"@),
            "qemu-img failed to create overlay disk"@,
            r,
        ),
{
    output::tool_result(
        outcome,
        missing_dependency_message("qemu-img", "qemu-utils"),
        "qemu-img failed to create overlay disk".to_owned(),
    )
}

/// Decides what follows when `ssh-keygen` has made the keys of a machine, or has not.
/// `public_key_exists` tells whether there is a public key afterwards.
pub fn keypair_made(outcome: ToolOutcome, public_key_exists: bool) -> (r: Result<(), Failure>)
    ensures
        if outcome == ToolOutcome::Exited(true) && !public_key_exists {
            r matches Err(failure) && failure.texts() == seq![
                "ssh-keygen did not create a public key"@,
            ]
        } else {
            output::tool_told(
                outcome,
                "failed to launch ssh-keygen"@,
                "ssh-keygen failed to create guest keypair"@,
                r,
            )
        },
{
    let made = output::tool_result(
        outcome,
        "failed to launch ssh-keygen".to_owned(),
        "ssh-keygen failed to create guest keypair".to_owned(),
    );
    if made.is_ok() && !public_key_exists {
        return Err(Failure::new("ssh-keygen did not create a public key".to_owned()));
    }
    made
}

/// Decides what follows when `cloud-localds` has made the seed of a machine, or has not.
pub fn seed_made(outcome: ToolOutcome) -> (r: Result<(), Failure>)
    ensures
        output::tool_told(
            outcome,
            missing_dependency("cloud-localds"@, "cloud-image-utils"@),
            "cloud-localds failed to create the seed image"@,
            r,
        ),
{
    output::tool_result(
        outcome,
        missing_dependency_message("cloud-localds", "cloud-image-utils"),
        "cloud-localds failed to create the seed image".to_owned(),
    )
}

} // verus!
