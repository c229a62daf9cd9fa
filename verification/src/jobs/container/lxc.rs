//! The programs that make, start, enter and remove containers, and what they are told.

use crate::bytes;
use crate::dependencies;
use crate::environment::{self, Environment};
use crate::failure::Failure;
use crate::jobs::archive;
use crate::jobs::container::diagnostics;
use crate::jobs::container::network::{self, Ipv4};
use crate::jobs::output::{self, ProcessOutcome};
use crate::jobs::shell;
use crate::jobs::{CommandSpec, JobExecutionResult};
use crate::paths;
use crate::text::{chars, edit, number, search, split};
use vstd::prelude::*;

verus! {

/// The program with the rights to manage containers.
pub const HELPER: &'static str = "/usr/local/libexec/statix-agent-lxc";

/// The place of a project's files in a container.
pub const PROJECT_DIR: &'static str = "/home/statix/docker";

/// The program with the rights to manage containers.
pub fn lxc_helper_path() -> (r: &'static str)
    ensures
        r@ == HELPER@,
{
    HELPER
}

/// The programs that containers are managed with.
pub open spec fn required() -> Seq<Seq<char>> {
    seq![
        "sudo"@,
        "lxc-create"@,
        "lxc-start"@,
        "lxc-wait"@,
        "lxc-attach"@,
        "lxc-stop"@,
        "lxc-destroy"@,
    ]
}

/// The programs that containers are managed with.
pub fn required_commands() -> (r: Vec<String>)
    ensures
        chars::texts(r@) == required(),
        r@.len() == 7,
{
    let mut r = chars::no_texts();
    chars::push_text(&mut r, "sudo");
    chars::push_text(&mut r, "lxc-create");
    chars::push_text(&mut r, "lxc-start");
    chars::push_text(&mut r, "lxc-wait");
    chars::push_text(&mut r, "lxc-attach");
    chars::push_text(&mut r, "lxc-stop");
    chars::push_text(&mut r, "lxc-destroy");
    proof {
        assert(chars::texts(r@).len() == r@.len());
    }
    r
}

/// What to say where programs that containers are managed with are missing; none where all of
/// them are there.
pub open spec fn dependency_error(found: Seq<bool>, helper_found: bool) -> Option<Seq<char>> {
    let missing = dependencies::missing(required(), found);
    if missing.len() > 0 {
        Some(
            "Missing required LXC dependencies: "@ + split::join(missing, ", "@)
                + ". Please install the 'lxc' package before creating containers."@,
        )
    } else if !helper_found {
        Some(
            "Missing LXC privilege helper at "@ + HELPER@ + "; reinstall statix-agent"@,
        )
    } else {
        None
    }
}

/// Decides whether containers can be managed. `found` tells of each required program whether it
/// was found.
pub fn check_dependencies(found: &Vec<bool>, helper_found: bool) -> (r: Result<(), String>)
    requires
        found@.len() == 7,
    ensures
        match r {
            Ok(()) => dependency_error(found@, helper_found) is None,
            Err(message) => dependency_error(found@, helper_found) == Some(message@),
        },
{
    let missing = dependencies::missing_programs(&required_commands(), found);
    if missing.len() > 0 {
        return Err(
            chars::cat3(
                "Missing required LXC dependencies: ",
                &split::joined(&missing, ", "),
                ". Please install the 'lxc' package before creating containers.",
            ),
        );
    }
    if !helper_found {
        return Err(
            chars::cat3("Missing LXC privilege helper at ", HELPER, "; reinstall statix-agent"),
        );
    }
    Ok(())
}

/// The home directory that the programs run with, where the agent has a directory for its state.
pub open spec fn process_home(env: &Environment) -> Option<Seq<char>> {
    match environment::set_var(env, "STATIX_AGENT_STATE_DIR"@) {
        Some(path) => Some(paths::join(path, "lxc"@)),
        None => match environment::set_var(env, "STATE_DIRECTORY"@) {
            Some(path) => Some(paths::join(path, "lxc"@)),
            None => None,
        },
    }
}

/// The directory that holds the containers.
pub open spec fn storage(env: &Environment) -> Seq<char> {
    match process_home(env) {
        Some(home) => paths::join(home, "containers"@),
        None => "/var/lib/lxc"@,
    }
}

/// The home directory that the programs run with, where the agent has a directory for its state.
pub fn lxc_process_home(env: &Environment) -> (r: Option<String>)
    ensures
        chars::opt_text(r) == process_home(env),
{
    let state = match environment::env_path(env, "STATIX_AGENT_STATE_DIR") {
        Some(path) => Some(path),
        None => environment::env_path(env, "STATE_DIRECTORY"),
    };
    match state {
        Some(path) => Some(paths::path_join(&path, "lxc")),
        None => None,
    }
}

/// The directory that holds the containers.
pub fn lxc_storage_path(env: &Environment) -> (r: String)
    ensures
        r@ == storage(env),
{
    match lxc_process_home(env) {
        Some(home) => paths::path_join(&home, "containers"),
        None => "/var/lib/lxc".to_owned(),
    }
}

/// A variable and its value.
#[derive(Debug)]
pub struct Variable {
    pub name: &'static str,
    pub value: String,
}

/// The variables that the programs run with, besides those of the agent.
pub fn process_variables(env: &Environment) -> (r: Vec<Variable>)
    ensures
        match process_home(env) {
            Some(home) => {
                &&& r@.len() == 4
                &&& r@[0].name@ == "HOME"@ && r@[0].value@ == home
                &&& r@[1].name@ == "XDG_CACHE_HOME"@ && r@[1].value@ == paths::join(
                    home,
                    ".cache"@,
                )
                &&& r@[2].name@ == "XDG_CONFIG_HOME"@ && r@[2].value@ == paths::join(
                    home,
                    ".config"@,
                )
                &&& r@[3].name@ == "XDG_DATA_HOME"@ && r@[3].value@ == paths::join(
                    paths::join(home, ".local"@),
                    "share"@,
                )
            },
            None => r@.len() == 0,
        },
{
    let mut r: Vec<Variable> = Vec::new();
    if let Some(home) = lxc_process_home(env) {
        let cache = paths::path_join(&home, ".cache");
        let config = paths::path_join(&home, ".config");
        let data = paths::path_join(&paths::path_join(&home, ".local"), "share");
        r.push(Variable { name: "HOME", value: home });
        r.push(Variable { name: "XDG_CACHE_HOME", value: cache });
        r.push(Variable { name: "XDG_CONFIG_HOME", value: config });
        r.push(Variable { name: "XDG_DATA_HOME", value: data });
    }
    r
}

/// The configuration of a container.
pub fn runtime_config_path(env: &Environment, name: &str) -> (r: String)
    ensures
        r@ == paths::join(paths::join(storage(env), name@), "config"@),
{
    paths::path_join(&paths::path_join(&lxc_storage_path(env), name), "config")
}

/// The log of a container that serves a project.
pub fn runtime_log_path(env: &Environment, name: &str) -> (r: String)
    ensures
        r@ == paths::join(paths::join(storage(env), name@), "statix-runtime.log"@),
{
    paths::path_join(&paths::path_join(&lxc_storage_path(env), name), "statix-runtime.log")
}

/// The log of a container that runs a job.
pub fn job_log_path(env: &Environment, name: &str) -> (r: String)
    ensures
        r@ == paths::join(paths::join(storage(env), name@), "statix-lxc.log"@),
{
    paths::path_join(&paths::path_join(&lxc_storage_path(env), name), "statix-lxc.log")
}

/// The log of making a container.
pub fn create_log_path(env: &Environment, name: &str) -> (r: String)
    ensures
        r@ == paths::join(storage(env), name@ + ".create.log"@),
{
    paths::path_join(&lxc_storage_path(env), &chars::cat(name, ".create.log"))
}

/// The command that runs a program on a container with the rights that it needs.
pub open spec fn privileged(
    storage: Seq<char>,
    program: Seq<char>,
    name: Seq<char>,
    args: Seq<Seq<char>>,
) -> Seq<Seq<char>> {
    seq![
        "sudo"@,
        "-n"@,
        "--preserve-env=STATIX_AGENT_STATE_DIR,STATE_DIRECTORY"@,
        HELPER@,
        program,
        "-n"@,
        name,
        "-P"@,
        storage,
    ] + args
}

/// The command that runs a program on a container with the rights that it needs.
pub fn runtime_command(env: &Environment, program: &str, name: &str, args: &Vec<String>) -> (r: Vec<
    String,
>)
    ensures
        chars::texts(r@) == privileged(storage(env), program@, name@, chars::texts(args@)),
{
    let mut command = chars::no_texts();
    chars::push_text(&mut command, "sudo");
    chars::push_text(&mut command, "-n");
    chars::push_text(&mut command, "--preserve-env=STATIX_AGENT_STATE_DIR,STATE_DIRECTORY");
    chars::push_text(&mut command, HELPER);
    chars::push_text(&mut command, program);
    chars::push_text(&mut command, "-n");
    chars::push_text(&mut command, name);
    chars::push_text(&mut command, "-P");
    chars::push_text(&mut command, &lxc_storage_path(env));
    chars::push_texts(&mut command, args);
    command
}

/// The command that makes a container from an image.
pub fn create_command(
    env: &Environment,
    name: &str,
    distribution: &str,
    release: &str,
    image_arch: &str,
) -> (r: Vec<String>)
    ensures
        chars::texts(r@) == privileged(
            storage(env),
            "lxc-create"@,
            name@,
            seq![
                "--logfile"@,
                paths::join(storage(env), name@ + ".create.log"@),
                "--logpriority"@,
                "DEBUG"@,
                "-t"@,
                "download"@,
                "--"@,
                "-d"@,
                distribution@,
                "-r"@,
                release@,
                "-a"@,
                image_arch@,
            ],
        ),
{
    let mut args = chars::no_texts();
    chars::push_text(&mut args, "--logfile");
    chars::push_text(&mut args, &create_log_path(env, name));
    chars::push_text(&mut args, "--logpriority");
    chars::push_text(&mut args, "DEBUG");
    chars::push_text(&mut args, "-t");
    chars::push_text(&mut args, "download");
    chars::push_text(&mut args, "--");
    chars::push_text(&mut args, "-d");
    chars::push_text(&mut args, distribution);
    chars::push_text(&mut args, "-r");
    chars::push_text(&mut args, release);
    chars::push_text(&mut args, "-a");
    chars::push_text(&mut args, image_arch);
    runtime_command(env, "lxc-create", name, &args)
}

/// The command that starts a container.
pub fn start_command(env: &Environment, name: &str) -> (r: Vec<String>)
    ensures
        chars::texts(r@) == privileged(
            storage(env),
            "lxc-start"@,
            name@,
            seq![
                "--logfile"@,
                paths::join(paths::join(storage(env), name@), "statix-lxc.log"@),
                "--logpriority"@,
                "DEBUG"@,
                "-d"@,
            ],
        ),
{
    let mut args = chars::no_texts();
    chars::push_text(&mut args, "--logfile");
    chars::push_text(&mut args, &job_log_path(env, name));
    chars::push_text(&mut args, "--logpriority");
    chars::push_text(&mut args, "DEBUG");
    chars::push_text(&mut args, "-d");
    runtime_command(env, "lxc-start", name, &args)
}

/// The command that waits until a container runs.
pub fn wait_command(env: &Environment, name: &str) -> (r: Vec<String>)
    ensures
        chars::texts(r@) == privileged(
            storage(env),
            "lxc-wait"@,
            name@,
            seq!["-s"@, "RUNNING"@, "-t"@, "30"@],
        ),
{
    let mut args = chars::no_texts();
    chars::push_text(&mut args, "-s");
    chars::push_text(&mut args, "RUNNING");
    chars::push_text(&mut args, "-t");
    chars::push_text(&mut args, "30");
    runtime_command(env, "lxc-wait", name, &args)
}

/// The command that runs a shell's text in a container.
pub fn attach_command(env: &Environment, name: &str, shell_command: &str) -> (r: Vec<String>)
    ensures
        chars::texts(r@) == privileged(
            storage(env),
            "lxc-attach"@,
            name@,
            seq!["--"@, "sh"@, "-lc"@, shell_command@],
        ),
{
    let mut args = chars::no_texts();
    chars::push_text(&mut args, "--");
    chars::push_text(&mut args, "sh");
    chars::push_text(&mut args, "-lc");
    chars::push_text(&mut args, shell_command);
    runtime_command(env, "lxc-attach", name, &args)
}

/// The command that ends a container.
pub fn stop_command(env: &Environment, name: &str) -> (r: Vec<String>)
    ensures
        chars::texts(r@) == privileged(storage(env), "lxc-stop"@, name@, seq!["--kill"@]),
{
    let mut args = chars::no_texts();
    chars::push_text(&mut args, "--kill");
    runtime_command(env, "lxc-stop", name, &args)
}

/// The command that removes a container.
pub fn destroy_command(env: &Environment, name: &str) -> (r: Vec<String>)
    ensures
        chars::texts(r@) == privileged(storage(env), "lxc-destroy"@, name@, seq![]),
{
    runtime_command(env, "lxc-destroy", name, &chars::no_texts())
}

/// The command that tells the addresses of a container.
pub fn info_command(env: &Environment, name: &str) -> (r: Vec<String>)
    ensures
        chars::texts(r@) == privileged(storage(env), "lxc-info"@, name@, seq!["-iH"@]),
{
    let mut args = chars::no_texts();
    chars::push_text(&mut args, "-iH");
    runtime_command(env, "lxc-info", name, &args)
}

/// The shell's text that takes in the workspace.
pub fn receive_command() -> (r: String)
    ensures
        r@ == "cat > /tmp/"@ + archive::WORKSPACE_ARCHIVE@,
{
    chars::cat("cat > /tmp/", archive::WORKSPACE_ARCHIVE)
}

/// The shell's text that prepares a container: a user for the project, and the programs that it
/// is built and run with.
pub const SETUP: &'static str =
    "set -e; echo '[statix-agent] guest network diagnostics:'; echo '[statix-agent] ip addr:'; ip addr || true; echo '[statix-agent] ip route:'; ip route || true; echo '[statix-agent] /etc/resolv.conf:'; cat /etc/resolv.conf || true; command -v apt-get >/dev/null 2>&1 || { echo '[statix-agent] Docker provisioning currently requires an apt-based LXC guest' >&2; exit 1; }; if ! id statix >/dev/null 2>&1; then useradd --create-home --shell /bin/bash statix; fi; install -d -o statix -g statix -m 0755 /home/statix/docker; echo '[statix-agent] apt-get update'; apt-get update; echo '[statix-agent] installing Docker, Compose, and build dependencies'; DEBIAN_FRONTEND=noninteractive apt-get install -y docker.io docker-compose-v2 build-essential ca-certificates curl git libssl-dev pkg-config; install -d /etc/docker; printf '%s\\n' '{\"storage-driver\":\"vfs\"}' > /etc/docker/daemon.json; systemctl enable --now docker; systemctl restart docker; usermod --append --groups docker statix; docker info >/dev/null; if command -v cargo >/dev/null 2>&1; then echo '[statix-agent] cargo already available'; else echo '[statix-agent] installing rust toolchain'; curl --proto '=https' --tlsv1.2 -sSf https://sh.rustup.rs | sh -s -- -y --profile minimal --default-toolchain stable; fi";

/// The name under which a variable is exported in a container.
pub open spec fn exported_name(key: Seq<char>) -> Seq<char> {
    if shell::variable_name(key) {
        key
    } else {
        "STATIX_INVALID_ENV"@
    }
}

/// The name under which a variable is exported in a container.
pub fn shell_env_key(key: &str) -> (r: String)
    ensures
        r@ == exported_name(key@),
{
    if shell::is_variable_name(key) {
        key.to_owned()
    } else {
        "STATIX_INVALID_ENV".to_owned()
    }
}

/// The texts that export variables in a container.
pub open spec fn exports(pairs: Seq<(Seq<char>, String)>) -> Seq<Seq<char>> {
    pairs.map_values(|pair: (Seq<char>, String)| shell::export(exported_name(pair.0), pair.1@))
}

/// The directory in which a command runs in a container.
pub open spec fn guest_cwd(cwd: Option<Seq<char>>) -> Seq<char> {
    match cwd {
        Some(path) => if path == "/workspace"@ {
            PROJECT_DIR@
        } else {
            path
        },
        None => PROJECT_DIR@,
    }
}

/// What a container runs before a command: it unpacks the workspace to the place of the project's
/// files, and gives it to the user that the command runs as.
pub const UNPACK: &'static str =
    "rm -rf /home/statix/docker && mkdir -p /home/statix/docker && tar -xzf /tmp/statix-workspace.tar.gz -C /home/statix/docker && chown -R statix:statix /home/statix/docker && su -s /bin/bash - statix -c ";

/// The shell's text that the user in a container runs for a command.
pub open spec fn user_text(
    cwd: Seq<char>,
    pairs: Seq<(Seq<char>, String)>,
    argv: Seq<Seq<char>>,
) -> Seq<char> {
    "cd "@ + shell::escape(cwd) + " && "@ + split::join(exports(pairs), " "@) + " exec "@
        + shell::command_text(argv)
}

/// A container runs this for a command, or why it does not.
pub open spec fn guest_told(command: CommandSpec, r: Result<String, &'static str>) -> bool {
    ({
        let cwd = guest_cwd(chars::opt_text(command.cwd));
        match r {
            Ok(text) => {
                &&& PROJECT_DIR@.is_prefix_of(cwd)
                &&& text@ == UNPACK@ + shell::escape(
                    user_text(cwd, command.env.pairs(), chars::texts(command.argv@)),
                )
            },
            Err(message) => {
                &&& !PROJECT_DIR@.is_prefix_of(cwd)
                &&& message@
                    == "container command cwd must be inside /home/statix/docker"@
            },
        }
    })
}

/// The shell's text that a container runs for a command; what to say where the command is to run
/// outside the project's files.
pub fn guest_command(command: &CommandSpec) -> (r: Result<String, &'static str>)
    ensures
        guest_told(*command, r),
{
    let cwd = match &command.cwd {
        Some(path) => if chars::same(path, "/workspace") {
            PROJECT_DIR.to_owned()
        } else {
            path.clone()
        },
        None => PROJECT_DIR.to_owned(),
    };
    if !search::begins(&cwd, PROJECT_DIR) {
        return Err("container command cwd must be inside /home/statix/docker");
    }
    let ghost pairs = command.env.pairs();
    let ghost all = exports(pairs);
    let count: usize = command.env.len();
    let mut lines = chars::no_texts();
    let mut i: usize = 0;
    while i < count
        invariant
            i <= count,
            count == pairs.len(),
            pairs == command.env.pairs(),
            all == exports(pairs),
            chars::texts(lines@) == all.take(i as int),
        decreases count - i,
    {
        let key = shell_env_key(command.env.key(i));
        chars::push_text(&mut lines, &shell::export_text(&key, command.env.value(i)));
        proof {
            assert(all.take(i + 1) =~= all.take(i as int).push(all[i as int]));
        }
        i += 1;
    }
    proof {
        assert(all.take(i as int) =~= all);
    }
    let mut text = chars::cat3("cd ", &shell::shell_escape(&cwd), " && ");
    text.append(&split::joined(&lines, " "));
    text.append(" exec ");
    text.append(&shell::shell_join(&command.argv));
    Ok(chars::cat(UNPACK, &shell::shell_escape(&text)))
}

/// A word after which a secret follows.
pub open spec fn announces_secret(word: Seq<char>) -> bool {
    let flag = edit::lower_text(word);
    flag == "--token"@ || flag == "--password"@ || flag == "--secret"@ || flag == "--api-key"@
        || flag == "-p"@
}

/// What diagnostics show of each word of a command.
pub open spec fn redacted_words(command: Seq<Seq<char>>) -> Seq<Seq<char>> {
    Seq::new(
        command.len(),
        |i: int|
            if i > 0 && announces_secret(command[i - 1]) {
                "<redacted>"@
            } else {
                shell::escape(command[i])
            },
    )
}

/// Whether a secret follows after a word.
fn is_secret_flag(word: &str) -> (r: bool)
    ensures
        r == announces_secret(word@),
{
    let flag = edit::lowered(word);
    chars::same(&flag, "--token") || chars::same(&flag, "--password") || chars::same(
        &flag,
        "--secret",
    ) || chars::same(&flag, "--api-key") || chars::same(&flag, "-p")
}

/// What diagnostics show of a command: the words after those that announce a secret are left out.
pub fn redacted_command(command: &Vec<String>) -> (r: String)
    ensures
        r@ == split::join(redacted_words(chars::texts(command@)), " "@),
{
    let ghost words = chars::texts(command@);
    let ghost all = redacted_words(words);
    let mut parts = chars::no_texts();
    let mut i: usize = 0;
    while i < command.len()
        invariant
            i <= command.len(),
            words == chars::texts(command@),
            all == redacted_words(words),
            chars::texts(parts@) == all.take(i as int),
        decreases command.len() - i,
    {
        proof {
            assert(words[i as int] == command@[i as int]@);
            if i > 0 {
                assert(words[i - 1] == command@[i - 1]@);
            }
        }
        if i > 0 && is_secret_flag(&command[i - 1]) {
            chars::push_text(&mut parts, "<redacted>");
        } else {
            chars::push_text(&mut parts, &shell::shell_escape(&command[i]));
        }
        proof {
            assert(all.take(i + 1) =~= all.take(i as int).push(all[i as int]));
        }
        i += 1;
    }
    proof {
        assert(all.take(i as int) =~= all);
    }
    split::joined(&parts, " ")
}

/// What diagnostics show of a command does not depend on the secrets in it: two commands that
/// differ only in words after those that announce a secret, and announce the same, are shown
/// alike.
pub proof fn secrets_are_not_shown(first: Seq<Seq<char>>, second: Seq<Seq<char>>)
    requires
        first.len() == second.len(),
        forall|i: int|
            0 <= i < first.len() ==> (#[trigger] first[i] == second[i] || (i > 0
                && announces_secret(first[i - 1]) && announces_secret(first[i])
                == announces_secret(second[i]))),
    ensures
        redacted_words(first) == redacted_words(second),
{
    let a = redacted_words(first);
    let b = redacted_words(second);
    assert forall|i: int| 0 <= i < first.len() implies a[i] == b[i] by {
        if i > 0 {
            assert(first[i - 1] == second[i - 1] || announces_secret(first[i - 1])
                == announces_secret(second[i - 1]));
        }
        assert(first[i] == second[i] || (i > 0 && announces_secret(first[i - 1])));
    }
    assert(a =~= b);
}

/// Whether the limits of containers are enforced.
pub fn enforce_lxc_limits(env: &Environment) -> (r: bool)
    ensures
        r == environment::flag(env, "STATIX_LXC_ENFORCE_LIMITS"@),
{
    environment::env_flag(env, "STATIX_LXC_ENFORCE_LIMITS")
}

/// What is added to the configuration of a container.
pub open spec fn job_config(cpu: nat, memory_mb: nat, enforce_limits: bool) -> Seq<char> {
    "\n# Statix job runtime config\n"@ + (if enforce_limits {
        "lxc.cgroup2.memory.max = "@ + number::decimal(memory_mb * 1024 * 1024) + "\n"@
            + "lxc.cgroup2.cpu.max = "@ + number::decimal(cpu * 100_000) + " 100000\n"@
    } else {
        "# cgroup limits requested by Statix are not written because enforcement was disabled.\n"@
    })
        + "lxc.apparmor.profile = unconfined\nlxc.apparmor.allow_nesting = 1\nlxc.mount.auto = proc:rw sys:rw\n"@
}

/// What is added to the configuration of a container.
pub fn write_job_lxc_config(cpu: u8, memory_mb: u32, enforce_limits: bool) -> (r: String)
    ensures
        r@ == job_config(cpu as nat, memory_mb as nat, enforce_limits),
{
    let limits = if enforce_limits {
        let memory_bytes: u64 = memory_mb as u64 * 1024 * 1024;
        let cpu_quota: u64 = cpu as u64 * 100_000;
        let mut text = chars::cat3(
            "lxc.cgroup2.memory.max = ",
            &number::decimal_text(memory_bytes),
            "\n",
        );
        text.append("lxc.cgroup2.cpu.max = ");
        text.append(&number::decimal_text(cpu_quota));
        text.append(" 100000\n");
        text
    } else {
        "# cgroup limits requested by Statix are not written because enforcement was disabled.\n".to_owned()
    };
    chars::cat3(
        "\n# Statix job runtime config\n",
        &limits,
        "lxc.apparmor.profile = unconfined\nlxc.apparmor.allow_nesting = 1\nlxc.mount.auto = proc:rw sys:rw\n",
    )
}

/// What is added to the configuration of a container that serves a project. It gets at most the
/// number of processors that the configuration of a job can name.
pub fn runtime_config(cpu: u32, memory_mb: u32, enforce_limits: bool) -> (r: String)
    ensures
        r@ == job_config(
            if cpu <= 255 {
                cpu as nat
            } else {
                255
            },
            memory_mb as nat,
            enforce_limits,
        ),
{
    let count: u8 = if cpu <= 255 {
        cpu as u8
    } else {
        255
    };
    write_job_lxc_config(count, memory_mb, enforce_limits)
}

/// What is added to the configuration of a container where there is no bridge.
pub const NETWORKLESS_CONFIG: &'static str =
    "\n# Statix fallback when lxcbr0 is unavailable\nlxc.net.0.type = empty\n";

/// The permissions of a directory, with those that let everyone pass through it.
pub fn traversable_mode(mode: u32) -> (r: u32)
    ensures
        r == mode | 0o711,
{
    mode | 0o711
}

/// What to say of a container that could not be made.
pub open spec fn create_error(
    name: Seq<char>,
    status: Seq<char>,
    distribution: Seq<char>,
    release: Seq<char>,
    image_arch: Seq<char>,
    log: Seq<char>,
) -> Seq<char> {
    "lxc-create failed for container "@ + name + " with "@ + status + " (requested "@ + distribution
        + ":"@ + release + ", arch "@ + image_arch + "): "@ + log
        + ". Verify the lxc-download template and image availability with `lxc-create -t download -n probe -- --list`"@
}

/// What to say of a container that could not be made.
pub fn create_failure(
    name: &str,
    status: &str,
    distribution: &str,
    release: &str,
    image_arch: &str,
    log: &str,
) -> (r: String)
    ensures
        r@ == create_error(name@, status@, distribution@, release@, image_arch@, log@),
{
    let mut r = chars::cat3("lxc-create failed for container ", name, " with ");
    r.append(status);
    r.append(" (requested ");
    r.append(distribution);
    r.append(":");
    r.append(release);
    r.append(", arch ");
    r.append(image_arch);
    r.append("): ");
    r.append(log);
    r.append(
        ". Verify the lxc-download template and image availability with `lxc-create -t download -n probe -- --list`",
    );
    r
}

/// What to say of a container that could not be started.
pub fn start_failure(name: &str, status: &str, log: &str, proc_uses_noatime: Option<bool>) -> (r:
    String)
    ensures
        r@ == "lxc-start failed for container "@ + name@ + " with "@ + status@ + ": "@
            + diagnostics::start_failure(log@, proc_uses_noatime),
{
    let mut r = chars::cat3("lxc-start failed for container ", name, " with ");
    r.append(status);
    r.append(": ");
    r.append(&diagnostics::lxc_start_failure_message(log, proc_uses_noatime));
    r
}

/// What to say of a container that was started and does not run.
pub fn wait_failure(name: &str, status: &str, log: &str) -> (r: String)
    ensures
        r@ == "lxc-wait did not observe container "@ + name@ + " running: "@ + status@ + ": "@
            + log@,
{
    let mut r = chars::cat3("lxc-wait did not observe container ", name, " running: ");
    r.append(status);
    r.append(": ");
    r.append(log);
    r
}

/// What to say of a container whose `task` failed.
pub open spec fn task_report(
    task: Seq<char>,
    status: Seq<char>,
    stdout: Seq<u8>,
    stderr: Seq<u8>,
) -> Seq<char> {
    "failed to "@ + task + " with "@ + status + ": "@ + diagnostics::raw_report(
        bytes::utf8_lossy(stdout),
        bytes::utf8_lossy(stderr),
    )
}

/// What to say of a container whose `task` failed.
pub fn task_failure(task: &str, status: &str, stdout: &[u8], stderr: &[u8]) -> (r: String)
    ensures
        r@ == task_report(task@, status@, stdout@, stderr@),
{
    let mut r = chars::cat3("failed to ", task, " with ");
    r.append(status);
    r.append(": ");
    r.append(&diagnostics::summarize_raw_command_output(stdout, stderr));
    r
}

/// What to say where a command in a container did not end in time.
pub open spec fn attach_timeout(seconds: nat) -> Seq<char> {
    "lxc command timed out after "@ + number::decimal(seconds) + " seconds"@
}

/// The failure of a command in a container that was not run to its end.
pub open spec fn attach_failure(name: Seq<char>, seconds: nat, outcome: ProcessOutcome) -> Seq<
    Seq<char>,
> {
    match outcome {
        ProcessOutcome::NotRun(cause) => seq![
            "failed to execute command inside lxc container "@ + name,
        ] + cause.texts(),
        _ => seq![attach_timeout(seconds)],
    }
}

/// Tells the failure of a command in a container that was not run to its end.
fn not_ended(name: &str, timeout_seconds: u64, cause: Option<Failure>) -> (r: Failure)
    ensures
        r.texts() == match cause {
            Some(cause) => seq!["failed to execute command inside lxc container "@ + name@]
                + cause.texts(),
            None => seq![attach_timeout(timeout_seconds as nat)],
        },
{
    match cause {
        Some(cause) => cause.context(
            chars::cat("failed to execute command inside lxc container ", name),
        ),
        None => Failure::new(
            chars::cat3(
                "lxc command timed out after ",
                &number::decimal_text(timeout_seconds),
                " seconds",
            ),
        ),
    }
}

/// This follows when a container was prepared, or was not.
pub open spec fn setup_ended(
    name: Seq<char>,
    cwd: Seq<char>,
    timeout_seconds: u64,
    outcome: ProcessOutcome,
    r: Result<Option<JobExecutionResult>, Failure>,
) -> bool {
    match outcome {
        ProcessOutcome::Exited { success, stdout, stderr } => if success {
            r matches Ok(None)
        } else {
            r matches Ok(Some(result)) && output::tells(
                result,
                cwd,
                false,
                stdout@,
                stderr@,
            )
        },
        _ => r matches Err(failure) && failure.texts() == attach_failure(
            name,
            timeout_seconds as nat,
            outcome,
        ),
    }
}

/// Decides what follows when a container was prepared: where that failed, how the job ended; else
/// nothing, and the command is run.
pub fn after_setup(name: &str, cwd: &str, timeout_seconds: u64, outcome: ProcessOutcome) -> (r:
    Result<Option<JobExecutionResult>, Failure>)
    ensures
        setup_ended(name@, cwd@, timeout_seconds, outcome, r),
{
    match outcome {
        ProcessOutcome::Exited { success, stdout, stderr } => if success {
            Ok(None)
        } else {
            Ok(Some(output::command_result(cwd, false, stdout.as_slice(), stderr.as_slice())))
        },
        ProcessOutcome::NotRun(cause) => Err(not_ended(name, timeout_seconds, Some(cause))),
        ProcessOutcome::TimedOut => Err(not_ended(name, timeout_seconds, None)),
    }
}

/// A job ended so when its command was run in a container.
pub open spec fn command_ended(
    name: Seq<char>,
    cwd: Seq<char>,
    timeout_seconds: u64,
    outcome: ProcessOutcome,
    r: Result<JobExecutionResult, Failure>,
) -> bool {
    match outcome {
        ProcessOutcome::Exited { success, stdout, stderr } => r matches Ok(result)
            && output::tells(result, cwd, success, stdout@, stderr@),
        _ => r matches Err(failure) && failure.texts() == attach_failure(
            name,
            timeout_seconds as nat,
            outcome,
        ),
    }
}

/// Decides how a job ended when its command was run in a container.
pub fn after_command(name: &str, cwd: &str, timeout_seconds: u64, outcome: ProcessOutcome) -> (r:
    Result<JobExecutionResult, Failure>)
    ensures
        command_ended(name@, cwd@, timeout_seconds, outcome, r),
{
    match outcome {
        ProcessOutcome::Exited { success, stdout, stderr } => Ok(
            output::command_result(cwd, success, stdout.as_slice(), stderr.as_slice()),
        ),
        ProcessOutcome::NotRun(cause) => Err(not_ended(name, timeout_seconds, Some(cause))),
        ProcessOutcome::TimedOut => Err(not_ended(name, timeout_seconds, None)),
    }
}

/// What follows when a `task` was done by a command in a container: nothing where the command
/// succeeded.
pub open spec fn task_ended(
    name: Seq<char>,
    task: Seq<char>,
    seconds: nat,
    status: Seq<char>,
    outcome: ProcessOutcome,
    r: Result<(), Failure>,
) -> bool {
    match outcome {
        ProcessOutcome::Exited { success, stdout, stderr } => if success {
            r is Ok
        } else {
            r matches Err(failure) && failure.texts() == seq![
                task_report(task, status, stdout@, stderr@),
            ]
        },
        _ => r matches Err(failure) && failure.texts() == attach_failure(name, seconds, outcome),
    }
}

/// Decides what follows when a `task` was done by a command in a container, which ended with
/// `status` where it ended.
pub fn after_task(
    name: &str,
    task: &str,
    timeout_seconds: u64,
    status: &str,
    outcome: ProcessOutcome,
) -> (r: Result<(), Failure>)
    ensures
        task_ended(name@, task@, timeout_seconds as nat, status@, outcome, r),
{
    match outcome {
        ProcessOutcome::Exited { success, stdout, stderr } => if success {
            Ok(())
        } else {
            Err(Failure::new(task_failure(task, status, stdout.as_slice(), stderr.as_slice())))
        },
        ProcessOutcome::NotRun(cause) => Err(not_ended(name, timeout_seconds, Some(cause))),
        ProcessOutcome::TimedOut => Err(not_ended(name, timeout_seconds, None)),
    }
}

/// Decides what follows when the network of a container was configured.
pub fn after_guest_network(
    name: &str,
    timeout_seconds: u64,
    status: &str,
    outcome: ProcessOutcome,
) -> (r: Result<(), Failure>)
    ensures
        task_ended(
            name@,
            "configure lxc container network"@,
            timeout_seconds as nat,
            status@,
            outcome,
            r,
        ),
{
    after_task(name, "configure lxc container network", timeout_seconds, status, outcome)
}

/// Decides whether the name resolution of a container is configured: not where no name server was
/// found and the default gateway is not to be asked either.
pub fn configures_guest_dns(nameservers: &Vec<String>, include_default_gateway: bool) -> (r: bool)
    ensures
        r == (nameservers@.len() > 0 || include_default_gateway),
{
    nameservers.len() > 0 || include_default_gateway
}

/// Decides what follows when the name resolution of a container was configured.
pub fn after_guest_dns(
    name: &str,
    timeout_seconds: u64,
    status: &str,
    outcome: ProcessOutcome,
) -> (r: Result<(), Failure>)
    ensures
        task_ended(
            name@,
            "configure lxc container DNS"@,
            timeout_seconds as nat,
            status@,
            outcome,
            r,
        ),
{
    after_task(name, "configure lxc container DNS", timeout_seconds, status, outcome)
}

/// This is the address of a container that serves a project, or what to say where there is none.
pub open spec fn address_told(
    name: Seq<char>,
    success: bool,
    stdout: Seq<u8>,
    stderr: Seq<u8>,
    r: Result<Ipv4, String>,
) -> bool {
    match r {
        Ok(found) => success && network::first_address(
            split::words(bytes::utf8_lossy(stdout)),
        ) == Some(found),
        Err(message) => if success {
            &&& network::first_address(split::words(bytes::utf8_lossy(stdout))) is None
            &&& message@ == "lxc runtime "@ + name + " has no IPv4 address"@
        } else {
            message@ == "failed to resolve IPv4 address for lxc runtime "@ + name + ": "@
                + diagnostics::raw_report(
                bytes::utf8_lossy(stdout),
                bytes::utf8_lossy(stderr),
            )
        },
    }
}

/// The address of a container that serves a project, over what came of asking `lxc-info` for it;
/// what to say where there is none.
pub fn runtime_ipv4(name: &str, success: bool, stdout: &[u8], stderr: &[u8]) -> (r: Result<
    Ipv4,
    String,
>)
    ensures
        address_told(name@, success, stdout@, stderr@, r),
{
    if !success {
        let mut said = chars::cat3(
            "failed to resolve IPv4 address for lxc runtime ",
            name,
            ": ",
        );
        said.append(&diagnostics::summarize_raw_command_output(stdout, stderr));
        return Err(said);
    }
    match network::runtime_address(&bytes::lossy_text(stdout)) {
        Some(found) => Ok(found),
        None => Err(chars::cat3("lxc runtime ", name, " has no IPv4 address")),
    }
}

} // verus!
