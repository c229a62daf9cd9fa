//! Deploying a project.

use crate::agent::bundle;
use crate::agent::test_job;
use crate::agent::{DeployJob, DeploymentSetup};
use crate::config::AgentConfig;
use crate::failure::Failure;
use crate::jobs::shell;
use crate::jobs::{ExecutionContext, JobExecutionResult, RunnerEnvironment};
use crate::string_map::StringMap;
use crate::text::{chars, split, trim};
use vstd::prelude::*;

verus! {

/// The name under which a variable is exported, where a shell takes it for one.
pub open spec fn exported_key(key: Seq<char>) -> Option<Seq<char>> {
    if shell::variable_name(trim::trim(key)) {
        Some(trim::trim(key))
    } else {
        None
    }
}

/// The name under which a variable is exported, where a shell takes it for one.
pub fn shell_env_key(key: &str) -> (r: Option<String>)
    ensures
        chars::opt_text(r) == exported_key(key@),
{
    let key = trim::trimmed(key);
    if shell::is_variable_name(&key) {
        Some(key)
    } else {
        None
    }
}

/// The texts that export variables. A name that no shell takes for one is left out.
pub open spec fn exports(pairs: Seq<(Seq<char>, String)>) -> Seq<Seq<char>>
    decreases pairs.len(),
{
    if pairs.len() == 0 {
        seq![]
    } else {
        let before = exports(pairs.drop_last());
        match exported_key(pairs.last().0) {
            Some(key) => before.push(shell::export(key, pairs.last().1@)),
            None => before,
        }
    }
}

/// A command that runs with variables set.
pub open spec fn with_variables(
    command: Seq<Seq<char>>,
    pairs: Seq<(Seq<char>, String)>,
) -> Seq<Seq<char>> {
    if pairs.len() == 0 {
        command
    } else {
        seq![
            "bash"@,
            "-lc"@,
            split::join(exports(pairs), " "@) + " exec "@ + shell::command_text(command),
        ]
    }
}

/// A command that runs with variables set.
pub fn env_command(command: &Vec<String>, env: &StringMap<String>) -> (r: Vec<String>)
    ensures
        chars::texts(r@) == with_variables(chars::texts(command@), env.pairs()),
{
    if env.is_empty() {
        return chars::copy_texts(command);
    }
    let ghost pairs = env.pairs();
    let count: usize = env.len();
    let mut lines = chars::no_texts();
    let mut i: usize = 0;
    while i < count
        invariant
            i <= count,
            count == pairs.len(),
            pairs == env.pairs(),
            chars::texts(lines@) == exports(pairs.take(i as int)),
        decreases count - i,
    {
        proof {
            assert(pairs.take(i + 1).drop_last() =~= pairs.take(i as int));
        }
        if let Some(key) = shell_env_key(env.key(i)) {
            chars::push_text(&mut lines, &shell::export_text(&key, env.value(i)));
        }
        i += 1;
    }
    proof {
        assert(pairs.take(i as int) =~= pairs);
    }
    let mut text = split::joined(&lines, " ");
    text.append(" exec ");
    text.append(&shell::shell_join(command));
    let mut r = chars::no_texts();
    chars::push_text(&mut r, "bash");
    chars::push_text(&mut r, "-lc");
    chars::push_text(&mut r, &text);
    r
}

/// The name of the unit that keeps a project's environment running.
pub open spec fn unit_name(project_id: Seq<char>, environment: Seq<char>) -> Seq<char> {
    "statix-project-"@ + bundle::segment(project_id) + "-"@ + bundle::segment(environment)
        + ".service"@
}

/// The unit that keeps a project's environment running: it runs a command, in the place of the
/// project's files, and starts it again when it ends.
pub open spec fn unit_text(
    project_id: Seq<char>,
    environment: Seq<char>,
    command: Seq<Seq<char>>,
) -> Seq<char> {
    "[Unit]\nDescription=Statix project "@ + project_id + " ("@ + environment
        + ")\nAfter=network-online.target\nWants=network-online.target\n\n[Service]\nType=simple\nUser=statix\nWorkingDirectory=/home/statix/docker\nEnvironment=HOME=/home/statix\nExecStart=/bin/bash -lc "@
        + shell::escape(shell::command_text(command))
        + "\nRestart=always\nRestartSec=5\n\n[Install]\nWantedBy=multi-user.target\n"@
}

/// The command that installs and starts a unit.
pub open spec fn install_command(unit: Seq<char>, text: Seq<char>) -> Seq<Seq<char>> {
    let name = shell::escape(unit);
    seq![
        "bash"@,
        "-lc"@,
        "printf %s "@ + shell::escape(text) + " | sudo tee /etc/systemd/system/"@ + name
            + " >/dev/null && sudo systemctl daemon-reload && sudo systemctl enable --now "@ + name
            + " && sudo systemctl restart "@ + name,
    ]
}

/// The command that keeps a project's environment running.
pub fn project_systemd_command(project_id: &str, environment: &str, command: &Vec<String>) -> (r:
    Vec<String>)
    ensures
        chars::texts(r@) == install_command(
            unit_name(project_id@, environment@),
            unit_text(project_id@, environment@, chars::texts(command@)),
        ),
{
    let mut unit = chars::cat3("statix-project-", &bundle::safe_path_segment(project_id), "-");
    unit.append(&bundle::safe_path_segment(environment));
    unit.append(".service");
    let mut text = chars::cat3("[Unit]\nDescription=Statix project ", project_id, " (");
    text.append(environment);
    text.append(
        ")\nAfter=network-online.target\nWants=network-online.target\n\n[Service]\nType=simple\nUser=statix\nWorkingDirectory=/home/statix/docker\nEnvironment=HOME=/home/statix\nExecStart=/bin/bash -lc ",
    );
    text.append(&shell::shell_escape(&shell::shell_join(command)));
    text.append("\nRestart=always\nRestartSec=5\n\n[Install]\nWantedBy=multi-user.target\n");
    let name = shell::shell_escape(&unit);
    let mut script = chars::cat3(
        "printf %s ",
        &shell::shell_escape(&text),
        " | sudo tee /etc/systemd/system/",
    );
    script.append(&name);
    script.append(" >/dev/null && sudo systemctl daemon-reload && sudo systemctl enable --now ");
    script.append(&name);
    script.append(" && sudo systemctl restart ");
    script.append(&name);
    let mut r = chars::no_texts();
    chars::push_text(&mut r, "bash");
    chars::push_text(&mut r, "-lc");
    chars::push_text(&mut r, &script);
    r
}

/// What is run where a deployment names no command.
pub const DEFAULT_SCRIPT: &'static str =
    "if [ -x ./statix/deploy.sh ]; then exec ./statix/deploy.sh; else echo 'deployment command is required' >&2; exit 2; fi";

/// The command of a deployment.
pub open spec fn deploy_command(command: Seq<Seq<char>>) -> Seq<Seq<char>> {
    if command.len() == 0 {
        seq!["bash"@, "-lc"@, DEFAULT_SCRIPT@]
    } else {
        command
    }
}

/// The command of a deployment.
fn command_of(command: &Vec<String>) -> (r: Vec<String>)
    ensures
        chars::texts(r@) == deploy_command(chars::texts(command@)),
{
    proof {
        assert(chars::texts(command@).len() == command@.len());
    }
    if command.len() == 0 {
        let mut r = chars::no_texts();
        chars::push_text(&mut r, "bash");
        chars::push_text(&mut r, "-lc");
        chars::push_text(&mut r, DEFAULT_SCRIPT);
        r
    } else {
        chars::copy_texts(command)
    }
}

/// The variables at the beginning of a deployment: those that the job sets, and what tells the
/// deployment and its environment.
pub open spec fn first_variables(job: DeployJob) -> Map<Seq<char>, String> {
    job.env.map().insert("STATIX_DEPLOYMENT_ID"@, job.deployment_id).insert(
        "STATIX_DEPLOYMENT_ENVIRONMENT"@,
        job.environment,
    )
}

/// The variables after setup steps: each step sets its own for what follows it.
pub open spec fn variables_after(start: Map<Seq<char>, String>, setup: Seq<DeploymentSetup>) -> Map<
    Seq<char>,
    String,
>
    decreases setup.len(),
{
    if setup.len() == 0 {
        start
    } else {
        variables_after(start, setup.drop_last()).union_prefer_right(setup.last().exports.map())
    }
}

/// What a deployment does next.
pub enum DeployAction {
    /// It runs the command of a setup step.
    Setup(Vec<String>),
    /// It runs its own command.
    Deploy(Vec<String>),
    /// It has ended.
    End(Result<JobExecutionResult, Failure>),
}

/// A deployment under way: the number of setup steps that are done, and the variables that are
/// set.
pub struct Deployment {
    pub done: usize,
    pub variables: StringMap<String>,
}

/// A deployment under way has done steps of the job, and has set the variables of these.
pub open spec fn under_way(deployment: Deployment, job: DeployJob) -> bool {
    &&& deployment.done <= job.setup@.len()
    &&& deployment.variables.map() == variables_after(
        first_variables(job),
        job.setup@.take(deployment.done as int),
    )
}

/// What a deployment does next: its setup steps in their order, then its command, unless it is a
/// dry run. A step without a command ends it.
pub open spec fn acts(deployment: Deployment, job: DeployJob, r: DeployAction) -> bool {
    if deployment.done < job.setup@.len() {
        let step = job.setup@[deployment.done as int];
        if step.run@.len() == 0 {
            &&& r matches DeployAction::End(Err(failure))
            &&& failure.texts() == seq![
                "deployment setup `"@ + step.name@ + "` command must not be empty"@,
            ]
        } else {
            &&& r matches DeployAction::Setup(command)
            &&& chars::texts(command@) == with_variables(
                chars::texts(step.run@),
                deployment.variables.pairs(),
            )
        }
    } else if job.dry_run {
        &&& r matches DeployAction::End(Ok(result))
        &&& result.status@ == "succeeded"@
        &&& chars::opt_text(result.message) == Some("deployment dry run completed"@)
    } else {
        &&& r matches DeployAction::Deploy(command)
        &&& chars::texts(command@) == install_command(
            unit_name(job.project_id@, job.environment@),
            unit_text(
                job.project_id@,
                job.environment@,
                with_variables(
                    deploy_command(chars::texts(job.command@)),
                    deployment.variables.pairs(),
                ),
            ),
        )
    }
}

impl Deployment {
    /// A deployment that begins.
    pub fn new(job: &DeployJob) -> (r: Self)
        ensures
            r.done == 0,
            under_way(r, *job),
    {
        let mut variables = job.env.copy();
        variables.insert("STATIX_DEPLOYMENT_ID".to_owned(), job.deployment_id.clone());
        variables.insert("STATIX_DEPLOYMENT_ENVIRONMENT".to_owned(), job.environment.clone());
        proof {
            assert(job.setup@.take(0) =~= seq![]);
        }
        Deployment { done: 0, variables }
    }

    /// Decides what a deployment does next: its setup steps in their order, then its command,
    /// unless it is a dry run. A step without a command ends it.
    pub fn next(&self, job: &DeployJob) -> (r: DeployAction)
        ensures
            acts(*self, *job, r),
    {
        if self.done < job.setup.len() {
            let step = &job.setup[self.done];
            if step.run.len() == 0 {
                return DeployAction::End(
                    Err(
                        Failure::new(
                            chars::cat3(
                                "deployment setup `",
                                &step.name,
                                "` command must not be empty",
                            ),
                        ),
                    ),
                );
            }
            return DeployAction::Setup(env_command(&step.run, &self.variables));
        }
        if job.dry_run {
            return DeployAction::End(
                Ok(
                    JobExecutionResult {
                        status: "succeeded",
                        message: Some("deployment dry run completed".to_owned()),
                    },
                ),
            );
        }
        let command = env_command(&command_of(&job.command), &self.variables);
        DeployAction::Deploy(project_systemd_command(&job.project_id, &job.environment, &command))
    }

    /// Takes in that the command of a setup step ended, in whatever way, or that it could not be
    /// run, which ends the deployment.
    pub fn after_setup(&mut self, job: &DeployJob, ran: Result<(), Failure>) -> (r: Result<
        (),
        Failure,
    >)
        requires
            under_way(*old(self), *job),
            old(self).done < job.setup@.len(),
        ensures
            match ran {
                Ok(()) => {
                    &&& r is Ok
                    &&& final(self).done == old(self).done + 1
                    &&& under_way(*final(self), *job)
                },
                Err(cause) => {
                    &&& r matches Err(failure)
                    &&& failure.texts() == seq![
                        "deployment setup `"@ + job.setup@[old(self).done as int].name@
                            + "` failed"@,
                    ] + cause.texts()
                    &&& *final(self) == *old(self)
                },
            },
    {
        match ran {
            Ok(()) => {
                let ghost n = self.done as int;
                let count: usize = job.setup.len();
                assert(self.done < count);
                self.variables.extend(&job.setup[self.done].exports);
                self.done = self.done + 1;
                proof {
                    assert(job.setup@.take(n + 1).drop_last() =~= job.setup@.take(n));
                    assert(job.setup@.take(n + 1).last() == job.setup@[n]);
                }
                Ok(())
            },
            Err(cause) => Err(
                cause.context(
                    chars::cat3("deployment setup `", &job.setup[self.done].name, "` failed"),
                ),
            ),
        }
    }
}

/// Where the commands of a deployment run, and under which names: in the machine of the project's
/// environment, as the deployment and the job unless the job asks for other names.
pub fn deploy_target(config: &AgentConfig, job_id: &str, job: &DeployJob) -> (r: (
    RunnerEnvironment,
    ExecutionContext,
))
    ensures
        ({
            let choice = test_job::machine(*config, test_job::asked(job.execution));
            &&& r.0 matches RunnerEnvironment::ProjectMicrovm {
                project_id,
                environment,
                image,
                cpu,
                memory_mb,
            }
            &&& project_id == job.project_id && environment == job.environment
            &&& image@ == choice.image && cpu == choice.cpu && memory_mb == choice.memory_mb
        }),
        test_job::context_of(
            job.execution,
            job.deployment_id@,
            job_id@,
            job.timeout_seconds,
            r.1,
        ),
{
    let (image, cpu, memory_mb) = test_job::choose_machine(config, &job.execution);
    (
        RunnerEnvironment::ProjectMicrovm {
            project_id: job.project_id.clone(),
            environment: job.environment.clone(),
            image,
            cpu,
            memory_mb,
        },
        test_job::execution_context(
            &job.execution,
            &job.deployment_id,
            job_id,
            job.timeout_seconds,
        ),
    )
}

/// At the beginning the variables tell the deployment and its environment, whatever the job sets.
pub proof fn deployment_is_told(job: DeployJob)
    ensures
        first_variables(job).contains_key("STATIX_DEPLOYMENT_ID"@),
        first_variables(job)["STATIX_DEPLOYMENT_ID"@] == job.deployment_id,
        first_variables(job).contains_key("STATIX_DEPLOYMENT_ENVIRONMENT"@),
        first_variables(job)["STATIX_DEPLOYMENT_ENVIRONMENT"@] == job.environment,
{
    reveal_strlit("STATIX_DEPLOYMENT_ID");
    reveal_strlit("STATIX_DEPLOYMENT_ENVIRONMENT");
    assert("STATIX_DEPLOYMENT_ID"@.len() != "STATIX_DEPLOYMENT_ENVIRONMENT"@.len());
}

/// A variable that setup steps set has the value that the last of them gives it.
pub proof fn last_export_counts(
    start: Map<Seq<char>, String>,
    setup: Seq<DeploymentSetup>,
    name: Seq<char>,
    i: int,
)
    requires
        0 <= i < setup.len(),
        setup[i].exports.map().contains_key(name),
        forall|j: int| i < j < setup.len() ==> !(#[trigger] setup[j]).exports.map().contains_key(
            name,
        ),
    ensures
        variables_after(start, setup).contains_key(name),
        variables_after(start, setup)[name] == setup[i].exports.map()[name],
    decreases setup.len(),
{
    if i < setup.len() - 1 {
        let before = setup.drop_last();
        assert(before[i] == setup[i]);
        assert forall|j: int| i < j < before.len() implies !(
        #[trigger] before[j]).exports.map().contains_key(name) by {
            assert(before[j] == setup[j]);
        }
        last_export_counts(start, before, name, i);
        assert(!setup[setup.len() - 1].exports.map().contains_key(name));
    }
}

/// A variable that no setup step sets keeps its value.
pub proof fn other_variables_stay(
    start: Map<Seq<char>, String>,
    setup: Seq<DeploymentSetup>,
    name: Seq<char>,
)
    requires
        forall|j: int| 0 <= j < setup.len() ==> !(#[trigger] setup[j]).exports.map().contains_key(
            name,
        ),
    ensures
        variables_after(start, setup).contains_key(name) <==> start.contains_key(name),
        start.contains_key(name) ==> variables_after(start, setup)[name] == start[name],
    decreases setup.len(),
{
    if setup.len() > 0 {
        let before = setup.drop_last();
        assert forall|j: int| 0 <= j < before.len() implies !(
        #[trigger] before[j]).exports.map().contains_key(name) by {
            assert(before[j] == setup[j]);
        }
        other_variables_stay(start, before, name);
        assert(!setup[setup.len() - 1].exports.map().contains_key(name));
    }
}

} // verus!
