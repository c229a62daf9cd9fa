//! Running the tests of a project, and what all jobs have in common.

use crate::agent::{JobEnvironment, JobExecutionConfig, TestJob};
use crate::config::AgentConfig;
use crate::jobs::shell;
use crate::jobs::{ExecutionContext, RunnerEnvironment};
use crate::text::chars;
use vstd::prelude::*;

verus! {

/// The size of a job's machine: what the job asks for, else what the agent is configured with.
///
/// The image is kept and told as it was asked for. It is not what the machine boots: all machines
/// boot the image that `jobs::microvm::image::boot_image` finds in the environment.
pub struct MachineChoice {
    pub image: Seq<char>,
    pub cpu: Option<u8>,
    pub memory_mb: Option<u32>,
}

/// The environment that a job asks for.
pub open spec fn asked(execution: Option<JobExecutionConfig>) -> Option<JobEnvironment> {
    match execution {
        Some(e) => e.environment,
        None => None,
    }
}

/// The machine that a job gets.
pub open spec fn machine(config: AgentConfig, asked: Option<JobEnvironment>) -> MachineChoice {
    match asked {
        Some(JobEnvironment::Microvm { image, cpu, memory_mb }) => MachineChoice {
            image: match image {
                Some(image) => image@,
                None => config.microvm_default_image@,
            },
            cpu: match cpu {
                Some(cpu) => Some(cpu),
                None => Some(config.microvm_default_cpu),
            },
            memory_mb: match memory_mb {
                Some(memory_mb) => Some(memory_mb),
                None => Some(config.microvm_default_memory_mb),
            },
        },
        None => MachineChoice {
            image: config.microvm_default_image@,
            cpu: Some(config.microvm_default_cpu),
            memory_mb: Some(config.microvm_default_memory_mb),
        },
    }
}

/// The machine that a job gets: its image, its processors and its memory.
///
/// The processors and the memory are those of the machine that is started. The image is only kept
/// beside them: what is booted is the image of the environment, whatever a job names.
pub fn choose_machine(config: &AgentConfig, execution: &Option<JobExecutionConfig>) -> (r: (
    String,
    Option<u8>,
    Option<u32>,
))
    ensures
        ({
            let choice = machine(*config, asked(*execution));
            r.0@ == choice.image && r.1 == choice.cpu && r.2 == choice.memory_mb
        }),
{
    let environment: Option<&JobEnvironment> = match execution {
        Some(e) => match &e.environment {
            Some(environment) => Some(environment),
            None => None,
        },
        None => None,
    };
    match environment {
        Some(JobEnvironment::Microvm { image, cpu, memory_mb }) => {
            let image = match image {
                Some(image) => image.clone(),
                None => config.microvm_default_image.clone(),
            };
            let cpu: Option<u8> = match cpu {
                Some(cpu) => Some(*cpu),
                None => Some(config.microvm_default_cpu),
            };
            let memory_mb: Option<u32> = match memory_mb {
                Some(memory_mb) => Some(*memory_mb),
                None => Some(config.microvm_default_memory_mb),
            };
            (image, cpu, memory_mb)
        },
        None => (
            config.microvm_default_image.clone(),
            Some(config.microvm_default_cpu),
            Some(config.microvm_default_memory_mb),
        ),
    }
}

/// The time limit of a job that names none, in seconds.
pub const DEFAULT_TIMEOUT_SECONDS: u64 = 1800;

/// The job that a command is run for, under the names that the job asks for, else under those it
/// has.
pub open spec fn context_of(
    execution: Option<JobExecutionConfig>,
    job_id: Seq<char>,
    attempt_id: Seq<char>,
    timeout_seconds: Option<u64>,
    context: ExecutionContext,
) -> bool {
    &&& context.job_id@ == (match execution {
        Some(e) => match e.job_id {
            Some(id) => id@,
            None => job_id,
        },
        None => job_id,
    })
    &&& context.attempt_id@ == (match execution {
        Some(e) => match e.attempt_id {
            Some(id) => id@,
            None => attempt_id,
        },
        None => attempt_id,
    })
    &&& context.timeout_seconds == (match timeout_seconds {
        Some(seconds) => seconds,
        None => DEFAULT_TIMEOUT_SECONDS,
    })
}

/// The job that a command is run for.
pub fn execution_context(
    execution: &Option<JobExecutionConfig>,
    job_id: &str,
    attempt_id: &str,
    timeout_seconds: Option<u64>,
) -> (r: ExecutionContext)
    ensures
        context_of(*execution, job_id@, attempt_id@, timeout_seconds, r),
{
    let (asked_job, asked_attempt) = match execution {
        Some(e) => (chars::copy_opt(&e.job_id), chars::copy_opt(&e.attempt_id)),
        None => (None, None),
    };
    ExecutionContext {
        job_id: match asked_job {
            Some(id) => id,
            None => job_id.to_owned(),
        },
        attempt_id: match asked_attempt {
            Some(id) => id,
            None => attempt_id.to_owned(),
        },
        timeout_seconds: match timeout_seconds {
            Some(seconds) => seconds,
            None => DEFAULT_TIMEOUT_SECONDS,
        },
    }
}

/// What a shell runs before the tests: it takes up the toolchain of the user, where there is one.
pub const TOOLCHAIN: &'static str =
    "if [ -f \"$HOME/.cargo/env\" ]; then . \"$HOME/.cargo/env\"; fi; exec ";

/// The command that runs the tests of a project.
pub open spec fn test_command(args: Seq<Seq<char>>) -> Seq<Seq<char>> {
    seq![
        "bash"@,
        "-lc"@,
        TOOLCHAIN@ + shell::command_text(seq!["cargo"@, "test"@] + args),
    ]
}

/// The command that runs the tests of a project.
pub fn cargo_test_command(args: &Vec<String>) -> (r: Vec<String>)
    ensures
        chars::texts(r@) == test_command(chars::texts(args@)),
{
    let mut cargo = chars::no_texts();
    chars::push_text(&mut cargo, "cargo");
    chars::push_text(&mut cargo, "test");
    chars::push_texts(&mut cargo, args);
    proof {
        assert(chars::texts(cargo@) =~= seq!["cargo"@, "test"@] + chars::texts(args@));
    }
    let mut command = chars::no_texts();
    chars::push_text(&mut command, "bash");
    chars::push_text(&mut command, "-lc");
    chars::push_text(&mut command, &chars::cat(TOOLCHAIN, &shell::shell_join(&cargo)));
    command
}

/// Checks that a job asks for tests that the agent can run.
pub fn check_preset(job: &TestJob) -> (r: Result<(), String>)
    ensures
        match r {
            Ok(()) => job.preset@ == "cargo_test"@,
            Err(message) => job.preset@ != "cargo_test"@ && message@
                == "unsupported test preset: "@ + job.preset@,
        },
{
    if chars::same(&job.preset, "cargo_test") {
        Ok(())
    } else {
        Err(chars::cat("unsupported test preset: ", &job.preset))
    }
}

/// What is run for a job, where, and under which names.
#[derive(Debug)]
pub struct PlannedRun {
    pub environment: RunnerEnvironment,
    pub context: ExecutionContext,
    pub command: Vec<String>,
}

/// A run is that of a project's tests, in a machine of its own.
pub open spec fn runs_tests(
    run: PlannedRun,
    config: AgentConfig,
    job_id: Seq<char>,
    job: TestJob,
) -> bool {
    let choice = machine(config, asked(job.execution));
    &&& run.environment matches RunnerEnvironment::Microvm { image, cpu, memory_mb }
    &&& image@ == choice.image && cpu == choice.cpu && memory_mb == choice.memory_mb
    &&& context_of(job.execution, job_id, job_id, job.timeout_seconds, run.context)
    &&& chars::texts(run.command@) == test_command(chars::texts(job.args@))
}

/// Plans the run of a project's tests, in a machine of its own.
pub fn plan_test(config: &AgentConfig, job_id: &str, job: &TestJob) -> (r: PlannedRun)
    ensures
        runs_tests(r, *config, job_id@, *job),
{
    let (image, cpu, memory_mb) = choose_machine(config, &job.execution);
    PlannedRun {
        environment: RunnerEnvironment::Microvm { image, cpu, memory_mb },
        context: execution_context(&job.execution, job_id, job_id, job.timeout_seconds),
        command: cargo_test_command(&job.args),
    }
}

/// Plans the run of a project's tests where the agent can run what the job asks for, and says so
/// where it cannot.
pub fn plan_checked_test(config: &AgentConfig, job_id: &str, job: &TestJob) -> (r: Result<
    PlannedRun,
    String,
>)
    ensures
        match r {
            Ok(run) => job.preset@ == "cargo_test"@ && runs_tests(run, *config, job_id@, *job),
            Err(message) => job.preset@ != "cargo_test"@ && message@
                == "unsupported test preset: "@ + job.preset@,
        },
{
    match check_preset(job) {
        Ok(()) => Ok(plan_test(config, job_id, job)),
        Err(message) => Err(message),
    }
}

} // verus!
