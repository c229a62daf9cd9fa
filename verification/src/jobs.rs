//! The jobs that the agent runs, and the environments that it runs them in.

use crate::jobs::container::ContainerRunner;
use crate::jobs::microvm::{MicrovmRunner, ProjectMicrovmRunner};
use crate::string_map::StringMap;
use crate::text::{chars, trim};
use vstd::prelude::*;

pub mod archive;
pub mod container;
pub mod host;
pub mod laws;
pub mod microvm;
pub mod output;
pub mod shell;

verus! {

/// Where a command runs.
#[derive(Debug, Clone)]
pub enum RunnerEnvironment {
    /// In a virtual machine of its own.
    Microvm { image: String, cpu: Option<u8>, memory_mb: Option<u32> },
    /// In the virtual machine of a project's environment.
    ProjectMicrovm {
        project_id: String,
        environment: String,
        image: String,
        cpu: Option<u8>,
        memory_mb: Option<u32>,
    },
    /// In a system container.
    Container { image: String, cpu: Option<u8>, memory_mb: Option<u32> },
}

impl RunnerEnvironment {
    /// How the agent's diagnostics name the kind of environment.
    pub open spec fn label(self) -> Seq<char> {
        match self {
            RunnerEnvironment::Microvm { .. } => "microvm"@,
            RunnerEnvironment::ProjectMicrovm { .. } => "project microvm"@,
            RunnerEnvironment::Container { .. } => "container"@,
        }
    }
}

/// Names an environment's kind, for diagnostics.
pub fn runner_environment_label(environment: &RunnerEnvironment) -> (r: &'static str)
    ensures
        r@ == environment.label(),
{
    match environment {
        RunnerEnvironment::Microvm { .. } => "microvm",
        RunnerEnvironment::ProjectMicrovm { .. } => "project microvm",
        RunnerEnvironment::Container { .. } => "container",
    }
}

/// Why a command cannot be run.
#[derive(Debug)]
pub enum CommandError {
    /// There is no first token, or it is blank.
    Empty,
    /// The environment holds a name that no shell accepts.
    InvalidName(String),
}

impl CommandError {
    /// What the error says.
    pub open spec fn text(self) -> Seq<char> {
        match self {
            CommandError::Empty => "command must contain at least one non-empty token"@,
            CommandError::InvalidName(name) => "invalid environment variable name: "@ + name@,
        }
    }

    /// What the error says.
    pub fn message(&self) -> (r: String)
        ensures
            r@ == self.text(),
    {
        match self {
            CommandError::Empty => "command must contain at least one non-empty token".to_owned(),
            CommandError::InvalidName(name) => chars::cat(
                "invalid environment variable name: ",
                name,
            ),
        }
    }
}

/// A command begins with a token that is not blank.
pub open spec fn has_token(argv: Seq<Seq<char>>) -> bool {
    argv.len() > 0 && trim::trim(argv[0]).len() > 0
}

/// The first of the keys that is no variable name.
pub open spec fn first_invalid<V>(pairs: Seq<(Seq<char>, V)>) -> Option<Seq<char>>
    decreases pairs.len(),
{
    if pairs.len() == 0 {
        None
    } else {
        match first_invalid(pairs.drop_last()) {
            Some(key) => Some(key),
            None => if shell::variable_name(pairs.last().0) {
                None
            } else {
                Some(pairs.last().0)
            },
        }
    }
}

/// A command, the variables that are set for it, and where it runs.
#[derive(Debug)]
pub struct CommandSpec {
    pub argv: Vec<String>,
    pub env: StringMap<String>,
    pub cwd: Option<String>,
}

/// A command can be run, or why not.
pub open spec fn validated(command: CommandSpec, r: Result<(), CommandError>) -> bool {
    match r {
        Ok(()) => has_token(chars::texts(command.argv@)) && first_invalid(command.env.pairs())
            is None,
        Err(CommandError::Empty) => !has_token(chars::texts(command.argv@)),
        Err(CommandError::InvalidName(name)) => {
            &&& has_token(chars::texts(command.argv@))
            &&& first_invalid(command.env.pairs()) == Some(name@)
        },
    }
}

impl CommandSpec {
    /// A command without variables or a place of its own.
    pub fn new(argv: &[String]) -> (r: Result<Self, CommandError>)
        ensures
            match r {
                Ok(command) => {
                    &&& has_token(chars::texts(argv@))
                    &&& command.argv@ == argv@
                    &&& command.env.pairs().len() == 0
                    &&& command.cwd is None
                },
                Err(error) => error is Empty && !has_token(chars::texts(argv@)),
            },
    {
        if argv.len() == 0 || trim::trimmed(&argv[0]).as_str().is_empty() {
            return Err(CommandError::Empty);
        }
        let mut copy: Vec<String> = Vec::new();
        let mut i: usize = 0;
        while i < argv.len()
            invariant
                i <= argv.len(),
                copy@ == argv@.take(i as int),
            decreases argv.len() - i,
        {
            copy.push(argv[i].clone());
            i += 1;
        }
        proof {
            assert(copy@ =~= argv@);
        }
        Ok(CommandSpec { argv: copy, env: StringMap::new(), cwd: None })
    }

    /// Checks that the command can be run.
    pub fn validate(&self) -> (r: Result<(), CommandError>)
        ensures
            validated(*self, r),
    {
        if self.argv.len() == 0 || trim::trimmed(&self.argv[0]).as_str().is_empty() {
            return Err(CommandError::Empty);
        }
        let ghost pairs = self.env.pairs();
        let count: usize = self.env.len();
        let mut i: usize = 0;
        while i < count
            invariant
                i <= count,
                count == pairs.len(),
                pairs == self.env.pairs(),
                has_token(chars::texts(self.argv@)),
                first_invalid(pairs.take(i as int)) is None,
            decreases count - i,
        {
            proof {
                assert(pairs.take(i + 1).drop_last() =~= pairs.take(i as int));
            }
            let key = self.env.key(i);
            if !shell::is_variable_name(key) {
                proof {
                    lemma_first_invalid(pairs, i + 1);
                }
                return Err(CommandError::InvalidName(key.clone()));
            }
            i += 1;
        }
        proof {
            assert(pairs.take(i as int) =~= pairs);
        }
        Ok(())
    }
}

/// An invalid key among the first pairs is the first one of all.
proof fn lemma_first_invalid<V>(pairs: Seq<(Seq<char>, V)>, i: int)
    requires
        0 <= i <= pairs.len(),
        first_invalid(pairs.take(i)) is Some,
    ensures
        first_invalid(pairs) == first_invalid(pairs.take(i)),
    decreases pairs.len(),
{
    if i == pairs.len() {
        assert(pairs.take(i) =~= pairs);
    } else {
        assert(pairs.drop_last().take(i) =~= pairs.take(i));
        lemma_first_invalid(pairs.drop_last(), i);
    }
}

/// A valid command has only names that a shell accepts.
pub proof fn valid_names_are_variables<V>(pairs: Seq<(Seq<char>, V)>, i: int)
    requires
        first_invalid(pairs) is None,
        0 <= i < pairs.len(),
    ensures
        shell::variable_name(pairs[i].0),
    decreases pairs.len(),
{
    if i < pairs.len() - 1 {
        valid_names_are_variables(pairs.drop_last(), i);
        assert(pairs.drop_last()[i] == pairs[i]);
    }
}

/// The job that a command runs for.
#[derive(Debug, Clone)]
pub struct ExecutionContext {
    pub job_id: String,
    pub attempt_id: String,
    pub timeout_seconds: u64,
}

impl ExecutionContext {
    /// A line of the job's output, as it is handed to the server.
    pub fn log_line(&self, stream: JobLogStream, line: String) -> (r: JobLogLine)
        ensures
            r == (JobLogLine { job_id: self.job_id, attempt_id: self.attempt_id, stream, line }),
    {
        JobLogLine {
            job_id: self.job_id.clone(),
            attempt_id: self.attempt_id.clone(),
            stream,
            line,
        }
    }
}

/// A line of a job's output.
#[derive(Debug, Clone)]
pub struct JobLogLine {
    pub job_id: String,
    pub attempt_id: String,
    pub stream: JobLogStream,
    pub line: String,
}

/// The streams of a command's output.
#[derive(Debug, Clone, Copy, PartialEq, Eq, Structural)]
pub enum JobLogStream {
    Stdout,
    Stderr,
}

impl JobLogStream {
    /// The name of the stream.
    pub open spec fn name(self) -> Seq<char> {
        match self {
            JobLogStream::Stdout => "stdout"@,
            JobLogStream::Stderr => "stderr"@,
        }
    }

    /// The name of the stream.
    pub fn as_str(self) -> (r: &'static str)
        ensures
            r@ == self.name(),
    {
        match self {
            JobLogStream::Stdout => "stdout",
            JobLogStream::Stderr => "stderr",
        }
    }
}

/// The directory that holds a job's files.
#[derive(Debug, Clone)]
pub struct PreparedWorkspace {
    pub workdir: String,
}

/// How a job ended.
#[derive(Debug)]
pub struct JobExecutionResult {
    pub status: &'static str,
    pub message: Option<String>,
}

/// Why a runner does not start a command.
#[derive(Debug, Clone, Copy, PartialEq, Eq, Structural)]
pub enum RunError {
    Timeout,
    NoCommand,
}

impl RunError {
    /// What the error says.
    pub open spec fn text(self) -> Seq<char> {
        match self {
            RunError::Timeout => "run timeoutSeconds must be between 1 and 3600"@,
            RunError::NoCommand => "run command must contain at least one token"@,
        }
    }

    /// What the error says.
    pub fn message(&self) -> (r: &'static str)
        ensures
            r@ == self.text(),
    {
        match self {
            RunError::Timeout => "run timeoutSeconds must be between 1 and 3600",
            RunError::NoCommand => "run command must contain at least one token",
        }
    }
}

/// A runner asks of a command a time limit of at most an hour, and a token.
pub open spec fn run_checked(
    timeout_seconds: u64,
    command: Seq<String>,
    r: Result<(), RunError>,
) -> bool {
    r == (if !(1 <= timeout_seconds <= 3600) {
        Err(RunError::Timeout)
    } else if command.len() == 0 {
        Err(RunError::NoCommand)
    } else {
        Ok::<(), RunError>(())
    })
}

/// Checks what every runner asks of a command: a time limit of at most an hour, and a token.
pub fn check_run(timeout_seconds: u64, command: &Vec<String>) -> (r: Result<(), RunError>)
    ensures
        run_checked(timeout_seconds, command@, r),
{
    if timeout_seconds == 0 || timeout_seconds > 3600 {
        return Err(RunError::Timeout);
    }
    if command.len() == 0 {
        return Err(RunError::NoCommand);
    }
    Ok(())
}

/// A runner for an environment.
pub enum SelectedRunner {
    Microvm(MicrovmRunner),
    ProjectMicrovm(ProjectMicrovmRunner),
    Container(ContainerRunner),
}

/// The runner for an environment.
pub open spec fn runner_of(environment: RunnerEnvironment) -> SelectedRunner {
    match environment {
        RunnerEnvironment::Microvm { image, cpu, memory_mb } => SelectedRunner::Microvm(
            MicrovmRunner { image, cpu, memory_mb },
        ),
        RunnerEnvironment::ProjectMicrovm {
            project_id,
            environment,
            image,
            cpu,
            memory_mb,
        } => SelectedRunner::ProjectMicrovm(
            ProjectMicrovmRunner { project_id, environment, image, cpu, memory_mb },
        ),
        RunnerEnvironment::Container { image, cpu, memory_mb } => SelectedRunner::Container(
            ContainerRunner { image, cpu, memory_mb },
        ),
    }
}

/// Chooses the runner for an environment.
fn select_runner(environment: &RunnerEnvironment) -> (r: SelectedRunner)
    ensures
        r == runner_of(*environment),
{
    match environment {
        RunnerEnvironment::Microvm { image, cpu, memory_mb } => SelectedRunner::Microvm(
            MicrovmRunner::new(image.clone(), *cpu, *memory_mb),
        ),
        RunnerEnvironment::ProjectMicrovm {
            project_id,
            environment,
            image,
            cpu,
            memory_mb,
        } => SelectedRunner::ProjectMicrovm(
            ProjectMicrovmRunner::new(
                project_id.clone(),
                environment.clone(),
                image.clone(),
                *cpu,
                *memory_mb,
            ),
        ),
        RunnerEnvironment::Container { image, cpu, memory_mb } => SelectedRunner::Container(
            ContainerRunner::new(image.clone(), *cpu, *memory_mb),
        ),
    }
}

/// Chooses the runner that runs a command in an environment, once the command is valid.
pub fn execute_spec(environment: &RunnerEnvironment, command: &CommandSpec) -> (r: Result<
    SelectedRunner,
    CommandError,
>)
    ensures
        match r {
            Ok(runner) => {
                &&& has_token(chars::texts(command.argv@))
                &&& first_invalid(command.env.pairs()) is None
                &&& runner == runner_of(*environment)
            },
            Err(CommandError::Empty) => !has_token(chars::texts(command.argv@)),
            Err(CommandError::InvalidName(name)) => {
                &&& has_token(chars::texts(command.argv@))
                &&& first_invalid(command.env.pairs()) == Some(name@)
            },
        },
{
    match command.validate() {
        Ok(()) => Ok(select_runner(environment)),
        Err(error) => Err(error),
    }
}

/// Chooses the runner that runs a command without variables in an environment.
pub fn execute(environment: &RunnerEnvironment, argv: &[String]) -> (r: Result<
    (SelectedRunner, CommandSpec),
    CommandError,
>)
    ensures
        match r {
            Ok((runner, command)) => {
                &&& has_token(chars::texts(argv@))
                &&& runner == runner_of(*environment)
                &&& command.argv@ == argv@
                &&& command.env.pairs().len() == 0
                &&& command.cwd is None
            },
            Err(error) => error is Empty && !has_token(chars::texts(argv@)),
        },
{
    match CommandSpec::new(argv) {
        Ok(command) => match execute_spec(environment, &command) {
            Ok(runner) => Ok((runner, command)),
            Err(error) => Err(error),
        },
        Err(error) => Err(error),
    }
}

} // verus!
