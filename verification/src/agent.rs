//! The work that the server gives to the node, and the session in which it does so.

use crate::string_map::StringMap;
use vstd::prelude::*;

pub mod bundle;
pub mod deploy;
pub mod deploy_laws;
pub mod git;
pub mod job_laws;
pub mod session;
pub mod session_laws;
pub mod test_job;
pub mod update;

verus! {

/// A job that the server gives to the node.
#[derive(Debug)]
pub struct AgentJob {
    pub id: String,
    pub issued_at: u64,
    pub spec: AgentJobSpec,
}

/// The environment that a job asks for.
#[derive(Debug)]
pub enum JobEnvironment {
    Microvm { image: Option<String>, cpu: Option<u8>, memory_mb: Option<u32> },
}

/// How a job is to be run.
#[derive(Debug)]
pub struct JobExecutionConfig {
    pub job_id: Option<String>,
    pub attempt_id: Option<String>,
    pub environment: Option<JobEnvironment>,
}

/// What a job is.
#[derive(Debug)]
pub enum AgentJobSpec {
    /// The agent is to be updated.
    UpdateAgent { target_version: Option<String>, channel: Option<String> },
    /// The tests of a project are to be run.
    RunTest(TestJob),
    /// A project is to be deployed.
    DeployBundle(DeployJob),
}

/// A run of a project's tests.
#[derive(Debug)]
pub struct TestJob {
    pub preset: String,
    pub source: JobSource,
    pub args: Vec<String>,
    pub timeout_seconds: Option<u64>,
    pub execution: Option<JobExecutionConfig>,
}

/// A deployment of a project.
#[derive(Debug)]
pub struct DeployJob {
    pub deployment_id: String,
    pub project_id: String,
    pub environment: String,
    pub dry_run: bool,
    pub bundle: DeploymentBundle,
    pub setup: Vec<DeploymentSetup>,
    pub command: Vec<String>,
    pub env: StringMap<String>,
    pub timeout_seconds: Option<u64>,
    pub execution: Option<JobExecutionConfig>,
}

/// Where the files of a job come from.
#[derive(Debug)]
pub enum JobSource {
    GitCheckout { repo_url: String, git_ref: String, commit_sha: String, subdir: Option<String> },
}

/// The bundle of a project's files.
#[derive(Debug)]
pub struct DeploymentBundle {
    pub download_session_url: String,
    pub sha256: String,
    pub size_bytes: u64,
}

/// A step that prepares a deployment, and the variables that it sets for what follows.
#[derive(Debug)]
pub struct DeploymentSetup {
    pub name: String,
    pub run: Vec<String>,
    pub exports: StringMap<String>,
}

} // verus!
