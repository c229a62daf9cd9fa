//! The logic of the Statix node agent.

pub mod agent;
pub mod bytes;
pub mod cli;
pub mod config;
pub mod dependencies;
pub mod digest;
pub mod enrollment;
pub mod environment;
pub mod failure;
pub mod jobs;
pub mod logs;
pub mod metrics;
pub mod paths;
pub mod string_map;
pub mod system_info;
pub mod text;
pub mod wireguard;
