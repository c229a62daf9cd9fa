//! What the node tells of itself.

use crate::bytes;
use crate::digest;
use crate::text::{chars, trim};
use crate::wireguard::WireGuardStatus;
use vstd::prelude::*;
use vstd::utf8::{decode_utf8, valid_utf8};

pub mod gpu;
pub mod laws;
pub mod mac;
pub mod version;

verus! {

/// What the node publishes of itself, with a hash by which a change is seen.
#[derive(Debug)]
pub struct SystemInfoPayload {
    pub v: u8,
    pub ts: u64,
    pub hash: String,
    pub info: SystemInfo,
}

/// What the node is.
#[derive(Debug)]
pub struct SystemInfo {
    pub os_platform: String,
    pub os_release: String,
    pub os_arch: String,
    pub hostname: String,
    pub cpu_model: String,
    pub cpu_cores: u32,
    pub mem_total: u64,
    pub agent_version: Option<String>,
    pub agent_commit: Option<String>,
    pub agent_built_at: Option<String>,
    pub wireguard: Option<WireGuardStatus>,
    pub gpus: Vec<GpuInfo>,
}

/// A graphics processor.
#[derive(Debug)]
pub struct GpuInfo {
    pub name: String,
    pub vendor: Option<String>,
    pub memory_bytes: Option<u64>,
    pub driver_version: Option<String>,
}

/// The version of the agent.
#[derive(Debug, Clone)]
pub struct VersionMetadata {
    pub version: String,
    pub commit: Option<String>,
    pub built_at: Option<String>,
}

/// What the system tells of the node.
pub struct SystemFacts {
    pub os_platform: String,
    pub kernel_version: Option<String>,
    pub os_arch: String,
    pub host_name: Option<String>,
    /// What the first processor is, where there is one.
    pub cpu_brand: Option<String>,
    pub cpu_count: usize,
    pub total_memory: u64,
}

/// A text, else that it is not known.
pub open spec fn or_unknown(text: Option<Seq<char>>) -> Seq<char> {
    match text {
        Some(t) => t,
        None => "unknown"@,
    }
}

/// What a processor is, without the blanks around it.
pub open spec fn model(brand: Option<Seq<char>>) -> Seq<char> {
    match brand {
        Some(text) => if trim::trim(text).len() > 0 {
            trim::trim(text)
        } else {
            "unknown"@
        },
        None => "unknown"@,
    }
}

/// A text, else that it is not known.
fn text_or_unknown(text: Option<String>) -> (r: String)
    ensures
        r@ == or_unknown(chars::opt_text(text)),
{
    match text {
        Some(text) => text,
        None => "unknown".to_owned(),
    }
}

/// This is what the node is. A node has at least one processor and one byte of memory.
pub open spec fn describes(
    facts: SystemFacts,
    version: Option<VersionMetadata>,
    wireguard: Option<WireGuardStatus>,
    gpus: Vec<GpuInfo>,
    r: SystemInfo,
) -> bool {
    &&& r.os_platform == facts.os_platform
    &&& r.os_release@ == or_unknown(chars::opt_text(facts.kernel_version))
    &&& r.os_arch == facts.os_arch
    &&& r.hostname@ == or_unknown(chars::opt_text(facts.host_name))
    &&& r.cpu_model@ == model(chars::opt_text(facts.cpu_brand))
    &&& r.cpu_cores == (if facts.cpu_count == 0 {
        1
    } else {
        facts.cpu_count as nat % 0x1_0000_0000
    })
    &&& r.mem_total == (if facts.total_memory == 0 {
        1
    } else {
        facts.total_memory
    })
    &&& (match version {
        Some(v) => r.agent_version == Some(v.version) && r.agent_commit == v.commit
            && r.agent_built_at == v.built_at,
        None => r.agent_version is None && r.agent_commit is None && r.agent_built_at is None,
    })
    &&& r.wireguard == wireguard
    &&& r.gpus == gpus
}

/// Puts together what the node is. A node has at least one processor and one byte of memory.
pub fn system_info(
    facts: SystemFacts,
    version: Option<VersionMetadata>,
    wireguard: Option<WireGuardStatus>,
    gpus: Vec<GpuInfo>,
) -> (r: SystemInfo)
    ensures
        describes(facts, version, wireguard, gpus, r),
{
    let cpu_model = match &facts.cpu_brand {
        Some(brand) => {
            let brand = trim::trimmed(brand);
            if brand.as_str().is_empty() {
                "unknown".to_owned()
            } else {
                brand
            }
        },
        None => "unknown".to_owned(),
    };
    let (agent_version, agent_commit, agent_built_at) = match version {
        Some(v) => (Some(v.version), v.commit, v.built_at),
        None => (None, None, None),
    };
    let cpu_cores: u32 = if facts.cpu_count == 0 {
        1
    } else {
        (facts.cpu_count as u64 % 0x1_0000_0000) as u32
    };
    SystemInfo {
        os_platform: facts.os_platform,
        os_release: text_or_unknown(facts.kernel_version),
        os_arch: facts.os_arch,
        hostname: text_or_unknown(facts.host_name),
        cpu_model,
        cpu_cores,
        mem_total: if facts.total_memory == 0 {
            1
        } else {
            facts.total_memory
        },
        agent_version,
        agent_commit,
        agent_built_at,
        wireguard,
        gpus,
    }
}

/// The hash by which a change of what the node is is seen, over that in the form in which it is
/// published.
pub fn create_info_hash(serialized: &[u8]) -> (r: String)
    ensures
        r@ == digest::hex_text(digest::sha256(serialized@)),
{
    digest::sha256_hex(serialized)
}

/// Puts together what the node publishes of itself; `serialized` is what it is in the form in
/// which it is published.
pub fn collect_system_info(ts: u64, info: SystemInfo, serialized: &[u8]) -> (r: SystemInfoPayload)
    ensures
        r.v == 1,
        r.ts == ts,
        r.hash@ == digest::hex_text(digest::sha256(serialized@)),
        r.info == info,
{
    SystemInfoPayload { v: 1, ts, hash: create_info_hash(serialized), info }
}

/// What a tool that describes the node gave, without the blanks around it.
pub open spec fn tool_text(success: bool, stdout: Seq<u8>) -> Option<Seq<char>> {
    if success && valid_utf8(stdout) && trim::trim(decode_utf8(stdout)).len() > 0 {
        Some(trim::trim(decode_utf8(stdout)))
    } else {
        None
    }
}

/// What a tool that describes the node gave, where it ended well and gave a text.
pub fn tool_output(success: bool, stdout: &[u8]) -> (r: Option<String>)
    ensures
        chars::opt_text(r) == tool_text(success, stdout@),
{
    if !success {
        return None;
    }
    match bytes::exact_text(stdout) {
        Ok(text) => {
            let trimmed = trim::trimmed(&text);
            if trimmed.as_str().is_empty() {
                None
            } else {
                Some(trimmed)
            }
        },
        Err(_) => None,
    }
}

} // verus!
