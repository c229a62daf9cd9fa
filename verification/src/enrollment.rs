//! Logging a node in.

use crate::config::{
    LoginConfig, PersistedAgentConfig, PersistedView, WireGuardConfig, WireGuardPeerConfig,
};
use crate::dependencies;
use crate::system_info::SystemInfo;
use crate::text::{chars, number, split, trim};
use crate::wireguard::WireGuardIdentity;
use vstd::prelude::*;

pub mod flow;
pub mod laws;

verus! {

/// What a login was asked for.
#[derive(Debug, Clone)]
pub struct LoginOptions {
    pub api_base_url: Option<String>,
    pub requested_name: Option<String>,
}

/// The programs that a login cannot do without.
pub open spec fn required() -> Seq<Seq<char>> {
    seq!["wg"@, "ip"@, "tar"@]
}

/// The programs that a login cannot do without.
pub fn required_commands() -> (r: Vec<String>)
    ensures
        chars::texts(r@) == required(),
        r@.len() == 3,
{
    let mut r = chars::no_texts();
    chars::push_text(&mut r, "wg");
    chars::push_text(&mut r, "ip");
    chars::push_text(&mut r, "tar");
    proof {
        assert(chars::texts(r@).len() == r@.len());
    }
    r
}

/// Decides whether a login can begin. `found` tells of each required program whether it was found.
pub fn check_dependencies(found: &Vec<bool>) -> (r: Result<(), String>)
    requires
        found@.len() == 3,
    ensures
        ({
            let missing = dependencies::missing(required(), found@);
            match r {
                Ok(()) => missing.len() == 0,
                Err(message) => missing.len() > 0 && message@
                    == "Missing required dependencies: "@ + split::join(missing, ", "@)
                    + ". Please install them before proceeding."@,
            }
        }),
{
    let missing = dependencies::missing_programs(&required_commands(), found);
    if missing.len() > 0 {
        return Err(
            chars::cat3(
                "Missing required dependencies: ",
                &split::joined(&missing, ", "),
                ". Please install them before proceeding.",
            ),
        );
    }
    Ok(())
}

/// The name that is asked for: the one that was given unless it is blank, else that of the host
/// unless it is blank.
pub open spec fn name_for(given: Option<Seq<char>>, hostname: Seq<char>) -> Option<Seq<char>> {
    match given {
        Some(name) if trim::trim(name).len() > 0 => Some(name),
        _ => if trim::trim(hostname).len() > 0 {
            Some(trim::trim(hostname))
        } else {
            None
        },
    }
}

/// The name that is asked for.
pub fn requested_name(given: Option<&str>, hostname: &str) -> (r: Option<String>)
    ensures
        chars::opt_text(r) == name_for(chars::opt_str(given), hostname@),
{
    if let Some(name) = given {
        if !trim::trimmed(name).as_str().is_empty() {
            return Some(name.to_owned());
        }
    }
    let hostname = trim::trimmed(hostname);
    if hostname.as_str().is_empty() {
        None
    } else {
        Some(hostname)
    }
}

/// What a node tells of itself when it asks to be let in.
#[derive(Debug)]
pub struct EnrollmentStartRequest {
    pub requested_name: Option<String>,
    pub hostname: String,
    pub os_platform: String,
    pub os_arch: String,
    pub agent_version: Option<String>,
    pub mac_addresses: Option<Vec<String>>,
    pub wireguard_public_key: Option<String>,
}

/// A node tells this of itself when it asks to be let in.
pub open spec fn asks(
    options: LoginOptions,
    info: SystemInfo,
    mac_addresses: Vec<String>,
    identity: WireGuardIdentity,
    r: EnrollmentStartRequest,
) -> bool {
    &&& chars::opt_text(r.requested_name) == name_for(
        chars::opt_text(options.requested_name),
        info.hostname@,
    )
    &&& r.hostname == info.hostname
    &&& r.os_platform == info.os_platform
    &&& r.os_arch == info.os_arch
    &&& r.agent_version == info.agent_version
    &&& r.mac_addresses == (if mac_addresses@.len() == 0 {
        None
    } else {
        Some(mac_addresses)
    })
    &&& r.wireguard_public_key == Some(identity.public_key)
}

/// What a node tells of itself when it asks to be let in.
pub fn start_request(
    options: &LoginOptions,
    info: &SystemInfo,
    mac_addresses: Vec<String>,
    identity: &WireGuardIdentity,
) -> (r: EnrollmentStartRequest)
    ensures
        asks(*options, *info, mac_addresses, *identity, r),
{
    EnrollmentStartRequest {
        requested_name: requested_name(chars::opt_ref(&options.requested_name), &info.hostname),
        hostname: info.hostname.clone(),
        os_platform: info.os_platform.clone(),
        os_arch: info.os_arch.clone(),
        agent_version: chars::copy_opt(&info.agent_version),
        mac_addresses: if mac_addresses.len() == 0 {
            None
        } else {
            Some(mac_addresses)
        },
        wireguard_public_key: Some(identity.public_key.clone()),
    }
}

/// The address at which a node asks to be let in.
pub fn start_url(login: &LoginConfig) -> (r: String)
    ensures
        r@ == login.api_base_url@ + "/nodes/enroll/start"@,
{
    chars::cat(&login.api_base_url, "/nodes/enroll/start")
}

/// The address at which a node asks whether it was let in.
pub fn poll_url(login: &LoginConfig) -> (r: String)
    ensures
        r@ == login.api_base_url@ + "/nodes/enroll/poll"@,
{
    chars::cat(&login.api_base_url, "/nodes/enroll/poll")
}

/// The address at which a node tells that it is logged in.
pub fn finish_url(login: &LoginConfig) -> (r: String)
    ensures
        r@ == login.api_base_url@ + "/nodes/enroll/finish"@,
{
    chars::cat(&login.api_base_url, "/nodes/enroll/finish")
}

/// A status by which a server tells success.
pub open spec fn success(status: u16) -> bool {
    200 <= status < 300
}

/// What a server said, else that it is not known.
pub open spec fn said(payload: Seq<char>) -> Seq<char> {
    if payload.len() == 0 {
        "unknown error"@
    } else {
        payload
    }
}

/// What a server said, else that it is not known.
fn said_text(payload: &str) -> (r: String)
    ensures
        r@ == said(payload@),
{
    if payload.is_empty() {
        "unknown error".to_owned()
    } else {
        payload.to_owned()
    }
}

/// A login goes on after the server answered that the node asked to be let in, or says why not.
pub open spec fn start_told(status: u16, payload: Seq<char>, r: Result<(), String>) -> bool {
    match r {
        Ok(()) => success(status),
        Err(message) => !success(status) && message@ == "enrollment start failed ("@
            + number::decimal(status as nat) + "): "@ + said(payload),
    }
}

/// Decides whether a login goes on after the server answered that the node asked to be let in.
pub fn check_start(status: u16, payload: &str) -> (r: Result<(), String>)
    ensures
        start_told(status, payload@, r),
{
    if status >= 200 && status < 300 {
        return Ok(());
    }
    let mut message = chars::cat3(
        "enrollment start failed (",
        &number::decimal_text(status as u64),
        "): ",
    );
    message.append(&said_text(payload));
    Err(message)
}

/// What is told of a login that was begun: where it is approved, with which code, and until when.
pub fn approval_lines(verification_url: &str, user_code: &str, expires_at: &str) -> (r: Vec<String>)
    ensures
        chars::texts(r@) == seq![
            "Open this link in your browser and sign in to approve the node:"@,
            verification_url@,
            "Code: "@ + user_code@,
            "Expires: "@ + expires_at@,
            "Waiting for approval..."@,
        ],
{
    let mut lines = chars::no_texts();
    chars::push_text(
        &mut lines,
        "Open this link in your browser and sign in to approve the node:",
    );
    chars::push_text(&mut lines, verification_url);
    chars::push_text(&mut lines, &chars::cat("Code: ", user_code));
    chars::push_text(&mut lines, &chars::cat("Expires: ", expires_at));
    chars::push_text(&mut lines, "Waiting for approval...");
    lines
}

/// What to say where a server does not tell whether the node was let in; none where it does.
pub open spec fn poll_error(status: u16, payload: Seq<char>) -> Option<Seq<char>> {
    if status == 409 {
        Some("enrollment conflict: "@ + said(payload))
    } else if status == 410 {
        Some("enrollment expired"@)
    } else if !success(status) {
        Some(
            "enrollment poll failed ("@ + number::decimal(status as nat) + "): "@ + said(payload),
        )
    } else {
        None
    }
}

/// Decides whether a server tells whether the node was let in.
pub fn check_poll(status: u16, payload: &str) -> (r: Result<(), String>)
    ensures
        match r {
            Ok(()) => poll_error(status, payload@) is None,
            Err(message) => poll_error(status, payload@) == Some(message@),
        },
{
    if status == 409 {
        return Err(chars::cat("enrollment conflict: ", &said_text(payload)));
    }
    if status == 410 {
        return Err("enrollment expired".to_owned());
    }
    if status < 200 || status >= 300 {
        let mut message = chars::cat3(
            "enrollment poll failed (",
            &number::decimal_text(status as u64),
            "): ",
        );
        message.append(&said_text(payload));
        return Err(message);
    }
    Ok(())
}

/// The interface that the server gives to a node, without the keys that only the node has.
#[derive(Debug)]
pub struct EnrollmentWireGuardConfig {
    pub interface_name: String,
    pub addresses: Vec<String>,
    pub dns: Vec<String>,
    pub server: WireGuardPeerConfig,
}

/// What a server tells of a node that asks whether it was let in.
#[derive(Debug)]
pub enum EnrollmentPollResponse {
    /// Not yet.
    Pending,
    /// It was, with this identity.
    Approved {
        node_id: String,
        node_token: String,
        agent_ws_url: String,
        wireguard: Option<EnrollmentWireGuardConfig>,
    },
}

/// What a login does next.
#[derive(Debug)]
pub enum LoginStep {
    /// It asks again after so many milliseconds.
    Wait(u64),
    /// It keeps the identity of the node.
    Save(PersistedAgentConfig),
}

/// The interface of a node: what the server gives, with the node's keys.
pub open spec fn with_keys(
    given: Option<EnrollmentWireGuardConfig>,
    identity: WireGuardIdentity,
) -> Option<WireGuardConfig> {
    match given {
        Some(g) => Some(
            WireGuardConfig {
                interface_name: g.interface_name,
                addresses: g.addresses,
                dns: g.dns,
                private_key: identity.private_key,
                public_key: identity.public_key,
                server: g.server,
            },
        ),
        None => None,
    }
}

/// What a login does next when the server has told whether the node was let in.
pub open spec fn next_step(
    response: EnrollmentPollResponse,
    poll_interval_ms: u64,
    login: LoginConfig,
    identity: WireGuardIdentity,
) -> LoginStep {
    match response {
        EnrollmentPollResponse::Pending => LoginStep::Wait(
            if poll_interval_ms < 1_000 {
                1_000
            } else {
                poll_interval_ms
            },
        ),
        EnrollmentPollResponse::Approved { node_id, node_token, agent_ws_url, wireguard } =>
            LoginStep::Save(
            PersistedAgentConfig {
                node_id,
                node_token,
                agent_ws_url,
                api_base_url: Some(login.api_base_url),
                wireguard: with_keys(wireguard, identity),
            },
        ),
    }
}

/// Decides what a login does next when the server has told whether the node was let in: a node
/// that was not let in yet asks again, at most once a second.
pub fn run_login(
    response: EnrollmentPollResponse,
    poll_interval_ms: u64,
    login: &LoginConfig,
    identity: &WireGuardIdentity,
) -> (r: LoginStep)
    ensures
        r == next_step(response, poll_interval_ms, *login, *identity),
{
    match response {
        EnrollmentPollResponse::Pending => LoginStep::Wait(
            if poll_interval_ms < 1_000 {
                1_000
            } else {
                poll_interval_ms
            },
        ),
        EnrollmentPollResponse::Approved { node_id, node_token, agent_ws_url, wireguard } => {
            let wireguard = match wireguard {
                Some(g) => Some(
                    WireGuardConfig {
                        interface_name: g.interface_name,
                        addresses: g.addresses,
                        dns: g.dns,
                        private_key: identity.private_key.clone(),
                        public_key: identity.public_key.clone(),
                        server: g.server,
                    },
                ),
                None => None,
            };
            LoginStep::Save(
                PersistedAgentConfig {
                    node_id,
                    node_token,
                    agent_ws_url,
                    api_base_url: Some(login.api_base_url.clone()),
                    wireguard,
                },
            )
        },
    }
}

/// What is told of a login that ended, for a node with this identity kept at `path`.
pub open spec fn told(saved: PersistedView, path: Seq<char>) -> Seq<Seq<char>> {
    seq![
        "Node enrolled successfully."@,
        "Node ID: "@ + saved.node_id,
        "Agent websocket: "@ + saved.agent_ws_url,
    ] + (match saved.wireguard {
        Some(wireguard) => seq![
            "WireGuard: "@ + wireguard.interface_name + " "@ + split::join(
                wireguard.addresses,
                ", "@,
            ),
        ],
        None => seq![],
    }) + seq!["Saved config: "@ + path]
}

/// What is told of a login that ended.
pub fn enrolled_lines(saved: &PersistedAgentConfig, path: &str) -> (r: Vec<String>)
    ensures
        chars::texts(r@) == told(saved@, path@),
{
    let mut lines = chars::no_texts();
    chars::push_text(&mut lines, "Node enrolled successfully.");
    chars::push_text(&mut lines, &chars::cat("Node ID: ", &saved.node_id));
    chars::push_text(&mut lines, &chars::cat("Agent websocket: ", &saved.agent_ws_url));
    if let Some(wireguard) = &saved.wireguard {
        let mut line = chars::cat3("WireGuard: ", &wireguard.interface_name, " ");
        line.append(&split::joined(&wireguard.addresses, ", "));
        chars::push_text(&mut lines, &line);
    }
    chars::push_text(&mut lines, &chars::cat("Saved config: ", path));
    proof {
        assert(chars::texts(lines@) =~= told(saved@, path@));
    }
    lines
}

/// What a login keeps is the address that it turned to, and the keys of the node: the next start
/// of the agent finds both.
pub proof fn login_keeps_what_it_used(
    response: EnrollmentPollResponse,
    poll_interval_ms: u64,
    login: LoginConfig,
    identity: WireGuardIdentity,
)
    ensures
        next_step(response, poll_interval_ms, login, identity) matches LoginStep::Save(saved) ==> {
            &&& saved.api_base_url == Some(login.api_base_url)
            &&& saved.wireguard matches Some(wireguard) ==> wireguard.private_key
                == identity.private_key && wireguard.public_key == identity.public_key
        },
        next_step(response, poll_interval_ms, login, identity) matches LoginStep::Wait(ms) ==> ms
            >= 1_000,
{
}

} // verus!
