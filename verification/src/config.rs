//! The agent's configuration.

use crate::environment::{self, Environment};
use crate::failure::Failure;
use crate::paths;
use crate::text::chars;
use vstd::prelude::*;

pub mod laws;
pub mod url;
pub mod url_laws;

verus! {

/// What the agent runs with.
#[derive(Debug, Clone)]
pub struct AgentConfig {
    pub node_id: String,
    pub node_token: String,
    pub agent_ws_url: String,
    pub api_base_url: String,
    pub publish_interval_ms: u64,
    pub system_info_check_interval_ms: u64,
    pub system_info_republish_interval_ms: u64,
    pub reconnect_delay_ms: u64,
    pub connect_timeout_ms: u64,
    pub wireguard: Option<WireGuardConfig>,
    pub microvm_default_image: String,
    pub microvm_default_cpu: u8,
    pub microvm_default_memory_mb: u32,
}

/// What a login leaves on disk.
#[derive(Debug, Clone)]
pub struct PersistedAgentConfig {
    pub node_id: String,
    pub node_token: String,
    pub agent_ws_url: String,
    pub api_base_url: Option<String>,
    pub wireguard: Option<WireGuardConfig>,
}

/// What a login needs to know.
#[derive(Debug, Clone)]
pub struct LoginConfig {
    pub api_base_url: String,
}

/// A WireGuard interface and the server that it is connected to.
#[derive(Debug, Clone, PartialEq, Eq)]
pub struct WireGuardConfig {
    pub interface_name: String,
    pub addresses: Vec<String>,
    pub dns: Vec<String>,
    pub private_key: String,
    pub public_key: String,
    pub server: WireGuardPeerConfig,
}

/// The server that a WireGuard interface is connected to.
#[derive(Debug, Clone, PartialEq, Eq)]
pub struct WireGuardPeerConfig {
    pub public_key: String,
    pub endpoint: String,
    pub allowed_ips: Vec<String>,
    pub preshared_key: Option<String>,
    pub persistent_keepalive_seconds: Option<u16>,
}

/// The texts of a server's configuration.
pub struct PeerView {
    pub public_key: Seq<char>,
    pub endpoint: Seq<char>,
    pub allowed_ips: Seq<Seq<char>>,
    pub preshared_key: Option<Seq<char>>,
    pub persistent_keepalive_seconds: Option<u16>,
}

/// The texts of an interface's configuration.
pub struct WireGuardView {
    pub interface_name: Seq<char>,
    pub addresses: Seq<Seq<char>>,
    pub dns: Seq<Seq<char>>,
    pub private_key: Seq<char>,
    pub public_key: Seq<char>,
    pub server: PeerView,
}

/// The texts of what a login leaves on disk.
pub struct PersistedView {
    pub node_id: Seq<char>,
    pub node_token: Seq<char>,
    pub agent_ws_url: Seq<char>,
    pub api_base_url: Option<Seq<char>>,
    pub wireguard: Option<WireGuardView>,
}

/// The texts and numbers of the agent's configuration.
pub struct AgentView {
    pub node_id: Seq<char>,
    pub node_token: Seq<char>,
    pub agent_ws_url: Seq<char>,
    pub api_base_url: Seq<char>,
    pub publish_interval_ms: nat,
    pub system_info_check_interval_ms: nat,
    pub system_info_republish_interval_ms: nat,
    pub reconnect_delay_ms: nat,
    pub connect_timeout_ms: nat,
    pub wireguard: Option<WireGuardView>,
    pub microvm_default_image: Seq<char>,
    pub microvm_default_cpu: nat,
    pub microvm_default_memory_mb: nat,
}

impl View for WireGuardPeerConfig {
    type V = PeerView;

    open spec fn view(&self) -> PeerView {
        PeerView {
            public_key: self.public_key@,
            endpoint: self.endpoint@,
            allowed_ips: chars::texts(self.allowed_ips@),
            preshared_key: chars::opt_text(self.preshared_key),
            persistent_keepalive_seconds: self.persistent_keepalive_seconds,
        }
    }
}

impl View for WireGuardConfig {
    type V = WireGuardView;

    open spec fn view(&self) -> WireGuardView {
        WireGuardView {
            interface_name: self.interface_name@,
            addresses: chars::texts(self.addresses@),
            dns: chars::texts(self.dns@),
            private_key: self.private_key@,
            public_key: self.public_key@,
            server: self.server@,
        }
    }
}

/// The texts of an interface's configuration, where there is one.
pub open spec fn opt_wireguard(config: Option<WireGuardConfig>) -> Option<WireGuardView> {
    match config {
        Some(config) => Some(config@),
        None => None,
    }
}

impl View for PersistedAgentConfig {
    type V = PersistedView;

    open spec fn view(&self) -> PersistedView {
        PersistedView {
            node_id: self.node_id@,
            node_token: self.node_token@,
            agent_ws_url: self.agent_ws_url@,
            api_base_url: chars::opt_text(self.api_base_url),
            wireguard: opt_wireguard(self.wireguard),
        }
    }
}

/// The texts of what a login left on disk, where it did.
pub open spec fn opt_persisted(config: Option<&PersistedAgentConfig>) -> Option<PersistedView> {
    match config {
        Some(config) => Some(config@),
        None => None,
    }
}

impl View for AgentConfig {
    type V = AgentView;

    open spec fn view(&self) -> AgentView {
        AgentView {
            node_id: self.node_id@,
            node_token: self.node_token@,
            agent_ws_url: self.agent_ws_url@,
            api_base_url: self.api_base_url@,
            publish_interval_ms: self.publish_interval_ms as nat,
            system_info_check_interval_ms: self.system_info_check_interval_ms as nat,
            system_info_republish_interval_ms: self.system_info_republish_interval_ms as nat,
            reconnect_delay_ms: self.reconnect_delay_ms as nat,
            connect_timeout_ms: self.connect_timeout_ms as nat,
            wireguard: opt_wireguard(self.wireguard),
            microvm_default_image: self.microvm_default_image@,
            microvm_default_cpu: self.microvm_default_cpu as nat,
            microvm_default_memory_mb: self.microvm_default_memory_mb as nat,
        }
    }
}

/// A copy of an interface's configuration.
pub fn copy_wireguard(config: &WireGuardConfig) -> (r: WireGuardConfig)
    ensures
        r@ == config@,
{
    WireGuardConfig {
        interface_name: config.interface_name.clone(),
        addresses: chars::copy_texts(&config.addresses),
        dns: chars::copy_texts(&config.dns),
        private_key: config.private_key.clone(),
        public_key: config.public_key.clone(),
        server: WireGuardPeerConfig {
            public_key: config.server.public_key.clone(),
            endpoint: config.server.endpoint.clone(),
            allowed_ips: chars::copy_texts(&config.server.allowed_ips),
            preshared_key: chars::copy_opt(&config.server.preshared_key),
            persistent_keepalive_seconds: config.server.persistent_keepalive_seconds,
        },
    }
}

/// A copy of what a login leaves on disk.
pub fn copy_persisted(config: &PersistedAgentConfig) -> (r: PersistedAgentConfig)
    ensures
        r@ == config@,
{
    PersistedAgentConfig {
        node_id: config.node_id.clone(),
        node_token: config.node_token.clone(),
        agent_ws_url: config.agent_ws_url.clone(),
        api_base_url: chars::copy_opt(&config.api_base_url),
        wireguard: match &config.wireguard {
            Some(wireguard) => Some(copy_wireguard(wireguard)),
            None => None,
        },
    }
}

/// A value, else another one.
pub open spec fn or<T>(first: Option<T>, second: Option<T>) -> Option<T> {
    match first {
        Some(value) => Some(value),
        None => second,
    }
}

/// A list, else another one.
pub open spec fn or_list(first: Seq<Seq<char>>, second: Option<Seq<Seq<char>>>) -> Seq<Seq<char>> {
    if first.len() > 0 {
        first
    } else {
        match second {
            Some(list) => list,
            None => seq![],
        }
    }
}

/// The environment speaks of the WireGuard interface.
pub open spec fn names_wireguard(env: &Environment) -> bool {
    ||| environment::set_var(env, "WIREGUARD_INTERFACE_NAME"@) is Some
    ||| environment::list_var(env, "WIREGUARD_ADDRESSES"@).len() > 0
    ||| environment::list_var(env, "WIREGUARD_DNS"@).len() > 0
    ||| environment::set_var(env, "WIREGUARD_PRIVATE_KEY"@) is Some
    ||| environment::set_var(env, "WIREGUARD_PUBLIC_KEY"@) is Some
    ||| environment::set_var(env, "WIREGUARD_SERVER_PUBLIC_KEY"@) is Some
    ||| environment::set_var(env, "WIREGUARD_SERVER_ENDPOINT"@) is Some
    ||| environment::list_var(env, "WIREGUARD_ALLOWED_IPS"@).len() > 0
    ||| environment::set_var(env, "WIREGUARD_PRESHARED_KEY"@) is Some
    ||| environment::positive(
        env,
        "WIREGUARD_PERSISTENT_KEEPALIVE_SECONDS"@,
        u16::MAX as nat,
    ) is Some
}

/// The interface that the environment describes, with what it leaves open taken from the
/// interface `known`; none where both leave open what an interface cannot do without.
pub open spec fn described_wireguard(env: &Environment, known: Option<WireGuardView>) -> Option<
    WireGuardView,
> {
    let interface_name = or(
        environment::set_var(env, "WIREGUARD_INTERFACE_NAME"@),
        match known {
            Some(k) => Some(k.interface_name),
            None => None,
        },
    );
    let private_key = or(
        environment::set_var(env, "WIREGUARD_PRIVATE_KEY"@),
        match known {
            Some(k) => Some(k.private_key),
            None => None,
        },
    );
    let public_key = or(
        environment::set_var(env, "WIREGUARD_PUBLIC_KEY"@),
        match known {
            Some(k) => Some(k.public_key),
            None => None,
        },
    );
    let server_public_key = or(
        environment::set_var(env, "WIREGUARD_SERVER_PUBLIC_KEY"@),
        match known {
            Some(k) => Some(k.server.public_key),
            None => None,
        },
    );
    let endpoint = or(
        environment::set_var(env, "WIREGUARD_SERVER_ENDPOINT"@),
        match known {
            Some(k) => Some(k.server.endpoint),
            None => None,
        },
    );
    let addresses = or_list(
        environment::list_var(env, "WIREGUARD_ADDRESSES"@),
        match known {
            Some(k) => Some(k.addresses),
            None => None,
        },
    );
    let dns = or_list(
        environment::list_var(env, "WIREGUARD_DNS"@),
        match known {
            Some(k) => Some(k.dns),
            None => None,
        },
    );
    let allowed_ips = or_list(
        environment::list_var(env, "WIREGUARD_ALLOWED_IPS"@),
        match known {
            Some(k) => Some(k.server.allowed_ips),
            None => None,
        },
    );
    let preshared_key = or(
        environment::set_var(env, "WIREGUARD_PRESHARED_KEY"@),
        match known {
            Some(k) => k.server.preshared_key,
            None => None,
        },
    );
    let keepalive = match environment::positive(
        env,
        "WIREGUARD_PERSISTENT_KEEPALIVE_SECONDS"@,
        u16::MAX as nat,
    ) {
        Some(seconds) => Some(seconds as u16),
        None => match known {
            Some(k) => k.server.persistent_keepalive_seconds,
            None => None,
        },
    };
    if interface_name is None || private_key is None || public_key is None || server_public_key
        is None || endpoint is None || addresses.len() == 0 || allowed_ips.len() == 0 {
        None
    } else {
        Some(
            WireGuardView {
                interface_name: interface_name->Some_0,
                addresses,
                dns,
                private_key: private_key->Some_0,
                public_key: public_key->Some_0,
                server: PeerView {
                    public_key: server_public_key->Some_0,
                    endpoint: endpoint->Some_0,
                    allowed_ips,
                    preshared_key,
                    persistent_keepalive_seconds: keepalive,
                },
            },
        )
    }
}

/// The WireGuard interface that the agent runs with.
pub open spec fn wireguard_of(env: &Environment, known: Option<WireGuardView>) -> Option<
    WireGuardView,
> {
    if environment::flag(env, "WIREGUARD_DISABLE"@) {
        None
    } else if names_wireguard(env) {
        described_wireguard(env, known)
    } else {
        known
    }
}

/// A text, else a copy of another one.
fn text_or(first: Option<String>, second: Option<&String>) -> (r: Option<String>)
    ensures
        chars::opt_text(r) == or(
            chars::opt_text(first),
            match second {
                Some(s) => Some(s@),
                None => None,
            },
        ),
{
    match first {
        Some(value) => Some(value),
        None => match second {
            Some(value) => Some(value.clone()),
            None => None,
        },
    }
}

/// A list, else a copy of another one.
fn list_or(first: Vec<String>, second: Option<&Vec<String>>) -> (r: Vec<String>)
    ensures
        chars::texts(r@) == or_list(
            chars::texts(first@),
            match second {
                Some(list) => Some(chars::texts(list@)),
                None => None,
            },
        ),
{
    if first.len() > 0 {
        first
    } else {
        match second {
            Some(list) => chars::copy_texts(list),
            None => {
                proof {
                    assert(chars::texts(first@) =~= seq![]);
                }
                first
            },
        }
    }
}

/// Chooses the WireGuard interface that the agent runs with.
pub fn resolve_wireguard_config(
    env: &Environment,
    persisted: Option<&PersistedAgentConfig>,
) -> (r: Option<WireGuardConfig>)
    ensures
        opt_wireguard(r) == wireguard_of(
            env,
            match opt_persisted(persisted) {
                Some(p) => p.wireguard,
                None => None,
            },
        ),
{
    let known: Option<&WireGuardConfig> = match persisted {
        Some(p) => match &p.wireguard {
            Some(wireguard) => Some(wireguard),
            None => None,
        },
        None => None,
    };
    if environment::env_flag(env, "WIREGUARD_DISABLE") {
        return None;
    }
    let interface_name = environment::set_var_of(env, "WIREGUARD_INTERFACE_NAME");
    let addresses = environment::parse_csv_env(env, "WIREGUARD_ADDRESSES");
    let dns = environment::parse_csv_env(env, "WIREGUARD_DNS");
    let private_key = environment::set_var_of(env, "WIREGUARD_PRIVATE_KEY");
    let public_key = environment::set_var_of(env, "WIREGUARD_PUBLIC_KEY");
    let server_public_key = environment::set_var_of(env, "WIREGUARD_SERVER_PUBLIC_KEY");
    let server_endpoint = environment::set_var_of(env, "WIREGUARD_SERVER_ENDPOINT");
    let allowed_ips = environment::parse_csv_env(env, "WIREGUARD_ALLOWED_IPS");
    let preshared_key = environment::set_var_of(env, "WIREGUARD_PRESHARED_KEY");
    let keepalive = environment::positive_of(
        env,
        "WIREGUARD_PERSISTENT_KEEPALIVE_SECONDS",
        65_535,
    );
    let named = interface_name.is_some() || addresses.len() > 0 || dns.len() > 0
        || private_key.is_some() || public_key.is_some() || server_public_key.is_some()
        || server_endpoint.is_some() || allowed_ips.len() > 0 || preshared_key.is_some()
        || keepalive.is_some();
    proof {
        assert(chars::texts(addresses@).len() == addresses@.len());
        assert(chars::texts(dns@).len() == dns@.len());
        assert(chars::texts(allowed_ips@).len() == allowed_ips@.len());
        assert(named == names_wireguard(env));
    }
    if !named {
        return match known {
            Some(wireguard) => Some(copy_wireguard(wireguard)),
            None => None,
        };
    }
    let (known_name, known_private, known_public, known_server, known_endpoint) = match known {
        Some(k) => (
            Some(&k.interface_name),
            Some(&k.private_key),
            Some(&k.public_key),
            Some(&k.server.public_key),
            Some(&k.server.endpoint),
        ),
        None => (None, None, None, None, None),
    };
    let (known_addresses, known_dns, known_ips) = match known {
        Some(k) => (Some(&k.addresses), Some(&k.dns), Some(&k.server.allowed_ips)),
        None => (None, None, None),
    };
    let known_preshared: Option<&String> = match known {
        Some(k) => match &k.server.preshared_key {
            Some(key) => Some(key),
            None => None,
        },
        None => None,
    };
    let known_keepalive: Option<u16> = match known {
        Some(k) => k.server.persistent_keepalive_seconds,
        None => None,
    };
    let interface_name = text_or(interface_name, known_name);
    let private_key = text_or(private_key, known_private);
    let public_key = text_or(public_key, known_public);
    let server_public_key = text_or(server_public_key, known_server);
    let server_endpoint = text_or(server_endpoint, known_endpoint);
    let addresses = list_or(addresses, known_addresses);
    let dns = list_or(dns, known_dns);
    let allowed_ips = list_or(allowed_ips, known_ips);
    let preshared_key = text_or(preshared_key, known_preshared);
    let persistent_keepalive_seconds: Option<u16> = match keepalive {
        Some(seconds) => Some(seconds as u16),
        None => known_keepalive,
    };
    proof {
        assert(chars::texts(addresses@).len() == addresses@.len());
        assert(chars::texts(allowed_ips@).len() == allowed_ips@.len());
    }
    if addresses.len() == 0 || allowed_ips.len() == 0 {
        return None;
    }
    match (interface_name, private_key, public_key, server_public_key, server_endpoint) {
        (
            Some(interface_name),
            Some(private_key),
            Some(public_key),
            Some(server_public_key),
            Some(endpoint),
        ) => Some(
            WireGuardConfig {
                interface_name,
                addresses,
                dns,
                private_key,
                public_key,
                server: WireGuardPeerConfig {
                    public_key: server_public_key,
                    endpoint,
                    allowed_ips,
                    preshared_key,
                    persistent_keepalive_seconds,
                },
            },
        ),
        _ => None,
    }
}

/// A field of the agent's identity.
#[derive(Debug, Clone, Copy, PartialEq, Eq, Structural)]
pub enum IdentityField {
    NodeId,
    NodeToken,
    AgentWsUrl,
}

/// A configuration file is there but gives no value to a field of the agent's identity, nor does
/// the environment.
#[derive(Debug)]
pub struct ConfigError {
    pub field: IdentityField,
    pub path: String,
}

impl ConfigError {
    /// What the error says.
    pub open spec fn text(self) -> Seq<char> {
        match self.field {
            IdentityField::NodeId => "Agent identity field `node_id` was not found in "@
                + self.path@ + " and NODE_ID is not set."@,
            IdentityField::NodeToken => "Agent identity field `node_token` was not found in "@
                + self.path@ + " and NODE_TOKEN is not set."@,
            IdentityField::AgentWsUrl => "Agent identity field `agent_ws_url` was not found in "@
                + self.path@ + " and AGENT_WS_URL/API_BASE_URL are not set."@,
        }
    }

    /// What the error says.
    pub fn message(&self) -> (r: String)
        ensures
            r@ == self.text(),
    {
        match self.field {
            IdentityField::NodeId => chars::cat3(
                "Agent identity field `node_id` was not found in ",
                &self.path,
                " and NODE_ID is not set.",
            ),
            IdentityField::NodeToken => chars::cat3(
                "Agent identity field `node_token` was not found in ",
                &self.path,
                " and NODE_TOKEN is not set.",
            ),
            IdentityField::AgentWsUrl => chars::cat3(
                "Agent identity field `agent_ws_url` was not found in ",
                &self.path,
                " and AGENT_WS_URL/API_BASE_URL are not set.",
            ),
        }
    }
}

/// The identity that the agent runs with.
pub open spec fn node_id_of(env: &Environment, known: Option<PersistedView>) -> Option<Seq<char>> {
    or(
        environment::set_var(env, "NODE_ID"@),
        match known {
            Some(k) => Some(k.node_id),
            None => None,
        },
    )
}

/// The token that the agent proves its identity with.
pub open spec fn node_token_of(env: &Environment, known: Option<PersistedView>) -> Option<
    Seq<char>,
> {
    or(
        environment::set_var(env, "NODE_TOKEN"@),
        match known {
            Some(k) => Some(k.node_token),
            None => None,
        },
    )
}

/// The websocket that the agent connects to.
pub open spec fn ws_url_of(env: &Environment, known: Option<PersistedView>) -> Option<Seq<char>> {
    or(
        environment::set_var(env, "AGENT_WS_URL"@),
        or(
            url::websocket_of_server(env),
            match known {
                Some(k) => Some(k.agent_ws_url),
                None => None,
            },
        ),
    )
}

/// The server's address, for an agent that connects to the websocket `ws_url`.
pub open spec fn api_url_of(
    env: &Environment,
    known: Option<PersistedView>,
    ws_url: Seq<char>,
) -> Seq<char> {
    url::normal(
        match or(
            environment::set_var(env, "API_BASE_URL"@),
            match known {
                Some(k) => k.api_base_url,
                None => None,
            },
        ) {
            Some(address) => address,
            None => url::api_of_websocket(ws_url),
        },
    )
}

/// The first field of the agent's identity that has no value.
pub open spec fn missing_field(env: &Environment, known: Option<PersistedView>) -> Option<
    IdentityField,
> {
    if node_id_of(env, known) is None {
        Some(IdentityField::NodeId)
    } else if node_token_of(env, known) is None {
        Some(IdentityField::NodeToken)
    } else if ws_url_of(env, known) is None {
        Some(IdentityField::AgentWsUrl)
    } else {
        None
    }
}

/// The configuration of an agent whose identity has all its fields.
pub open spec fn loaded(env: &Environment, known: Option<PersistedView>) -> AgentView {
    let ws_url = ws_url_of(env, known)->Some_0;
    AgentView {
        node_id: node_id_of(env, known)->Some_0,
        node_token: node_token_of(env, known)->Some_0,
        agent_ws_url: ws_url,
        api_base_url: api_url_of(env, known, ws_url),
        publish_interval_ms: environment::positive_or(
            env,
            "PUBLISH_INTERVAL_MS"@,
            u64::MAX as nat,
            5_000,
        ),
        system_info_check_interval_ms: environment::positive_or(
            env,
            "SYSTEM_INFO_CHECK_INTERVAL_MS"@,
            u64::MAX as nat,
            600_000,
        ),
        system_info_republish_interval_ms: environment::positive_or(
            env,
            "SYSTEM_INFO_REPUBLISH_INTERVAL_MS"@,
            u64::MAX as nat,
            86_400_000,
        ),
        reconnect_delay_ms: environment::positive_or(
            env,
            "RECONNECT_DELAY_MS"@,
            u64::MAX as nat,
            3_000,
        ),
        connect_timeout_ms: environment::positive_or(
            env,
            "WS_CONNECT_TIMEOUT_MS"@,
            u64::MAX as nat,
            8_000,
        ),
        wireguard: wireguard_of(
            env,
            match known {
                Some(k) => k.wireguard,
                None => None,
            },
        ),
        microvm_default_image: match environment::set_var(env, "STATIX_MICROVM_IMAGE"@) {
            Some(image) => image,
            None => "ubuntu-24.04"@,
        },
        microvm_default_cpu: environment::positive_or(
            env,
            "STATIX_MICROVM_CPU"@,
            u8::MAX as nat,
            2,
        ),
        microvm_default_memory_mb: environment::positive_or(
            env,
            "STATIX_MICROVM_MEMORY_MB"@,
            u32::MAX as nat,
            4096,
        ),
    }
}

impl AgentConfig {
    /// The agent's configuration: what the environment says, and for the rest what the last login
    /// left in the file at `config_path`. There is none (`Ok(None)`) where neither gives the agent
    /// an identity and no such file exists.
    pub fn load(
        env: &Environment,
        config_path: &str,
        config_exists: bool,
        persisted: Option<&PersistedAgentConfig>,
    ) -> (r: Result<Option<Self>, ConfigError>)
        ensures
            match r {
                Ok(Some(config)) => {
                    &&& missing_field(env, opt_persisted(persisted)) is None
                    &&& config@ == loaded(env, opt_persisted(persisted))
                },
                Ok(None) => missing_field(env, opt_persisted(persisted)) is Some && !config_exists,
                Err(error) => {
                    &&& missing_field(env, opt_persisted(persisted)) == Some(error.field)
                    &&& config_exists
                    &&& error.path@ == config_path@
                },
            },
    {
        let (known_id, known_token, known_ws, known_api) = match persisted {
            Some(p) => (
                Some(&p.node_id),
                Some(&p.node_token),
                Some(&p.agent_ws_url),
                match &p.api_base_url {
                    Some(address) => Some(address),
                    None => None,
                },
            ),
            None => (None, None, None, None),
        };
        let node_id = match text_or(environment::set_var_of(env, "NODE_ID"), known_id) {
            Some(node_id) => node_id,
            None => {
                return unidentified(IdentityField::NodeId, config_path, config_exists);
            },
        };
        let node_token = match text_or(environment::set_var_of(env, "NODE_TOKEN"), known_token) {
            Some(node_token) => node_token,
            None => {
                return unidentified(IdentityField::NodeToken, config_path, config_exists);
            },
        };
        let named_ws = match environment::set_var_of(env, "AGENT_WS_URL") {
            Some(address) => Some(address),
            None => url::ws_url_of_server(env),
        };
        let agent_ws_url = match text_or(named_ws, known_ws) {
            Some(agent_ws_url) => agent_ws_url,
            None => {
                return unidentified(IdentityField::AgentWsUrl, config_path, config_exists);
            },
        };
        let api_base_url = match text_or(environment::set_var_of(env, "API_BASE_URL"), known_api) {
            Some(address) => url::normalize_api_base_url(&address),
            None => url::normalize_api_base_url(&url::api_base_url_from_ws_url(&agent_ws_url)),
        };
        let microvm_default_image = match environment::set_var_of(env, "STATIX_MICROVM_IMAGE") {
            Some(image) => image,
            None => "ubuntu-24.04".to_owned(),
        };
        Ok(
            Some(
                AgentConfig {
                    node_id,
                    node_token,
                    agent_ws_url,
                    api_base_url,
                    publish_interval_ms: environment::parse_positive_int(
                        env,
                        "PUBLISH_INTERVAL_MS",
                        5_000,
                    ),
                    system_info_check_interval_ms: environment::parse_positive_int(
                        env,
                        "SYSTEM_INFO_CHECK_INTERVAL_MS",
                        600_000,
                    ),
                    system_info_republish_interval_ms: environment::parse_positive_int(
                        env,
                        "SYSTEM_INFO_REPUBLISH_INTERVAL_MS",
                        86_400_000,
                    ),
                    reconnect_delay_ms: environment::parse_positive_int(
                        env,
                        "RECONNECT_DELAY_MS",
                        3_000,
                    ),
                    connect_timeout_ms: environment::parse_positive_int(
                        env,
                        "WS_CONNECT_TIMEOUT_MS",
                        8_000,
                    ),
                    wireguard: resolve_wireguard_config(env, persisted),
                    microvm_default_image,
                    microvm_default_cpu: environment::parse_positive_u8(
                        env,
                        "STATIX_MICROVM_CPU",
                        2,
                    ),
                    microvm_default_memory_mb: environment::parse_positive_u32(
                        env,
                        "STATIX_MICROVM_MEMORY_MB",
                        4096,
                    ),
                },
            ),
        )
    }
}

/// What is loaded where a field of the identity has no value.
fn unidentified(field: IdentityField, config_path: &str, config_exists: bool) -> (r: Result<
    Option<AgentConfig>,
    ConfigError,
>)
    ensures
        match r {
            Ok(config) => config is None && !config_exists,
            Err(error) => config_exists && error.field == field && error.path@ == config_path@,
        },
{
    if config_exists {
        Err(ConfigError { field, path: config_path.to_owned() })
    } else {
        Ok(None)
    }
}

/// Chooses what a login needs to know, from the address that it is given, the environment, and
/// what the last login left on disk.
pub fn resolve_login_config(
    explicit_api_base_url: Option<String>,
    env: &Environment,
    persisted: Option<&PersistedAgentConfig>,
) -> (r: LoginConfig)
    ensures
        r.api_base_url@ == url::login_address(
            chars::opt_text(explicit_api_base_url),
            environment::var(env, "API_BASE_URL"@),
            match opt_persisted(persisted) {
                Some(p) => p.api_base_url,
                None => None,
            },
        ),
{
    let env_url = match environment::var_of(env, "API_BASE_URL") {
        Some(address) => Some(address.to_owned()),
        None => None,
    };
    let persisted_url = match persisted {
        Some(p) => chars::copy_opt(&p.api_base_url),
        None => None,
    };
    LoginConfig {
        api_base_url: url::resolve_login_api_base_url(
            explicit_api_base_url,
            env_url,
            persisted_url,
        ),
    }
}

/// What came of reading the configuration file.
pub enum PersistedFile {
    /// There is no such file.
    Absent,
    /// It could not be read.
    Unreadable(Failure),
    /// It does not hold a configuration.
    Invalid(Failure),
    /// It holds this configuration.
    Holds(PersistedAgentConfig),
}

/// What the last login left in the file at `path`. That there is no file is no failure.
pub fn load_persisted_config_snapshot(path: &str, file: PersistedFile) -> (r: Result<
    Option<PersistedAgentConfig>,
    Failure,
>)
    ensures
        match file {
            PersistedFile::Absent => r matches Ok(None),
            PersistedFile::Unreadable(cause) => r matches Err(failure) && failure.texts() == seq![
                "failed to read "@ + path@,
            ] + cause.texts(),
            PersistedFile::Invalid(cause) => r matches Err(failure) && failure.texts() == seq![
                "invalid "@ + path@,
            ] + cause.texts(),
            PersistedFile::Holds(config) => r matches Ok(Some(found)) && found == config,
        },
{
    match file {
        PersistedFile::Absent => Ok(None),
        PersistedFile::Unreadable(cause) => Err(cause.context(chars::cat("failed to read ", path))),
        PersistedFile::Invalid(cause) => Err(cause.context(chars::cat("invalid ", path))),
        PersistedFile::Holds(config) => Ok(Some(config)),
    }
}

/// What came of writing the configuration file.
pub enum SavedFile {
    /// The directory that holds it could not be made.
    NoDirectory(Failure),
    /// It could not be written.
    Unwritable(Failure),
    /// It was written.
    Written,
}

/// What a login reports of the file at `path`: where it was written, its path.
pub fn save_persisted_config(path: &str, file: SavedFile) -> (r: Result<String, Failure>)
    ensures
        match file {
            SavedFile::NoDirectory(cause) => r matches Err(failure) && failure.texts() == seq![
                "failed to create "@ + (match paths::parent(path@) {
                    Some(directory) => directory,
                    None => path@,
                }),
            ] + cause.texts(),
            SavedFile::Unwritable(cause) => r matches Err(failure) && failure.texts() == seq![
                "failed to write "@ + path@,
            ] + cause.texts(),
            SavedFile::Written => r matches Ok(saved) && saved@ == path@,
        },
{
    match file {
        SavedFile::NoDirectory(cause) => {
            let directory = match paths::path_parent(path) {
                Some(directory) => directory,
                None => path.to_owned(),
            };
            Err(cause.context(chars::cat("failed to create ", &directory)))
        },
        SavedFile::Unwritable(cause) => Err(cause.context(chars::cat("failed to write ", path))),
        SavedFile::Written => Ok(path.to_owned()),
    }
}

/// The path of the configuration file, where the environment tells it.
pub open spec fn named_config_path(env: &Environment) -> Option<Seq<char>> {
    match environment::set_var(env, "STATIX_AGENT_CONFIG"@) {
        Some(path) => Some(path),
        None => match environment::set_var(env, "XDG_CONFIG_HOME"@) {
            Some(home) => Some(paths::join(paths::join(home, "statix"@), "agent.json"@)),
            None => match environment::set_var(env, "APPDATA"@) {
                Some(home) => Some(paths::join(paths::join(home, "statix"@), "agent.json"@)),
                None => match environment::set_var(env, "HOME"@) {
                    Some(home) => Some(
                        paths::join(
                            paths::join(paths::join(home, ".config"@), "statix"@),
                            "agent.json"@,
                        ),
                    ),
                    None => None,
                },
            },
        },
    }
}

/// The path of the configuration file, for a process that runs in the directory `cwd`, where that
/// is known.
pub open spec fn config_path(env: &Environment, cwd: Option<Seq<char>>) -> Option<Seq<char>> {
    match named_config_path(env) {
        Some(path) => Some(path),
        None => match cwd {
            Some(directory) => Some(paths::join(directory, ".statix-agent.json"@)),
            None => None,
        },
    }
}

/// The directory of the agent's state, for a process that runs in the directory `cwd`, where that
/// is known.
pub open spec fn state_dir(env: &Environment, cwd: Option<Seq<char>>) -> Option<Seq<char>> {
    match environment::set_var(env, "STATIX_AGENT_STATE_DIR"@) {
        Some(path) => Some(path),
        None => match environment::set_var(env, "STATE_DIRECTORY"@) {
            Some(path) => Some(path),
            None => match environment::set_var(env, "XDG_STATE_HOME"@) {
                Some(home) => Some(paths::join(home, "statix"@)),
                None => match config_path(env, cwd) {
                    Some(path) => match paths::parent(path) {
                        Some(directory) => Some(directory),
                        None => cwd,
                    },
                    None => None,
                },
            },
        },
    }
}

/// The path of the configuration file. It is unknown only where the environment does not tell it
/// and the current directory is unknown.
pub fn persisted_config_path(env: &Environment, cwd: Option<&str>) -> (r: Option<String>)
    ensures
        chars::opt_text(r) == config_path(env, chars::opt_str(cwd)),
{
    if let Some(path) = environment::set_var_of(env, "STATIX_AGENT_CONFIG") {
        return Some(path);
    }
    if let Some(home) = environment::set_var_of(env, "XDG_CONFIG_HOME") {
        return Some(paths::path_join(&paths::path_join(&home, "statix"), "agent.json"));
    }
    if let Some(home) = environment::set_var_of(env, "APPDATA") {
        return Some(paths::path_join(&paths::path_join(&home, "statix"), "agent.json"));
    }
    if let Some(home) = environment::set_var_of(env, "HOME") {
        let config = paths::path_join(&home, ".config");
        return Some(paths::path_join(&paths::path_join(&config, "statix"), "agent.json"));
    }
    match cwd {
        Some(directory) => Some(paths::path_join(directory, ".statix-agent.json")),
        None => None,
    }
}

/// The directory of the agent's state.
pub fn agent_state_dir(env: &Environment, cwd: Option<&str>) -> (r: Option<String>)
    ensures
        chars::opt_text(r) == state_dir(env, chars::opt_str(cwd)),
{
    if let Some(path) = environment::env_path(env, "STATIX_AGENT_STATE_DIR") {
        return Some(path);
    }
    if let Some(path) = environment::env_path(env, "STATE_DIRECTORY") {
        return Some(path);
    }
    if let Some(home) = environment::env_path(env, "XDG_STATE_HOME") {
        return Some(paths::path_join(&home, "statix"));
    }
    match persisted_config_path(env, cwd) {
        Some(path) => match paths::path_parent(&path) {
            Some(directory) => Some(directory),
            None => match cwd {
                Some(directory) => Some(directory.to_owned()),
                None => None,
            },
        },
        None => None,
    }
}

/// What the environment says of the agent's identity and of the server comes before what the last
/// login left: where it speaks, the file makes no difference.
pub proof fn environment_overrides_the_file(
    env: &Environment,
    first: Option<PersistedView>,
    second: Option<PersistedView>,
    ws_url: Seq<char>,
)
    ensures
        environment::set_var(env, "NODE_ID"@) matches Some(value) ==> node_id_of(env, first)
            == Some(value),
        environment::set_var(env, "NODE_TOKEN"@) matches Some(value) ==> node_token_of(env, first)
            == Some(value),
        environment::set_var(env, "AGENT_WS_URL"@) matches Some(value) ==> ws_url_of(env, first)
            == Some(value),
        environment::set_var(env, "API_BASE_URL"@) is Some ==> {
            &&& ws_url_of(env, first) is Some
            &&& ws_url_of(env, first) == ws_url_of(env, second)
            &&& api_url_of(env, first, ws_url) == api_url_of(env, second, ws_url)
        },
{
}

/// An agent that logged in needs nothing of the environment: with no variable set it runs with
/// what the login left.
pub proof fn login_is_enough(env: &Environment, known: PersistedView)
    requires
        forall|name: Seq<char>| #[trigger] environment::var(env, name) is None,
    ensures
        missing_field(env, Some(known)) is None,
        loaded(env, Some(known)).node_id == known.node_id,
        loaded(env, Some(known)).node_token == known.node_token,
        loaded(env, Some(known)).agent_ws_url == known.agent_ws_url,
        known.api_base_url matches Some(address) ==> loaded(env, Some(known)).api_base_url
            == url::normal(address),
        loaded(env, Some(known)).wireguard == known.wireguard,
{
}

} // verus!
