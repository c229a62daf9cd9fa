//! What holds of the agent's configuration: where each part of it comes from.

use crate::config::{self, AgentView, IdentityField, PersistedView, WireGuardView};
use crate::environment::{self, Environment};
use crate::paths;
use vstd::prelude::*;

verus! {

/// What the environment says of the WireGuard interface comes before what the last login left:
/// where a variable is set and an interface is resolved, the interface has its value, whatever the
/// file holds.
pub proof fn environment_overrides_the_files_interface(
    env: &Environment,
    known: Option<WireGuardView>,
)
    ensures
        config::wireguard_of(env, known) matches Some(w) ==> {
            &&& environment::set_var(env, "WIREGUARD_INTERFACE_NAME"@) matches Some(value)
                ==> w.interface_name == value
            &&& environment::set_var(env, "WIREGUARD_PRIVATE_KEY"@) matches Some(value)
                ==> w.private_key == value
            &&& environment::set_var(env, "WIREGUARD_PUBLIC_KEY"@) matches Some(value)
                ==> w.public_key == value
            &&& environment::set_var(env, "WIREGUARD_SERVER_PUBLIC_KEY"@) matches Some(value)
                ==> w.server.public_key == value
            &&& environment::set_var(env, "WIREGUARD_SERVER_ENDPOINT"@) matches Some(value)
                ==> w.server.endpoint == value
            &&& environment::set_var(env, "WIREGUARD_PRESHARED_KEY"@) matches Some(value)
                ==> w.server.preshared_key == Some(value)
            &&& environment::positive(
                env,
                "WIREGUARD_PERSISTENT_KEEPALIVE_SECONDS"@,
                u16::MAX as nat,
            ) matches Some(n) ==> (w.server.persistent_keepalive_seconds matches Some(seconds)
                && seconds == n)
            &&& environment::list_var(env, "WIREGUARD_ADDRESSES"@).len() > 0 ==> w.addresses
                == environment::list_var(env, "WIREGUARD_ADDRESSES"@)
            &&& environment::list_var(env, "WIREGUARD_DNS"@).len() > 0 ==> w.dns
                == environment::list_var(env, "WIREGUARD_DNS"@)
            &&& environment::list_var(env, "WIREGUARD_ALLOWED_IPS"@).len() > 0
                ==> w.server.allowed_ips == environment::list_var(env, "WIREGUARD_ALLOWED_IPS"@)
        },
{
}

/// What the environment does not say of the WireGuard interface is as the last login left it:
/// where a variable is not set and an interface is resolved, the interface has the file's value.
pub proof fn file_fills_the_interface(env: &Environment, known: WireGuardView)
    ensures
        config::wireguard_of(env, Some(known)) matches Some(w) ==> {
            &&& environment::set_var(env, "WIREGUARD_INTERFACE_NAME"@) is None ==> w.interface_name
                == known.interface_name
            &&& environment::set_var(env, "WIREGUARD_PRIVATE_KEY"@) is None ==> w.private_key
                == known.private_key
            &&& environment::set_var(env, "WIREGUARD_PUBLIC_KEY"@) is None ==> w.public_key
                == known.public_key
            &&& environment::set_var(env, "WIREGUARD_SERVER_PUBLIC_KEY"@) is None
                ==> w.server.public_key == known.server.public_key
            &&& environment::set_var(env, "WIREGUARD_SERVER_ENDPOINT"@) is None
                ==> w.server.endpoint == known.server.endpoint
            &&& environment::set_var(env, "WIREGUARD_PRESHARED_KEY"@) is None
                ==> w.server.preshared_key == known.server.preshared_key
            &&& environment::positive(
                env,
                "WIREGUARD_PERSISTENT_KEEPALIVE_SECONDS"@,
                u16::MAX as nat,
            ) is None ==> w.server.persistent_keepalive_seconds
                == known.server.persistent_keepalive_seconds
            &&& environment::list_var(env, "WIREGUARD_ADDRESSES"@).len() == 0 ==> w.addresses
                == known.addresses
            &&& environment::list_var(env, "WIREGUARD_DNS"@).len() == 0 ==> w.dns == known.dns
            &&& environment::list_var(env, "WIREGUARD_ALLOWED_IPS"@).len() == 0
                ==> w.server.allowed_ips == known.server.allowed_ips
        },
{
}

/// The environment says of the interface all that an interface cannot do without.
pub open spec fn says_enough(env: &Environment) -> bool {
    &&& environment::set_var(env, "WIREGUARD_INTERFACE_NAME"@) is Some
    &&& environment::set_var(env, "WIREGUARD_PRIVATE_KEY"@) is Some
    &&& environment::set_var(env, "WIREGUARD_PUBLIC_KEY"@) is Some
    &&& environment::set_var(env, "WIREGUARD_SERVER_PUBLIC_KEY"@) is Some
    &&& environment::set_var(env, "WIREGUARD_SERVER_ENDPOINT"@) is Some
    &&& environment::list_var(env, "WIREGUARD_ADDRESSES"@).len() > 0
    &&& environment::list_var(env, "WIREGUARD_ALLOWED_IPS"@).len() > 0
}

/// When there is an interface: never where it is switched off. Else, without one of the last
/// login, where and only where the environment says enough; with one that has addresses, always.
pub proof fn interface_is_found(env: &Environment, known: Option<WireGuardView>)
    ensures
        environment::flag(env, "WIREGUARD_DISABLE"@) ==> config::wireguard_of(env, known) is None,
        !environment::flag(env, "WIREGUARD_DISABLE"@) && known is None ==> (config::wireguard_of(
            env,
            known,
        ) is Some <==> says_enough(env)),
        known matches Some(k) ==> (!environment::flag(env, "WIREGUARD_DISABLE"@)
            && k.addresses.len() > 0 && k.server.allowed_ips.len() > 0 ==> config::wireguard_of(
            env,
            known,
        ) is Some),
{
}

/// An interface that the environment describes without the last login has nothing that it was not
/// told: what may be left open and is, is left out.
pub proof fn interface_has_nothing_else(env: &Environment)
    ensures
        config::wireguard_of(env, None) matches Some(w) ==> {
            &&& environment::set_var(env, "WIREGUARD_PRESHARED_KEY"@) is None
                ==> w.server.preshared_key is None
            &&& environment::positive(
                env,
                "WIREGUARD_PERSISTENT_KEEPALIVE_SECONDS"@,
                u16::MAX as nat,
            ) is None ==> w.server.persistent_keepalive_seconds is None
            &&& environment::list_var(env, "WIREGUARD_DNS"@).len() == 0 ==> w.dns.len() == 0
        },
{
}

/// A field of the identity that the environment does not say is as the last login left it.
pub proof fn file_fills_the_identity(env: &Environment, known: PersistedView)
    ensures
        config::missing_field(env, Some(known)) is None,
        environment::set_var(env, "NODE_ID"@) is None ==> config::loaded(env, Some(known)).node_id
            == known.node_id,
        environment::set_var(env, "NODE_TOKEN"@) is None ==> config::loaded(
            env,
            Some(known),
        ).node_token == known.node_token,
        environment::set_var(env, "AGENT_WS_URL"@) is None && environment::set_var(
            env,
            "API_BASE_URL"@,
        ) is None ==> config::loaded(env, Some(known)).agent_ws_url == known.agent_ws_url,
{
}

/// The environment decides the identity of an agent, whether it logged in or not.
pub proof fn environment_names_the_agent(env: &Environment, known: Option<PersistedView>)
    requires
        environment::set_var(env, "NODE_ID"@) is Some,
        environment::set_var(env, "NODE_TOKEN"@) is Some,
        environment::set_var(env, "AGENT_WS_URL"@) is Some,
    ensures
        config::missing_field(env, known) is None,
        Some(config::loaded(env, known).node_id) == environment::set_var(env, "NODE_ID"@),
        Some(config::loaded(env, known).node_token) == environment::set_var(env, "NODE_TOKEN"@),
        Some(config::loaded(env, known).agent_ws_url) == environment::set_var(
            env,
            "AGENT_WS_URL"@,
        ),
{
}

/// Without a login, a field of the identity that the environment does not say is missing, and the
/// first such field is the one that is told.
pub proof fn missing_field_is_told(env: &Environment)
    ensures
        config::missing_field(env, None) == Some(IdentityField::NodeId) <==> environment::set_var(
            env,
            "NODE_ID"@,
        ) is None,
        config::missing_field(env, None) == Some(IdentityField::NodeToken) <==> (
        environment::set_var(env, "NODE_ID"@) is Some && environment::set_var(env, "NODE_TOKEN"@)
            is None),
        config::missing_field(env, None) == Some(IdentityField::AgentWsUrl) <==> (
        environment::set_var(env, "NODE_ID"@) is Some && environment::set_var(env, "NODE_TOKEN"@)
            is Some && environment::set_var(env, "AGENT_WS_URL"@) is None && environment::set_var(
            env,
            "API_BASE_URL"@,
        ) is None),
{
}

/// A variable that holds a positive number of at most `max` sets a value, which else is
/// `fallback`.
pub open spec fn governs(
    env: &Environment,
    name: Seq<char>,
    max: nat,
    value: nat,
    fallback: nat,
) -> bool {
    match environment::positive(env, name, max) {
        Some(n) => value == n,
        None => value == fallback,
    }
}

/// Each number of the configuration is set by a variable of its own, and has a value that is
/// positive in any case.
pub proof fn numbers_are_set_by_variables(env: &Environment, known: Option<PersistedView>)
    ensures
        ({
            let c: AgentView = config::loaded(env, known);
            let long = u64::MAX as nat;
            &&& governs(env, "PUBLISH_INTERVAL_MS"@, long, c.publish_interval_ms, 5_000)
            &&& governs(
                env,
                "SYSTEM_INFO_CHECK_INTERVAL_MS"@,
                long,
                c.system_info_check_interval_ms,
                600_000,
            )
            &&& governs(
                env,
                "SYSTEM_INFO_REPUBLISH_INTERVAL_MS"@,
                long,
                c.system_info_republish_interval_ms,
                86_400_000,
            )
            &&& governs(env, "RECONNECT_DELAY_MS"@, long, c.reconnect_delay_ms, 3_000)
            &&& governs(env, "WS_CONNECT_TIMEOUT_MS"@, long, c.connect_timeout_ms, 8_000)
            &&& governs(env, "STATIX_MICROVM_CPU"@, u8::MAX as nat, c.microvm_default_cpu, 2)
            &&& governs(
                env,
                "STATIX_MICROVM_MEMORY_MB"@,
                u32::MAX as nat,
                c.microvm_default_memory_mb,
                4096,
            )
            &&& c.publish_interval_ms > 0
            &&& c.reconnect_delay_ms > 0
            &&& c.connect_timeout_ms > 0
            &&& c.microvm_default_cpu > 0
            &&& c.microvm_default_memory_mb > 0
        }),
{
}

/// The image of machines is the one that the environment names, else that of Ubuntu.
pub proof fn image_is_set_by_a_variable(env: &Environment, known: Option<PersistedView>)
    ensures
        environment::set_var(env, "STATIX_MICROVM_IMAGE"@) matches Some(image) ==> config::loaded(
            env,
            known,
        ).microvm_default_image == image,
        environment::set_var(env, "STATIX_MICROVM_IMAGE"@) is None ==> config::loaded(
            env,
            known,
        ).microvm_default_image == "ubuntu-24.04"@,
{
}

/// The configuration file is where the environment says it is; else in the configuration
/// directory that it names, or in that of the user's home; else in the current directory.
pub proof fn config_file_is_found(env: &Environment, cwd: Option<Seq<char>>)
    ensures
        ({
            let named = environment::set_var(env, "STATIX_AGENT_CONFIG"@);
            let xdg = environment::set_var(env, "XDG_CONFIG_HOME"@);
            let appdata = environment::set_var(env, "APPDATA"@);
            let home = environment::set_var(env, "HOME"@);
            let path = config::config_path(env, cwd);
            &&& named is Some ==> path == named
            &&& named is None ==> (xdg matches Some(d) ==> path == Some(
                paths::join(paths::join(d, "statix"@), "agent.json"@),
            ))
            &&& named is None && xdg is None ==> (appdata matches Some(d) ==> path == Some(
                paths::join(paths::join(d, "statix"@), "agent.json"@),
            ))
            &&& named is None && xdg is None && appdata is None ==> (home matches Some(d) ==> path
                == Some(
                paths::join(paths::join(paths::join(d, ".config"@), "statix"@), "agent.json"@),
            ))
            &&& named is None && xdg is None && appdata is None && home is None ==> (cwd matches
                Some(d) ==> path == Some(paths::join(d, ".statix-agent.json"@)))
            &&& path is None ==> named is None && xdg is None && appdata is None && home is None
                && cwd is None
        }),
{
}

/// The agent's state is where the environment says it is; else beside the configuration file.
pub proof fn state_is_found(env: &Environment, cwd: Option<Seq<char>>)
    ensures
        ({
            let named = environment::set_var(env, "STATIX_AGENT_STATE_DIR"@);
            let given = environment::set_var(env, "STATE_DIRECTORY"@);
            let xdg = environment::set_var(env, "XDG_STATE_HOME"@);
            let dir = config::state_dir(env, cwd);
            &&& named is Some ==> dir == named
            &&& named is None && given is Some ==> dir == given
            &&& named is None && given is None ==> (xdg matches Some(d) ==> dir == Some(
                paths::join(d, "statix"@),
            ))
            &&& named is None && given is None && xdg is None ==> (config::config_path(env, cwd)
                matches Some(file) ==> (paths::parent(file) is Some ==> dir == paths::parent(file)))
        }),
{
}

} // verus!
