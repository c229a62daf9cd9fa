use statix_agent::config::url::{
    api_base_url_from_ws_url, extract_hostname, is_loopback_like_url, normalize_api_base_url,
    normalize_path, resolve_login_api_base_url, to_ws_base_url, trim_trailing_slash,
    DEFAULT_API_BASE_URL,
};
use statix_agent::config::{
    agent_state_dir, load_persisted_config_snapshot, persisted_config_path, resolve_login_config,
    resolve_wireguard_config, save_persisted_config, AgentConfig, IdentityField,
    PersistedAgentConfig, PersistedFile, SavedFile, WireGuardConfig, WireGuardPeerConfig,
};
use statix_agent::environment::{
    env_flag, env_path, parse_csv, parse_positive_int, parse_positive_u32, parse_positive_u8,
    verbose_logs_enabled, Environment,
};
use statix_agent::failure::Failure;
use statix_agent::paths::{path_join, path_parent};
use statix_agent::string_map::StringMap;

fn env(pairs: &[(&str, &str)]) -> Environment {
    let mut map = StringMap::new();
    for (key, value) in pairs {
        map.insert(key.to_string(), value.to_string());
    }
    map
}

fn wireguard() -> WireGuardConfig {
    WireGuardConfig {
        interface_name: "wg0".to_owned(),
        addresses: vec!["10.0.0.2/32".to_owned()],
        dns: vec!["10.0.0.1".to_owned()],
        private_key: "private".to_owned(),
        public_key: "public".to_owned(),
        server: WireGuardPeerConfig {
            public_key: "server".to_owned(),
            endpoint: "vpn.example.com:51820".to_owned(),
            allowed_ips: vec!["10.0.0.0/24".to_owned()],
            preshared_key: Some("shared".to_owned()),
            persistent_keepalive_seconds: Some(25),
        },
    }
}

fn persisted() -> PersistedAgentConfig {
    PersistedAgentConfig {
        node_id: "node-1".to_owned(),
        node_token: "token-1".to_owned(),
        agent_ws_url: "wss://example.com/api/ws/agent".to_owned(),
        api_base_url: None,
        wireguard: Some(wireguard()),
    }
}

#[test]
fn resolve_login_config_uses_hosted_default_when_no_source_exists() {
    let api_base_url = resolve_login_api_base_url(None, None, None);
    assert_eq!(api_base_url, DEFAULT_API_BASE_URL);
}

#[test]
fn resolve_login_config_prefers_explicit_value() {
    let api_base_url = resolve_login_api_base_url(
        Some(" http://example.com:3001/path/ ".to_owned()),
        Some("http://env:3001".to_owned()),
        Some("http://persisted:3001".to_owned()),
    );
    assert_eq!(api_base_url, "http://example.com:3001/path");
}

#[test]
fn resolve_login_config_prefers_env_over_persisted() {
    let api_base_url = resolve_login_api_base_url(
        None,
        Some("http://env:3001/".to_owned()),
        Some("http://persisted:3001".to_owned()),
    );
    assert_eq!(api_base_url, "http://env:3001/api");
}

#[test]
fn resolve_login_config_ignores_persisted_loopback_url() {
    let api_base_url = resolve_login_api_base_url(
        None,
        None,
        Some("http://statix.127.0.0.1.nip.io".to_owned()),
    );
    assert_eq!(api_base_url, DEFAULT_API_BASE_URL);
}

#[test]
fn resolve_login_config_keeps_persisted_non_loopback_url() {
    let api_base_url = resolve_login_api_base_url(
        None,
        None,
        Some("https://selfhosted.example.com/".to_owned()),
    );
    assert_eq!(api_base_url, "https://selfhosted.example.com/api");
}

#[test]
fn resolve_login_config_scopes_hosted_root_url_to_api() {
    let api_base_url =
        resolve_login_api_base_url(Some("https://statix.se".to_owned()), None, None);
    assert_eq!(api_base_url, "https://statix.se/api");
}

#[test]
fn normalize_api_base_url_scopes_hosted_subdomain_root_url_to_api() {
    let api_base_url = normalize_api_base_url("https://dev.statix.se/");
    assert_eq!(api_base_url, "https://dev.statix.se/api");
}

#[test]
fn normalize_api_base_url_keeps_api_path() {
    let api_base_url = normalize_api_base_url("https://dev.statix.se/api/");
    assert_eq!(api_base_url, "https://dev.statix.se/api");
}

#[test]
fn resolve_login_config_scopes_local_root_url_to_api() {
    let api_base_url =
        resolve_login_api_base_url(Some("http://localhost:3001/".to_owned()), None, None);
    assert_eq!(api_base_url, "http://localhost:3001/api");
}

#[test]
fn normal_form_is_kept_on_another_pass() {
    for url in ["https://a.example", "http://b/x//", "c:8080", "", "http://", "  d/api "] {
        let once = normalize_api_base_url(url);
        assert_eq!(normalize_api_base_url(&once), once);
    }
    assert_eq!(normalize_api_base_url("http://"), "http:/api");
    assert_eq!(normalize_api_base_url("  "), "");
}

#[test]
fn hostnames_are_found() {
    assert_eq!(extract_hostname("https://Example.COM:443/x"), Some("example.com".to_owned()));
    assert_eq!(extract_hostname("http://[::1]:80/"), Some("::1".to_owned()));
    assert_eq!(extract_hostname("[fe80::1"), None);
    assert_eq!(extract_hostname("localhost"), Some("localhost".to_owned()));
    assert_eq!(extract_hostname("http:///path"), None);
    assert_eq!(extract_hostname("http://:80"), None);
    assert_eq!(extract_hostname(""), None);
}

#[test]
fn loopback_addresses_are_known() {
    assert!(is_loopback_like_url("http://localhost:3001"));
    assert!(is_loopback_like_url("http://127.0.0.1"));
    assert!(is_loopback_like_url("http://[::1]/api"));
    assert!(is_loopback_like_url("https://x.NIP.io"));
    assert!(!is_loopback_like_url("https://statix.se"));
    assert!(!is_loopback_like_url(""));
}

#[test]
fn websocket_addresses_have_their_scheme() {
    assert_eq!(to_ws_base_url("https://a"), "wss://a");
    assert_eq!(to_ws_base_url("http://a"), "ws://a");
    assert_eq!(to_ws_base_url("ws://a"), "ws://a");
    assert_eq!(to_ws_base_url("wss://a"), "wss://a");
    assert_eq!(to_ws_base_url("a:1"), "ws://a:1");
    assert_eq!(normalize_path("x"), "/x");
    assert_eq!(normalize_path("/x"), "/x");
    assert_eq!(trim_trailing_slash("a//"), "a");
}

#[test]
fn server_is_found_again_from_its_websocket() {
    for url in ["http://host:3001", "https://host/api", "https://x"] {
        let ws = format!("{}/api/ws/agent", to_ws_base_url(url));
        assert_eq!(api_base_url_from_ws_url(&ws), url);
    }
    assert_eq!(api_base_url_from_ws_url("ws://host/ws/agent"), "http://host/api");
    assert_eq!(api_base_url_from_ws_url("wss://host/other"), "https://host/other");
    assert_eq!(api_base_url_from_ws_url("host"), "host/api");
}

#[test]
fn environment_values_are_read() {
    let e = env(&[
        ("A", " yes "),
        ("B", "off"),
        ("C", " 12 "),
        ("D", "0"),
        ("E", "256"),
        ("F", "  "),
        ("G", "ON"),
        ("H", "+7"),
        ("STATIX_VERBOSE_LOGS", "1"),
    ]);
    assert!(env_flag(&e, "A"));
    assert!(env_flag(&e, "G"));
    assert!(!env_flag(&e, "B"));
    assert!(!env_flag(&e, "MISSING"));
    assert!(verbose_logs_enabled(&e));
    assert!(!verbose_logs_enabled(&env(&[])));
    assert_eq!(parse_positive_int(&e, "C", 5), 12);
    assert_eq!(parse_positive_int(&e, "D", 5), 5);
    assert_eq!(parse_positive_int(&e, "A", 5), 5);
    assert_eq!(parse_positive_int(&e, "H", 5), 7);
    assert_eq!(parse_positive_u8(&e, "E", 2), 2);
    assert_eq!(parse_positive_u32(&e, "E", 2), 256);
    assert_eq!(env_path(&e, "F"), None);
    assert_eq!(env_path(&e, "C"), Some("12".to_owned()));
    assert_eq!(parse_csv(" a, b ,,c "), vec!["a", "b", "c"]);
    assert!(parse_csv("").is_empty());
}

#[test]
fn agent_config_comes_from_the_file() {
    let config = AgentConfig::load(&env(&[]), "/etc/agent.json", true, Some(&persisted()))
        .unwrap()
        .unwrap();
    assert_eq!(config.node_id, "node-1");
    assert_eq!(config.node_token, "token-1");
    assert_eq!(config.agent_ws_url, "wss://example.com/api/ws/agent");
    assert_eq!(config.api_base_url, "https://example.com/api");
    assert_eq!(config.publish_interval_ms, 5_000);
    assert_eq!(config.system_info_check_interval_ms, 600_000);
    assert_eq!(config.system_info_republish_interval_ms, 86_400_000);
    assert_eq!(config.reconnect_delay_ms, 3_000);
    assert_eq!(config.connect_timeout_ms, 8_000);
    assert_eq!(config.wireguard, Some(wireguard()));
    assert_eq!(config.microvm_default_image, "ubuntu-24.04");
    assert_eq!(config.microvm_default_cpu, 2);
    assert_eq!(config.microvm_default_memory_mb, 4096);
}

#[test]
fn agent_config_comes_from_the_environment_first() {
    let e = env(&[
        ("NODE_ID", " n "),
        ("NODE_TOKEN", "t"),
        ("API_BASE_URL", "https://api.example/"),
        ("NODE_WS_PATH", "socket"),
        ("PUBLISH_INTERVAL_MS", "10"),
        ("STATIX_MICROVM_CPU", "4"),
        ("STATIX_MICROVM_IMAGE", "other"),
        ("WIREGUARD_DISABLE", "true"),
    ]);
    let config = AgentConfig::load(&e, "/etc/agent.json", true, Some(&persisted()))
        .unwrap()
        .unwrap();
    assert_eq!(config.node_id, "n");
    assert_eq!(config.node_token, "t");
    assert_eq!(config.agent_ws_url, "wss://api.example/socket");
    assert_eq!(config.api_base_url, "https://api.example/api");
    assert_eq!(config.publish_interval_ms, 10);
    assert_eq!(config.microvm_default_cpu, 4);
    assert_eq!(config.microvm_default_image, "other");
    assert_eq!(config.wireguard, None);
}

#[test]
fn agent_config_is_missing_or_incomplete() {
    assert!(AgentConfig::load(&env(&[]), "/c", false, None).unwrap().is_none());
    let error = AgentConfig::load(&env(&[]), "/c", true, None).unwrap_err();
    assert_eq!(error.field, IdentityField::NodeId);
    assert_eq!(
        error.message(),
        "Agent identity field `node_id` was not found in /c and NODE_ID is not set."
    );
    let error = AgentConfig::load(&env(&[("NODE_ID", "n")]), "/c", true, None).unwrap_err();
    assert_eq!(
        error.message(),
        "Agent identity field `node_token` was not found in /c and NODE_TOKEN is not set."
    );
    let e = env(&[("NODE_ID", "n"), ("NODE_TOKEN", "t")]);
    let error = AgentConfig::load(&e, "/c", true, None).unwrap_err();
    assert_eq!(
        error.message(),
        "Agent identity field `agent_ws_url` was not found in /c and AGENT_WS_URL/API_BASE_URL are not set."
    );
}

#[test]
fn wireguard_is_completed_from_the_environment() {
    let e = env(&[("WIREGUARD_ADDRESSES", "10.1.0.2/32, fd00::2/128")]);
    let config = resolve_wireguard_config(&e, Some(&persisted())).unwrap();
    assert_eq!(config.addresses, vec!["10.1.0.2/32", "fd00::2/128"]);
    assert_eq!(config.interface_name, "wg0");
    assert_eq!(config.server.persistent_keepalive_seconds, Some(25));
    assert!(resolve_wireguard_config(&e, None).is_none());
    assert_eq!(resolve_wireguard_config(&env(&[]), Some(&persisted())), Some(wireguard()));
    let whole = env(&[
        ("WIREGUARD_INTERFACE_NAME", "wg1"),
        ("WIREGUARD_ADDRESSES", "10.1.0.2/32"),
        ("WIREGUARD_PRIVATE_KEY", "a"),
        ("WIREGUARD_PUBLIC_KEY", "b"),
        ("WIREGUARD_SERVER_PUBLIC_KEY", "c"),
        ("WIREGUARD_SERVER_ENDPOINT", "d:1"),
        ("WIREGUARD_ALLOWED_IPS", "0.0.0.0/0"),
        ("WIREGUARD_PERSISTENT_KEEPALIVE_SECONDS", "70000"),
    ]);
    let config = resolve_wireguard_config(&whole, None).unwrap();
    assert_eq!(config.interface_name, "wg1");
    assert!(config.dns.is_empty());
    assert_eq!(config.server.preshared_key, None);
    assert_eq!(config.server.persistent_keepalive_seconds, None);
}

#[test]
fn login_config_is_resolved() {
    let mut known = persisted();
    known.api_base_url = Some("https://kept.example".to_owned());
    let login = resolve_login_config(None, &env(&[]), Some(&known));
    assert_eq!(login.api_base_url, "https://kept.example/api");
    let login = resolve_login_config(None, &env(&[("API_BASE_URL", "http://e")]), Some(&known));
    assert_eq!(login.api_base_url, "http://e/api");
    let login = resolve_login_config(Some("http://x/y".to_owned()), &env(&[]), None);
    assert_eq!(login.api_base_url, "http://x/y");
}

#[test]
fn configuration_paths_are_found() {
    assert_eq!(
        persisted_config_path(&env(&[("STATIX_AGENT_CONFIG", " /a.json ")]), None),
        Some("/a.json".to_owned())
    );
    assert_eq!(
        persisted_config_path(&env(&[("XDG_CONFIG_HOME", "/x")]), None),
        Some("/x/statix/agent.json".to_owned())
    );
    assert_eq!(
        persisted_config_path(&env(&[("APPDATA", "/d/")]), None),
        Some("/d/statix/agent.json".to_owned())
    );
    assert_eq!(
        persisted_config_path(&env(&[("HOME", "/h")]), None),
        Some("/h/.config/statix/agent.json".to_owned())
    );
    assert_eq!(
        persisted_config_path(&env(&[]), Some("/w")),
        Some("/w/.statix-agent.json".to_owned())
    );
    assert_eq!(persisted_config_path(&env(&[]), None), None);
    assert_eq!(
        agent_state_dir(&env(&[("STATIX_AGENT_STATE_DIR", "/s")]), None),
        Some("/s".to_owned())
    );
    assert_eq!(
        agent_state_dir(&env(&[("STATE_DIRECTORY", "/t"), ("HOME", "/h")]), None),
        Some("/t".to_owned())
    );
    assert_eq!(
        agent_state_dir(&env(&[("XDG_STATE_HOME", "/u")]), None),
        Some("/u/statix".to_owned())
    );
    assert_eq!(
        agent_state_dir(&env(&[("HOME", "/h")]), None),
        Some("/h/.config/statix".to_owned())
    );
    assert_eq!(
        agent_state_dir(&env(&[("STATIX_AGENT_CONFIG", "/")]), Some("/w")),
        Some("/w".to_owned())
    );
    assert_eq!(agent_state_dir(&env(&[]), None), None);
}

#[test]
fn paths_are_joined_and_divided_as_std_does() {
    let bases = ["", "/", "a", "a/", "/a/b", "./", ".", "..", "a//"];
    let components = ["", "b", "/c", "b/c", ".", "..", "./d", "x/"];
    for base in bases {
        for component in components {
            let expected = std::path::Path::new(base).join(component);
            assert_eq!(path_join(base, component), expected.to_str().unwrap());
        }
    }
    let paths = [
        "", "/", "//", "a", "/a", "a/b", "a/b/", "a//b", "/a/./b/.", ".", "./", "./a", "./.", "..",
        "../a", "a/..", "/.", "/./a", "a/.", "a/./", ".a", ".a/b", "./..", "/a//", "a/b/./.",
    ];
    for path in paths {
        let expected = std::path::Path::new(path).parent().map(|p| p.to_str().unwrap().to_owned());
        assert_eq!(path_parent(path), expected, "{path}");
    }
}

#[test]
fn configuration_files_are_reported() {
    assert!(load_persisted_config_snapshot("/c", PersistedFile::Absent).unwrap().is_none());
    let found = load_persisted_config_snapshot("/c", PersistedFile::Holds(persisted()))
        .unwrap()
        .unwrap();
    assert_eq!(found.node_id, "node-1");
    let error = load_persisted_config_snapshot(
        "/c",
        PersistedFile::Unreadable(Failure::new("denied".to_owned())),
    )
    .unwrap_err();
    assert_eq!(error.causes, vec!["failed to read /c", "denied"]);
    let error = load_persisted_config_snapshot(
        "/c",
        PersistedFile::Invalid(Failure::new("eof".to_owned())),
    )
    .unwrap_err();
    assert_eq!(error.causes, vec!["invalid /c", "eof"]);
    assert_eq!(save_persisted_config("/d/c", SavedFile::Written).unwrap(), "/d/c");
    let error =
        save_persisted_config("/d/c", SavedFile::NoDirectory(Failure::new("no".to_owned())))
            .unwrap_err();
    assert_eq!(error.causes, vec!["failed to create /d", "no"]);
    let error = save_persisted_config("/d/c", SavedFile::Unwritable(Failure::new("no".to_owned())))
        .unwrap_err();
    assert_eq!(error.causes, vec!["failed to write /d/c", "no"]);
}

#[test]
fn string_maps_are_ordered() {
    let mut map: StringMap<u8> = StringMap::new();
    assert!(map.is_empty());
    map.insert("b".to_owned(), 1);
    map.insert("a".to_owned(), 2);
    map.insert("c".to_owned(), 3);
    map.insert("b".to_owned(), 4);
    assert_eq!(map.len(), 3);
    assert_eq!(map.key(0), "a");
    assert_eq!(map.key(1), "b");
    assert_eq!(*map.value(1), 4);
    assert_eq!(map.get("c"), Some(&3));
    assert_eq!(map.get("d"), None);
    let mut first = env(&[("x", "1"), ("y", "2")]);
    first.extend(&env(&[("y", "3"), ("z", "4")]));
    assert_eq!(first.get("x").unwrap(), "1");
    assert_eq!(first.get("y").unwrap(), "3");
    assert_eq!(first.get("z").unwrap(), "4");
    assert_eq!(first.copy().len(), 3);
}
