use statix_agent::config::{
    PersistedAgentConfig, WireGuardConfig, WireGuardPeerConfig,
};
use statix_agent::digest::{hash_key, hash_name, sha256_hex};
use statix_agent::failure::Failure;
use statix_agent::environment::Environment;
use statix_agent::jobs::output::ProcessOutcome;
use statix_agent::string_map::StringMap;
use statix_agent::system_info::gpu::{collect_gpu_info, linux_pci_gpus, nvidia_smi_gpus};
use statix_agent::system_info::mac::{
    collect_mac_addresses, normalize_mac_address, InterfaceAddress,
};
use statix_agent::system_info::version::{load_version_metadata, version_file_candidates};
use statix_agent::system_info::{
    collect_system_info, system_info, tool_output, SystemFacts, VersionMetadata,
};
use statix_agent::wireguard::{
    collect_status, command_output, ensure_applied, parse_interface_addresses, parse_status_dump,
    render_config, resolve_or_generate_identity, runtime_config_path,
};

fn texts(words: &[&str]) -> Vec<String> {
    words.iter().map(|word| word.to_string()).collect()
}

fn wireguard() -> WireGuardConfig {
    WireGuardConfig {
        interface_name: "wg0".to_owned(),
        addresses: texts(&["10.0.0.2/32", "fd00::2/128"]),
        dns: Vec::new(),
        private_key: "private".to_owned(),
        public_key: "public".to_owned(),
        server: WireGuardPeerConfig {
            public_key: "server".to_owned(),
            endpoint: "vpn:51820".to_owned(),
            allowed_ips: texts(&["10.0.0.0/24"]),
            preshared_key: None,
            persistent_keepalive_seconds: None,
        },
    }
}

#[test]
fn normalize_mac_address_accepts_colon_separated_values() {
    assert_eq!(
        normalize_mac_address("AA:BB:CC:DD:EE:FF"),
        Some("aa:bb:cc:dd:ee:ff".to_owned())
    );
}

#[test]
fn normalize_mac_address_accepts_compact_values() {
    assert_eq!(
        normalize_mac_address("aabbccddeeff"),
        Some("aa:bb:cc:dd:ee:ff".to_owned())
    );
}

#[test]
fn normalize_mac_address_rejects_invalid_values() {
    assert_eq!(normalize_mac_address("not-a-mac"), None);
}

#[test]
fn mac_addresses_are_listed_once_and_in_order() {
    let interface = |name: &str, address: Option<&str>| InterfaceAddress {
        name: name.to_owned(),
        address: address.map(str::to_owned),
    };
    let mut interfaces = vec![
        interface("eth1", Some("BB:00:00:00:00:01\n")),
        interface("lo", Some("AA:00:00:00:00:01")),
        interface("eth0", Some("aa:00:00:00:00:02")),
        interface("eth2", Some("bb0000000001")),
        interface("dummy", Some("00:00:00:00:00:00")),
        interface("tun", None),
        interface("ib", Some("aabb")),
    ];
    let expected = texts(&["aa:00:00:00:00:02", "bb:00:00:00:00:01"]);
    assert_eq!(collect_mac_addresses(&interfaces), expected);
    interfaces.reverse();
    assert_eq!(collect_mac_addresses(&interfaces), expected);
}

#[test]
fn graphics_processors_are_listed() {
    let gpus = nvidia_smi_gpus("RTX 4090, 24564, 550.1\n , 1, 2\nTesla, [N/A],\nBig, 99999999999999, x");
    assert_eq!(gpus.len(), 3);
    assert_eq!(gpus[0].name, "RTX 4090");
    assert_eq!(gpus[0].vendor, Some("NVIDIA".to_owned()));
    assert_eq!(gpus[0].memory_bytes, Some(24564 * 1024 * 1024));
    assert_eq!(gpus[0].driver_version, Some("550.1".to_owned()));
    assert_eq!(gpus[1].memory_bytes, None);
    assert_eq!(gpus[1].driver_version, None);
    assert_eq!(gpus[2].memory_bytes, Some(u64::MAX));
    let pci = "00:02.0 3D controller: Intel Corp UHD\n00:1f.3 Audio device: Intel\n01:00.0 Display controller: NVIDIA Corp\n02:00.0 VGA compatible controller: Matrox";
    let gpus = linux_pci_gpus(pci);
    assert_eq!(gpus.len(), 3);
    assert_eq!(gpus[0].name, "02.0 3D controller: Intel Corp UHD");
    assert_eq!(gpus[0].vendor, Some("Intel".to_owned()));
    assert_eq!(gpus[1].vendor, Some("NVIDIA".to_owned()));
    assert_eq!(gpus[2].vendor, Some("AMD".to_owned()));
    assert_eq!(linux_pci_gpus("3d controller")[0].name, "GPU");
    assert_eq!(collect_gpu_info(Some(" , "), Some(pci)).len(), 3);
    assert_eq!(collect_gpu_info(Some("a"), Some(pci)).len(), 1);
    assert!(collect_gpu_info(None, None).is_empty());
}

#[test]
fn versions_are_read() {
    let version = |version: &str, commit: Option<&str>, built_at: Option<&str>| VersionMetadata {
        version: version.to_owned(),
        commit: commit.map(str::to_owned),
        built_at: built_at.map(str::to_owned),
    };
    let found = load_version_metadata(&vec![
        None,
        Some(version(" ", None, None)),
        Some(version(" 1.2 ", Some(" "), Some(" "))),
        Some(version("2", None, None)),
    ])
    .unwrap();
    assert_eq!(found.version, "1.2");
    assert_eq!(found.commit, Some(String::new()));
    assert_eq!(found.built_at, None);
    assert!(load_version_metadata(&Vec::new()).is_none());
    let mut env: Environment = StringMap::new();
    assert_eq!(version_file_candidates(&env, None), texts(&["version.json"]));
    env.insert("STATIX_VERSION_FILE".to_owned(), " /v ".to_owned());
    assert_eq!(
        version_file_candidates(&env, Some("/bin")),
        texts(&["/v", "version.json", "/bin/version.json"])
    );
}

#[test]
fn system_info_is_put_together() {
    let facts = SystemFacts {
        os_platform: "linux".to_owned(),
        kernel_version: None,
        os_arch: "x86_64".to_owned(),
        host_name: Some("host".to_owned()),
        cpu_brand: Some("  ".to_owned()),
        cpu_count: 0,
        total_memory: 0,
    };
    let version = VersionMetadata {
        version: "1".to_owned(),
        commit: Some("c".to_owned()),
        built_at: None,
    };
    let info = system_info(facts, Some(version), None, Vec::new());
    assert_eq!(info.os_release, "unknown");
    assert_eq!(info.hostname, "host");
    assert_eq!(info.cpu_model, "unknown");
    assert_eq!(info.cpu_cores, 1);
    assert_eq!(info.mem_total, 1);
    assert_eq!(info.agent_version, Some("1".to_owned()));
    assert_eq!(info.agent_commit, Some("c".to_owned()));
    let payload = collect_system_info(5, info, b"hello world");
    assert_eq!(payload.v, 1);
    assert_eq!(payload.ts, 5);
    assert_eq!(
        payload.hash,
        "b94d27b9934d3e08a52e52d7da7dabfac484efe37a5380ee9088f7ace2efcde9"
    );
    assert_eq!(tool_output(true, b" x "), Some("x".to_owned()));
    assert_eq!(tool_output(true, b" "), None);
    assert_eq!(tool_output(true, b"\xff"), None);
    assert_eq!(tool_output(false, b"x"), None);
}

#[test]
fn digests_are_computed() {
    assert_eq!(
        sha256_hex(b""),
        "e3b0c44298fc1c149afbf4c8996fb92427ae41e4649b934ca495991b7852b855"
    );
    assert_eq!(hash_name(255), "00000000000000ff");
    let key = hash_key("https://example.com/repo.git");
    assert_eq!(key.len(), 16);
    assert_eq!(key, hash_key("https://example.com/repo.git"));
    assert_ne!(key, hash_key("https://example.com/other.git"));
    let mut hasher = std::collections::hash_map::DefaultHasher::new();
    std::hash::Hash::hash("https://example.com/repo.git", &mut hasher);
    assert_eq!(key, format!("{:016x}", std::hash::Hasher::finish(&hasher)));
}

#[test]
fn interfaces_are_described() {
    let mut config = wireguard();
    assert_eq!(
        render_config(&config),
        "[Interface]\nPrivateKey = private\nAddress = 10.0.0.2/32, fd00::2/128\n\n[Peer]\nPublicKey = server\nEndpoint = vpn:51820\nAllowedIPs = 10.0.0.0/24\n"
    );
    config.dns = texts(&["1.1.1.1", "9.9.9.9"]);
    config.server.preshared_key = Some("psk".to_owned());
    config.server.persistent_keepalive_seconds = Some(25);
    assert_eq!(
        render_config(&config),
        "[Interface]\nPrivateKey = private\nAddress = 10.0.0.2/32, fd00::2/128\nDNS = 1.1.1.1, 9.9.9.9\n\n[Peer]\nPublicKey = server\nEndpoint = vpn:51820\nAllowedIPs = 10.0.0.0/24\nPresharedKey = psk\nPersistentKeepalive = 25\n"
    );
    assert_eq!(runtime_config_path("/s", "wg0"), "/s/wireguard/wg0.conf");
}

#[test]
fn interface_status_is_read() {
    let dump = "priv\t pub2 \t51820\toff\npeer1\t(none)\t(none)\t0.0.0.0/0\t0\t1\t2\toff\npeer2\t(none)\t1.2.3.4:5\t0.0.0.0/0\t1700\t1\t2\toff";
    let status = parse_status_dump(&wireguard(), dump, texts(&["a"]));
    assert_eq!(status.public_key, "pub2");
    assert_eq!(status.peer_endpoint, Some("1.2.3.4:5".to_owned()));
    assert_eq!(status.last_handshake_at, Some(1700));
    assert!(status.connected);
    assert_eq!(status.addresses, texts(&["a"]));
    let status = parse_status_dump(&wireguard(), "", Vec::new());
    assert_eq!(status.public_key, "public");
    assert!(!status.connected);
    assert_eq!(status.peer_endpoint, None);
    let ip = "3: wg0    inet 10.9.0.2/24 scope global wg0\n3: wg0    inet6 fe80::1/64 scope link\n3: wg0 link x";
    assert_eq!(
        parse_interface_addresses(ip, &texts(&["f"])),
        texts(&["10.9.0.2/24", "fe80::1/64"])
    );
    assert_eq!(parse_interface_addresses("", &texts(&["f"])), texts(&["f"]));
    assert!(collect_status(None, Ok(dump), None).is_none());
    let config = wireguard();
    let status = collect_status(Some(&config), Err("wg failed"), Some(ip)).unwrap();
    assert_eq!(status.error, Some("wg failed".to_owned()));
    assert_eq!(status.addresses, texts(&["10.9.0.2/24", "fe80::1/64"]));
    assert_eq!(status.public_key, "public");
    let status = collect_status(Some(&config), Ok(dump), None).unwrap();
    assert_eq!(status.addresses, config.addresses);
    assert_eq!(status.error, None);
}

#[test]
fn program_outputs_are_judged() {
    let exited = |success: bool, stdout: &[u8], stderr: &[u8]| ProcessOutcome::Exited {
        success,
        stdout: stdout.to_vec(),
        stderr: stderr.to_vec(),
    };
    assert_eq!(command_output("wg", exited(true, b" key\n", b""), "").unwrap(), "key");
    let causes = |outcome: ProcessOutcome| command_output("wg", outcome, "exit status: 1").unwrap_err().causes;
    assert_eq!(causes(exited(true, b" ", b"")), texts(&["wg returned empty output"]));
    assert_eq!(causes(exited(false, b"", b" ")), texts(&["wg exited with status exit status: 1"]));
    assert_eq!(causes(exited(false, b"", b"no dev\n")), texts(&["wg failed: no dev"]));
    assert_eq!(
        causes(exited(true, b"\xff", b"")),
        texts(&[
            "command output was not utf-8",
            "invalid utf-8 sequence of 1 bytes from index 0"
        ])
    );
    assert_eq!(causes(ProcessOutcome::TimedOut), texts(&["wg timed out"]));
    assert_eq!(
        causes(ProcessOutcome::NotRun(Failure::new("x".to_owned()))),
        texts(&["failed to spawn wg", "x"])
    );
}

#[test]
fn identities_are_kept() {
    let mut known = PersistedAgentConfig {
        node_id: "n".to_owned(),
        node_token: "t".to_owned(),
        agent_ws_url: "w".to_owned(),
        api_base_url: None,
        wireguard: Some(wireguard()),
    };
    let identity = resolve_or_generate_identity(Some(&known)).unwrap();
    assert_eq!(identity.private_key, "private");
    assert_eq!(identity.public_key, "public");
    let mut blank = wireguard();
    blank.public_key = " ".to_owned();
    known.wireguard = Some(blank);
    assert!(resolve_or_generate_identity(Some(&known)).is_none());
    assert!(resolve_or_generate_identity(None).is_none());
    assert_eq!(ensure_applied(true, "/p", Ok(())).unwrap(), "/p");
    assert_eq!(
        ensure_applied(true, "/p", Err(Failure::new("x".to_owned()))).unwrap_err().causes,
        texts(&["failed to bring up wireguard interface", "x"])
    );
    assert_eq!(
        ensure_applied(false, "/p", Ok(())).unwrap_err().causes,
        texts(&["wireguard auto-apply is currently supported on Linux only"])
    );
}
