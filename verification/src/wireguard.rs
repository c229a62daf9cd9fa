//! The WireGuard interface that connects the node to the server.

use crate::bytes;
use crate::config::{PersistedAgentConfig, WireGuardConfig, WireGuardView};
use crate::failure::Failure;
use crate::jobs::output::ProcessOutcome;
use crate::paths;
use crate::text::{chars, number, split, trim};
use vstd::prelude::*;
use vstd::utf8::{decode_utf8, valid_utf8};

pub mod laws;

verus! {

/// The keys of the node.
#[derive(Debug, Clone)]
pub struct WireGuardIdentity {
    pub private_key: String,
    pub public_key: String,
}

/// What the node tells of its interface.
#[derive(Debug, Clone)]
pub struct WireGuardStatus {
    pub interface_name: String,
    pub public_key: String,
    pub addresses: Vec<String>,
    pub connected: bool,
    pub last_handshake_at: Option<u64>,
    pub peer_endpoint: Option<String>,
    pub error: Option<String>,
}

/// The texts of what the node tells of its interface.
pub struct StatusView {
    pub interface_name: Seq<char>,
    pub public_key: Seq<char>,
    pub addresses: Seq<Seq<char>>,
    pub connected: bool,
    pub last_handshake_at: Option<u64>,
    pub peer_endpoint: Option<Seq<char>>,
    pub error: Option<Seq<char>>,
}

impl View for WireGuardStatus {
    type V = StatusView;

    open spec fn view(&self) -> StatusView {
        StatusView {
            interface_name: self.interface_name@,
            public_key: self.public_key@,
            addresses: chars::texts(self.addresses@),
            connected: self.connected,
            last_handshake_at: self.last_handshake_at,
            peer_endpoint: chars::opt_text(self.peer_endpoint),
            error: chars::opt_text(self.error),
        }
    }
}

/// An interface has both its keys.
pub open spec fn has_keys(config: WireGuardView) -> bool {
    trim::trim(config.private_key).len() > 0 && trim::trim(config.public_key).len() > 0
}

/// The keys are those that the last login left, where it left both.
pub open spec fn keeps_keys(
    persisted: Option<&PersistedAgentConfig>,
    r: Option<WireGuardIdentity>,
) -> bool {
    match persisted {
        Some(p) => match p.wireguard {
            Some(wireguard) => if has_keys(wireguard@) {
                r matches Some(identity) && identity.private_key == wireguard.private_key
                    && identity.public_key == wireguard.public_key
            } else {
                r is None
            },
            None => r is None,
        },
        None => r is None,
    }
}

/// The keys that the last login left, where it left both; new ones are made where it did not.
pub fn resolve_or_generate_identity(persisted: Option<&PersistedAgentConfig>) -> (r: Option<
    WireGuardIdentity,
>)
    ensures
        keeps_keys(persisted, r),
{
    let wireguard = match persisted {
        Some(p) => match &p.wireguard {
            Some(wireguard) => wireguard,
            None => {
                return None;
            },
        },
        None => {
            return None;
        },
    };
    if trim::trimmed(&wireguard.private_key).as_str().is_empty() || trim::trimmed(
        &wireguard.public_key,
    ).as_str().is_empty() {
        return None;
    }
    Some(
        WireGuardIdentity {
            private_key: wireguard.private_key.clone(),
            public_key: wireguard.public_key.clone(),
        },
    )
}

/// The file that describes the interface to `wg-quick`.
pub fn runtime_config_path(state_dir: &str, interface_name: &str) -> (r: String)
    ensures
        r@ == paths::join(paths::join(state_dir@, "wireguard"@), interface_name@ + ".conf"@),
{
    paths::path_join(&paths::path_join(state_dir, "wireguard"), &chars::cat(interface_name, ".conf"))
}

/// The interface that the file at `path` describes was brought up, or why not.
pub open spec fn applied(
    linux: bool,
    path: Seq<char>,
    up: Result<(), Failure>,
    r: Result<String, Failure>,
) -> bool {
    if !linux {
        r matches Err(failure) && failure.texts() == seq![
            "wireguard auto-apply is currently supported on Linux only"@,
        ]
    } else {
        match up {
            Ok(()) => r matches Ok(done) && done@ == path,
            Err(cause) => r matches Err(failure) && failure.texts() == seq![
                "failed to bring up wireguard interface"@,
            ] + cause.texts(),
        }
    }
}

/// Decides whether the interface that the file at `path` describes was brought up.
pub fn ensure_applied(linux: bool, path: &str, up: Result<(), Failure>) -> (r: Result<
    String,
    Failure,
>)
    ensures
        applied(linux, path@, up, r),
{
    if !linux {
        return Err(
            Failure::new(
                "wireguard auto-apply is currently supported on Linux only".to_owned(),
            ),
        );
    }
    match up {
        Ok(()) => Ok(path.to_owned()),
        Err(cause) => Err(cause.context("failed to bring up wireguard interface".to_owned())),
    }
}

/// The lines that describe an interface to `wg-quick`.
pub open spec fn config_lines(config: WireGuardView) -> Seq<Seq<char>> {
    seq![
        "[Interface]"@,
        "PrivateKey = "@ + config.private_key,
        "Address = "@ + split::join(config.addresses, ", "@),
    ] + (if config.dns.len() == 0 {
        seq![]
    } else {
        seq!["DNS = "@ + split::join(config.dns, ", "@)]
    }) + seq![
        ""@,
        "[Peer]"@,
        "PublicKey = "@ + config.server.public_key,
        "Endpoint = "@ + config.server.endpoint,
        "AllowedIPs = "@ + split::join(config.server.allowed_ips, ", "@),
    ] + (match config.server.preshared_key {
        Some(key) => seq!["PresharedKey = "@ + key],
        None => seq![],
    }) + (match config.server.persistent_keepalive_seconds {
        Some(seconds) => seq!["PersistentKeepalive = "@ + number::decimal(seconds as nat)],
        None => seq![],
    }) + seq![""@]
}

/// Describes an interface to `wg-quick`.
pub fn render_config(config: &WireGuardConfig) -> (r: String)
    ensures
        r@ == split::join(config_lines(config@), "\n"@),
{
    let mut lines = chars::no_texts();
    chars::push_text(&mut lines, "[Interface]");
    chars::push_text(&mut lines, &chars::cat("PrivateKey = ", &config.private_key));
    chars::push_text(
        &mut lines,
        &chars::cat("Address = ", &split::joined(&config.addresses, ", ")),
    );
    let ghost done = chars::texts(lines@);
    proof {
        assert(chars::texts(config.dns@).len() == config.dns@.len());
    }
    if config.dns.len() > 0 {
        chars::push_text(&mut lines, &chars::cat("DNS = ", &split::joined(&config.dns, ", ")));
    }
    let ghost dns = if config.dns@.len() == 0 {
        Seq::<Seq<char>>::empty()
    } else {
        seq!["DNS = "@ + split::join(chars::texts(config.dns@), ", "@)]
    };
    proof {
        assert(chars::texts(lines@) =~= done + dns);
    }
    let mut peer = chars::no_texts();
    chars::push_text(&mut peer, "");
    chars::push_text(&mut peer, "[Peer]");
    chars::push_text(&mut peer, &chars::cat("PublicKey = ", &config.server.public_key));
    chars::push_text(&mut peer, &chars::cat("Endpoint = ", &config.server.endpoint));
    chars::push_text(
        &mut peer,
        &chars::cat("AllowedIPs = ", &split::joined(&config.server.allowed_ips, ", ")),
    );
    chars::push_texts(&mut lines, &peer);
    let ghost with_peer = chars::texts(lines@);
    if let Some(key) = &config.server.preshared_key {
        chars::push_text(&mut lines, &chars::cat("PresharedKey = ", key));
    }
    let ghost key = match config@.server.preshared_key {
        Some(key) => seq!["PresharedKey = "@ + key],
        None => seq![],
    };
    proof {
        assert(chars::texts(lines@) =~= with_peer + key);
    }
    if let Some(seconds) = config.server.persistent_keepalive_seconds {
        chars::push_text(
            &mut lines,
            &chars::cat("PersistentKeepalive = ", &number::decimal_text(seconds as u64)),
        );
    }
    let ghost keepalive = match config@.server.persistent_keepalive_seconds {
        Some(seconds) => seq!["PersistentKeepalive = "@ + number::decimal(seconds as nat)],
        None => seq![],
    };
    proof {
        assert(chars::texts(lines@) =~= with_peer + key + keepalive);
    }
    chars::push_text(&mut lines, "");
    proof {
        assert(chars::texts(lines@) =~= config_lines(config@));
    }
    split::joined(&lines, "\n")
}

/// The public key that the first line of `wg show dump` tells, else that of the configuration.
pub open spec fn told_key(line: Seq<char>, known: Seq<char>) -> Seq<char> {
    let parts = split::split(line, '\t');
    if parts.len() > 1 && trim::trim(parts[1]).len() > 0 {
        trim::trim(parts[1])
    } else {
        known
    }
}

/// The endpoint of the peer that a line of `wg show dump` tells.
pub open spec fn line_endpoint(line: Seq<char>) -> Option<Seq<char>> {
    let parts = split::split(line, '\t');
    if parts.len() > 2 && trim::trim(parts[2]).len() > 0 && trim::trim(parts[2]) != "(none)"@ {
        Some(trim::trim(parts[2]))
    } else {
        None
    }
}

/// The time of the last handshake that a line of `wg show dump` tells.
pub open spec fn line_handshake(line: Seq<char>) -> Option<nat> {
    let parts = split::split(line, '\t');
    if parts.len() > 4 {
        match number::parse(trim::trim(parts[4]), u64::MAX as nat) {
            Some(time) => if time > 0 {
                Some(time)
            } else {
                None
            },
            None => None,
        }
    } else {
        None
    }
}

/// The first endpoint that lines tell.
pub open spec fn first_endpoint(lines: Seq<Seq<char>>) -> Option<Seq<char>>
    decreases lines.len(),
{
    if lines.len() == 0 {
        None
    } else {
        match first_endpoint(lines.drop_last()) {
            Some(endpoint) => Some(endpoint),
            None => line_endpoint(lines.last()),
        }
    }
}

/// The first handshake that lines tell.
pub open spec fn first_handshake(lines: Seq<Seq<char>>) -> Option<nat>
    decreases lines.len(),
{
    if lines.len() == 0 {
        None
    } else {
        match first_handshake(lines.drop_last()) {
            Some(time) => Some(time),
            None => line_handshake(lines.last()),
        }
    }
}

/// The lines after the first one.
pub open spec fn peer_lines(output: Seq<char>) -> Seq<Seq<char>> {
    let lines = split::lines(output);
    if lines.len() == 0 {
        seq![]
    } else {
        lines.skip(1)
    }
}

/// What the node tells of its interface, over the output of `wg show dump`: it is connected once
/// there was a handshake.
pub open spec fn dump_status(
    config: WireGuardView,
    output: Seq<char>,
    addresses: Seq<Seq<char>>,
) -> StatusView {
    let lines = split::lines(output);
    let handshake = first_handshake(peer_lines(output));
    StatusView {
        interface_name: config.interface_name,
        public_key: told_key(
            if lines.len() == 0 {
                seq![]
            } else {
                lines[0]
            },
            config.public_key,
        ),
        addresses,
        connected: handshake is Some,
        last_handshake_at: match handshake {
            Some(time) => Some(time as u64),
            None => None,
        },
        peer_endpoint: first_endpoint(peer_lines(output)),
        error: None,
    }
}

/// The piece at a position, without the blanks around it.
fn trimmed_piece(pieces: &Vec<String>, at: usize) -> (r: Option<String>)
    ensures
        chars::opt_text(r) == (if at < chars::texts(pieces@).len() {
            Some(trim::trim(chars::texts(pieces@)[at as int]))
        } else {
            None
        }),
{
    if at < pieces.len() {
        Some(trim::trimmed(&pieces[at]))
    } else {
        None
    }
}

/// Reads the output of `wg show dump`.
pub fn parse_status_dump(config: &WireGuardConfig, output: &str, addresses: Vec<String>) -> (r:
    WireGuardStatus)
    ensures
        r@ == dump_status(config@, output@, chars::texts(addresses@)),
{
    let lines = split::lines_of(output);
    let ghost all = chars::texts(lines@);
    proof {
        assert(all.len() == lines@.len());
        assert(forall|i: int| 0 <= i < all.len() ==> #[trigger] all[i] == lines@[i]@);
    }
    let interface_line = if lines.len() == 0 {
        String::new()
    } else {
        lines[0].clone()
    };
    let interface_parts = split::pieces(&interface_line, '\t');
    let public_key = match trimmed_piece(&interface_parts, 1) {
        Some(key) => if key.as_str().is_empty() {
            config.public_key.clone()
        } else {
            key
        },
        None => config.public_key.clone(),
    };
    proof {
        assert(interface_line@ =~= if all.len() == 0 {
            seq![]
        } else {
            all[0]
        });
    }
    let ghost peers = peer_lines(output@);
    let mut last_handshake_at: Option<u64> = None;
    let mut peer_endpoint: Option<String> = None;
    let mut i: usize = 1;
    proof {
        assert(peers.take(0) =~= seq![]);
    }
    while i < lines.len()
        invariant
            1 <= i,
            all == chars::texts(lines@),
            all == split::lines(output@),
            all.len() == lines@.len(),
            peers == peer_lines(output@),
            lines@.len() > 0 ==> i <= lines@.len(),
            lines@.len() == 0 ==> i == 1,
            chars::opt_text(peer_endpoint) == first_endpoint(peers.take(i - 1)),
            match last_handshake_at {
                Some(time) => first_handshake(peers.take(i - 1)) == Some(time as nat),
                None => first_handshake(peers.take(i - 1)) is None,
            },
        decreases lines.len() - i,
    {
        let parts = split::pieces(&lines[i], '\t');
        proof {
            assert(peers[i - 1] == all[i as int]);
            assert(all[i as int] == lines@[i as int]@);
            assert(peers.take(i as int).drop_last() =~= peers.take(i - 1));
            assert(peers.take(i as int).last() == lines@[i as int]@);
        }
        if peer_endpoint.is_none() {
            peer_endpoint = match trimmed_piece(&parts, 2) {
                Some(endpoint) => if endpoint.as_str().is_empty() || chars::same(
                    &endpoint,
                    "(none)",
                ) {
                    None
                } else {
                    Some(endpoint)
                },
                None => None,
            };
        }
        if last_handshake_at.is_none() {
            last_handshake_at = match trimmed_piece(&parts, 4) {
                Some(text) => match number::parsed(&text, u64::MAX) {
                    Some(time) => if time > 0 {
                        Some(time)
                    } else {
                        None
                    },
                    None => None,
                },
                None => None,
            };
        }
        i += 1;
    }
    proof {
        assert(peers.take(i - 1) =~= peers);
    }
    WireGuardStatus {
        interface_name: config.interface_name.clone(),
        public_key,
        addresses,
        connected: last_handshake_at.is_some(),
        last_handshake_at,
        peer_endpoint,
        error: None,
    }
}

/// The address that a line of `ip address` tells.
pub open spec fn line_address(line: Seq<char>) -> Option<Seq<char>> {
    let parts = split::words(line);
    if parts.len() > 3 && (parts[2] == "inet"@ || parts[2] == "inet6"@) {
        Some(parts[3])
    } else {
        None
    }
}

/// The addresses that lines of `ip address` tell.
pub open spec fn line_addresses(lines: Seq<Seq<char>>) -> Seq<Seq<char>>
    decreases lines.len(),
{
    if lines.len() == 0 {
        seq![]
    } else {
        let before = line_addresses(lines.drop_last());
        match line_address(lines.last()) {
            Some(address) => before.push(address),
            None => before,
        }
    }
}

/// The addresses of the interface, over the output of `ip address`, else those that it should
/// have.
pub open spec fn interface_addresses(output: Seq<char>, fallback: Seq<Seq<char>>) -> Seq<
    Seq<char>,
> {
    let told = line_addresses(split::lines(output));
    if told.len() == 0 {
        fallback
    } else {
        told
    }
}

/// Reads the output of `ip address`.
pub fn parse_interface_addresses(output: &str, fallback: &Vec<String>) -> (r: Vec<String>)
    ensures
        chars::texts(r@) == interface_addresses(output@, chars::texts(fallback@)),
{
    let lines = split::lines_of(output);
    let ghost all = chars::texts(lines@);
    let mut addresses = chars::no_texts();
    let mut i: usize = 0;
    while i < lines.len()
        invariant
            i <= lines.len(),
            all == chars::texts(lines@),
            chars::texts(addresses@) == line_addresses(all.take(i as int)),
        decreases lines.len() - i,
    {
        let parts = split::words_of(&lines[i]);
        proof {
            assert(all.take(i + 1).drop_last() =~= all.take(i as int));
            assert(all.take(i + 1).last() == lines@[i as int]@);
            assert(chars::texts(parts@).len() == parts@.len());
            assert(forall|j: int|
                0 <= j < parts@.len() ==> #[trigger] chars::texts(parts@)[j] == parts@[j]@);
        }
        if parts.len() > 3 && (chars::same(&parts[2], "inet") || chars::same(&parts[2], "inet6")) {
            chars::push_text(&mut addresses, &parts[3]);
        }
        i += 1;
    }
    proof {
        assert(all.take(i as int) =~= all);
        assert(chars::texts(addresses@).len() == addresses@.len());
    }
    if addresses.len() == 0 {
        chars::copy_texts(fallback)
    } else {
        addresses
    }
}

/// What the node tells of an interface of which `wg` tells nothing, but for this error.
pub open spec fn failed_status(
    config: WireGuardView,
    error: Seq<char>,
    addresses: Seq<Seq<char>>,
) -> StatusView {
    StatusView {
        interface_name: config.interface_name,
        public_key: config.public_key,
        addresses,
        connected: false,
        last_handshake_at: None,
        peer_endpoint: None,
        error: Some(error),
    }
}

/// The node tells this of its interface.
pub open spec fn status_told(
    config: Option<&WireGuardConfig>,
    dump: Result<&str, &str>,
    ip_output: Option<&str>,
    r: Option<WireGuardStatus>,
) -> bool {
    match config {
        Some(config) => {
            let addresses = match ip_output {
                Some(output) => interface_addresses(output@, chars::texts(config.addresses@)),
                None => chars::texts(config.addresses@),
            };
            &&& r matches Some(status)
            &&& status@ == match dump {
                Ok(output) => dump_status(config@, output@, addresses),
                Err(error) => failed_status(config@, error@, addresses),
            }
        },
        None => r is None,
    }
}

/// What the node tells of its interface, over the output or the error of `wg show dump` and the
/// output of `ip address`, where there is any.
pub fn collect_status(
    config: Option<&WireGuardConfig>,
    dump: Result<&str, &str>,
    ip_output: Option<&str>,
) -> (r: Option<WireGuardStatus>)
    ensures
        status_told(config, dump, ip_output, r),
{
    match config {
        Some(config) => {
            let addresses = match ip_output {
                Some(output) => parse_interface_addresses(output, &config.addresses),
                None => chars::copy_texts(&config.addresses),
            };
            match dump {
                Ok(output) => Some(parse_status_dump(config, output, addresses)),
                Err(error) => Some(
                    WireGuardStatus {
                        interface_name: config.interface_name.clone(),
                        public_key: config.public_key.clone(),
                        addresses,
                        connected: false,
                        last_handshake_at: None,
                        peer_endpoint: None,
                        error: Some(error.to_owned()),
                    },
                ),
            }
        },
        None => None,
    }
}

/// What a program gave: what came of running it, over its exit status in text.
pub open spec fn program_output(program: Seq<char>, outcome: ProcessOutcome, status: Seq<char>) -> Result<
    Seq<char>,
    Seq<Seq<char>>,
> {
    match outcome {
        ProcessOutcome::TimedOut => Err(seq![program + " timed out"@]),
        ProcessOutcome::NotRun(cause) => Err(seq!["failed to spawn "@ + program] + cause.texts()),
        ProcessOutcome::Exited { success, stdout, stderr } => if !success {
            let said = trim::trim(bytes::utf8_lossy(stderr@));
            if said.len() == 0 {
                Err(seq![program + " exited with status "@ + status])
            } else {
                Err(seq![program + " failed: "@ + said])
            }
        } else if !valid_utf8(stdout@) {
            Err(seq!["command output was not utf-8"@, bytes::utf8_error(stdout@)])
        } else if trim::trim(decode_utf8(stdout@)).len() == 0 {
            Err(seq![program + " returned empty output"@])
        } else {
            Ok(trim::trim(decode_utf8(stdout@)))
        },
    }
}

/// Decides what a program gave: its output without the blanks around it, where there is any.
pub fn command_output(program: &str, outcome: ProcessOutcome, status: &str) -> (r: Result<
    String,
    Failure,
>)
    ensures
        match r {
            Ok(text) => program_output(program@, outcome, status@) == Ok::<
                Seq<char>,
                Seq<Seq<char>>,
            >(text@),
            Err(failure) => program_output(program@, outcome, status@) == Err::<
                Seq<char>,
                Seq<Seq<char>>,
            >(failure.texts()),
        },
{
    match outcome {
        ProcessOutcome::TimedOut => Err(Failure::new(chars::cat(program, " timed out"))),
        ProcessOutcome::NotRun(cause) => Err(
            cause.context(chars::cat("failed to spawn ", program)),
        ),
        ProcessOutcome::Exited { success, stdout, stderr } => {
            if !success {
                let said = trim::trimmed(&bytes::lossy_text(stderr.as_slice()));
                return if said.as_str().is_empty() {
                    Err(Failure::new(chars::cat3(program, " exited with status ", status)))
                } else {
                    Err(Failure::new(chars::cat3(program, " failed: ", &said)))
                };
            }
            let text = match bytes::exact_text(stdout.as_slice()) {
                Ok(text) => text,
                Err(error) => {
                    let cause = Failure::new(error);
                    let failure = cause.context("command output was not utf-8".to_owned());
                    proof {
                        assert(failure.texts() =~= seq![
                            "command output was not utf-8"@,
                            bytes::utf8_error(stdout@),
                        ]);
                    }
                    return Err(failure);
                },
            };
            let trimmed = trim::trimmed(&text);
            if trimmed.as_str().is_empty() {
                Err(Failure::new(chars::cat(program, " returned empty output")))
            } else {
                Ok(trimmed)
            }
        },
    }
}

/// A node is connected exactly where it tells of a handshake, and then of one after the epoch.
pub proof fn connected_means_a_handshake(
    config: WireGuardView,
    output: Seq<char>,
    addresses: Seq<Seq<char>>,
)
    ensures
        dump_status(config, output, addresses).connected <==> dump_status(
            config,
            output,
            addresses,
        ).last_handshake_at is Some,
        dump_status(config, output, addresses).last_handshake_at matches Some(time) ==> time > 0,
{
    lemma_handshake(peer_lines(output));
}

proof fn lemma_handshake(lines: Seq<Seq<char>>)
    ensures
        first_handshake(lines) matches Some(time) ==> 0 < time <= u64::MAX,
    decreases lines.len(),
{
    if lines.len() > 0 {
        lemma_handshake(lines.drop_last());
    }
}

} // verus!
