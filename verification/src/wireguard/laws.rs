//! What holds of the WireGuard interface: how it is described, and what the node tells of it.

use crate::config::{PersistedAgentConfig, WireGuardConfig, WireGuardView};
use crate::failure::Failure;
use crate::jobs::output::ProcessOutcome;
use crate::text::laws;
use crate::text::{chars, number, split, trim};
use crate::wireguard::{self, WireGuardIdentity, WireGuardStatus};
use vstd::prelude::*;
use vstd::utf8::{decode_utf8, valid_utf8};

verus! {

/// A login goes on with the keys of the last one where that left both; else there are none to go
/// on with. The keys are kept as they are, and not changed for one another.
pub proof fn keys_are_kept(persisted: Option<&PersistedAgentConfig>, r: Option<WireGuardIdentity>)
    requires
        wireguard::keeps_keys(persisted, r),
    ensures
        persisted is None ==> r is None,
        persisted matches Some(p) ==> {
            &&& p.wireguard is None ==> r is None
            &&& p.wireguard matches Some(known) ==> {
                let both = trim::trim(known.private_key@).len() > 0 && trim::trim(
                    known.public_key@,
                ).len() > 0;
                &&& both ==> (r matches Some(keys) && keys.private_key@ == known.private_key@
                    && keys.public_key@ == known.public_key@)
                &&& !both ==> r is None
            }
        },
{
}

/// An interface is brought up on Linux only, and only where bringing it up succeeded; the failure
/// keeps its causes.
pub proof fn interface_is_brought_up_on_linux(
    linux: bool,
    path: Seq<char>,
    up: Result<(), Failure>,
    r: Result<String, Failure>,
)
    requires
        wireguard::applied(linux, path, up, r),
    ensures
        r is Ok <==> linux && up is Ok,
        r matches Ok(file) ==> file@ == path,
        linux ==> (up matches Err(cause) ==> (r matches Err(failure) && failure.texts().skip(1)
            == cause.texts())),
{
    if let Err(cause) = up {
        assert((seq!["failed to bring up wireguard interface"@] + cause.texts()).skip(1)
            =~= cause.texts());
    }
}

/// A description has two parts, that of the interface and that of the server, each behind its
/// title. The interface has its private key and its addresses, the server its key, its endpoint
/// and the addresses that it is let pass; the rest stands where it is configured.
pub proof fn description_tells_the_interface(config: WireGuardView)
    ensures
        ({
            let lines = wireguard::config_lines(config);
            let p = if config.dns.len() == 0 {
                4int
            } else {
                5int
            };
            let interface = lines.take(p);
            let peer = lines.skip(p);
            &&& lines.len() == 9 + (p - 4) + (if config.server.preshared_key is Some {
                1int
            } else {
                0
            }) + (if config.server.persistent_keepalive_seconds is Some {
                1int
            } else {
                0
            })
            &&& interface[0] == "[Interface]"@
            &&& interface.contains("PrivateKey = "@ + config.private_key)
            &&& interface.contains("Address = "@ + split::join(config.addresses, ", "@))
            &&& config.dns.len() > 0 ==> interface.contains(
                "DNS = "@ + split::join(config.dns, ", "@),
            )
            &&& peer[0] == "[Peer]"@
            &&& peer.contains("PublicKey = "@ + config.server.public_key)
            &&& peer.contains("Endpoint = "@ + config.server.endpoint)
            &&& peer.contains("AllowedIPs = "@ + split::join(config.server.allowed_ips, ", "@))
            &&& config.server.preshared_key matches Some(key) ==> peer.contains(
                "PresharedKey = "@ + key,
            )
            &&& config.server.persistent_keepalive_seconds matches Some(seconds) ==> peer.contains(
                "PersistentKeepalive = "@ + number::decimal(seconds as nat),
            )
        }),
{
    let lines = wireguard::config_lines(config);
    let p = if config.dns.len() == 0 {
        4int
    } else {
        5int
    };
    let interface = lines.take(p);
    let peer = lines.skip(p);
    assert(interface[1] == "PrivateKey = "@ + config.private_key);
    assert(interface[2] == "Address = "@ + split::join(config.addresses, ", "@));
    if config.dns.len() > 0 {
        assert(interface[3] == "DNS = "@ + split::join(config.dns, ", "@));
    }
    assert(peer[1] == "PublicKey = "@ + config.server.public_key);
    assert(peer[2] == "Endpoint = "@ + config.server.endpoint);
    assert(peer[3] == "AllowedIPs = "@ + split::join(config.server.allowed_ips, ", "@));
    let k = if config.server.preshared_key is Some {
        5int
    } else {
        4int
    };
    if let Some(key) = config.server.preshared_key {
        assert(peer[4] == "PresharedKey = "@ + key);
    }
    if let Some(seconds) = config.server.persistent_keepalive_seconds {
        assert(peer[k] == "PersistentKeepalive = "@ + number::decimal(seconds as nat));
    }
}

/// Fields of a line, none of which holds a tab.
pub open spec fn fields_of(fields: Seq<Seq<char>>) -> bool {
    forall|i: int| 0 <= i < fields.len() ==> laws::lacks(#[trigger] fields[i], '\t')
}

/// A line of `wg show dump` about a peer has its endpoint as its third field and the time of the
/// last handshake as its fifth. A peer without an endpoint says so, and one without a handshake
/// tells the time zero.
pub proof fn peer_line_is_read(fields: Seq<Seq<char>>)
    requires
        fields.len() > 4,
        fields_of(fields),
    ensures
        ({
            let line = split::join(fields, seq!['\t']);
            let endpoint = trim::trim(fields[2]);
            let time = number::parse(trim::trim(fields[4]), u64::MAX as nat);
            &&& endpoint.len() > 0 && endpoint != "(none)"@ ==> wireguard::line_endpoint(line)
                == Some(endpoint)
            &&& endpoint.len() == 0 || endpoint == "(none)"@ ==> wireguard::line_endpoint(line)
                is None
            &&& time matches Some(t) ==> (t > 0 ==> wireguard::line_handshake(line) == Some(t))
            &&& time is None || time == Some(0nat) ==> wireguard::line_handshake(line) is None
        }),
{
    laws::pieces_are_read_back(fields, '\t');
}

/// The first line of `wg show dump` has the interface's public key as its second field.
pub proof fn interface_line_is_read(fields: Seq<Seq<char>>, known: Seq<char>)
    requires
        fields.len() > 1,
        fields_of(fields),
    ensures
        trim::trim(fields[1]).len() > 0 ==> wireguard::told_key(
            split::join(fields, seq!['\t']),
            known,
        ) == trim::trim(fields[1]),
        trim::trim(fields[1]).len() == 0 ==> wireguard::told_key(
            split::join(fields, seq!['\t']),
            known,
        ) == known,
{
    laws::pieces_are_read_back(fields, '\t');
}

proof fn lemma_first(lines: Seq<Seq<char>>, i: int)
    requires
        0 <= i < lines.len(),
    ensures
        (forall|j: int| 0 <= j < i ==> wireguard::line_endpoint(#[trigger] lines[j]) is None)
            && wireguard::line_endpoint(lines[i]) is Some ==> wireguard::first_endpoint(lines)
            == wireguard::line_endpoint(lines[i]),
        (forall|j: int| 0 <= j < i ==> wireguard::line_handshake(#[trigger] lines[j]) is None)
            && wireguard::line_handshake(lines[i]) is Some ==> wireguard::first_handshake(lines)
            == wireguard::line_handshake(lines[i]),
    decreases lines.len(),
{
    let before = lines.drop_last();
    if i < before.len() {
        assert forall|j: int| 0 <= j < i implies before[j] == lines[j] by {
        }
        lemma_first(before, i);
    } else {
        if forall|j: int| 0 <= j < i ==> wireguard::line_endpoint(#[trigger] lines[j]) is None {
            lemma_none(before);
            assert forall|j: int| 0 <= j < before.len() implies wireguard::line_endpoint(
                #[trigger] before[j],
            ) is None by {
                assert(lines[j] == before[j]);
            }
        }
        if forall|j: int| 0 <= j < i ==> wireguard::line_handshake(#[trigger] lines[j]) is None {
            lemma_none(before);
            assert forall|j: int| 0 <= j < before.len() implies wireguard::line_handshake(
                #[trigger] before[j],
            ) is None by {
                assert(lines[j] == before[j]);
            }
        }
    }
}

proof fn lemma_none(lines: Seq<Seq<char>>)
    ensures
        (forall|j: int|
            0 <= j < lines.len() ==> wireguard::line_endpoint(#[trigger] lines[j]) is None)
            ==> wireguard::first_endpoint(lines) is None,
        (forall|j: int|
            0 <= j < lines.len() ==> wireguard::line_handshake(#[trigger] lines[j]) is None)
            ==> wireguard::first_handshake(lines) is None,
    decreases lines.len(),
{
    if lines.len() > 0 {
        let before = lines.drop_last();
        let last = lines.len() - 1;
        lemma_none(before);
        if forall|j: int|
            0 <= j < lines.len() ==> wireguard::line_endpoint(#[trigger] lines[j]) is None {
            assert(wireguard::line_endpoint(lines[last]) is None);
            assert forall|j: int| 0 <= j < before.len() implies wireguard::line_endpoint(
                #[trigger] before[j],
            ) is None by {
                assert(lines[j] == before[j]);
            }
        }
        if forall|j: int|
            0 <= j < lines.len() ==> wireguard::line_handshake(#[trigger] lines[j]) is None {
            assert(wireguard::line_handshake(lines[last]) is None);
            assert forall|j: int| 0 <= j < before.len() implies wireguard::line_handshake(
                #[trigger] before[j],
            ) is None by {
                assert(lines[j] == before[j]);
            }
        }
    }
}

/// What the node tells of its connection comes from the first line, after that of the interface
/// itself, that tells it: its endpoint, and the time of the last handshake, by which it is
/// connected. Without such a line there is none, and it is not connected. Its name is the
/// configured one.
pub proof fn first_peer_is_told_of(
    config: WireGuardView,
    output: Seq<char>,
    addresses: Seq<Seq<char>>,
    i: int,
)
    requires
        0 < i < split::lines(output).len(),
    ensures
        ({
            let lines = split::lines(output);
            let status = wireguard::dump_status(config, output, addresses);
            &&& status.interface_name == config.interface_name
            &&& status.addresses == addresses
            &&& status.error is None
            &&& status.public_key == wireguard::told_key(lines[0], config.public_key)
            &&& (forall|j: int| 0 < j < i ==> wireguard::line_endpoint(#[trigger] lines[j]) is None)
                && wireguard::line_endpoint(lines[i]) is Some ==> status.peer_endpoint
                == wireguard::line_endpoint(lines[i])
            &&& (forall|j: int| 0 < j < i ==> wireguard::line_handshake(#[trigger] lines[j]) is None)
                && wireguard::line_handshake(lines[i]) is Some ==> {
                &&& status.connected
                &&& status.last_handshake_at matches Some(time) && Some(time as nat)
                    == wireguard::line_handshake(lines[i])
            }
            &&& (forall|j: int|
                0 < j < lines.len() ==> wireguard::line_handshake(#[trigger] lines[j]) is None)
                ==> !status.connected && status.last_handshake_at is None
            &&& (forall|j: int|
                0 < j < lines.len() ==> wireguard::line_endpoint(#[trigger] lines[j]) is None)
                ==> status.peer_endpoint is None
        }),
{
    let lines = split::lines(output);
    let peers = lines.skip(1);
    lemma_first(peers, i - 1);
    lemma_none(peers);
    assert forall|j: int| 0 <= j < peers.len() implies #[trigger] peers[j] == lines[j + 1] by {
    }
    assert(peers[i - 1] == lines[i]);
}

/// Of an interface of which `wg` tells nothing, the node tells that it is not connected, and why;
/// without an interface it tells nothing at all.
pub proof fn status_is_told(
    config: Option<&WireGuardConfig>,
    dump: Result<&str, &str>,
    ip_output: Option<&str>,
    r: Option<WireGuardStatus>,
)
    requires
        wireguard::status_told(config, dump, ip_output, r),
    ensures
        config is Some <==> r is Some,
        r matches Some(status) ==> {
            &&& dump matches Err(error) ==> {
                &&& !status.connected
                &&& status.last_handshake_at is None
                &&& status@.error == Some(error@)
                &&& status@.public_key == config->Some_0.public_key@
            }
            &&& dump is Ok ==> status.error is None
            &&& status@.interface_name == config->Some_0.interface_name@
            &&& ip_output is None ==> status@.addresses == chars::texts(
                config->Some_0.addresses@,
            )
        },
{
}

/// A line of `ip address` tells an address as its fourth word, behind `inet` or `inet6`.
pub proof fn address_line_is_read(words: Seq<Seq<char>>)
    requires
        forall|i: int| 0 <= i < words.len() ==> laws::one_word(#[trigger] words[i]),
    ensures
        words.len() > 3 && (words[2] == "inet"@ || words[2] == "inet6"@)
            ==> wireguard::line_address(split::join(words, seq![' '])) == Some(words[3]),
        words.len() <= 3 || (words[2] != "inet"@ && words[2] != "inet6"@)
            ==> wireguard::line_address(split::join(words, seq![' '])) is None,
{
    laws::words_are_read_back(words);
}

/// The addresses of an interface are those that the lines tell, all of them and no others; where
/// they tell none, those that it should have.
pub proof fn told_addresses_are_listed(output: Seq<char>, fallback: Seq<Seq<char>>)
    ensures
        ({
            let lines = split::lines(output);
            let listed = wireguard::interface_addresses(output, fallback);
            &&& (forall|i: int|
                0 <= i < lines.len() ==> wireguard::line_address(#[trigger] lines[i]) is None)
                ==> listed == fallback
            &&& forall|i: int|
                0 <= i < lines.len() ==> (wireguard::line_address(#[trigger] lines[i]) matches Some(
                    address,
                ) ==> listed.contains(address))
            &&& wireguard::line_addresses(lines).len() > 0 ==> forall|k: int|
                0 <= k < listed.len() ==> exists|i: int|
                    0 <= i < lines.len() && wireguard::line_address(#[trigger] lines[i]) == Some(
                        #[trigger] listed[k],
                    )
        }),
{
    lemma_addresses(split::lines(output));
}

proof fn lemma_addresses(lines: Seq<Seq<char>>)
    ensures
        (forall|i: int|
            0 <= i < lines.len() ==> wireguard::line_address(#[trigger] lines[i]) is None)
            ==> wireguard::line_addresses(lines).len() == 0,
        forall|i: int|
            0 <= i < lines.len() ==> (wireguard::line_address(#[trigger] lines[i]) matches Some(
                address,
            ) ==> wireguard::line_addresses(lines).contains(address)),
        forall|k: int|
            0 <= k < wireguard::line_addresses(lines).len() ==> exists|i: int|
                0 <= i < lines.len() && wireguard::line_address(#[trigger] lines[i]) == Some(
                    #[trigger] wireguard::line_addresses(lines)[k],
                ),
    decreases lines.len(),
{
    if lines.len() > 0 {
        let before = lines.drop_last();
        let last = lines.len() - 1;
        lemma_addresses(before);
        let earlier = wireguard::line_addresses(before);
        let all = wireguard::line_addresses(lines);
        if forall|i: int|
            0 <= i < lines.len() ==> wireguard::line_address(#[trigger] lines[i]) is None {
            assert(wireguard::line_address(lines[last]) is None);
            assert forall|i: int| 0 <= i < before.len() implies wireguard::line_address(
                #[trigger] before[i],
            ) is None by {
                assert(lines[i] == before[i]);
            }
        }
        assert forall|i: int| 0 <= i < lines.len() implies (wireguard::line_address(
            #[trigger] lines[i],
        ) matches Some(address) ==> all.contains(address)) by {
            if let Some(address) = wireguard::line_address(lines[i]) {
                if i < last {
                    assert(before[i] == lines[i]);
                    assert(earlier.contains(address));
                    let k = choose|k: int| 0 <= k < earlier.len() && earlier[k] == address;
                    assert(all[k] == address);
                } else {
                    assert(all[all.len() - 1] == address);
                }
            }
        }
        assert forall|k: int| 0 <= k < all.len() implies exists|i: int|
            0 <= i < lines.len() && wireguard::line_address(#[trigger] lines[i]) == Some(
                #[trigger] all[k],
            ) by {
            if k < earlier.len() {
                assert(all[k] == earlier[k]);
                let i = choose|i: int|
                    0 <= i < before.len() && wireguard::line_address(#[trigger] before[i]) == Some(
                        earlier[k],
                    );
                assert(lines[i] == before[i]);
            } else {
                assert(wireguard::line_address(lines[last]) == Some(all[k]));
            }
        }
    }
}

/// The output of a program counts where it ended well and wrote a text that is not blank; it is
/// taken without the blanks around it.
pub proof fn program_is_believed_where_it_ends_well(
    program: Seq<char>,
    outcome: ProcessOutcome,
    status: Seq<char>,
)
    ensures
        wireguard::program_output(program, outcome, status) is Ok <==> (outcome matches
            ProcessOutcome::Exited { success, stdout, .. } && success && valid_utf8(stdout@)
            && trim::trim(decode_utf8(stdout@)).len() > 0),
        wireguard::program_output(program, outcome, status) matches Ok(text) ==> (outcome matches
            ProcessOutcome::Exited { stdout, .. } && text == trim::trim(decode_utf8(stdout@))),
        outcome matches ProcessOutcome::NotRun(cause) ==> (wireguard::program_output(
            program,
            outcome,
            status,
        ) matches Err(causes) && causes.skip(1) == cause.texts()),
{
    if let ProcessOutcome::NotRun(cause) = outcome {
        assert((seq!["failed to spawn "@ + program] + cause.texts()).skip(1) =~= cause.texts());
    }
}

/// A line with too few fields tells neither an endpoint nor a handshake.
pub proof fn short_line_tells_nothing(line: Seq<char>)
    ensures
        split::split(line, '\t').len() <= 2 ==> wireguard::line_endpoint(line) is None,
        split::split(line, '\t').len() <= 4 ==> wireguard::line_handshake(line) is None,
{
}

} // verus!
