//! The network of a container.

use crate::bytes;
use crate::environment::{self, Environment};
use crate::text::{ascii, chars, number, split};
use vstd::prelude::*;

verus! {

/// An address of four numbers.
#[derive(Debug, Clone, Copy, PartialEq, Eq, Structural)]
pub struct Ipv4 {
    pub a: u8,
    pub b: u8,
    pub c: u8,
    pub d: u8,
}

impl Ipv4 {
    /// The address in text.
    pub open spec fn text(self) -> Seq<char> {
        number::decimal(self.a as nat) + "."@ + number::decimal(self.b as nat) + "."@
            + number::decimal(self.c as nat) + "."@ + number::decimal(self.d as nat)
    }

    /// Writes the address.
    pub fn to_text(&self) -> (r: String)
        ensures
            r@ == self.text(),
    {
        let mut r = number::decimal_text(self.a as u64);
        r.append(".");
        r.append(&number::decimal_text(self.b as u64));
        r.append(".");
        r.append(&number::decimal_text(self.c as u64));
        r.append(".");
        r.append(&number::decimal_text(self.d as u64));
        r
    }
}

/// The number from 0 to 255 that a text stands for: one to three digits, without a zero before
/// others.
pub open spec fn octet(s: Seq<char>) -> Option<nat> {
    if 1 <= s.len() <= 3 && number::all_digits(s) && (s.len() == 1 || s[0] != '0')
        && number::value(s) <= 255 {
        Some(number::value(s))
    } else {
        None
    }
}

/// The address that a text stands for: four numbers with dots between them.
pub open spec fn address(s: Seq<char>) -> Option<Ipv4> {
    let parts = split::split(s, '.');
    if parts.len() == 4 && octet(parts[0]) is Some && octet(parts[1]) is Some && octet(parts[2])
        is Some && octet(parts[3]) is Some {
        Some(
            Ipv4 {
                a: octet(parts[0])->Some_0 as u8,
                b: octet(parts[1])->Some_0 as u8,
                c: octet(parts[2])->Some_0 as u8,
                d: octet(parts[3])->Some_0 as u8,
            },
        )
    } else {
        None
    }
}

/// Reads a number from 0 to 255.
fn octet_of(s: &str) -> (r: Option<u8>)
    ensures
        match r {
            Some(n) => octet(s@) == Some(n as nat),
            None => octet(s@) is None,
        },
{
    let cs = chars::chars_of(s);
    if cs.len() == 0 || cs.len() > 3 || (cs.len() > 1 && cs[0] == '0') {
        return None;
    }
    let mut value: u32 = 0;
    let mut i: usize = 0;
    while i < cs.len()
        invariant
            i <= cs.len() <= 3,
            cs@ == s@,
            forall|j: int| 0 <= j < i ==> ascii::digit(#[trigger] s@[j]),
            value == number::value(s@.take(i as int)),
            i == 0 ==> value == 0,
            i == 1 ==> value < 10,
            i == 2 ==> value < 100,
            i == 3 ==> value < 1000,
        decreases cs.len() - i,
    {
        if !ascii::is_digit(cs[i]) {
            proof {
                assert(!ascii::digit(s@[i as int]));
            }
            return None;
        }
        proof {
            assert(s@.take(i + 1).drop_last() =~= s@.take(i as int));
            assert(s@.take(i + 1).last() == cs@[i as int]);
        }
        value = value * 10 + (cs[i] as u32 - '0' as u32);
        i += 1;
    }
    proof {
        assert(s@.take(i as int) =~= s@);
    }
    if value <= 255 {
        Some(value as u8)
    } else {
        None
    }
}

/// Reads an address.
pub fn parse_ipv4(s: &str) -> (r: Option<Ipv4>)
    ensures
        r == address(s@),
{
    let parts = split::pieces(s, '.');
    let ghost all = chars::texts(parts@);
    proof {
        assert(all.len() == parts@.len());
        assert(forall|i: int| 0 <= i < all.len() ==> #[trigger] all[i] == parts@[i]@);
    }
    if parts.len() != 4 {
        return None;
    }
    match (
        octet_of(&parts[0]),
        octet_of(&parts[1]),
        octet_of(&parts[2]),
        octet_of(&parts[3]),
    ) {
        (Some(a), Some(b), Some(c), Some(d)) => Some(Ipv4 { a, b, c, d }),
        _ => None,
    }
}

/// The bridge that containers are connected to: its own address, and the size of its network.
#[derive(Debug, Clone, Copy, PartialEq, Eq, Structural)]
pub struct LxcBridgeNetwork {
    pub gateway: Ipv4,
    pub prefix_len: u8,
}

/// The name of the bridge that containers are connected to.
pub open spec fn bridge(env: &Environment) -> Seq<char> {
    match environment::set_var(env, "STATIX_LXC_NETWORK_BRIDGE"@) {
        Some(name) => name,
        None => "lxcbr0"@,
    }
}

/// The arguments with which `ip` tells the addresses of the bridge.
pub fn bridge_args(env: &Environment) -> (r: Vec<String>)
    ensures
        chars::texts(r@) == seq!["-4"@, "-o"@, "addr"@, "show"@, "dev"@, bridge(env)],
{
    let name = match environment::set_var_of(env, "STATIX_LXC_NETWORK_BRIDGE") {
        Some(name) => name,
        None => "lxcbr0".to_owned(),
    };
    let mut args = chars::no_texts();
    chars::push_text(&mut args, "-4");
    chars::push_text(&mut args, "-o");
    chars::push_text(&mut args, "addr");
    chars::push_text(&mut args, "show");
    chars::push_text(&mut args, "dev");
    chars::push_text(&mut args, &name);
    args
}

/// The first of some words that a slash divides, in its two parts.
pub open spec fn first_divided(words: Seq<Seq<char>>) -> Option<(Seq<char>, Seq<char>)>
    decreases words.len(),
{
    if words.len() == 0 {
        None
    } else {
        match first_divided(words.drop_last()) {
            Some(parts) => Some(parts),
            None => split::split_once_char(words.last(), '/'),
        }
    }
}

/// The network that the output of `ip` tells: the first word that a slash divides is its address
/// and the length of its prefix. A network with no room for a container is none.
pub open spec fn bridge_network(output: Seq<char>) -> Option<LxcBridgeNetwork> {
    match first_divided(split::words(output)) {
        Some((gateway, prefix)) => match (address(gateway), number::parse(prefix, 255)) {
            (Some(gateway), Some(length)) => if length <= 30 {
                Some(LxcBridgeNetwork { gateway, prefix_len: length as u8 })
            } else {
                None
            },
            _ => None,
        },
        None => None,
    }
}

proof fn lemma_first_divided(words: Seq<Seq<char>>, i: int)
    requires
        0 <= i <= words.len(),
        first_divided(words.take(i)) is Some,
    ensures
        first_divided(words) == first_divided(words.take(i)),
    decreases words.len(),
{
    if i == words.len() {
        assert(words.take(i) =~= words);
    } else {
        assert(words.drop_last().take(i) =~= words.take(i));
        lemma_first_divided(words.drop_last(), i);
    }
}

/// Reads the network that the output of `ip` tells.
pub fn parse_lxc_bridge_network(output: &str) -> (r: Option<LxcBridgeNetwork>)
    ensures
        r == bridge_network(output@),
{
    let words = split::words_of(output);
    let ghost all = chars::texts(words@);
    let mut i: usize = 0;
    while i < words.len()
        invariant
            i <= words.len(),
            all == chars::texts(words@),
            all == split::words(output@),
            first_divided(all.take(i as int)) is None,
        decreases words.len() - i,
    {
        proof {
            assert(all.take(i + 1).drop_last() =~= all.take(i as int));
            assert(all.take(i + 1).last() == words@[i as int]@);
        }
        if let Some((gateway, prefix)) = split::cut_char(&words[i], '/') {
            proof {
                lemma_first_divided(all, i + 1);
            }
            return match (parse_ipv4(&gateway), number::parsed(&prefix, 255)) {
                (Some(gateway), Some(length)) => if length <= 30 {
                    Some(LxcBridgeNetwork { gateway, prefix_len: length as u8 })
                } else {
                    None
                },
                _ => None,
            };
        }
        i += 1;
    }
    proof {
        assert(all.take(i as int) =~= all);
    }
    None
}

/// This is the network of the bridge, over what came of asking for its addresses.
pub open spec fn bridge_told(success: bool, stdout: Seq<u8>, r: Option<LxcBridgeNetwork>) -> bool {
    r == (if success {
        bridge_network(bytes::utf8_lossy(stdout))
    } else {
        None
    })
}

/// The network of the bridge, over what came of asking `ip` for its addresses.
pub fn lxc_bridge_network(success: bool, stdout: &[u8]) -> (r: Option<LxcBridgeNetwork>)
    ensures
        bridge_told(success, stdout@, r),
{
    if !success {
        return None;
    }
    parse_lxc_bridge_network(&bytes::lossy_text(stdout))
}

/// The sum of bytes.
pub open spec fn byte_sum(bytes: Seq<u8>) -> nat
    decreases bytes.len(),
{
    if bytes.len() == 0 {
        0
    } else {
        byte_sum(bytes.drop_last()) + bytes.last() as nat
    }
}

/// The last number of a container's address, before it is kept apart from the bridge's own.
pub open spec fn host_number(name: Seq<u8>) -> nat {
    10 + (byte_sum(name) % 65536) % 240
}

/// The address of a container in the network of the bridge, over the bytes of its name.
pub open spec fn guest(network: LxcBridgeNetwork, name: Seq<u8>) -> Ipv4 {
    Ipv4 {
        d: (if host_number(name) == network.gateway.d {
            host_number(name) + 1
        } else {
            host_number(name)
        }) as u8,
        ..network.gateway
    }
}

/// The address of a container in the network of the bridge.
pub fn guest_ipv4_address(network: &LxcBridgeNetwork, container_name: &str) -> (r: Ipv4)
    ensures
        r == guest(*network, vstd::utf8::encode_utf8(container_name@)),
{
    let bytes = container_name.as_bytes();
    let mut sum: u16 = 0;
    let mut i: usize = 0;
    while i < bytes.len()
        invariant
            i <= bytes.len(),
            sum == byte_sum(bytes@.take(i as int)) % 65536,
        decreases bytes.len() - i,
    {
        proof {
            let before = bytes@.take(i as int);
            let now = bytes@.take(i + 1);
            assert(now.drop_last() =~= before);
            assert(now.last() == bytes@[i as int]);
        }
        sum = sum.wrapping_add(bytes[i] as u16);
        i += 1;
    }
    proof {
        assert(bytes@.take(i as int) =~= bytes@);
    }
    let host: u8 = (10 + sum % 240) as u8;
    let last: u8 = if host == network.gateway.d {
        host + 1
    } else {
        host
    };
    Ipv4 { a: network.gateway.a, b: network.gateway.b, c: network.gateway.c, d: last }
}

/// A container does not get the address of the bridge, nor one of the first ten of its block or
/// the last five.
pub proof fn guest_is_not_the_gateway(network: LxcBridgeNetwork, name: Seq<u8>)
    ensures
        guest(network, name) != network.gateway,
        10 <= guest(network, name).d <= 250,
        guest(network, name).a == network.gateway.a,
        guest(network, name).b == network.gateway.b,
        guest(network, name).c == network.gateway.c,
{
}

/// The beginning of the command that gives a container its address.
pub const NETWORK_HEAD: &'static str =
    "if ip -4 route show default | grep -q .; then exit 0; fi; iface=$(ip -o link show | awk -F': ' '$2 != \"lo\" {print $2; exit}' | cut -d@ -f1); test -n \"$iface\"; ip link set \"$iface\" up; ip -4 addr show dev \"$iface\" | grep -q 'inet ' || ip addr add ";

/// The command that gives a container its address, unless it has a route already.
pub open spec fn network_command(network: LxcBridgeNetwork, guest_address: Ipv4) -> Seq<char> {
    NETWORK_HEAD@ + guest_address.text() + "/"@ + number::decimal(network.prefix_len as nat)
        + " dev \"$iface\"; ip route replace default via "@ + network.gateway.text()
        + " dev \"$iface\""@
}

/// The command that gives a container its address, unless it has a route already.
pub fn guest_network_command(network: &LxcBridgeNetwork, guest_address: Ipv4) -> (r: String)
    ensures
        r@ == network_command(*network, guest_address),
{
    let mut r = chars::cat3(NETWORK_HEAD, &guest_address.to_text(), "/");
    r.append(&number::decimal_text(network.prefix_len as u64));
    r.append(" dev \"$iface\"; ip route replace default via ");
    r.append(&network.gateway.to_text());
    r.append(" dev \"$iface\"");
    r
}

/// The first of some words that is an address.
pub open spec fn first_address(words: Seq<Seq<char>>) -> Option<Ipv4>
    decreases words.len(),
{
    if words.len() == 0 {
        None
    } else {
        match first_address(words.drop_last()) {
            Some(found) => Some(found),
            None => address(words.last()),
        }
    }
}

proof fn lemma_first_address(words: Seq<Seq<char>>, i: int)
    requires
        0 <= i <= words.len(),
        first_address(words.take(i)) is Some,
    ensures
        first_address(words) == first_address(words.take(i)),
    decreases words.len(),
{
    if i == words.len() {
        assert(words.take(i) =~= words);
    } else {
        assert(words.drop_last().take(i) =~= words.take(i));
        lemma_first_address(words.drop_last(), i);
    }
}

/// Finds the first address in the output of `lxc-info`.
pub fn runtime_address(output: &str) -> (r: Option<Ipv4>)
    ensures
        r == first_address(split::words(output@)),
{
    let words = split::words_of(output);
    let ghost all = chars::texts(words@);
    let mut i: usize = 0;
    while i < words.len()
        invariant
            i <= words.len(),
            all == chars::texts(words@),
            all == split::words(output@),
            first_address(all.take(i as int)) is None,
        decreases words.len() - i,
    {
        proof {
            assert(all.take(i + 1).drop_last() =~= all.take(i as int));
            assert(all.take(i + 1).last() == words@[i as int]@);
        }
        if let Some(found) = parse_ipv4(&words[i]) {
            proof {
                lemma_first_address(all, i + 1);
            }
            return Some(found);
        }
        i += 1;
    }
    proof {
        assert(all.take(i as int) =~= all);
    }
    None
}

} // verus!
