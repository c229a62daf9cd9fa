//! The bytes that the node's interfaces received and sent.

use crate::text::{chars, number, search, trim};
use vstd::prelude::*;

verus! {

/// The bytes that the node received and sent.
#[derive(Debug, Clone, Copy, PartialEq, Eq, Structural)]
pub struct NetworkMetrics {
    pub rx: u64,
    pub tx: u64,
}

/// An interface: its name, and what the files of its state and counters hold, where they can be
/// read.
#[derive(Debug)]
pub struct Interface {
    pub name: String,
    pub operstate: Option<String>,
    pub rx_bytes: Option<String>,
    pub tx_bytes: Option<String>,
}

/// An interface that counts: not the loopback, and not down.
pub open spec fn counts(interface: Interface) -> bool {
    &&& !"lo"@.is_prefix_of(interface.name@)
    &&& match interface.operstate {
        Some(state) => trim::trim(state@) != "down"@,
        None => true,
    }
}

/// The number that a counter holds, else none.
pub open spec fn counter(content: Option<Seq<char>>) -> nat {
    match content {
        Some(text) => match number::parse(trim::trim(text), u64::MAX as nat) {
            Some(n) => n,
            None => 0,
        },
        None => 0,
    }
}

/// The sum of the counters that some interfaces show, up to the largest number.
pub open spec fn total_rx(interfaces: Seq<Interface>) -> nat
    decreases interfaces.len(),
{
    if interfaces.len() == 0 {
        0
    } else {
        let before = total_rx(interfaces.drop_last());
        if counts(interfaces.last()) {
            capped(before + counter(chars::opt_text(interfaces.last().rx_bytes)))
        } else {
            before
        }
    }
}

/// The sum of the counters that some interfaces show, up to the largest number.
pub open spec fn total_tx(interfaces: Seq<Interface>) -> nat
    decreases interfaces.len(),
{
    if interfaces.len() == 0 {
        0
    } else {
        let before = total_tx(interfaces.drop_last());
        if counts(interfaces.last()) {
            capped(before + counter(chars::opt_text(interfaces.last().tx_bytes)))
        } else {
            before
        }
    }
}

/// A number, up to the largest one.
pub open spec fn capped(n: nat) -> nat {
    if n > u64::MAX {
        u64::MAX as nat
    } else {
        n
    }
}

/// The number that a counter holds, else none.
pub fn read_u64(content: Option<&str>) -> (r: u64)
    ensures
        r == counter(chars::opt_str(content)),
{
    match content {
        Some(text) => match number::parsed(&trim::trimmed(text), u64::MAX) {
            Some(n) => n,
            None => 0,
        },
        None => 0,
    }
}

/// Sums the counters of the node's interfaces.
pub fn collect(interfaces: &Vec<Interface>) -> (r: NetworkMetrics)
    ensures
        r.rx == total_rx(interfaces@),
        r.tx == total_tx(interfaces@),
{
    let mut rx: u64 = 0;
    let mut tx: u64 = 0;
    let mut i: usize = 0;
    while i < interfaces.len()
        invariant
            i <= interfaces.len(),
            rx == total_rx(interfaces@.take(i as int)),
            tx == total_tx(interfaces@.take(i as int)),
        decreases interfaces.len() - i,
    {
        proof {
            assert(interfaces@.take(i + 1).drop_last() =~= interfaces@.take(i as int));
        }
        let interface = &interfaces[i];
        let down = match &interface.operstate {
            Some(state) => chars::same(&trim::trimmed(state), "down"),
            None => false,
        };
        if !search::begins(&interface.name, "lo") && !down {
            rx = rx.saturating_add(read_u64(chars::opt_ref(&interface.rx_bytes)));
            tx = tx.saturating_add(read_u64(chars::opt_ref(&interface.tx_bytes)));
        }
        i += 1;
    }
    proof {
        assert(interfaces@.take(i as int) =~= interfaces@);
    }
    NetworkMetrics { rx, tx }
}

} // verus!
