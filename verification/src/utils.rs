//! The addresses to probe, and what the answer to one bind attempt means for a
//! host and for a port.

use vstd::prelude::*;
use crate::Protocol;

verus! {

/// An IP address as its bits: 32 for version 4, 128 for version 6.
#[derive(Clone, Copy, Debug, PartialEq, Eq, Hash, Structural)]
pub enum HostAddr {
    V4(u32),
    V6(u128),
}

impl HostAddr {
    /// Whether this is `0.0.0.0` or `::`, the addresses that stand for every local
    /// address.
    pub open spec fn is_unspecified(self) -> bool {
        self == HostAddr::V4(0) || self == HostAddr::V6(0)
    }
}

/// The two transports on which a port can be bound.
#[derive(Clone, Copy, Debug, PartialEq, Eq, Structural)]
pub enum Transport {
    Tcp,
    Udp,
}

/// How an attempt to bind an address and a port ended.
#[derive(Clone, Copy, Debug, PartialEq, Eq, Structural)]
pub enum BindOutcome {
    /// The bind succeeded.
    Bound,
    /// The bind failed because the address is not available on this machine.
    AddrNotAvailable,
    /// The bind failed because the address is no valid input for it.
    InvalidInput,
    /// The bind failed for any other reason, such as a port that is in use.
    Other,
}

impl BindOutcome {
    /// A port counts as free on an address where the bind succeeded, and also where
    /// it failed for a reason that lies with the address and not with the port.
    pub open spec fn counts_as_free(self) -> bool {
        self != BindOutcome::Other
    }
}

impl Protocol {
    /// Whether a port has to be free on `transport`.
    pub open spec fn uses(self, transport: Transport) -> bool {
        match self {
            Protocol::All => true,
            Protocol::Tcp => transport == Transport::Tcp,
            Protocol::Udp => transport == Transport::Udp,
        }
    }

    /// The transport that is tried first on each host.
    pub open spec fn first(self) -> Transport {
        match self {
            Protocol::Udp => Transport::Udp,
            _ => Transport::Tcp,
        }
    }

    /// The transport that is tried first on each host.
    pub fn first_transport(&self) -> (transport: Transport)
        ensures
            transport == self.first(),
            self.uses(transport),
    {
        match self {
            Protocol::Udp => Transport::Udp,
            _ => Transport::Tcp,
        }
    }
}

/// What is known of a port on one host once a bind attempt there has been answered.
#[derive(Clone, Copy, Debug, PartialEq, Eq, Structural)]
pub enum HostVerdict {
    /// Every transport that the protocol uses has been tried and counts as free.
    Free,
    /// The transport that was tried is taken.
    Occupied,
    /// The transport that was tried counts as free, and this one is still to be tried.
    Ask(Transport),
}

/// What is known of a port on a list of hosts once a bind attempt on one of them has
/// been answered.
#[derive(Clone, Copy, Debug, PartialEq, Eq, Structural)]
pub enum PortVerdict {
    /// The port counts as free on every host.
    Free,
    /// The host that was tried has the port taken.
    Blocked,
    /// Nothing speaks against the port so far, and this bind is the next to try.
    Ask { host: usize, transport: Transport },
}

/// The verdict on one host: a taken transport settles it, TCP under `Protocol::All`
/// is followed by UDP, and any other free answer was the last one needed.
pub open spec fn host_verdict(
    protocol: Protocol,
    transport: Transport,
    outcome: BindOutcome,
) -> HostVerdict {
    if !outcome.counts_as_free() {
        HostVerdict::Occupied
    } else if protocol == Protocol::All && transport == Transport::Tcp {
        HostVerdict::Ask(Transport::Udp)
    } else {
        HostVerdict::Free
    }
}

/// The verdict on `hosts` hosts, tried in order: one occupied host blocks the port,
/// a free host is followed by the next one, and the last free host frees the port.
pub open spec fn port_verdict(
    hosts: int,
    protocol: Protocol,
    host: int,
    transport: Transport,
    outcome: BindOutcome,
) -> PortVerdict {
    match host_verdict(protocol, transport, outcome) {
        HostVerdict::Occupied => PortVerdict::Blocked,
        HostVerdict::Ask(next) => PortVerdict::Ask { host: host as usize, transport: next },
        HostVerdict::Free => if host + 1 < hosts {
            PortVerdict::Ask { host: (host + 1) as usize, transport: protocol.first() }
        } else {
            PortVerdict::Free
        },
    }
}

/// Whether the outcome of a TCP bind leaves the port free on that address.
pub fn is_free_tcp(outcome: BindOutcome) -> (free: bool)
    ensures
        free == outcome.counts_as_free(),
{
    match outcome {
        BindOutcome::Other => false,
        _ => true,
    }
}

/// Whether the outcome of a UDP bind leaves the port free on that address.
pub fn is_free_udp(outcome: BindOutcome) -> (free: bool)
    ensures
        free == outcome.counts_as_free(),
{
    match outcome {
        BindOutcome::Other => false,
        _ => true,
    }
}

/// Decides about one host after `transport` was tried there with `outcome`.
pub fn is_free(protocol: &Protocol, transport: Transport, outcome: BindOutcome) -> (verdict:
    HostVerdict)
    ensures
        verdict == host_verdict(*protocol, transport, outcome),
{
    let free = match transport {
        Transport::Tcp => is_free_tcp(outcome),
        Transport::Udp => is_free_udp(outcome),
    };
    if !free {
        HostVerdict::Occupied
    } else {
        match (protocol, transport) {
            (Protocol::All, Transport::Tcp) => HostVerdict::Ask(Transport::Udp),
            _ => HostVerdict::Free,
        }
    }
}

/// Decides about a port after `transport` was tried on host number `host` of `hosts`
/// with `outcome`.
pub fn is_free_in_hosts(
    hosts: usize,
    protocol: &Protocol,
    host: usize,
    transport: Transport,
    outcome: BindOutcome,
) -> (verdict: PortVerdict)
    ensures
        verdict == port_verdict(hosts as int, *protocol, host as int, transport, outcome),
{
    match is_free(protocol, transport, outcome) {
        HostVerdict::Occupied => PortVerdict::Blocked,
        HostVerdict::Ask(next) => PortVerdict::Ask { host, transport: next },
        HostVerdict::Free => {
            if hosts > 0 && host < hosts - 1 {
                PortVerdict::Ask { host: host + 1, transport: protocol.first_transport() }
            } else {
                PortVerdict::Free
            }
        },
    }
}

/// Whether entry `j` of interface `i` is `addr`.
pub open spec fn lists_at(interfaces: Seq<Vec<HostAddr>>, i: int, j: int, addr: HostAddr) -> bool {
    0 <= i < interfaces.len() && 0 <= j < interfaces[i]@.len() && interfaces[i]@[j] == addr
}

/// Whether some interface lists `addr`.
pub open spec fn listed(interfaces: Seq<Vec<HostAddr>>, addr: HostAddr) -> bool {
    exists|i: int, j: int| lists_at(interfaces, i, j, addr)
}

/// Whether `addr` is probed when no host is configured: the two unspecified
/// addresses always are, and so is every address that an interface lists.
pub open spec fn is_local_host(interfaces: Seq<Vec<HostAddr>>, addr: HostAddr) -> bool {
    addr.is_unspecified() || listed(interfaces, addr)
}

/// Whether `hosts` are the addresses to probe when no host is configured, each of
/// them once.
pub open spec fn resolves(interfaces: Seq<Vec<HostAddr>>, hosts: Seq<HostAddr>) -> bool {
    &&& hosts.no_duplicates()
    &&& forall|addr: HostAddr|
        #![trigger hosts.contains(addr)]
        #![trigger is_local_host(interfaces, addr)]
        hosts.contains(addr) <==> is_local_host(interfaces, addr)
}

/// Whether an interface before number `i`, or interface `i` before its entry `j`,
/// lists `addr`.
spec fn listed_before(interfaces: Seq<Vec<HostAddr>>, i: int, j: int, addr: HostAddr) -> bool {
    exists|a: int, b: int| lists_at(interfaces, a, b, addr) && (a < i || (a == i && b < j))
}

proof fn lemma_listed_before_entry(interfaces: Seq<Vec<HostAddr>>, i: int, j: int)
    requires
        0 <= i < interfaces.len(),
        0 <= j < interfaces[i]@.len(),
    ensures
        forall|addr: HostAddr|
            #![trigger listed_before(interfaces, i, j + 1, addr)]
            #![trigger listed_before(interfaces, i, j, addr)]
            listed_before(interfaces, i, j + 1, addr) <==> listed_before(interfaces, i, j, addr)
                || addr == interfaces[i]@[j],
{
    assert forall|addr: HostAddr|
        #![trigger listed_before(interfaces, i, j + 1, addr)]
        #![trigger listed_before(interfaces, i, j, addr)]
        listed_before(interfaces, i, j + 1, addr) <==> listed_before(interfaces, i, j, addr)
            || addr == interfaces[i]@[j] by {
        if listed_before(interfaces, i, j + 1, addr) {
            let (a, b) = choose|a: int, b: int|
                lists_at(interfaces, a, b, addr) && (a < i || (a == i && b < j + 1));
            if !(a == i && b == j) {
                assert(lists_at(interfaces, a, b, addr) && (a < i || (a == i && b < j)));
            }
        }
        if listed_before(interfaces, i, j, addr) {
            let (a, b) = choose|a: int, b: int|
                lists_at(interfaces, a, b, addr) && (a < i || (a == i && b < j));
            assert(lists_at(interfaces, a, b, addr) && (a < i || (a == i && b < j + 1)));
        }
        if addr == interfaces[i]@[j] {
            assert(lists_at(interfaces, i, j, addr) && (i < i || (i == i && j < j + 1)));
        }
    }
}

proof fn lemma_listed_before_interface(interfaces: Seq<Vec<HostAddr>>, i: int)
    requires
        0 <= i < interfaces.len(),
    ensures
        forall|addr: HostAddr|
            #![trigger listed_before(interfaces, i, interfaces[i]@.len() as int, addr)]
            #![trigger listed_before(interfaces, i + 1, 0, addr)]
            listed_before(interfaces, i, interfaces[i]@.len() as int, addr) <==> listed_before(
                interfaces,
                i + 1,
                0,
                addr,
            ),
{
    let n = interfaces[i]@.len() as int;
    assert forall|addr: HostAddr|
        #![trigger listed_before(interfaces, i, n, addr)]
        #![trigger listed_before(interfaces, i + 1, 0, addr)]
        listed_before(interfaces, i, n, addr) <==> listed_before(interfaces, i + 1, 0, addr) by {
        if listed_before(interfaces, i, n, addr) {
            let (a, b) = choose|a: int, b: int|
                lists_at(interfaces, a, b, addr) && (a < i || (a == i && b < n));
            assert(lists_at(interfaces, a, b, addr) && (a < i + 1 || (a == i + 1 && b < 0)));
        }
        if listed_before(interfaces, i + 1, 0, addr) {
            let (a, b) = choose|a: int, b: int|
                lists_at(interfaces, a, b, addr) && (a < i + 1 || (a == i + 1 && b < 0));
            assert(lists_at(interfaces, a, b, addr) && (a < i || (a == i && b < n)));
        }
    }
}

proof fn lemma_listed_before_all(interfaces: Seq<Vec<HostAddr>>)
    ensures
        forall|addr: HostAddr|
            #![trigger listed_before(interfaces, interfaces.len() as int, 0, addr)]
            #![trigger listed(interfaces, addr)]
            listed_before(interfaces, interfaces.len() as int, 0, addr) <==> listed(
                interfaces,
                addr,
            ),
        forall|addr: HostAddr| !listed_before(interfaces, 0, 0, addr),
{
    let n = interfaces.len() as int;
    assert forall|addr: HostAddr|
        #![trigger listed_before(interfaces, n, 0, addr)]
        #![trigger listed(interfaces, addr)]
        listed_before(interfaces, n, 0, addr) <==> listed(interfaces, addr) by {
        if listed(interfaces, addr) {
            let (a, b) = choose|a: int, b: int| lists_at(interfaces, a, b, addr);
            assert(lists_at(interfaces, a, b, addr) && (a < n || (a == n && b < 0)));
        }
    }
}

fn holds(hosts: &Vec<HostAddr>, addr: HostAddr) -> (found: bool)
    ensures
        found == hosts@.contains(addr),
{
    let mut k: usize = 0;
    while k < hosts.len()
        invariant
            k <= hosts.len(),
            forall|n: int| 0 <= n < k ==> hosts@[n] != addr,
        decreases hosts.len() - k,
    {
        if hosts[k] == addr {
            return true;
        }
        k += 1;
    }
    false
}

fn add_host(hosts: &mut Vec<HostAddr>, addr: HostAddr)
    requires
        old(hosts)@.no_duplicates(),
    ensures
        final(hosts)@.no_duplicates(),
        forall|a: HostAddr|
            #![trigger final(hosts)@.contains(a)]
            #![trigger old(hosts)@.contains(a)]
            final(hosts)@.contains(a) <==> old(hosts)@.contains(a) || a == addr,
        final(hosts)@ == if old(hosts)@.contains(addr) {
            old(hosts)@
        } else {
            old(hosts)@.push(addr)
        },
{
    if !holds(hosts, addr) {
        hosts.push(addr);
        proof {
            let before = old(hosts)@;
            let after = hosts@;
            assert(after == before.push(addr));
            assert forall|a: HostAddr|
                #![trigger after.contains(a)]
                #![trigger before.contains(a)]
                after.contains(a) <==> before.contains(a) || a == addr by {
                if before.contains(a) {
                    let n = choose|n: int| 0 <= n < before.len() && before[n] == a;
                    assert(after[n] == a);
                }
                if a == addr {
                    assert(after[before.len() as int] == a);
                }
            }
        }
    }
}

/// The addresses to probe when no host is configured, each of them once: `0.0.0.0`,
/// `::`, and every address of every interface.
pub fn get_local_hosts(interfaces: &Vec<Vec<HostAddr>>) -> (hosts: Vec<HostAddr>)
    ensures
        resolves(interfaces@, hosts@),
        hosts@.len() >= 2,
{
    let mut hosts: Vec<HostAddr> = Vec::new();
    add_host(&mut hosts, HostAddr::V4(0));
    add_host(&mut hosts, HostAddr::V6(0));
    proof {
        lemma_listed_before_all(interfaces@);
    }
    let mut i: usize = 0;
    while i < interfaces.len()
        invariant
            i <= interfaces.len(),
            hosts@.len() >= 2,
            hosts@.no_duplicates(),
            forall|addr: HostAddr|
                #![trigger hosts@.contains(addr)]
                #![trigger listed_before(interfaces@, i as int, 0, addr)]
                hosts@.contains(addr) <==> addr.is_unspecified() || listed_before(
                    interfaces@,
                    i as int,
                    0,
                    addr,
                ),
        decreases interfaces.len() - i,
    {
        let interface = &interfaces[i];
        let mut j: usize = 0;
        while j < interface.len()
            invariant
                i < interfaces.len(),
                interface == interfaces@[i as int],
                j <= interface.len(),
                hosts@.len() >= 2,
                hosts@.no_duplicates(),
                forall|addr: HostAddr|
                    #![trigger hosts@.contains(addr)]
                    #![trigger listed_before(interfaces@, i as int, j as int, addr)]
                    hosts@.contains(addr) <==> addr.is_unspecified() || listed_before(
                        interfaces@,
                        i as int,
                        j as int,
                        addr,
                    ),
            decreases interface.len() - j,
        {
            add_host(&mut hosts, interface[j]);
            proof {
                lemma_listed_before_entry(interfaces@, i as int, j as int);
            }
            j += 1;
        }
        proof {
            lemma_listed_before_interface(interfaces@, i as int);
        }
        i += 1;
    }
    proof {
        lemma_listed_before_all(interfaces@);
    }
    hosts
}

} // verus!
