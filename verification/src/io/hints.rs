//! Transit hints: the endpoints that this side publishes, and the order in
//! which the peer's are tried.

use vstd::prelude::*;
use crate::handshake::HostType;
use crate::io::blocking::RelayUrl;
use crate::transfer::{
    direct_type, direct_views, hint_views, relay_type, DirectHint, DirectType, HintValue, Hints,
    TransitType,
};

verus! {

/// One address of a network interface.
#[derive(Debug, PartialEq)]
pub struct Address {
    pub ipv4: bool,
    /// The address as text, without its prefix length.
    pub text: String,
}

/// A network interface of this machine.
#[derive(Debug, PartialEq)]
pub struct Interface {
    pub loopback: bool,
    pub addresses: Vec<Address>,
}

/// Calls `pnet::datalink::interfaces` and, for each interface it lists,
/// `is_loopback`, and for each of its networks `is_ipv4` and `ip`. What
/// comes back depends on the machine, so nothing is promised of it.
#[verifier::external_body]
pub(crate) fn local_interfaces() -> (interfaces: Vec<Interface>) {
    pnet::datalink::interfaces().iter().map(
        |i| Interface {
            loopback: i.is_loopback(),
            addresses: i.ips.iter().map(
                |n| Address { ipv4: n.is_ipv4(), text: n.ip().to_string() },
            ).collect(),
        },
    ).collect()
}

/// The first IPv4 address among `addresses` from index `from` on.
pub open spec fn first_ipv4_from(addresses: Seq<Address>, from: int) -> Option<Seq<char>>
    decreases addresses.len() - from,
{
    if from < 0 || from >= addresses.len() {
        None
    } else if addresses[from].ipv4 {
        Some(addresses[from].text@)
    } else {
        first_ipv4_from(addresses, from + 1)
    }
}

/// The primary address of this machine: the first IPv4 address of the
/// first interface, from index `from` on, that is no loopback and has one.
pub open spec fn primary_address_from(interfaces: Seq<Interface>, from: int) -> Option<Seq<char>>
    decreases interfaces.len() - from,
{
    if from < 0 || from >= interfaces.len() {
        None
    } else if !interfaces[from].loopback && first_ipv4_from(interfaces[from].addresses@, 0)
        is Some {
        first_ipv4_from(interfaces[from].addresses@, 0)
    } else {
        primary_address_from(interfaces, from + 1)
    }
}

/// The direct hints for a listening port on a machine with the given
/// interfaces: one for the primary address, or none where there is none.
pub open spec fn direct_hints_for(interfaces: Seq<Interface>, port: u16) -> Seq<HintValue> {
    match primary_address_from(interfaces, 0) {
        Some(hostname) => seq![
            HintValue::Direct(DirectHint { priority: "0.0"@, hostname, port }),
        ],
        None => Seq::empty(),
    }
}

fn first_ipv4(addresses: &Vec<Address>) -> (found: Option<String>)
    ensures
        found matches Some(text) ==> first_ipv4_from(addresses@, 0) == Some(text@),
        found is None ==> first_ipv4_from(addresses@, 0) is None,
{
    let mut i: usize = 0;
    while i < addresses.len()
        invariant
            i <= addresses.len(),
            first_ipv4_from(addresses@, 0) == first_ipv4_from(addresses@, i as int),
        decreases addresses.len() - i,
    {
        if addresses[i].ipv4 {
            return Some(addresses[i].text.clone());
        }
        i += 1;
    }
    None
}

/// The direct hints for a listening port, given the machine's interfaces.
pub fn direct_hints_from(interfaces: &Vec<Interface>, port: u16) -> (hints: Vec<Hints>)
    ensures
        hint_views(hints@) == direct_hints_for(interfaces@, port),
{
    let mut hints: Vec<Hints> = Vec::new();
    let mut i: usize = 0;
    while i < interfaces.len()
        invariant
            i <= interfaces.len(),
            primary_address_from(interfaces@, 0) == primary_address_from(interfaces@, i as int),
            hints@.len() == 0,
        decreases interfaces.len() - i,
    {
        if !interfaces[i].loopback {
            if let Some(text) = first_ipv4(&interfaces[i].addresses) {
                hints.push(Hints::DirectTcpV1(direct_type("0.0", text.as_str(), port)));
                assert(hint_views(hints@) =~= direct_hints_for(interfaces@, port));
                return hints;
            }
        }
        i += 1;
    }
    assert(hint_views(hints@) =~= direct_hints_for(interfaces@, port));
    hints
}

/// The direct hints that this machine publishes for a listening port: one
/// for the primary address of whatever interfaces it has.
pub fn build_direct_hints(port: u16) -> (hints: Vec<Hints>)
    ensures
        exists|interfaces: Seq<Interface>|
            hint_views(hints@) == #[trigger] direct_hints_for(interfaces, port),
{
    let interfaces = local_interfaces();
    direct_hints_from(&interfaces, port)
}

/// The hints for a relay: one relay hint with the relay's endpoint.
pub open spec fn relay_hints_for(host: Seq<char>, port: u16) -> Seq<HintValue> {
    seq![HintValue::Relay(seq![DirectHint { priority: "0.0"@, hostname: host, port }])]
}

/// The relay hints that this side publishes for its relay.
pub fn build_relay_hints(relay_url: &RelayUrl) -> (hints: Vec<Hints>)
    ensures
        hint_views(hints@) == relay_hints_for(relay_url.host@, relay_url.port),
{
    let mut endpoints: Vec<DirectType> = Vec::new();
    endpoints.push(direct_type("0.0", relay_url.host.as_str(), relay_url.port));
    let mut hints: Vec<Hints> = Vec::new();
    hints.push(Hints::RelayV1(relay_type(endpoints)));
    proof {
        assert(direct_views(endpoints@) =~= relay_hints_for(
            relay_url.host@,
            relay_url.port,
        )[0]->Relay_0);
        assert(hint_views(hints@) =~= relay_hints_for(relay_url.host@, relay_url.port));
    }
    hints
}

/// The endpoints of the direct hints among `hints` from index `from` on,
/// in their order.
pub open spec fn direct_hosts_from(hints: Seq<HintValue>, from: int) -> Seq<DirectHint>
    decreases hints.len() - from,
{
    if from < 0 || from >= hints.len() {
        Seq::empty()
    } else {
        match hints[from] {
            HintValue::Direct(d) => seq![d] + direct_hosts_from(hints, from + 1),
            HintValue::Relay(_) => direct_hosts_from(hints, from + 1),
        }
    }
}

/// The endpoints of every relay hint among `hints` from index `from` on,
/// one hint's endpoints after another's, in the hints' order.
pub open spec fn relay_hosts_from(hints: Seq<HintValue>, from: int) -> Seq<DirectHint>
    decreases hints.len() - from,
{
    if from < 0 || from >= hints.len() {
        Seq::empty()
    } else {
        match hints[from] {
            HintValue::Direct(_) => relay_hosts_from(hints, from + 1),
            HintValue::Relay(endpoints) => endpoints + relay_hosts_from(hints, from + 1),
        }
    }
}

/// A host to connect to, and whether it is the peer or a relay.
#[derive(Debug, PartialEq)]
pub struct Host {
    pub host_type: HostType,
    pub endpoint: DirectType,
}

/// Whether `hosts` are the given endpoints, in order, all of one kind.
pub open spec fn hosts_are(hosts: Seq<Host>, host_type: HostType, endpoints: Seq<DirectHint>)
    -> bool {
    &&& hosts.len() == endpoints.len()
    &&& forall|i: int|
        0 <= i < hosts.len() ==> (#[trigger] hosts[i]).host_type == host_type && hosts[i].endpoint@
            == endpoints[i]
}

fn copy_endpoint(endpoint: &DirectType) -> (copy: DirectType)
    ensures
        copy@ == endpoint@,
{
    DirectType {
        priority: endpoint.priority.clone(),
        hostname: endpoint.hostname.clone(),
        port: endpoint.port,
    }
}

/// The hosts that a peer's transit message offers: those of its direct
/// hints, in order, and those of all its relay hints, in order.
pub fn get_direct_relay_hosts(ttype: &TransitType) -> (hosts: (Vec<Host>, Vec<Host>))
    ensures
        hosts_are(hosts.0@, HostType::Direct, direct_hosts_from(ttype@.hints, 0)),
        hosts_are(hosts.1@, HostType::Relay, relay_hosts_from(ttype@.hints, 0)),
{
    let ghost hints = ttype@.hints;
    let mut direct_hosts: Vec<Host> = Vec::new();
    let mut relay_hosts: Vec<Host> = Vec::new();
    let mut i: usize = 0;
    proof {
        assert(Seq::<DirectHint>::empty() + direct_hosts_from(hints, 0) =~= direct_hosts_from(
            hints,
            0,
        ));
        assert(Seq::<DirectHint>::empty() + relay_hosts_from(hints, 0) =~= relay_hosts_from(
            hints,
            0,
        ));
    }
    while i < ttype.hints_v1.len()
        invariant
            i <= ttype.hints_v1.len(),
            hints == ttype@.hints,
            hints.len() == ttype.hints_v1.len(),
            exists|found: Seq<DirectHint>|
                hosts_are(direct_hosts@, HostType::Direct, found) && #[trigger] (found
                    + direct_hosts_from(hints, i as int)) == direct_hosts_from(hints, 0),
            exists|found: Seq<DirectHint>|
                hosts_are(relay_hosts@, HostType::Relay, found) && #[trigger] (found
                    + relay_hosts_from(hints, i as int)) == relay_hosts_from(hints, 0),
        decreases ttype.hints_v1.len() - i,
    {
        let ghost found = choose|found: Seq<DirectHint>|
            hosts_are(direct_hosts@, HostType::Direct, found) && #[trigger] (found
                + direct_hosts_from(hints, i as int)) == direct_hosts_from(hints, 0);
        let ghost relayed = choose|found: Seq<DirectHint>|
            hosts_are(relay_hosts@, HostType::Relay, found) && #[trigger] (found
                + relay_hosts_from(hints, i as int)) == relay_hosts_from(hints, 0);
        assert(hints[i as int] == ttype.hints_v1@[i as int]@);
        match &ttype.hints_v1[i] {
            Hints::DirectTcpV1(d) => {
                direct_hosts.push(Host { host_type: HostType::Direct, endpoint: copy_endpoint(d) });
                proof {
                    let more = found.push(d@);
                    assert(more + direct_hosts_from(hints, i + 1) =~= found + direct_hosts_from(
                        hints,
                        i as int,
                    ));
                    assert(hosts_are(direct_hosts@, HostType::Direct, more));
                    assert(relayed + relay_hosts_from(hints, i + 1) == relayed + relay_hosts_from(
                        hints,
                        i as int,
                    ));
                }
            },
            Hints::RelayV1(r) => {
                let ghost endpoints = direct_views(r.hints@);
                let mut k: usize = 0;
                while k < r.hints.len()
                    invariant
                        k <= r.hints.len(),
                        endpoints == direct_views(r.hints@),
                        hosts_are(
                            relay_hosts@,
                            HostType::Relay,
                            relayed + endpoints.subrange(0, k as int),
                        ),
                    decreases r.hints.len() - k,
                {
                    relay_hosts.push(
                        Host { host_type: HostType::Relay, endpoint: copy_endpoint(&r.hints[k]) },
                    );
                    proof {
                        assert(endpoints[k as int] == r.hints@[k as int]@);
                        assert(relayed + endpoints.subrange(0, k + 1) =~= (relayed
                            + endpoints.subrange(0, k as int)).push(endpoints[k as int]));
                    }
                    k += 1;
                }
                proof {
                    let more = relayed + endpoints;
                    assert(endpoints.subrange(0, k as int) =~= endpoints);
                    assert(relay_hosts_from(hints, i as int) == endpoints + relay_hosts_from(
                        hints,
                        i + 1,
                    ));
                    assert(more + relay_hosts_from(hints, i + 1) =~= relayed + relay_hosts_from(
                        hints,
                        i as int,
                    ));
                    assert(hosts_are(relay_hosts@, HostType::Relay, more));
                    assert(found + direct_hosts_from(hints, i + 1) == found + direct_hosts_from(
                        hints,
                        i as int,
                    ));
                }
            },
        }
        i += 1;
    }
    proof {
        let found = choose|found: Seq<DirectHint>|
            hosts_are(direct_hosts@, HostType::Direct, found) && #[trigger] (found
                + direct_hosts_from(hints, i as int)) == direct_hosts_from(hints, 0);
        assert(found + Seq::<DirectHint>::empty() =~= found);
        let relayed = choose|found: Seq<DirectHint>|
            hosts_are(relay_hosts@, HostType::Relay, found) && #[trigger] (found
                + relay_hosts_from(hints, i as int)) == relay_hosts_from(hints, 0);
        assert(relayed + Seq::<DirectHint>::empty() =~= relayed);
    }
    (direct_hosts, relay_hosts)
}

} // verus!
