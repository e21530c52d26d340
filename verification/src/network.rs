//! Unified network data model, aggregation and port/interface correlation.

pub mod docker;
pub mod selection;
pub mod windows;
pub mod wsl;

use vstd::prelude::*;
use crate::strutil::{
    after_last_colon, before_last_colon, has_colon, is_valid_port, spec_after_last_colon,
    spec_before_last_colon, spec_has_colon, spec_is_port_token, str_eq,
};

verus! {

/// The two execution namespaces a record can originate from.
#[derive(Debug, Clone, Copy, PartialEq, Eq, Structural)]
pub enum NetworkEnvironment {
    Windows,
    Wsl,
}

/// Abstract value of a [`NetworkInterface`].
pub struct NetworkInterfaceView {
    pub name: Seq<char>,
    pub ipv4_addresses: Seq<Seq<char>>,
    pub ipv6_addresses: Seq<Seq<char>>,
    pub mac_address: Option<Seq<char>>,
    pub is_up: bool,
    pub is_loopback: bool,
    pub environment: NetworkEnvironment,
}

/// A network interface with its properties and source environment.
#[derive(Debug, Clone, PartialEq)]
pub struct NetworkInterface {
    pub name: String,
    pub ipv4_addresses: Vec<String>,
    pub ipv6_addresses: Vec<String>,
    pub mac_address: Option<String>,
    pub is_up: bool,
    pub is_loopback: bool,
    pub environment: NetworkEnvironment,
}

impl View for NetworkInterface {
    type V = NetworkInterfaceView;

    open spec fn view(&self) -> NetworkInterfaceView {
        NetworkInterfaceView {
            name: self.name@,
            ipv4_addresses: self.ipv4_addresses.deep_view(),
            ipv6_addresses: self.ipv6_addresses.deep_view(),
            mac_address: self.mac_address.deep_view(),
            is_up: self.is_up,
            is_loopback: self.is_loopback,
            environment: self.environment,
        }
    }
}

impl DeepView for NetworkInterface {
    type V = NetworkInterfaceView;

    open spec fn deep_view(&self) -> NetworkInterfaceView {
        self.view()
    }
}

/// Abstract value of a [`PortInfo`].
pub struct PortInfoView {
    pub process_id: Seq<char>,
    pub process_name: Seq<char>,
    pub protocol: Seq<char>,
    pub port: Seq<char>,
    pub direction: Seq<char>,
    pub network: Seq<char>,
    pub environment: NetworkEnvironment,
}

/// An active port binding with its associated process information.
#[derive(Debug, Clone, PartialEq)]
pub struct PortInfo {
    pub process_id: String,
    pub process_name: String,
    pub protocol: String,
    pub port: String,
    pub direction: String,
    pub network: String,
    pub environment: NetworkEnvironment,
}

impl View for PortInfo {
    type V = PortInfoView;

    open spec fn view(&self) -> PortInfoView {
        PortInfoView {
            process_id: self.process_id@,
            process_name: self.process_name@,
            protocol: self.protocol@,
            port: self.port@,
            direction: self.direction@,
            network: self.network@,
            environment: self.environment,
        }
    }
}

impl DeepView for PortInfo {
    type V = PortInfoView;

    open spec fn deep_view(&self) -> PortInfoView {
        self.view()
    }
}

/// An exact field-for-field copy of a port record.
pub fn clone_port(p: &PortInfo) -> (r: PortInfo)
    ensures
        r == *p,
{
    PortInfo {
        process_id: p.process_id.clone(),
        process_name: p.process_name.clone(),
        protocol: p.protocol.clone(),
        port: p.port.clone(),
        direction: p.direction.clone(),
        network: p.network.clone(),
        environment: p.environment,
    }
}

/// Abstract value of a [`DockerNetwork`].
pub struct DockerNetworkView {
    pub name: Seq<char>,
    pub driver: Seq<char>,
    pub scope: Seq<char>,
    pub subnet: Seq<char>,
}

/// A container network in the unified model.
#[derive(Debug, Clone, PartialEq)]
pub struct DockerNetwork {
    pub name: String,
    pub driver: String,
    pub scope: String,
    pub subnet: String,
}

impl View for DockerNetwork {
    type V = DockerNetworkView;

    open spec fn view(&self) -> DockerNetworkView {
        DockerNetworkView {
            name: self.name@,
            driver: self.driver@,
            scope: self.scope@,
            subnet: self.subnet@,
        }
    }
}

impl DeepView for DockerNetwork {
    type V = DockerNetworkView;

    open spec fn deep_view(&self) -> DockerNetworkView {
        self.view()
    }
}

/// An exact copy of a list of strings.
pub fn clone_strings(v: &Vec<String>) -> (r: Vec<String>)
    ensures
        r.deep_view() == v.deep_view(),
{
    let mut r: Vec<String> = Vec::new();
    let mut i: usize = 0;
    proof {
        assert(r.deep_view() =~= v.deep_view().take(0));
    }
    while i < v.len()
        invariant
            i <= v@.len(),
            r.deep_view() == v.deep_view().take(i as int),
        decreases v@.len() - i,
    {
        let x = v[i].clone();
        let ghost pre: Seq<String> = r@;
        r.push(x);
        proof {
            crate::strutil::lemma_deep_view_push(pre, r@, x);
            assert(v.deep_view().take(i as int).push(x@) =~= v.deep_view().take((i + 1) as int));
        }
        i = i + 1;
    }
    proof {
        assert(v.deep_view().take(v@.len() as int) =~= v.deep_view());
    }
    r
}

/// A copy of an interface record that carries the same abstract value.
pub fn clone_interface(iface: &NetworkInterface) -> (r: NetworkInterface)
    ensures
        r@ == iface@,
{
    let mac: Option<String> = match &iface.mac_address {
        Some(m) => Some(m.clone()),
        None => None,
    };
    NetworkInterface {
        name: iface.name.clone(),
        ipv4_addresses: clone_strings(&iface.ipv4_addresses),
        ipv6_addresses: clone_strings(&iface.ipv6_addresses),
        mac_address: mac,
        is_up: iface.is_up,
        is_loopback: iface.is_loopback,
        environment: iface.environment,
    }
}

/// All interface records of one refresh cycle, native records first.
///
/// The unified list is the concatenation of the per-environment lists in the
/// fixed environment order: Windows (native) first, WSL (bridged) second. No
/// deduplication is performed: a record present in both namespaces is two
/// records.
pub fn get_all_network_interfaces(
    windows_interfaces: Vec<NetworkInterface>,
    wsl_interfaces: Vec<NetworkInterface>,
) -> (r: Vec<NetworkInterface>)
    ensures
        r@ == windows_interfaces@ + wsl_interfaces@,
{
    let mut r = windows_interfaces;
    let mut rest = wsl_interfaces;
    r.append(&mut rest);
    r
}

/// The listening ports of the native namespace: the structured socket
/// listing first; on its failure, or when it yields no record, the legacy
/// socket table. See [`windows::get_active_ports`].
pub fn get_active_ports(
    ps_outcome: &crate::runner::CommandOutcome,
    netstat_outcome: &crate::runner::CommandOutcome,
) -> (r: Vec<PortInfo>)
    ensures
        r.deep_view() == windows::spec_windows_ports(ps_outcome@, netstat_outcome@),
{
    windows::get_active_ports(ps_outcome, netstat_outcome)
}

/// The records below index `n`, each carried over into the unified model.
pub open spec fn spec_unified_networks_upto(l: Seq<docker::DockerNetworkView>, n: int) -> Seq<
    DockerNetworkView,
>
    decreases n,
{
    if n <= 0 {
        Seq::empty()
    } else {
        spec_unified_networks_upto(l, n - 1).push(
            DockerNetworkView {
                name: l[n - 1].name,
                driver: l[n - 1].driver,
                scope: l[n - 1].scope,
                subnet: l[n - 1].subnet,
            },
        )
    }
}

/// The container networks of one refresh cycle, carried over into the
/// unified model; a failed listing yields the empty list.
pub fn get_all_docker_networks(outcome: &crate::runner::CommandOutcome) -> (r: Vec<DockerNetwork>)
    ensures
        r.deep_view() == spec_unified_networks_upto(
            docker::spec_docker_networks(outcome@),
            docker::spec_docker_networks(outcome@).len() as int,
        ),
{
    let found = docker::get_docker_networks(outcome);
    let ghost fv: Seq<docker::DockerNetworkView> = found.deep_view();
    let mut all_networks: Vec<DockerNetwork> = Vec::new();
    let mut i: usize = 0;
    proof {
        assert(all_networks.deep_view() =~= spec_unified_networks_upto(fv, 0));
    }
    while i < found.len()
        invariant
            i <= found@.len(),
            fv == found.deep_view(),
            all_networks.deep_view() == spec_unified_networks_upto(fv, i as int),
        decreases found@.len() - i,
    {
        let network = &found[i];
        proof {
            assert(network@ == fv[i as int]);
        }
        let converted = DockerNetwork {
            name: network.name.clone(),
            driver: network.driver.clone(),
            scope: network.scope.clone(),
            subnet: network.subnet.clone(),
        };
        proof {
            assert(converted@ == (DockerNetworkView {
                name: fv[i as int].name,
                driver: fv[i as int].driver,
                scope: fv[i as int].scope,
                subnet: fv[i as int].subnet,
            }));
        }
        let ghost pre: Seq<DockerNetwork> = all_networks@;
        all_networks.push(converted);
        proof {
            crate::strutil::lemma_deep_view_push(pre, all_networks@, all_networks@.last());
            assert(all_networks.deep_view() =~= spec_unified_networks_upto(fv, (i + 1) as int));
        }
        i = i + 1;
    }
    all_networks
}

/// In a unified list made of a native block followed by a bridged block,
/// a native record never stands after a bridged one: everything before a
/// record of the native namespace is of the native namespace.
pub proof fn lemma_native_precedes_bridged(
    native: Seq<NetworkInterfaceView>,
    bridged: Seq<NetworkInterfaceView>,
    i: int,
    j: int,
)
    requires
        forall|k: int|
            0 <= k < native.len() ==> native[k].environment == NetworkEnvironment::Windows,
        forall|k: int|
            0 <= k < bridged.len() ==> bridged[k].environment == NetworkEnvironment::Wsl,
        0 <= i < j < (native + bridged).len(),
        (native + bridged)[j].environment == NetworkEnvironment::Windows,
    ensures
        (native + bridged)[i].environment == NetworkEnvironment::Windows,
{
    if j >= native.len() {
        assert((native + bridged)[j] == bridged[j - native.len()]);
    }
    assert((native + bridged)[i] == native[i]);
}

/// The address part of a bound-network token: everything before the last
/// colon when what follows that colon is a numeric port, and the whole
/// token otherwise. A bare address, the bare wildcard `::` among them,
/// carries no trailing `:port` and is kept whole.
pub open spec fn spec_port_ip(network: Seq<char>) -> Seq<char> {
    if spec_has_colon(network) && spec_is_port_token(spec_after_last_colon(network)) {
        spec_before_last_colon(network)
    } else {
        network
    }
}

/// Whether a port binding belongs to an interface: its bound address equals
/// one of the interface's addresses, or is a wildcard bind.
pub open spec fn spec_port_matches(p: PortInfoView, iface: NetworkInterfaceView) -> bool {
    let ip = spec_port_ip(p.network);
    iface.ipv4_addresses.contains(ip)
        || iface.ipv6_addresses.contains(ip)
        || ip == "0.0.0.0"@
        || ip == "::"@
        || ip == "*"@
}

/// The ports of `all` that [`spec_port_matches`] attributes to `iface`, in
/// their original order; indices before `n` only.
pub open spec fn spec_filter_ports(
    all: Seq<PortInfoView>,
    iface: NetworkInterfaceView,
    n: int,
) -> Seq<PortInfoView>
    decreases n,
{
    if n <= 0 {
        Seq::empty()
    } else {
        let prev = spec_filter_ports(all, iface, n - 1);
        if spec_port_matches(all[n - 1], iface) {
            prev.push(all[n - 1])
        } else {
            prev
        }
    }
}

/// Whether `ips` holds a string whose characters are exactly `x`.
pub(crate) fn contains_string(ips: &Vec<String>, x: &str) -> (r: bool)
    ensures
        r == ips.deep_view().contains(x@),
{
    let mut i: usize = 0;
    while i < ips.len()
        invariant
            i <= ips.len(),
            forall|j: int| 0 <= j < i ==> ips.deep_view()[j] != x@,
        decreases ips.len() - i,
    {
        if str_eq(ips[i].as_str(), x) {
            proof {
                assert(ips.deep_view()[i as int] == x@);
            }
            return true;
        }
        i = i + 1;
    }
    proof {
        assert(!ips.deep_view().contains(x@)) by {
            if ips.deep_view().contains(x@) {
                let j = choose|j: int|
                    0 <= j < ips.deep_view().len() && ips.deep_view()[j] == x@;
                assert(ips.deep_view()[j] != x@);
            }
        }
    }
    false
}

/// The ports bound to one of `interface`'s addresses or to a wildcard bind.
///
/// A port matches when its bound network token, stripped of a trailing
/// numeric `:port` part when it carries one, equals one of the interface's
/// IPv4 or IPv6 addresses, or is one of the wildcard binds `0.0.0.0`, `::`
/// or `*`. Matching is exact string equality; there is no subnet
/// containment logic.
pub fn filter_ports_for_interface(
    interface: &NetworkInterface,
    all_ports: &[PortInfo],
) -> (r: Vec<PortInfo>)
    ensures
        r.deep_view() == spec_filter_ports(
            all_ports.deep_view(),
            interface@,
            all_ports.deep_view().len() as int,
        ),
{
    let mut filtered_ports: Vec<PortInfo> = Vec::new();

    let mut interface_ips: Vec<String> = Vec::new();
    let mut k: usize = 0;
    while k < interface.ipv4_addresses.len()
        invariant
            k <= interface.ipv4_addresses.len(),
            interface_ips.deep_view() == interface.ipv4_addresses.deep_view().take(k as int),
        decreases interface.ipv4_addresses.len() - k,
    {
        proof {
            assert(interface.ipv4_addresses.deep_view().take(k as int).len() == k);
            assert(interface_ips.deep_view().len() == interface_ips@.len());
        }
        interface_ips.push(interface.ipv4_addresses[k].clone());
        proof {
            assert(interface_ips.deep_view() =~~= interface.ipv4_addresses.deep_view().take(
                (k + 1) as int,
            ));
        }
        k = k + 1;
    }
    proof {
        assert(interface_ips.deep_view() =~= interface.ipv4_addresses.deep_view());
    }
    let ghost v4: Seq<Seq<char>> = interface_ips.deep_view();
    let mut k6: usize = 0;
    while k6 < interface.ipv6_addresses.len()
        invariant
            k6 <= interface.ipv6_addresses.len(),
            interface_ips.deep_view() == v4 + interface.ipv6_addresses.deep_view().take(k6 as int),
        decreases interface.ipv6_addresses.len() - k6,
    {
        let x6 = interface.ipv6_addresses[k6].clone();
        let ghost pre6: Seq<String> = interface_ips@;
        interface_ips.push(x6);
        proof {
            crate::strutil::lemma_deep_view_push(pre6, interface_ips@, x6);
            assert((v4 + interface.ipv6_addresses.deep_view().take(k6 as int)).push(x6@) =~= v4
                + interface.ipv6_addresses.deep_view().take((k6 + 1) as int));
        }
        k6 = k6 + 1;
    }
    proof {
        assert(interface_ips.deep_view() =~= v4 + interface.ipv6_addresses.deep_view());
    }

    let mut i: usize = 0;
    while i < all_ports.len()
        invariant
            i <= all_ports.len(),
            interface_ips.deep_view() == interface@.ipv4_addresses + interface@.ipv6_addresses,
            filtered_ports.deep_view() == spec_filter_ports(
                all_ports.deep_view(),
                interface@,
                i as int,
            ),
        decreases all_ports.len() - i,
    {
        let port = &all_ports[i];
        let suffix = after_last_colon(port.network.as_str());
        let port_ip: String = if has_colon(port.network.as_str()) && is_valid_port(
            suffix.as_str(),
        ) {
            before_last_colon(port.network.as_str())
        } else {
            port.network.clone()
        };
        proof {
            assert(port_ip@ == spec_port_ip(all_ports.deep_view()[i as int].network));
        }

        let matches = contains_string(&interface_ips, port_ip.as_str()) || str_eq(
            port_ip.as_str(),
            "0.0.0.0",
        ) || str_eq(port_ip.as_str(), "::") || str_eq(port_ip.as_str(), "*");

        proof {
            assert(interface@.ipv4_addresses.contains(port_ip@)
                || interface@.ipv6_addresses.contains(port_ip@) <==> interface_ips.deep_view()
                .contains(port_ip@)) by {
                let ips = interface_ips.deep_view();
                let a = interface@.ipv4_addresses;
                let b = interface@.ipv6_addresses;
                if a.contains(port_ip@) {
                    let j = choose|j: int| 0 <= j < a.len() && a[j] == port_ip@;
                    assert(ips[j] == port_ip@);
                }
                if b.contains(port_ip@) {
                    let j = choose|j: int| 0 <= j < b.len() && b[j] == port_ip@;
                    assert(ips[a.len() + j] == port_ip@);
                }
                if ips.contains(port_ip@) {
                    let j = choose|j: int| 0 <= j < ips.len() && ips[j] == port_ip@;
                    if j < a.len() {
                        assert(a[j] == port_ip@);
                    } else {
                        assert(b[j - a.len()] == port_ip@);
                    }
                }
            }
            assert(matches == spec_port_matches(all_ports.deep_view()[i as int], interface@));
        }

        if matches {
            filtered_ports.push(clone_port(port));
            proof {
                assert(filtered_ports.deep_view() =~~= spec_filter_ports(
                    all_ports.deep_view(),
                    interface@,
                    i + 1 as int,
                ));
            }
        }
        i = i + 1;
    }
    filtered_ports
}

} // verus!
