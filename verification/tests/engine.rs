//! End-to-end checks of the discovery engine on recorded tool output.

use netinv::firewall;
use netinv::network;
use netinv::network::selection::get_available_interfaces;
use netinv::network::windows;
use netinv::network::wsl;
use netinv::network::{NetworkEnvironment, NetworkInterface, PortInfo};
use netinv::routing;
use netinv::network::docker;
use netinv::runner::CommandOutcome;

fn success(stdout: &str) -> CommandOutcome {
    CommandOutcome::Success { stdout: stdout.to_string(), stderr: String::new() }
}

fn sample_interface() -> NetworkInterface {
    NetworkInterface {
        name: "eth0".to_string(),
        ipv4_addresses: vec!["10.0.0.5".to_string()],
        ipv6_addresses: vec![],
        mac_address: None,
        is_up: true,
        is_loopback: false,
        environment: NetworkEnvironment::Wsl,
    }
}

fn port(network: &str) -> PortInfo {
    PortInfo {
        process_id: "1".to_string(),
        process_name: "svc".to_string(),
        protocol: "TCP".to_string(),
        port: "0".to_string(),
        direction: "LISTEN".to_string(),
        network: network.to_string(),
        environment: NetworkEnvironment::Wsl,
    }
}

#[test]
fn mod_test_get_firewall_rules() {
    let rules = firewall::get_firewall_rules();
    assert!(!rules.is_empty());
}

#[test]
fn windows_test_get_firewall_rules() {
    let rules = firewall::windows::get_firewall_rules();
    assert_eq!(rules.len(), 4);

    assert_eq!(rules[0].name, "Windows Defender Firewall");
    assert_eq!(rules[0].enabled, "Yes");
    assert_eq!(rules[0].direction, "Inbound");
    assert_eq!(rules[0].action, "Allow");
}

#[test]
fn wsl_test_get_firewall_rules() {
    let rules = firewall::wsl::get_firewall_rules();
    assert_eq!(rules.len(), 4);

    assert_eq!(rules[0].name, "Allow Loopback");
    assert_eq!(rules[0].enabled, "Yes");
    assert_eq!(rules[0].direction, "Inbound");
    assert_eq!(rules[0].action, "Accept");
}

#[test]
fn mod_test_get_routing_rules() {
    let rules = routing::get_routing_rules();
    assert!(!rules.is_empty());
}

#[test]
fn windows_test_get_routing_rules() {
    let routes = routing::windows::get_routing_rules();
    assert_eq!(routes.len(), 4);

    assert_eq!(routes[0].destination, "0.0.0.0/0");
    assert_eq!(routes[0].gateway, "192.168.1.1");
    assert_eq!(routes[0].interface, "Ethernet");
    assert_eq!(routes[0].metric, "25");
}

#[test]
fn wsl_test_get_routing_rules() {
    let routes = routing::wsl::get_routing_rules();
    assert_eq!(routes.len(), 4);

    assert_eq!(routes[0].destination, "default");
    assert_eq!(routes[0].gateway, "172.24.160.1");
    assert_eq!(routes[0].interface, "eth0");
    assert_eq!(routes[0].metric, "100");
}

#[test]
fn test_get_active_ports() {
    let ps = CommandOutcome::LaunchFailed { reason: "missing".to_string() };
    let netstat = success(
        "  TCP    0.0.0.0:135     0.0.0.0:0    LISTENING    1084\r\n",
    );
    let ports = network::get_active_ports(&ps, &netstat);
    assert!(!ports.is_empty());
}

#[test]
fn test_get_all_network_interfaces() {
    let native = vec![sample_interface()];
    let bridged = vec![sample_interface()];
    let interfaces = network::get_all_network_interfaces(native, bridged);
    assert!(!interfaces.is_empty());
    assert_eq!(interfaces.len(), 2);
}

#[test]
fn test_get_all_docker_networks() {
    let listing = success("{\"Name\":\"bridge\",\"Driver\":\"bridge\",\"Scope\":\"local\"}\n");
    let networks = network::get_all_docker_networks(&listing);
    assert!(!networks.is_empty());
}

#[test]
fn test_get_available_interfaces() {
    let mut down = sample_interface();
    down.is_up = false;
    let mut loopback = sample_interface();
    loopback.name = "lo".to_string();
    loopback.is_loopback = true;
    let all = vec![sample_interface(), down, loopback];
    let interfaces = get_available_interfaces(&all);
    assert_eq!(interfaces.len(), 1);
    assert_eq!(interfaces[0].name, "eth0");
}

#[test]
fn correlator_matches_interface_and_wildcard_binds() {
    let iface = sample_interface();
    let all_ports = vec![port("10.0.0.5:22"), port("0.0.0.0:80"), port("192.168.1.1:443")];
    let matched = network::filter_ports_for_interface(&iface, &all_ports);
    assert_eq!(matched.len(), 2);
    assert_eq!(matched[0].network, "10.0.0.5:22");
    assert_eq!(matched[1].network, "0.0.0.0:80");
}

#[test]
fn correlator_takes_bare_addresses_and_star() {
    let iface = sample_interface();
    let all_ports = vec![port("10.0.0.5"), port("*:8443"), port("[::1]:22")];
    let matched = network::filter_ports_for_interface(&iface, &all_ports);
    assert_eq!(matched.len(), 2);
    assert_eq!(matched[0].network, "10.0.0.5");
    assert_eq!(matched[1].network, "*:8443");
}

#[test]
fn fallback_result_equals_secondary_alone() {
    let netstat_out = "\
Active Connections\r\n\
\r\n\
  Proto  Local Address          Foreign Address        State           PID\r\n\
  TCP    0.0.0.0:135            0.0.0.0:0              LISTENING       1084\r\n\
  TCP    10.0.0.5:22            0.0.0.0:0              LISTENING       4\r\n";
    let failed = CommandOutcome::LaunchFailed { reason: "not on PATH".to_string() };
    let netstat = success(netstat_out);

    let chained = windows::get_active_ports(&failed, &netstat);
    let secondary_only = windows::parse_netstat_output(netstat_out);
    assert_eq!(chained, secondary_only);
    assert_eq!(chained.len(), 2);
}

#[test]
fn chain_prefers_primary_when_it_yields_records() {
    let ps = success(
        "[{\"LocalAddress\":\"0.0.0.0\",\"LocalPort\":80,\"ProcessName\":\"nginx\",\"OwningProcess\":10}]",
    );
    let netstat = success("  TCP  0.0.0.0:135  0.0.0.0:0  LISTENING  1084\n");
    let ports = windows::get_active_ports(&ps, &netstat);
    assert_eq!(ports.len(), 1);
    assert_eq!(ports[0].process_name, "nginx");
    assert_eq!(ports[0].port, "80");
}

#[test]
fn wsl_ports_from_failed_outcome_are_empty() {
    let ports = wsl::get_active_ports(&CommandOutcome::TimedOut);
    assert!(ports.is_empty());
}

#[test]
fn docker_networks_from_failed_outcomes_are_empty() {
    let timed_out = docker::get_docker_networks(&CommandOutcome::TimedOut);
    assert!(timed_out.is_empty());
    let denied = CommandOutcome::NonZeroExit {
        code: 1,
        stdout: String::new(),
        stderr: "permission denied".to_string(),
    };
    assert!(docker::get_containers_for_network(&denied).is_empty());
}

#[test]
fn containers_for_network_from_listing() {
    let listing = success("{\"Names\":\"db\",\"Image\":\"postgres:16\",\"Status\":\"Up\",\"Ports\":\"5432/tcp\",\"ID\":\"f00\"}\n");
    let containers = docker::get_containers_for_network(&listing);
    assert_eq!(containers.len(), 1);
    assert_eq!(containers[0].name, "db");
    assert_eq!(containers[0].image, "postgres:16");
}

#[test]
fn diagnostic_cause_reported_when_every_step_fails() {
    let ps = CommandOutcome::LaunchFailed { reason: "missing".to_string() };
    let netstat = CommandOutcome::TimedOut;
    let (ports, diagnostic) = windows::get_active_ports_with_diagnostic(&ps, &netstat);
    assert!(ports.is_empty());
    assert_eq!(diagnostic, Some("launch failed: missing; timed out".to_string()));
}

#[test]
fn no_diagnostic_cause_when_a_step_ran() {
    let ps = CommandOutcome::LaunchFailed { reason: "missing".to_string() };
    let netstat = success("");
    let (ports, diagnostic) = windows::get_active_ports_with_diagnostic(&ps, &netstat);
    assert!(ports.is_empty());
    assert_eq!(diagnostic, None);

    let (_, bridged_diag) = wsl::get_active_ports_with_diagnostic(&CommandOutcome::TimedOut);
    assert_eq!(bridged_diag, Some("timed out".to_string()));
}

#[test]
fn correlator_keeps_bare_wildcard_and_bare_ipv6_whole() {
    let mut iface = sample_interface();
    iface.ipv6_addresses = vec!["fe80::215:5dff:fef9:e225".to_string()];
    let all_ports = vec![
        port("::"),
        port("fe80::215:5dff:fef9:e225"),
        port("fe80::abcd"),
    ];
    let matched = network::filter_ports_for_interface(&iface, &all_ports);
    assert_eq!(matched.len(), 2);
    assert_eq!(matched[0].network, "::");
    assert_eq!(matched[1].network, "fe80::215:5dff:fef9:e225");
}

#[test]
fn correlator_strips_only_numeric_port_suffixes() {
    let iface = sample_interface();
    let all_ports = vec![port(":::80"), port("10.0.0.5:sock")];
    let matched = network::filter_ports_for_interface(&iface, &all_ports);
    // ":::80" strips its numeric port and is the "::" wildcard; the second
    // token has no numeric port, stays whole, and matches no address.
    assert_eq!(matched.len(), 1);
    assert_eq!(matched[0].network, ":::80");
}
