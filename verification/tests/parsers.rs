//! Checks of the individual output parsers on recorded tool output.

use netinv::network::windows::{
    enrich_process_names, get_network_interfaces, get_wsl_network_interfaces,
    parse_brief_addr_line, parse_brief_mac_addresses, parse_ip_address_with_type,
    parse_netstat_output, parse_powershell_connections, parse_tasklist_process_name,
};
use netinv::network::wsl::{parse_ss_with_process_info, parse_users_field};
use netinv::network::docker::{parse_docker_containers, parse_docker_networks};
use netinv::network::NetworkEnvironment;
use netinv::runner::CommandOutcome;
use netinv::strutil::normalize_mac;

fn success(stdout: &str) -> CommandOutcome {
    CommandOutcome::Success { stdout: stdout.to_string(), stderr: String::new() }
}

#[test]
fn brief_line_reads_state_name_and_addresses() {
    let macs = vec![("eth0".to_string(), "00:15:5d:f9:e2:25".to_string())];
    let line = "eth0 UP 172.20.11.89/20 fe80::215:5dff:fef9:e225/64";
    let iface = parse_brief_addr_line(line, &macs).unwrap();
    assert_eq!(iface.name, "eth0");
    assert!(iface.is_up);
    assert!(!iface.is_loopback);
    assert_eq!(iface.ipv4_addresses, vec!["172.20.11.89".to_string()]);
    assert_eq!(iface.ipv6_addresses, vec!["fe80::215:5dff:fef9:e225".to_string()]);
    assert_eq!(iface.mac_address, Some("00:15:5d:f9:e2:25".to_string()));
    assert_eq!(iface.environment, NetworkEnvironment::Wsl);
}

#[test]
fn brief_line_state_must_be_exactly_up() {
    let macs: Vec<(String, String)> = vec![];
    let lo = parse_brief_addr_line("lo UNKNOWN 127.0.0.1/8 ::1/128", &macs).unwrap();
    assert!(!lo.is_up);
    assert!(lo.is_loopback);
    assert_eq!(lo.mac_address, None);

    let down = parse_brief_addr_line("eth1 DOWN", &macs).unwrap();
    assert!(!down.is_up);
    assert!(!down.is_loopback);
    assert!(down.ipv4_addresses.is_empty());
}

#[test]
fn brief_line_with_one_token_is_dropped() {
    let macs: Vec<(String, String)> = vec![];
    assert!(parse_brief_addr_line("eth0", &macs).is_none());
    assert!(parse_brief_addr_line("", &macs).is_none());
}

#[test]
fn address_classification_by_colon() {
    let (ip, is_v6) = parse_ip_address_with_type("172.20.11.89/20").unwrap();
    assert_eq!(ip, "172.20.11.89");
    assert!(!is_v6);

    let (ip6, is_v6) = parse_ip_address_with_type("fe80::1/64").unwrap();
    assert_eq!(ip6, "fe80::1");
    assert!(is_v6);

    let (bare, is_v6) = parse_ip_address_with_type("192.168.1.7").unwrap();
    assert_eq!(bare, "192.168.1.7");
    assert!(!is_v6);
}

#[test]
fn mac_normalization_round_trip() {
    let once = normalize_mac("00-15-5D-12-34-56");
    assert_eq!(once, "00:15:5d:12:34:56");
    let twice = normalize_mac(&once);
    assert_eq!(twice, once);
}

#[test]
fn mac_table_keeps_only_mac_shaped_tokens() {
    let out = "\
lo               UNKNOWN        00:00:00:00:00:00 <LOOPBACK,UP,LOWER_UP>\n\
eth0             UP             00:15:5d:f9:e2:25 <BROADCAST,MULTICAST,UP>\n\
bond0            DOWN           short <NO-CARRIER>\n";
    let pairs = parse_brief_mac_addresses(out);
    assert_eq!(pairs.len(), 2);
    assert_eq!(pairs[0], ("lo".to_string(), "00:00:00:00:00:00".to_string()));
    assert_eq!(pairs[1], ("eth0".to_string(), "00:15:5d:f9:e2:25".to_string()));
}

#[test]
fn wsl_interfaces_join_addresses_with_macs() {
    let addr = success("eth0 UP 172.20.11.89/20 fe80::215:5dff:fef9:e225/64\nlo UNKNOWN 127.0.0.1/8\n");
    let link = success("eth0 UP 00:15:5d:f9:e2:25 <BROADCAST>\n");
    let interfaces = get_wsl_network_interfaces(&addr, &link);
    assert_eq!(interfaces.len(), 2);
    assert_eq!(interfaces[0].name, "eth0");
    assert_eq!(interfaces[0].mac_address, Some("00:15:5d:f9:e2:25".to_string()));
    assert_eq!(interfaces[1].name, "lo");
    assert_eq!(interfaces[1].mac_address, None);
    assert!(interfaces[1].is_loopback);
}

#[test]
fn ss_parser_reads_listening_sockets() {
    let out = "\
Netid State  Recv-Q Send-Q Local Address:Port Peer Address:Port Process\n\
tcp   LISTEN 0      128    0.0.0.0:22         0.0.0.0:*         users:((\"sshd\",pid=1234,fd=3))\n\
udp   UNCONN 0      0      0.0.0.0:68         0.0.0.0:*\n\
tcp   LISTEN 0      511    [::1]:631          [::]:*\n";
    let ports = parse_ss_with_process_info(out);
    assert_eq!(ports.len(), 2);
    assert_eq!(ports[0].protocol, "TCP");
    assert_eq!(ports[0].port, "22");
    assert_eq!(ports[0].process_id, "1234");
    assert_eq!(ports[0].process_name, "sshd");
    assert_eq!(ports[0].network, "0.0.0.0:22");
    assert_eq!(ports[0].environment, NetworkEnvironment::Wsl);
    assert_eq!(ports[1].port, "631");
    assert_eq!(ports[1].process_id, "N/A");
    assert_eq!(ports[1].process_name, "N/A");
}

#[test]
fn ss_parser_drops_short_lines_and_keeps_parsing() {
    let out = "\
header\n\
bad line\n\
tcp   LISTEN 0      128    127.0.0.1:8080     0.0.0.0:*\n";
    let ports = parse_ss_with_process_info(out);
    assert_eq!(ports.len(), 1);
    assert_eq!(ports[0].port, "8080");
}

#[test]
fn ss_parser_drops_non_numeric_and_oversized_ports() {
    let out = "\
header\n\
tcp   LISTEN 0      128    /run/user.sock:x   0.0.0.0:*\n\
tcp   LISTEN 0      128    0.0.0.0:65536      0.0.0.0:*\n\
tcp   LISTEN 0      128    0.0.0.0:65535      0.0.0.0:*\n";
    let ports = parse_ss_with_process_info(out);
    assert_eq!(ports.len(), 1);
    assert_eq!(ports[0].port, "65535");
}

#[test]
fn parsing_twice_is_byte_for_byte_identical() {
    let out = "\
header\n\
tcp   LISTEN 0      128    0.0.0.0:22         0.0.0.0:*         users:((\"sshd\",pid=1234,fd=3))\n\
tcp   LISTEN 0      511    127.0.0.1:631      0.0.0.0:*\n";
    let first = parse_ss_with_process_info(out);
    let second = parse_ss_with_process_info(out);
    assert_eq!(first, second);

    let listing = "{\"Name\":\"bridge\",\"Driver\":\"bridge\",\"Scope\":\"local\"}\n";
    assert_eq!(parse_docker_networks(listing), parse_docker_networks(listing));
}

#[test]
fn users_field_extraction() {
    let (pid, name) = parse_users_field("users:((\"sshd\",pid=1234,fd=3))");
    assert_eq!(pid, "1234");
    assert_eq!(name, "sshd");

    let (pid, name) = parse_users_field("nonsense");
    assert_eq!(pid, "N/A");
    assert_eq!(name, "N/A");
}

#[test]
fn netstat_parser_reads_listening_tcp_rows() {
    let out = "\
Active Connections\r\n\
\r\n\
  Proto  Local Address          Foreign Address        State           PID\r\n\
  TCP    0.0.0.0:135            0.0.0.0:0              LISTENING       1084\r\n\
  TCP    10.0.0.5:445           0.0.0.0:0              ESTABLISHED     4\r\n\
  UDP    0.0.0.0:500            *:*                                    2032\r\n";
    let ports = parse_netstat_output(out);
    assert_eq!(ports.len(), 1);
    assert_eq!(ports[0].port, "135");
    assert_eq!(ports[0].process_id, "1084");
    assert_eq!(ports[0].process_name, "N/A");
    assert_eq!(ports[0].direction, "LISTENING");
    assert_eq!(ports[0].network, "0.0.0.0:135");
    assert_eq!(ports[0].environment, NetworkEnvironment::Windows);
}

#[test]
fn netstat_records_take_names_from_process_table() {
    let out = "  TCP    0.0.0.0:135    0.0.0.0:0    LISTENING    1084\n";
    let ports = parse_netstat_output(out);
    let names = vec![("1084".to_string(), "svchost.exe".to_string())];
    let enriched = enrich_process_names(ports, &names);
    assert_eq!(enriched.len(), 1);
    assert_eq!(enriched[0].process_name, "svchost.exe");
    assert_eq!(enriched[0].process_id, "1084");
}

#[test]
fn tasklist_row_gives_first_quoted_field() {
    let name = parse_tasklist_process_name("\"svchost.exe\",\"1084\",\"Services\",\"0\",\"9,720 K\"\r\n");
    assert_eq!(name, "svchost.exe");
    assert_eq!(parse_tasklist_process_name(""), "N/A");
    assert_eq!(parse_tasklist_process_name("INFO: no tasks\r\n"), "N/A");
}

#[test]
fn powershell_connections_from_array() {
    let out = "[{\"LocalAddress\":\"0.0.0.0\",\"LocalPort\":135,\"ProcessName\":\"svchost\",\"OwningProcess\":1084},\
               {\"LocalAddress\":\"::\",\"LocalPort\":445,\"ProcessName\":null,\"OwningProcess\":null}]";
    let ports = parse_powershell_connections(out);
    assert_eq!(ports.len(), 2);
    assert_eq!(ports[0].network, "0.0.0.0:135");
    assert_eq!(ports[0].port, "135");
    assert_eq!(ports[0].process_id, "1084");
    assert_eq!(ports[0].process_name, "svchost");
    assert_eq!(ports[1].process_id, "N/A");
    assert_eq!(ports[1].process_name, "N/A");
}

#[test]
fn powershell_single_object_is_one_record() {
    let out = "{\"LocalAddress\":\"127.0.0.1\",\"LocalPort\":8080,\"ProcessName\":\"app\",\"OwningProcess\":7}";
    let ports = parse_powershell_connections(out);
    assert_eq!(ports.len(), 1);
    assert_eq!(ports[0].network, "127.0.0.1:8080");
    assert_eq!(ports[0].process_name, "app");
}

#[test]
fn powershell_malformed_text_yields_nothing() {
    assert!(parse_powershell_connections("no json here").is_empty());
    let partial = "[{\"LocalAddress\":\"0.0.0.0\"},{\"LocalAddress\":\"::\",\"LocalPort\":22}]";
    let ports = parse_powershell_connections(partial);
    assert_eq!(ports.len(), 1);
    assert_eq!(ports[0].port, "22");
}

#[test]
fn windows_interfaces_group_by_alias_and_normalize_macs() {
    let ip = success(
        "[{\"InterfaceAlias\":\"Ethernet\",\"IPAddress\":\"192.168.1.17\",\"AddressFamily\":2},\
          {\"InterfaceAlias\":\"Ethernet\",\"IPAddress\":\"fe80::4\",\"AddressFamily\":23},\
          {\"InterfaceAlias\":\"Loopback Pseudo-Interface 1\",\"IPAddress\":\"127.0.0.1\",\"AddressFamily\":2}]",
    );
    let adapters = success(
        "[{\"Name\":\"Ethernet\",\"Status\":\"Up\",\"MacAddress\":\"00-15-5D-12-34-56\"}]",
    );
    let interfaces = get_network_interfaces(&ip, &adapters);
    assert_eq!(interfaces.len(), 2);
    assert_eq!(interfaces[0].name, "Ethernet");
    assert_eq!(interfaces[0].ipv4_addresses, vec!["192.168.1.17".to_string()]);
    assert_eq!(interfaces[0].ipv6_addresses, vec!["fe80::4".to_string()]);
    assert_eq!(interfaces[0].mac_address, Some("00:15:5d:12:34:56".to_string()));
    assert!(interfaces[0].is_up);
    assert!(!interfaces[0].is_loopback);
    assert_eq!(interfaces[0].environment, NetworkEnvironment::Windows);
    assert_eq!(interfaces[1].name, "Loopback Pseudo-Interface 1");
    assert!(interfaces[1].is_loopback);
    assert!(interfaces[1].is_up);
    assert_eq!(interfaces[1].mac_address, None);
}

#[test]
fn windows_interfaces_single_object_fallback() {
    let ip = success(
        "{\"InterfaceAlias\":\"Wi-Fi\",\"IPAddress\":\"10.1.2.3\",\"AddressFamily\":2}",
    );
    let adapters = CommandOutcome::NonZeroExit {
        code: 1,
        stdout: String::new(),
        stderr: "denied".to_string(),
    };
    let interfaces = get_network_interfaces(&ip, &adapters);
    assert_eq!(interfaces.len(), 1);
    assert_eq!(interfaces[0].name, "Wi-Fi");
    assert_eq!(interfaces[0].ipv4_addresses, vec!["10.1.2.3".to_string()]);
    assert!(interfaces[0].is_up);
}

#[test]
fn docker_network_lines_with_defaults() {
    let out = "\
{\"Name\":\"bridge\",\"Driver\":\"bridge\",\"Scope\":\"local\"}\n\
{\"Name\":\"partial\"}\n\
not json\n\
\n";
    let networks = parse_docker_networks(out);
    assert_eq!(networks.len(), 2);
    assert_eq!(networks[0].name, "bridge");
    assert_eq!(networks[0].driver, "bridge");
    assert_eq!(networks[0].scope, "local");
    assert_eq!(networks[0].subnet, "");
    assert_eq!(networks[1].name, "partial");
    assert_eq!(networks[1].driver, "unknown");
    assert_eq!(networks[1].scope, "unknown");
}

#[test]
fn docker_container_lines_with_defaults() {
    let out = "{\"Names\":\"web\",\"Image\":\"nginx:1\",\"Status\":\"Up 2 hours\",\"Ports\":\"80/tcp\",\"ID\":\"abc123\"}\n{}\n";
    let containers = parse_docker_containers(out);
    assert_eq!(containers.len(), 2);
    assert_eq!(containers[0].name, "web");
    assert_eq!(containers[0].image, "nginx:1");
    assert_eq!(containers[0].status, "Up 2 hours");
    assert_eq!(containers[0].ports, "80/tcp");
    assert_eq!(containers[0].id, "abc123");
    assert_eq!(containers[1].name, "unknown");
    assert_eq!(containers[1].ports, "");
}

#[test]
fn windows_interfaces_last_adapter_row_wins_and_macs_stay_canonical() {
    let ip = success(
        "[{\"InterfaceAlias\":\"Ethernet\",\"IPAddress\":\"192.168.1.17\",\"AddressFamily\":2},\
          {\"InterfaceAlias\":\"Wi-Fi\",\"IPAddress\":\"10.1.2.3\",\"AddressFamily\":2}]",
    );
    let adapters = success(
        "[{\"Name\":\"Ethernet\",\"Status\":\"Down\",\"MacAddress\":\"AA-BB-CC-DD-EE-FF\"},\
          {\"Name\":\"Ethernet\",\"Status\":\"Up\",\"MacAddress\":\"00-15-5D-12-34-56\"},\
          {\"Name\":\"Wi-Fi\",\"Status\":\"Up\",\"MacAddress\":\"00:15:5d:ab:cd:ef\"}]",
    );
    let interfaces = get_network_interfaces(&ip, &adapters);
    assert_eq!(interfaces.len(), 2);
    // Of two rows under one name, the later binding wins, canonicalized.
    assert_eq!(interfaces[0].mac_address, Some("00:15:5d:12:34:56".to_string()));
    assert!(interfaces[0].is_up);
    // An already-canonical MAC passes through unchanged.
    assert_eq!(interfaces[1].mac_address, Some("00:15:5d:ab:cd:ef".to_string()));
}
