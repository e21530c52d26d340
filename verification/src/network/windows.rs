//! Discovery through the native namespace's tools: the legacy socket table
//! (`netstat`), the brief interface listings the bridged namespace prints
//! (`ip -br addr`, `ip -br link`), and the process-list lookup used to
//! enrich port records with process names.

use vstd::prelude::*;
use crate::network::{
    NetworkEnvironment, NetworkInterface, NetworkInterfaceView, PortInfo, PortInfoView,
};
use crate::runner::{CommandOutcome, CommandOutcomeView, spec_failure_cause, spec_success_stdout};
use crate::jsontext::{
    json_element_texts, json_elements, json_get_str, json_get_u64, json_str_field, json_u64_field,
};
use crate::strutil::{
    after_last_colon, chars_of, find_chars, has_colon, has_prefix, is_valid_port,
    lemma_deep_view_push, spec_after_last_colon, spec_find, spec_has_colon, spec_is_port_token,
    lemma_normalize_mac_idempotent, normalize_mac, spec_has_pattern, spec_normalize_mac,
    spec_split_lines, spec_strip_prefix_len,
    spec_tokens, spec_u64_digits, split_lines, str_eq, string_from_chars, strip_prefix_len,
    tokens_of, u64_to_string, has_pattern,
};
use crate::network::contains_string;

verus! {

// ---------------------------------------------------------------------------
// Legacy socket table.
// ---------------------------------------------------------------------------

/// The port records drawn from one `netstat -ano -p TCP` line: one record
/// when the line has at least five tokens, is a TCP row in `LISTENING`
/// state and carries a numeric port; nothing otherwise. The process name is
/// the `N/A` sentinel until a process-list lookup fills it in.
pub open spec fn spec_netstat_line_records(line: Seq<char>) -> Seq<PortInfoView> {
    let toks = spec_tokens(line);
    if toks.len() >= 5 && toks[0] == "TCP"@ && toks[3] == "LISTENING"@ {
        let local = toks[1];
        let port = spec_after_last_colon(local);
        if spec_is_port_token(port) {
            seq![
                PortInfoView {
                    process_id: toks[4],
                    process_name: "N/A"@,
                    protocol: "TCP"@,
                    port: port,
                    direction: "LISTENING"@,
                    network: local,
                    environment: NetworkEnvironment::Windows,
                },
            ]
        } else {
            Seq::empty()
        }
    } else {
        Seq::empty()
    }
}

/// The records of the socket-table lines with an index below `n`.
pub open spec fn spec_netstat_records_upto(lines: Seq<Seq<char>>, n: int) -> Seq<PortInfoView>
    decreases n,
{
    if n <= 0 {
        Seq::empty()
    } else {
        spec_netstat_records_upto(lines, n - 1) + spec_netstat_line_records(lines[n - 1])
    }
}

/// All port records of one legacy socket-table output.
pub open spec fn spec_parse_netstat(out: Seq<char>) -> Seq<PortInfoView> {
    let lines = spec_split_lines(out);
    spec_netstat_records_upto(lines, lines.len() as int)
}

/// Parses the legacy socket-table output: one record per listening TCP row.
///
/// A line with fewer than five tokens, another protocol or state, or a
/// non-numeric port is dropped; the lines after it are still parsed. Process
/// names are left as the `N/A` sentinel, to be filled in by
/// [`enrich_process_names`].
pub fn parse_netstat_output(output_str: &str) -> (r: Vec<PortInfo>)
    ensures
        r.deep_view() == spec_parse_netstat(output_str@),
{
    let lines = split_lines(output_str);
    let ghost lv: Seq<Seq<char>> = spec_split_lines(output_str@);
    let mut ports: Vec<PortInfo> = Vec::new();
    let mut i: usize = 0;
    proof {
        assert(ports.deep_view() =~= spec_netstat_records_upto(lv, 0));
    }
    while i < lines.len()
        invariant
            i <= lines@.len(),
            lines.deep_view() == lv,
            ports.deep_view() == spec_netstat_records_upto(lv, i as int),
        decreases lines@.len() - i,
    {
        let line = &lines[i];
        proof {
            assert(line@ == lv[i as int]);
        }
        let toks = tokens_of(line.as_str());
        let ghost tv: Seq<Seq<char>> = spec_tokens(line@);
        if toks.len() >= 5 && str_eq(toks[0].as_str(), "TCP") && str_eq(
            toks[3].as_str(),
            "LISTENING",
        ) {
            let local_address = &toks[1];
            proof {
                assert(local_address@ == tv[1]);
                assert(toks@[4]@ == tv[4]);
            }
            let port = after_last_colon(local_address.as_str());
            if is_valid_port(port.as_str()) {
                let rec = PortInfo {
                    process_id: toks[4].clone(),
                    process_name: "N/A".to_owned(),
                    protocol: "TCP".to_owned(),
                    port: port,
                    direction: "LISTENING".to_owned(),
                    network: local_address.clone(),
                    environment: NetworkEnvironment::Windows,
                };
                proof {
                    assert(rec@ == spec_netstat_line_records(lv[i as int])[0]);
                }
                let ghost pre: Seq<PortInfo> = ports@;
                ports.push(rec);
                proof {
                    lemma_deep_view_push(pre, ports@, rec);
                    assert(ports.deep_view() =~= spec_netstat_records_upto(lv, (i + 1) as int));
                }
            } else {
                proof {
                    assert(ports.deep_view() =~= spec_netstat_records_upto(lv, (i + 1) as int));
                }
            }
        } else {
            proof {
                assert(ports.deep_view() =~= spec_netstat_records_upto(lv, (i + 1) as int));
            }
        }
        i = i + 1;
    }
    ports
}

// ---------------------------------------------------------------------------
// Process-name enrichment.
// ---------------------------------------------------------------------------

/// First process name that `names` associates with the id `pid`.
pub open spec fn spec_name_lookup(
    names: Seq<(Seq<char>, Seq<char>)>,
    pid: Seq<char>,
) -> Option<Seq<char>>
    decreases names.len(),
{
    if names.len() == 0 {
        None
    } else if names[0].0 == pid {
        Some(names[0].1)
    } else {
        spec_name_lookup(names.drop_first(), pid)
    }
}

fn name_lookup(names: &[(String, String)], pid: &str) -> (r: Option<String>)
    ensures
        match r {
            Some(nm) => spec_name_lookup(names.deep_view(), pid@) == Some(nm@),
            None => spec_name_lookup(names.deep_view(), pid@) is None,
        },
    decreases names.len(),
{
    if names.len() == 0 {
        None
    } else if str_eq(names[0].0.as_str(), pid) {
        proof {
            assert(names.deep_view()[0] == (names@[0].0@, names@[0].1@));
        }
        Some(names[0].1.clone())
    } else {
        let sub = &names[1..names.len()];
        proof {
            assert(sub@ =~= names@.drop_first());
            assert(sub.deep_view() =~= names.deep_view().drop_first());
            assert(names.deep_view()[0] == (names@[0].0@, names@[0].1@));
        }
        name_lookup(sub, pid)
    }
}

/// One port record with its process name filled in from the table when it
/// still carries the `N/A` sentinel and the table knows its process id.
pub open spec fn spec_enriched_port(
    p: PortInfoView,
    names: Seq<(Seq<char>, Seq<char>)>,
) -> PortInfoView {
    if p.process_name == "N/A"@ {
        match spec_name_lookup(names, p.process_id) {
            Some(nm) => PortInfoView { process_name: nm, ..p },
            None => p,
        }
    } else {
        p
    }
}

/// The records with an index below `n`, each enriched.
pub open spec fn spec_enriched_upto(
    ports: Seq<PortInfoView>,
    names: Seq<(Seq<char>, Seq<char>)>,
    n: int,
) -> Seq<PortInfoView>
    decreases n,
{
    if n <= 0 {
        Seq::empty()
    } else {
        spec_enriched_upto(ports, names, n - 1).push(spec_enriched_port(ports[n - 1], names))
    }
}

/// Fills the `N/A` process-name sentinel of each record from a process-list
/// table of `(process id, process name)` rows; records whose id the table
/// does not know, and records that already carry a name, are unchanged.
pub fn enrich_process_names(ports: Vec<PortInfo>, names: &Vec<(String, String)>) -> (r: Vec<
    PortInfo,
>)
    ensures
        r.deep_view() == spec_enriched_upto(
            ports.deep_view(),
            names.deep_view(),
            ports.deep_view().len() as int,
        ),
{
    let ghost pv: Seq<PortInfoView> = ports.deep_view();
    let ghost nv: Seq<(Seq<char>, Seq<char>)> = names.deep_view();
    let mut out: Vec<PortInfo> = Vec::new();
    let mut i: usize = 0;
    proof {
        assert(out.deep_view() =~= spec_enriched_upto(pv, nv, 0));
    }
    while i < ports.len()
        invariant
            i <= ports@.len(),
            pv == ports.deep_view(),
            nv == names.deep_view(),
            out.deep_view() == spec_enriched_upto(pv, nv, i as int),
        decreases ports@.len() - i,
    {
        let p = &ports[i];
        proof {
            assert(p@ == pv[i as int]);
        }
        let enriched: PortInfo;
        if str_eq(p.process_name.as_str(), "N/A") {
            match name_lookup(names.as_slice(), p.process_id.as_str()) {
                Some(nm) => {
                    enriched = PortInfo {
                        process_id: p.process_id.clone(),
                        process_name: nm,
                        protocol: p.protocol.clone(),
                        port: p.port.clone(),
                        direction: p.direction.clone(),
                        network: p.network.clone(),
                        environment: p.environment,
                    };
                },
                None => {
                    enriched = crate::network::clone_port(p);
                },
            }
        } else {
            enriched = crate::network::clone_port(p);
        }
        proof {
            assert(enriched@ == spec_enriched_port(pv[i as int], nv));
        }
        let ghost pre: Seq<PortInfo> = out@;
        out.push(enriched);
        proof {
            lemma_deep_view_push(pre, out@, enriched);
            assert(out.deep_view() =~= spec_enriched_upto(pv, nv, (i + 1) as int));
        }
        i = i + 1;
    }
    out
}

/// The process name carried by the first line of a process-list row in CSV
/// form: the text between the first pair of double quotes, or the `N/A`
/// sentinel when the line does not carry one.
pub open spec fn spec_tasklist_name(out: Seq<char>) -> Seq<char> {
    let lines = spec_split_lines(out);
    if lines.len() == 0 {
        "N/A"@
    } else {
        let l = lines[0];
        if l.len() < 1 {
            "N/A"@
        } else {
            let q = spec_find(l.skip(1), "\""@);
            if q < 0 {
                "N/A"@
            } else {
                l.subrange(1, q + 1)
            }
        }
    }
}

/// Reads the process name out of a `"name","pid",...` process-list row.
pub fn parse_tasklist_process_name(output_str: &str) -> (r: String)
    ensures
        r@ == spec_tasklist_name(output_str@),
{
    proof {
        reveal_strlit("\"");
    }
    let lines = split_lines(output_str);
    if lines.len() == 0 {
        return "N/A".to_owned();
    }
    let l = &lines[0];
    proof {
        assert(l@ == spec_split_lines(output_str@)[0]);
    }
    let v = chars_of(l.as_str());
    if v.len() < 1 {
        return "N/A".to_owned();
    }
    let tail = &v.as_slice()[1..v.len()];
    proof {
        assert(tail@ =~= l@.skip(1));
    }
    let quote = chars_of("\"");
    match find_chars(tail, quote.as_slice()) {
        Some(q) => {
            let name = string_from_chars(&v.as_slice()[1..q + 1]);
            proof {
                assert(name@ =~= l@.subrange(1, spec_find(l@.skip(1), "\""@) + 1));
            }
            name
        },
        None => "N/A".to_owned(),
    }
}


// ---------------------------------------------------------------------------
// Brief-format interface listings of the bridged namespace.
// ---------------------------------------------------------------------------

/// Classifies one address token: the part before a `/prefix` suffix, and
/// whether that part is an IPv6 address (it holds a colon).
pub fn parse_ip_address_with_type(addr_with_prefix: &str) -> (r: Option<(String, bool)>)
    ensures
        match r {
            Some(p) => p.0@ == spec_strip_prefix_len(addr_with_prefix@) && p.1 == spec_has_colon(
                spec_strip_prefix_len(addr_with_prefix@),
            ),
            None => false,
        },
{
    let ip_address = strip_prefix_len(addr_with_prefix);
    let is_ipv6 = has_colon(ip_address.as_str());
    Some((ip_address, is_ipv6))
}

/// MAC address that `m` associates with the interface `name`; the binding
/// recorded last wins, as each new binding overwrites the older one.
pub open spec fn spec_mac_lookup(
    m: Seq<(Seq<char>, Seq<char>)>,
    name: Seq<char>,
) -> Option<Seq<char>>
    decreases m.len(),
{
    if m.len() == 0 {
        None
    } else if m.last().0 == name {
        Some(m.last().1)
    } else {
        spec_mac_lookup(m.drop_last(), name)
    }
}

fn mac_lookup(m: &[(String, String)], name: &str) -> (r: Option<String>)
    ensures
        match r {
            Some(mac) => spec_mac_lookup(m.deep_view(), name@) == Some(mac@),
            None => spec_mac_lookup(m.deep_view(), name@) is None,
        },
    decreases m.len(),
{
    let n = m.len();
    if n == 0 {
        None
    } else if str_eq(m[n - 1].0.as_str(), name) {
        proof {
            assert(m.deep_view().last() == (m@[n - 1].0@, m@[n - 1].1@));
        }
        Some(m[n - 1].1.clone())
    } else {
        let sub = &m[0..n - 1];
        proof {
            assert(sub@ =~= m@.drop_last());
            assert(sub.deep_view() =~= m.deep_view().drop_last());
            assert(m.deep_view().last() == (m@[n - 1].0@, m@[n - 1].1@));
        }
        mac_lookup(sub, name)
    }
}

/// The IPv4 addresses among the address tokens of a brief-format line with
/// an index below `n`: each token stripped of its `/prefix` suffix, kept
/// when it holds no colon. Tokens start at index two.
pub open spec fn spec_brief_v4_upto(toks: Seq<Seq<char>>, n: int) -> Seq<Seq<char>>
    decreases n,
{
    if n <= 2 {
        Seq::empty()
    } else {
        let prev = spec_brief_v4_upto(toks, n - 1);
        let ip = spec_strip_prefix_len(toks[n - 1]);
        if !spec_has_colon(ip) {
            prev.push(ip)
        } else {
            prev
        }
    }
}

/// The IPv6 addresses among the address tokens: those that hold a colon.
pub open spec fn spec_brief_v6_upto(toks: Seq<Seq<char>>, n: int) -> Seq<Seq<char>>
    decreases n,
{
    if n <= 2 {
        Seq::empty()
    } else {
        let prev = spec_brief_v6_upto(toks, n - 1);
        let ip = spec_strip_prefix_len(toks[n - 1]);
        if spec_has_colon(ip) {
            prev.push(ip)
        } else {
            prev
        }
    }
}

/// The interface one brief-format address line describes, or nothing for a
/// line with fewer than two tokens. The interface is up exactly when the
/// state token is `UP`, and a loopback exactly when its name starts with
/// `lo`.
pub open spec fn spec_brief_addr_line(
    line: Seq<char>,
    macs: Seq<(Seq<char>, Seq<char>)>,
) -> Option<NetworkInterfaceView> {
    let toks = spec_tokens(line);
    if toks.len() < 2 {
        None
    } else {
        Some(
            NetworkInterfaceView {
                name: toks[0],
                ipv4_addresses: spec_brief_v4_upto(toks, toks.len() as int),
                ipv6_addresses: spec_brief_v6_upto(toks, toks.len() as int),
                mac_address: spec_mac_lookup(macs, toks[0]),
                is_up: toks[1] == "UP"@,
                is_loopback: "lo"@.is_prefix_of(toks[0]),
                environment: NetworkEnvironment::Wsl,
            },
        )
    }
}

/// Parses one brief-format address line, such as
/// `eth0 UP 172.20.11.89/20 fe80::1/64`.
pub fn parse_brief_addr_line(line: &str, mac_map: &Vec<(String, String)>) -> (r: Option<
    NetworkInterface,
>)
    ensures
        match r {
            Some(iface) => spec_brief_addr_line(line@, mac_map.deep_view()) == Some(iface@),
            None => spec_brief_addr_line(line@, mac_map.deep_view()) is None,
        },
{
    let toks = tokens_of(line);
    let ghost tv: Seq<Seq<char>> = spec_tokens(line@);
    if toks.len() < 2 {
        return None;
    }
    let interface_name = toks[0].clone();
    let is_up = str_eq(toks[1].as_str(), "UP");
    let is_loopback = has_prefix(toks[0].as_str(), "lo");
    let mac_address = mac_lookup(mac_map.as_slice(), toks[0].as_str());

    let mut ipv4_addresses: Vec<String> = Vec::new();
    let mut ipv6_addresses: Vec<String> = Vec::new();
    let mut j: usize = 2;
    proof {
        assert(ipv4_addresses.deep_view() =~= spec_brief_v4_upto(tv, 2));
        assert(ipv6_addresses.deep_view() =~= spec_brief_v6_upto(tv, 2));
    }
    while j < toks.len()
        invariant
            2 <= j <= toks@.len(),
            toks.deep_view() == tv,
            ipv4_addresses.deep_view() == spec_brief_v4_upto(tv, j as int),
            ipv6_addresses.deep_view() == spec_brief_v6_upto(tv, j as int),
        decreases toks@.len() - j,
    {
        proof {
            assert(toks@[j as int]@ == tv[j as int]);
        }
        let ip_address = strip_prefix_len(toks[j].as_str());
        let is_v6 = has_colon(ip_address.as_str());
        if is_v6 {
            let ghost pre: Seq<String> = ipv6_addresses@;
            ipv6_addresses.push(ip_address);
            proof {
                lemma_deep_view_push(pre, ipv6_addresses@, ipv6_addresses@.last());
                assert(ipv6_addresses.deep_view() =~= spec_brief_v6_upto(tv, (j + 1) as int));
                assert(ipv4_addresses.deep_view() =~= spec_brief_v4_upto(tv, (j + 1) as int));
            }
        } else {
            let ghost pre: Seq<String> = ipv4_addresses@;
            ipv4_addresses.push(ip_address);
            proof {
                lemma_deep_view_push(pre, ipv4_addresses@, ipv4_addresses@.last());
                assert(ipv4_addresses.deep_view() =~= spec_brief_v4_upto(tv, (j + 1) as int));
                assert(ipv6_addresses.deep_view() =~= spec_brief_v6_upto(tv, (j + 1) as int));
            }
        }
        j = j + 1;
    }

    let iface = NetworkInterface {
        name: interface_name,
        ipv4_addresses: ipv4_addresses,
        ipv6_addresses: ipv6_addresses,
        mac_address: mac_address,
        is_up: is_up,
        is_loopback: is_loopback,
        environment: NetworkEnvironment::Wsl,
    };
    proof {
        assert(spec_brief_addr_line(line@, mac_map.deep_view()) == Some(iface@));
    }
    Some(iface)
}

/// For every brief-format interface line with at least its name and state
/// tokens, the parsed interface is up exactly when the state token is
/// `UP`, and a loopback exactly when its name starts with `lo`.
pub proof fn lemma_brief_line_state_and_loopback(
    line: Seq<char>,
    macs: Seq<(Seq<char>, Seq<char>)>,
)
    requires
        spec_tokens(line).len() >= 2,
    ensures
        spec_brief_addr_line(line, macs) is Some,
        spec_brief_addr_line(line, macs)->Some_0.is_up <==> spec_tokens(line)[1] == "UP"@,
        spec_brief_addr_line(line, macs)->Some_0.is_loopback <==> "lo"@.is_prefix_of(
            spec_tokens(line)[0],
        ),
{
}

/// The `(interface name, MAC address)` pair drawn from one brief-format
/// link line: present when the line has at least three tokens and its third
/// token looks like a MAC address (a colon somewhere, seventeen characters).
pub open spec fn spec_mac_line_pairs(line: Seq<char>) -> Seq<(Seq<char>, Seq<char>)> {
    let toks = spec_tokens(line);
    if toks.len() >= 3 && spec_has_colon(toks[2]) && toks[2].len() == 17 {
        seq![(toks[0], toks[2])]
    } else {
        Seq::empty()
    }
}

/// The pairs of the link lines with an index below `n`.
pub open spec fn spec_mac_pairs_upto(lines: Seq<Seq<char>>, n: int) -> Seq<(Seq<char>, Seq<char>)>
    decreases n,
{
    if n <= 0 {
        Seq::empty()
    } else {
        spec_mac_pairs_upto(lines, n - 1) + spec_mac_line_pairs(lines[n - 1])
    }
}

/// All `(interface name, MAC address)` pairs of one brief-format link
/// listing.
pub open spec fn spec_parse_mac_pairs(out: Seq<char>) -> Seq<(Seq<char>, Seq<char>)> {
    let lines = spec_split_lines(out);
    spec_mac_pairs_upto(lines, lines.len() as int)
}

/// Parses `ip -br link` output into `(interface name, MAC address)` pairs,
/// in line order. Lines without a MAC-shaped third token are dropped.
pub fn parse_brief_mac_addresses(link_output: &str) -> (r: Vec<(String, String)>)
    ensures
        r.deep_view() == spec_parse_mac_pairs(link_output@),
{
    let lines = split_lines(link_output);
    let ghost lv: Seq<Seq<char>> = spec_split_lines(link_output@);
    let mut pairs: Vec<(String, String)> = Vec::new();
    let mut i: usize = 0;
    proof {
        assert(pairs.deep_view() =~= spec_mac_pairs_upto(lv, 0));
    }
    while i < lines.len()
        invariant
            i <= lines@.len(),
            lines.deep_view() == lv,
            pairs.deep_view() == spec_mac_pairs_upto(lv, i as int),
        decreases lines@.len() - i,
    {
        let line = &lines[i];
        proof {
            assert(line@ == lv[i as int]);
        }
        let toks = tokens_of(line.as_str());
        let ghost tv: Seq<Seq<char>> = spec_tokens(line@);
        if toks.len() >= 3 {
            let mac_address = &toks[2];
            proof {
                assert(mac_address@ == tv[2]);
                assert(toks@[0]@ == tv[0]);
            }
            if has_colon(mac_address.as_str()) && mac_address.as_str().unicode_len() == 17 {
                let pair = (toks[0].clone(), mac_address.clone());
                proof {
                    assert(pair.deep_view() == spec_mac_line_pairs(lv[i as int])[0]);
                }
                let ghost pre: Seq<(String, String)> = pairs@;
                pairs.push(pair);
                proof {
                    lemma_deep_view_push(pre, pairs@, pairs@.last());
                    assert(pairs.deep_view() =~= spec_mac_pairs_upto(lv, (i + 1) as int));
                }
            } else {
                proof {
                    assert(pairs.deep_view() =~= spec_mac_pairs_upto(lv, (i + 1) as int));
                }
            }
        } else {
            proof {
                assert(pairs.deep_view() =~= spec_mac_pairs_upto(lv, (i + 1) as int));
            }
        }
        i = i + 1;
    }
    pairs
}

/// The interfaces of the address lines with an index below `n`.
pub open spec fn spec_brief_ifaces_upto(
    lines: Seq<Seq<char>>,
    macs: Seq<(Seq<char>, Seq<char>)>,
    n: int,
) -> Seq<NetworkInterfaceView>
    decreases n,
{
    if n <= 0 {
        Seq::empty()
    } else {
        let prev = spec_brief_ifaces_upto(lines, macs, n - 1);
        match spec_brief_addr_line(lines[n - 1], macs) {
            Some(iface) => prev.push(iface),
            None => prev,
        }
    }
}

proof fn lemma_brief_ifaces_upto_tagged(
    lines: Seq<Seq<char>>,
    macs: Seq<(Seq<char>, Seq<char>)>,
    n: int,
    k: int,
)
    requires
        0 <= k < spec_brief_ifaces_upto(lines, macs, n).len(),
    ensures
        spec_brief_ifaces_upto(lines, macs, n)[k].environment == NetworkEnvironment::Wsl,
    decreases n,
{
    if n > 0 {
        let prev = spec_brief_ifaces_upto(lines, macs, n - 1);
        if k < prev.len() {
            lemma_brief_ifaces_upto_tagged(lines, macs, n - 1, k);
        }
    }
}

/// Provenance: every interface record of the bridged discovery carries the
/// bridged-namespace tag.
pub proof fn lemma_wsl_interfaces_tagged(
    addr_o: CommandOutcomeView,
    link_o: CommandOutcomeView,
    k: int,
)
    requires
        0 <= k < spec_wsl_interfaces(addr_o, link_o).len(),
    ensures
        spec_wsl_interfaces(addr_o, link_o)[k].environment == NetworkEnvironment::Wsl,
{
    match spec_success_stdout(addr_o) {
        Some(out) => {
            let lines = spec_split_lines(out);
            lemma_brief_ifaces_upto_tagged(lines, spec_wsl_macs(link_o), lines.len() as int, k);
        },
        None => {},
    }
}

/// The MAC pairs an outcome of the link-listing tool yields.
pub open spec fn spec_wsl_macs(o: CommandOutcomeView) -> Seq<(Seq<char>, Seq<char>)> {
    match spec_success_stdout(o) {
        Some(out) => spec_parse_mac_pairs(out),
        None => Seq::empty(),
    }
}

/// The interfaces the pair of outcomes yields: the parsed address lines on
/// success, each joined with the MAC table; nothing when the address
/// listing failed.
pub open spec fn spec_wsl_interfaces(
    addr_o: CommandOutcomeView,
    link_o: CommandOutcomeView,
) -> Seq<NetworkInterfaceView> {
    match spec_success_stdout(addr_o) {
        Some(out) => {
            let lines = spec_split_lines(out);
            spec_brief_ifaces_upto(lines, spec_wsl_macs(link_o), lines.len() as int)
        },
        None => Seq::empty(),
    }
}

/// The interfaces of the bridged namespace, drawn from the outcomes of its
/// two brief listings: addresses (`ip -br addr`) and links (`ip -br link`).
///
/// A failed link listing only loses the MAC addresses; a failed address
/// listing yields the empty list. No failure crosses this boundary as an
/// error.
pub fn get_wsl_network_interfaces(
    addr_outcome: &CommandOutcome,
    link_outcome: &CommandOutcome,
) -> (r: Vec<NetworkInterface>)
    ensures
        r.deep_view() == spec_wsl_interfaces(addr_outcome@, link_outcome@),
{
    let mac_map: Vec<(String, String)> = match link_outcome.success_stdout() {
        Some(out) => parse_brief_mac_addresses(out.as_str()),
        None => Vec::new(),
    };
    proof {
        assert(mac_map.deep_view() =~= spec_wsl_macs(link_outcome@));
    }
    let ghost mv: Seq<(Seq<char>, Seq<char>)> = mac_map.deep_view();

    let mut interfaces: Vec<NetworkInterface> = Vec::new();
    match addr_outcome.success_stdout() {
        Some(out) => {
            let lines = split_lines(out.as_str());
            let ghost lv: Seq<Seq<char>> = spec_split_lines(out@);
            let mut i: usize = 0;
            proof {
                assert(interfaces.deep_view() =~= spec_brief_ifaces_upto(lv, mv, 0));
            }
            while i < lines.len()
                invariant
                    i <= lines@.len(),
                    lines.deep_view() == lv,
                    mv == mac_map.deep_view(),
                    interfaces.deep_view() == spec_brief_ifaces_upto(lv, mv, i as int),
                decreases lines@.len() - i,
            {
                let line = &lines[i];
                proof {
                    assert(line@ == lv[i as int]);
                }
                match parse_brief_addr_line(line.as_str(), &mac_map) {
                    Some(iface) => {
                        let ghost pre: Seq<NetworkInterface> = interfaces@;
                        interfaces.push(iface);
                        proof {
                            lemma_deep_view_push(pre, interfaces@, interfaces@.last());
                            assert(interfaces.deep_view() =~= spec_brief_ifaces_upto(
                                lv,
                                mv,
                                (i + 1) as int,
                            ));
                        }
                    },
                    None => {
                        proof {
                            assert(interfaces.deep_view() =~= spec_brief_ifaces_upto(
                                lv,
                                mv,
                                (i + 1) as int,
                            ));
                        }
                    },
                }
                i = i + 1;
            }
            interfaces
        },
        None => {
            proof {
                assert(interfaces.deep_view() =~= spec_wsl_interfaces(
                    addr_outcome@,
                    link_outcome@,
                ));
            }
            interfaces
        },
    }
}



// ---------------------------------------------------------------------------
// Structured socket listing of the native namespace.
// ---------------------------------------------------------------------------

/// The port records drawn from one element of the structured socket
/// listing: one record when the element carries a string `LocalAddress`
/// and a `LocalPort` that fits a port number; nothing otherwise. A missing
/// process name or process id becomes the `N/A` sentinel.
pub open spec fn spec_ps_element_records(elem: Seq<char>) -> Seq<PortInfoView> {
    match json_str_field(elem, "LocalAddress"@) {
        Some(addr) => match json_u64_field(elem, "LocalPort"@) {
            Some(port) => if port <= 65535 {
                let port_text = spec_u64_digits(port as int);
                let process_name = match json_str_field(elem, "ProcessName"@) {
                    Some(nm) => nm,
                    None => "N/A"@,
                };
                let process_id = match json_u64_field(elem, "OwningProcess"@) {
                    Some(pid) => spec_u64_digits(pid as int),
                    None => "N/A"@,
                };
                seq![
                    (PortInfoView {
                        process_id: process_id,
                        process_name: process_name,
                        protocol: "TCP"@,
                        port: port_text,
                        direction: "LISTEN"@,
                        network: addr + ":"@ + port_text,
                        environment: NetworkEnvironment::Windows,
                    }),
                ]
            } else {
                Seq::empty()
            },
            None => Seq::empty(),
        },
        None => Seq::empty(),
    }
}

/// The records of the listing elements with an index below `n`.
pub open spec fn spec_ps_records_upto(elems: Seq<Seq<char>>, n: int) -> Seq<PortInfoView>
    decreases n,
{
    if n <= 0 {
        Seq::empty()
    } else {
        spec_ps_records_upto(elems, n - 1) + spec_ps_element_records(elems[n - 1])
    }
}

/// All port records of one structured socket listing: those of its
/// top-level elements, or nothing when the text is not well-formed JSON.
pub open spec fn spec_parse_ps_connections(out: Seq<char>) -> Seq<PortInfoView> {
    match json_element_texts(out) {
        Some(elems) => spec_ps_records_upto(elems, elems.len() as int),
        None => Seq::empty(),
    }
}

/// Parses the structured socket listing: a JSON array of connection
/// objects, or one bare object for a single connection. An element without
/// a usable address or port is dropped; the elements after it are still
/// parsed.
pub fn parse_powershell_connections(json_str: &str) -> (r: Vec<PortInfo>)
    ensures
        r.deep_view() == spec_parse_ps_connections(json_str@),
{
    let mut ports: Vec<PortInfo> = Vec::new();
    let elems: Vec<String> = match json_elements(json_str) {
        Some(v) => v,
        None => {
            proof {
                assert(ports.deep_view() =~= spec_parse_ps_connections(json_str@));
            }
            return ports;
        },
    };
    let ghost ev: Seq<Seq<char>> = elems.deep_view();
    let mut i: usize = 0;
    proof {
        assert(ports.deep_view() =~= spec_ps_records_upto(ev, 0));
    }
    while i < elems.len()
        invariant
            i <= elems@.len(),
            ev == elems.deep_view(),
            ports.deep_view() == spec_ps_records_upto(ev, i as int),
        decreases elems@.len() - i,
    {
        let elem = &elems[i];
        proof {
            assert(elem@ == ev[i as int]);
        }
        match json_get_str(elem.as_str(), "LocalAddress") {
            Some(addr) => match json_get_u64(elem.as_str(), "LocalPort") {
                Some(port) => {
                    if port <= 65535 {
                        let port_text = u64_to_string(port);
                        let process_name = match json_get_str(elem.as_str(), "ProcessName") {
                            Some(nm) => nm,
                            None => "N/A".to_owned(),
                        };
                        let process_id = match json_get_u64(elem.as_str(), "OwningProcess") {
                            Some(pid) => u64_to_string(pid),
                            None => "N/A".to_owned(),
                        };
                        let mut network = addr.clone();
                        network.append(":");
                        network.append(port_text.as_str());
                        let rec = PortInfo {
                            process_id: process_id,
                            process_name: process_name,
                            protocol: "TCP".to_owned(),
                            port: port_text,
                            direction: "LISTEN".to_owned(),
                            network: network,
                            environment: NetworkEnvironment::Windows,
                        };
                        proof {
                            assert(rec@ == spec_ps_element_records(ev[i as int])[0]);
                        }
                        let ghost pre: Seq<PortInfo> = ports@;
                        ports.push(rec);
                        proof {
                            lemma_deep_view_push(pre, ports@, ports@.last());
                            assert(ports.deep_view() =~= spec_ps_records_upto(ev, (i + 1) as int));
                        }
                    } else {
                        proof {
                            assert(ports.deep_view() =~= spec_ps_records_upto(ev, (i + 1) as int));
                        }
                    }
                },
                None => {
                    proof {
                        assert(ports.deep_view() =~= spec_ps_records_upto(ev, (i + 1) as int));
                    }
                },
            },
            None => {
                proof {
                    assert(ports.deep_view() =~= spec_ps_records_upto(ev, (i + 1) as int));
                }
            },
        }
        i = i + 1;
    }
    ports
}

// ---------------------------------------------------------------------------
// Native ports collector: structured listing first, legacy table second.
// ---------------------------------------------------------------------------

/// The ports the structured-listing outcome alone yields.
pub open spec fn spec_ps_ports(o: CommandOutcomeView) -> Seq<PortInfoView> {
    match spec_success_stdout(o) {
        Some(out) => spec_parse_ps_connections(out),
        None => Seq::empty(),
    }
}

/// The ports the legacy-table outcome alone yields.
pub open spec fn spec_netstat_ports(o: CommandOutcomeView) -> Seq<PortInfoView> {
    match spec_success_stdout(o) {
        Some(out) => spec_parse_netstat(out),
        None => Seq::empty(),
    }
}

/// The ports of the native namespace: those of the structured listing when
/// it yields at least one record, and those of the legacy table otherwise.
pub open spec fn spec_windows_ports(
    ps_o: CommandOutcomeView,
    netstat_o: CommandOutcomeView,
) -> Seq<PortInfoView> {
    let ps = spec_ps_ports(ps_o);
    if ps.len() > 0 {
        ps
    } else {
        spec_netstat_ports(netstat_o)
    }
}

/// When the primary, structured listing could not be launched, the
/// collector's result is exactly the result of invoking the legacy table
/// alone: the fallback chain loses nothing.
pub proof fn lemma_fallback_equals_secondary(
    ps_o: CommandOutcomeView,
    netstat_o: CommandOutcomeView,
)
    requires
        ps_o is LaunchFailed,
    ensures
        spec_windows_ports(ps_o, netstat_o) == spec_netstat_ports(netstat_o),
{
}

/// The diagnostic cause the native ports query reports: present exactly
/// when both chain steps failed, naming both causes.
pub open spec fn spec_ports_diagnostic(
    ps_o: CommandOutcomeView,
    netstat_o: CommandOutcomeView,
) -> Option<Seq<char>> {
    match spec_failure_cause(ps_o) {
        Some(ps_cause) => match spec_failure_cause(netstat_o) {
            Some(netstat_cause) => Some(ps_cause + "; "@ + netstat_cause),
            None => None,
        },
        None => None,
    }
}

/// The native ports with the diagnostic cause of a wholly failed refresh:
/// the same records as [`get_active_ports`], and a cause exactly when
/// every step of the fallback chain failed. The caller still receives a
/// list either way, never an error.
pub fn get_active_ports_with_diagnostic(
    ps_outcome: &CommandOutcome,
    netstat_outcome: &CommandOutcome,
) -> (r: (Vec<PortInfo>, Option<String>))
    ensures
        r.0.deep_view() == spec_windows_ports(ps_outcome@, netstat_outcome@),
        r.1.deep_view() == spec_ports_diagnostic(ps_outcome@, netstat_outcome@),
{
    let ports = get_active_ports(ps_outcome, netstat_outcome);
    let diagnostic: Option<String> = match ps_outcome.failure_cause() {
        Some(ps_cause) => match netstat_outcome.failure_cause() {
            Some(netstat_cause) => {
                let mut cause = ps_cause;
                cause.append("; ");
                cause.append(netstat_cause.as_str());
                Some(cause)
            },
            None => None,
        },
        None => None,
    };
    (ports, diagnostic)
}

/// The listening ports of the native namespace, drawn from the outcomes of
/// its two tools: the structured socket listing first; on its failure, or
/// when it yields no record, the legacy socket table.
///
/// Any pair of failed outcomes yields the empty list: a failure never
/// crosses this boundary as an error.
pub fn get_active_ports(
    ps_outcome: &CommandOutcome,
    netstat_outcome: &CommandOutcome,
) -> (r: Vec<PortInfo>)
    ensures
        r.deep_view() == spec_windows_ports(ps_outcome@, netstat_outcome@),
{
    let mut ports: Vec<PortInfo> = match ps_outcome.success_stdout() {
        Some(out) => parse_powershell_connections(out.as_str()),
        None => Vec::new(),
    };
    proof {
        assert(ports.deep_view() =~= spec_ps_ports(ps_outcome@));
    }
    if ports.len() == 0 {
        proof {
            assert(spec_ps_ports(ps_outcome@).len() == 0);
        }
        let fallback: Vec<PortInfo> = match netstat_outcome.success_stdout() {
            Some(out) => parse_netstat_output(out.as_str()),
            None => Vec::new(),
        };
        proof {
            assert(fallback.deep_view() =~= spec_netstat_ports(netstat_outcome@));
        }
        return fallback;
    }
    ports
}



// ---------------------------------------------------------------------------
// Structured interface discovery of the native namespace.
// ---------------------------------------------------------------------------

/// The `(alias, address, family)` row one element of the structured
/// address listing yields, when it carries all three fields.
pub open spec fn spec_ip_row(elem: Seq<char>) -> Seq<(Seq<char>, Seq<char>, u64)> {
    match json_str_field(elem, "InterfaceAlias"@) {
        Some(alias) => match json_str_field(elem, "IPAddress"@) {
            Some(ip) => match json_u64_field(elem, "AddressFamily"@) {
                Some(family) => seq![(alias, ip, family)],
                None => Seq::empty(),
            },
            None => Seq::empty(),
        },
        None => Seq::empty(),
    }
}

/// The address rows of the elements with an index below `n`.
pub open spec fn spec_ip_rows_upto(elems: Seq<Seq<char>>, n: int) -> Seq<
    (Seq<char>, Seq<char>, u64),
>
    decreases n,
{
    if n <= 0 {
        Seq::empty()
    } else {
        spec_ip_rows_upto(elems, n - 1) + spec_ip_row(elems[n - 1])
    }
}

/// The `(name, up, MAC)` row one element of the adapter listing yields,
/// when it carries a name and a status; the adapter is up exactly when the
/// status is `Up`, and a MAC address, when present, is canonicalized.
pub open spec fn spec_adapter_row(elem: Seq<char>) -> Seq<(Seq<char>, bool, Option<Seq<char>>)> {
    match json_str_field(elem, "Name"@) {
        Some(name) => match json_str_field(elem, "Status"@) {
            Some(status) => {
                let mac = match json_str_field(elem, "MacAddress"@) {
                    Some(m) => Some(spec_normalize_mac(m)),
                    None => None,
                };
                seq![(name, status == "Up"@, mac)]
            },
            None => Seq::empty(),
        },
        None => Seq::empty(),
    }
}

/// The adapter rows of the elements with an index below `n`.
pub open spec fn spec_adapter_rows_upto(elems: Seq<Seq<char>>, n: int) -> Seq<
    (Seq<char>, bool, Option<Seq<char>>),
>
    decreases n,
{
    if n <= 0 {
        Seq::empty()
    } else {
        spec_adapter_rows_upto(elems, n - 1) + spec_adapter_row(elems[n - 1])
    }
}

/// The canonical MAC address the adapter rows give an interface: the last
/// row under that name that carries one.
pub open spec fn spec_adapter_mac(
    rows: Seq<(Seq<char>, bool, Option<Seq<char>>)>,
    name: Seq<char>,
) -> Option<Seq<char>>
    decreases rows.len(),
{
    if rows.len() == 0 {
        None
    } else if rows.last().0 == name && rows.last().2 is Some {
        rows.last().2
    } else {
        spec_adapter_mac(rows.drop_last(), name)
    }
}

/// Whether the adapter rows report an interface as up: what the last row
/// under that name says, and up when no row names it.
pub open spec fn spec_adapter_up(
    rows: Seq<(Seq<char>, bool, Option<Seq<char>>)>,
    name: Seq<char>,
) -> bool
    decreases rows.len(),
{
    if rows.len() == 0 {
        true
    } else if rows.last().0 == name {
        rows.last().1
    } else {
        spec_adapter_up(rows.drop_last(), name)
    }
}

/// The addresses of family `family` that the rows with an index below `n`
/// give the interface `alias`, in row order.
pub open spec fn spec_ips_for_upto(
    rows: Seq<(Seq<char>, Seq<char>, u64)>,
    alias: Seq<char>,
    family: u64,
    n: int,
) -> Seq<Seq<char>>
    decreases n,
{
    if n <= 0 {
        Seq::empty()
    } else {
        let prev = spec_ips_for_upto(rows, alias, family, n - 1);
        if rows[n - 1].0 == alias && rows[n - 1].2 == family {
            prev.push(rows[n - 1].1)
        } else {
            prev
        }
    }
}

/// The distinct aliases of the IPv4 and IPv6 rows with an index below `n`,
/// in order of first appearance.
pub open spec fn spec_aliases_upto(rows: Seq<(Seq<char>, Seq<char>, u64)>, n: int) -> Seq<
    Seq<char>,
>
    decreases n,
{
    if n <= 0 {
        Seq::empty()
    } else {
        let prev = spec_aliases_upto(rows, n - 1);
        if (rows[n - 1].2 == 2 || rows[n - 1].2 == 23) && !prev.contains(rows[n - 1].0) {
            prev.push(rows[n - 1].0)
        } else {
            prev
        }
    }
}

/// The interface record assembled for one alias: its IPv4 addresses are
/// the rows of family 2, its IPv6 addresses the rows of family 23, MAC and
/// state come from the adapter rows, and it counts as loopback when its
/// name holds `Loopback` or `lo`.
pub open spec fn spec_win_iface(
    alias: Seq<char>,
    rows: Seq<(Seq<char>, Seq<char>, u64)>,
    adapters: Seq<(Seq<char>, bool, Option<Seq<char>>)>,
) -> NetworkInterfaceView {
    NetworkInterfaceView {
        name: alias,
        ipv4_addresses: spec_ips_for_upto(rows, alias, 2, rows.len() as int),
        ipv6_addresses: spec_ips_for_upto(rows, alias, 23, rows.len() as int),
        mac_address: spec_adapter_mac(adapters, alias),
        is_up: spec_adapter_up(adapters, alias),
        is_loopback: spec_has_pattern(alias, "Loopback"@) || spec_has_pattern(alias, "lo"@),
        environment: NetworkEnvironment::Windows,
    }
}

/// The interface records of the aliases with an index below `n`.
pub open spec fn spec_win_ifaces_upto(
    aliases: Seq<Seq<char>>,
    rows: Seq<(Seq<char>, Seq<char>, u64)>,
    adapters: Seq<(Seq<char>, bool, Option<Seq<char>>)>,
    n: int,
) -> Seq<NetworkInterfaceView>
    decreases n,
{
    if n <= 0 {
        Seq::empty()
    } else {
        spec_win_ifaces_upto(aliases, rows, adapters, n - 1).push(
            spec_win_iface(aliases[n - 1], rows, adapters),
        )
    }
}

proof fn lemma_win_ifaces_upto_tagged(
    aliases: Seq<Seq<char>>,
    rows: Seq<(Seq<char>, Seq<char>, u64)>,
    adapters: Seq<(Seq<char>, bool, Option<Seq<char>>)>,
    n: int,
    k: int,
)
    requires
        0 <= k < spec_win_ifaces_upto(aliases, rows, adapters, n).len(),
    ensures
        spec_win_ifaces_upto(aliases, rows, adapters, n)[k].environment
            == NetworkEnvironment::Windows,
    decreases n,
{
    if n > 0 {
        let prev = spec_win_ifaces_upto(aliases, rows, adapters, n - 1);
        if k < prev.len() {
            lemma_win_ifaces_upto_tagged(aliases, rows, adapters, n - 1, k);
        }
    }
}

/// The adapter rows an adapter-listing outcome yields.
pub open spec fn spec_adapter_table(o: CommandOutcomeView) -> Seq<
    (Seq<char>, bool, Option<Seq<char>>),
> {
    match spec_success_stdout(o) {
        Some(out) => match json_element_texts(out) {
            Some(elems) => spec_adapter_rows_upto(elems, elems.len() as int),
            None => Seq::empty(),
        },
        None => Seq::empty(),
    }
}

/// The interfaces the pair of outcomes yields: one record per distinct
/// alias of the address rows, joined with the adapter rows; nothing when
/// the address listing failed or is not well-formed JSON.
pub open spec fn spec_windows_interfaces(
    ip_o: CommandOutcomeView,
    adapter_o: CommandOutcomeView,
) -> Seq<NetworkInterfaceView> {
    match spec_success_stdout(ip_o) {
        Some(out) => match json_element_texts(out) {
            Some(elems) => {
                let rows = spec_ip_rows_upto(elems, elems.len() as int);
                let aliases = spec_aliases_upto(rows, rows.len() as int);
                spec_win_ifaces_upto(
                    aliases,
                    rows,
                    spec_adapter_table(adapter_o),
                    aliases.len() as int,
                )
            },
            None => Seq::empty(),
        },
        None => Seq::empty(),
    }
}

/// Provenance: every interface record of the native discovery carries the
/// native-namespace tag.
pub proof fn lemma_windows_interfaces_tagged(
    ip_o: CommandOutcomeView,
    adapter_o: CommandOutcomeView,
    k: int,
)
    requires
        0 <= k < spec_windows_interfaces(ip_o, adapter_o).len(),
    ensures
        spec_windows_interfaces(ip_o, adapter_o)[k].environment == NetworkEnvironment::Windows,
{
    match spec_success_stdout(ip_o) {
        Some(out) => match json_element_texts(out) {
            Some(elems) => {
                let rows = spec_ip_rows_upto(elems, elems.len() as int);
                let aliases = spec_aliases_upto(rows, rows.len() as int);
                lemma_win_ifaces_upto_tagged(
                    aliases,
                    rows,
                    spec_adapter_table(adapter_o),
                    aliases.len() as int,
                    k,
                );
            },
            None => {},
        },
        None => {},
    }
}

/// Whether every MAC address an adapter table carries is in canonical
/// colon-separated lower-case form.
pub open spec fn spec_macs_canonical(rows: Seq<(Seq<char>, bool, Option<Seq<char>>)>) -> bool {
    forall|i: int|
        0 <= i < rows.len() && (#[trigger] rows[i]).2 is Some ==> spec_normalize_mac(
            rows[i].2->Some_0,
        ) == rows[i].2->Some_0
}

/// An adapter row hands an already-canonical MAC address on unchanged.
pub proof fn lemma_adapter_row_keeps_canonical_mac(elem: Seq<char>, m: Seq<char>)
    requires
        json_str_field(elem, "Name"@) is Some,
        json_str_field(elem, "Status"@) is Some,
        json_str_field(elem, "MacAddress"@) == Some(m),
        spec_normalize_mac(m) == m,
    ensures
        spec_adapter_row(elem).len() == 1,
        spec_adapter_row(elem)[0].2 == Some(m),
{
}

proof fn lemma_adapter_rows_canonical(elems: Seq<Seq<char>>, n: int)
    ensures
        spec_macs_canonical(spec_adapter_rows_upto(elems, n)),
    decreases n,
{
    if n <= 0 {
    } else {
        lemma_adapter_rows_canonical(elems, n - 1);
        match json_str_field(elems[n - 1], "MacAddress"@) {
            Some(m) => lemma_normalize_mac_idempotent(m),
            None => {},
        }
        let prev = spec_adapter_rows_upto(elems, n - 1);
        let row = spec_adapter_row(elems[n - 1]);
        let all = spec_adapter_rows_upto(elems, n);
        assert forall|i: int| 0 <= i < all.len() && (#[trigger] all[i]).2 is Some implies
            spec_normalize_mac(all[i].2->Some_0) == all[i].2->Some_0 by {
            if i < prev.len() {
                assert(all[i] == prev[i]);
            } else {
                assert(all[i] == row[i - prev.len()]);
            }
        }
    }
}

proof fn lemma_adapter_mac_canonical(
    rows: Seq<(Seq<char>, bool, Option<Seq<char>>)>,
    name: Seq<char>,
)
    requires
        spec_macs_canonical(rows),
        spec_adapter_mac(rows, name) is Some,
    ensures
        spec_normalize_mac(spec_adapter_mac(rows, name)->Some_0) == spec_adapter_mac(
            rows,
            name,
        )->Some_0,
    decreases rows.len(),
{
    if rows.len() > 0 {
        if rows.last().0 == name && rows.last().2 is Some {
            assert(rows[rows.len() - 1].2 is Some);
        } else {
            assert forall|i: int|
                0 <= i < rows.drop_last().len() && (#[trigger] rows.drop_last()[i]).2
                    is Some implies spec_normalize_mac(rows.drop_last()[i].2->Some_0)
                == rows.drop_last()[i].2->Some_0 by {
                assert(rows.drop_last()[i] == rows[i]);
            }
            lemma_adapter_mac_canonical(rows.drop_last(), name);
        }
    }
}

proof fn lemma_win_ifaces_upto_len(
    aliases: Seq<Seq<char>>,
    rows: Seq<(Seq<char>, Seq<char>, u64)>,
    adapters: Seq<(Seq<char>, bool, Option<Seq<char>>)>,
    n: int,
)
    requires
        n >= 0,
    ensures
        spec_win_ifaces_upto(aliases, rows, adapters, n).len() == n,
    decreases n,
{
    if n > 0 {
        lemma_win_ifaces_upto_len(aliases, rows, adapters, n - 1);
    }
}

proof fn lemma_win_ifaces_upto_index(
    aliases: Seq<Seq<char>>,
    rows: Seq<(Seq<char>, Seq<char>, u64)>,
    adapters: Seq<(Seq<char>, bool, Option<Seq<char>>)>,
    n: int,
    k: int,
)
    requires
        0 <= k < n,
    ensures
        spec_win_ifaces_upto(aliases, rows, adapters, n)[k] == spec_win_iface(
            aliases[k],
            rows,
            adapters,
        ),
    decreases n,
{
    lemma_win_ifaces_upto_len(aliases, rows, adapters, n - 1);
    if k < n - 1 {
        lemma_win_ifaces_upto_index(aliases, rows, adapters, n - 1, k);
    }
}

/// Every MAC address the native interface discovery emits is in canonical
/// colon-separated lower-case form: canonicalizing it again changes
/// nothing, whatever the adapter listing held and whichever of several
/// rows under one name supplied it.
pub proof fn lemma_windows_interface_macs_canonical(
    ip_o: CommandOutcomeView,
    adapter_o: CommandOutcomeView,
    k: int,
)
    requires
        0 <= k < spec_windows_interfaces(ip_o, adapter_o).len(),
        spec_windows_interfaces(ip_o, adapter_o)[k].mac_address is Some,
    ensures
        spec_normalize_mac(spec_windows_interfaces(ip_o, adapter_o)[k].mac_address->Some_0)
            == spec_windows_interfaces(ip_o, adapter_o)[k].mac_address->Some_0,
{
    match spec_success_stdout(ip_o) {
        Some(out) => match json_element_texts(out) {
            Some(elems) => {
                let rows = spec_ip_rows_upto(elems, elems.len() as int);
                let aliases = spec_aliases_upto(rows, rows.len() as int);
                let adapters = spec_adapter_table(adapter_o);
                lemma_win_ifaces_upto_len(aliases, rows, adapters, aliases.len() as int);
                lemma_win_ifaces_upto_index(aliases, rows, adapters, aliases.len() as int, k);
                assert(spec_macs_canonical(adapters)) by {
                    match spec_success_stdout(adapter_o) {
                        Some(aout) => match json_element_texts(aout) {
                            Some(aelems) => {
                                lemma_adapter_rows_canonical(aelems, aelems.len() as int);
                            },
                            None => {},
                        },
                        None => {},
                    }
                }
                lemma_adapter_mac_canonical(adapters, aliases[k]);
            },
            None => {},
        },
        None => {},
    }
}

fn ip_rows_of(elems: &Vec<String>) -> (r: Vec<(String, String, u64)>)
    ensures
        r.deep_view() == spec_ip_rows_upto(elems.deep_view(), elems.deep_view().len() as int),
{
    let ghost ev: Seq<Seq<char>> = elems.deep_view();
    let mut rows: Vec<(String, String, u64)> = Vec::new();
    let mut i: usize = 0;
    proof {
        assert(rows.deep_view() =~= spec_ip_rows_upto(ev, 0));
    }
    while i < elems.len()
        invariant
            i <= elems@.len(),
            ev == elems.deep_view(),
            rows.deep_view() == spec_ip_rows_upto(ev, i as int),
        decreases elems@.len() - i,
    {
        let elem = &elems[i];
        proof {
            assert(elem@ == ev[i as int]);
        }
        match json_get_str(elem.as_str(), "InterfaceAlias") {
            Some(alias) => match json_get_str(elem.as_str(), "IPAddress") {
                Some(ip) => match json_get_u64(elem.as_str(), "AddressFamily") {
                    Some(family) => {
                        let row = (alias, ip, family);
                        proof {
                            assert(row.deep_view() == spec_ip_row(ev[i as int])[0]);
                        }
                        let ghost pre: Seq<(String, String, u64)> = rows@;
                        rows.push(row);
                        proof {
                            lemma_deep_view_push(pre, rows@, rows@.last());
                            assert(rows.deep_view() =~= spec_ip_rows_upto(ev, (i + 1) as int));
                        }
                    },
                    None => {
                        proof {
                            assert(rows.deep_view() =~= spec_ip_rows_upto(ev, (i + 1) as int));
                        }
                    },
                },
                None => {
                    proof {
                        assert(rows.deep_view() =~= spec_ip_rows_upto(ev, (i + 1) as int));
                    }
                },
            },
            None => {
                proof {
                    assert(rows.deep_view() =~= spec_ip_rows_upto(ev, (i + 1) as int));
                }
            },
        }
        i = i + 1;
    }
    rows
}

fn adapter_rows_of(elems: &Vec<String>) -> (r: Vec<(String, bool, Option<String>)>)
    ensures
        r.deep_view() == spec_adapter_rows_upto(elems.deep_view(), elems.deep_view().len() as int),
{
    let ghost ev: Seq<Seq<char>> = elems.deep_view();
    let mut rows: Vec<(String, bool, Option<String>)> = Vec::new();
    let mut i: usize = 0;
    proof {
        assert(rows.deep_view() =~= spec_adapter_rows_upto(ev, 0));
    }
    while i < elems.len()
        invariant
            i <= elems@.len(),
            ev == elems.deep_view(),
            rows.deep_view() == spec_adapter_rows_upto(ev, i as int),
        decreases elems@.len() - i,
    {
        let elem = &elems[i];
        proof {
            assert(elem@ == ev[i as int]);
        }
        match json_get_str(elem.as_str(), "Name") {
            Some(name) => match json_get_str(elem.as_str(), "Status") {
                Some(status) => {
                    let mac: Option<String> = match json_get_str(elem.as_str(), "MacAddress") {
                        Some(m) => Some(normalize_mac(m.as_str())),
                        None => None,
                    };
                    let row = (name, str_eq(status.as_str(), "Up"), mac);
                    proof {
                        assert(row.deep_view() == spec_adapter_row(ev[i as int])[0]);
                    }
                    let ghost pre: Seq<(String, bool, Option<String>)> = rows@;
                    rows.push(row);
                    proof {
                        lemma_deep_view_push(pre, rows@, rows@.last());
                        assert(rows.deep_view() =~= spec_adapter_rows_upto(ev, (i + 1) as int));
                    }
                },
                None => {
                    proof {
                        assert(rows.deep_view() =~= spec_adapter_rows_upto(ev, (i + 1) as int));
                    }
                },
            },
            None => {
                proof {
                    assert(rows.deep_view() =~= spec_adapter_rows_upto(ev, (i + 1) as int));
                }
            },
        }
        i = i + 1;
    }
    rows
}

fn adapter_mac(rows: &[(String, bool, Option<String>)], name: &str) -> (r: Option<String>)
    ensures
        r.deep_view() == spec_adapter_mac(rows.deep_view(), name@),
    decreases rows.len(),
{
    let n = rows.len();
    if n == 0 {
        None
    } else {
        proof {
            assert(rows.deep_view().last() == (
                rows@[n - 1].0@,
                rows@[n - 1].1,
                rows@[n - 1].2.deep_view(),
            ));
        }
        let has_mac = match &rows[n - 1].2 {
            Some(_) => true,
            None => false,
        };
        if str_eq(rows[n - 1].0.as_str(), name) && has_mac {
            match &rows[n - 1].2 {
                Some(m) => Some(m.clone()),
                None => None,
            }
        } else {
            let sub = &rows[0..n - 1];
            proof {
                assert(sub@ =~= rows@.drop_last());
                assert(sub.deep_view() =~= rows.deep_view().drop_last());
            }
            adapter_mac(sub, name)
        }
    }
}

fn adapter_up(rows: &[(String, bool, Option<String>)], name: &str) -> (r: bool)
    ensures
        r == spec_adapter_up(rows.deep_view(), name@),
    decreases rows.len(),
{
    let n = rows.len();
    if n == 0 {
        true
    } else {
        proof {
            assert(rows.deep_view().last() == (
                rows@[n - 1].0@,
                rows@[n - 1].1,
                rows@[n - 1].2.deep_view(),
            ));
        }
        if str_eq(rows[n - 1].0.as_str(), name) {
            rows[n - 1].1
        } else {
            let sub = &rows[0..n - 1];
            proof {
                assert(sub@ =~= rows@.drop_last());
                assert(sub.deep_view() =~= rows.deep_view().drop_last());
            }
            adapter_up(sub, name)
        }
    }
}

fn ips_for(rows: &Vec<(String, String, u64)>, alias: &str, family: u64) -> (r: Vec<String>)
    ensures
        r.deep_view() == spec_ips_for_upto(
            rows.deep_view(),
            alias@,
            family,
            rows.deep_view().len() as int,
        ),
{
    let ghost rv: Seq<(Seq<char>, Seq<char>, u64)> = rows.deep_view();
    let mut ips: Vec<String> = Vec::new();
    let mut i: usize = 0;
    proof {
        assert(ips.deep_view() =~= spec_ips_for_upto(rv, alias@, family, 0));
    }
    while i < rows.len()
        invariant
            i <= rows@.len(),
            rv == rows.deep_view(),
            ips.deep_view() == spec_ips_for_upto(rv, alias@, family, i as int),
        decreases rows@.len() - i,
    {
        proof {
            assert(rv[i as int] == (rows@[i as int].0@, rows@[i as int].1@, rows@[i as int].2));
        }
        if str_eq(rows[i].0.as_str(), alias) && rows[i].2 == family {
            let ghost pre: Seq<String> = ips@;
            ips.push(rows[i].1.clone());
            proof {
                lemma_deep_view_push(pre, ips@, ips@.last());
                assert(ips.deep_view() =~= spec_ips_for_upto(rv, alias@, family, (i + 1) as int));
            }
        } else {
            proof {
                assert(ips.deep_view() =~= spec_ips_for_upto(rv, alias@, family, (i + 1) as int));
            }
        }
        i = i + 1;
    }
    ips
}

fn aliases_of(rows: &Vec<(String, String, u64)>) -> (r: Vec<String>)
    ensures
        r.deep_view() == spec_aliases_upto(rows.deep_view(), rows.deep_view().len() as int),
{
    let ghost rv: Seq<(Seq<char>, Seq<char>, u64)> = rows.deep_view();
    let mut aliases: Vec<String> = Vec::new();
    let mut i: usize = 0;
    proof {
        assert(aliases.deep_view() =~= spec_aliases_upto(rv, 0));
    }
    while i < rows.len()
        invariant
            i <= rows@.len(),
            rv == rows.deep_view(),
            aliases.deep_view() == spec_aliases_upto(rv, i as int),
        decreases rows@.len() - i,
    {
        proof {
            assert(rv[i as int] == (rows@[i as int].0@, rows@[i as int].1@, rows@[i as int].2));
        }
        if (rows[i].2 == 2 || rows[i].2 == 23) && !contains_string(&aliases, rows[i].0.as_str()) {
            let ghost pre: Seq<String> = aliases@;
            aliases.push(rows[i].0.clone());
            proof {
                lemma_deep_view_push(pre, aliases@, aliases@.last());
                assert(aliases.deep_view() =~= spec_aliases_upto(rv, (i + 1) as int));
            }
        } else {
            proof {
                assert(aliases.deep_view() =~= spec_aliases_upto(rv, (i + 1) as int));
            }
        }
        i = i + 1;
    }
    aliases
}

/// The interfaces of the native namespace, drawn from the outcomes of its
/// two structured queries: addresses and adapters.
///
/// One record is assembled per distinct interface alias of the address
/// rows, in order of first appearance; the adapter rows contribute the MAC
/// address (canonicalized) and the up/down state, which defaults to up for
/// an alias the adapter listing does not name. A failed adapter query only
/// loses MAC and state; a failed or malformed address query yields the
/// empty list. No failure crosses this boundary as an error.
pub fn get_network_interfaces(
    ip_outcome: &CommandOutcome,
    adapter_outcome: &CommandOutcome,
) -> (r: Vec<NetworkInterface>)
    ensures
        r.deep_view() == spec_windows_interfaces(ip_outcome@, adapter_outcome@),
{
    let adapters: Vec<(String, bool, Option<String>)> = match adapter_outcome.success_stdout() {
        Some(out) => match json_elements(out.as_str()) {
            Some(elems) => adapter_rows_of(&elems),
            None => Vec::new(),
        },
        None => Vec::new(),
    };
    proof {
        assert(adapters.deep_view() =~= spec_adapter_table(adapter_outcome@));
    }
    let ghost av: Seq<(Seq<char>, bool, Option<Seq<char>>)> = adapters.deep_view();

    let mut interfaces: Vec<NetworkInterface> = Vec::new();
    let elems: Vec<String> = match ip_outcome.success_stdout() {
        Some(out) => match json_elements(out.as_str()) {
            Some(elems) => elems,
            None => {
                proof {
                    assert(interfaces.deep_view() =~= spec_windows_interfaces(
                        ip_outcome@,
                        adapter_outcome@,
                    ));
                }
                return interfaces;
            },
        },
        None => {
            proof {
                assert(interfaces.deep_view() =~= spec_windows_interfaces(
                    ip_outcome@,
                    adapter_outcome@,
                ));
            }
            return interfaces;
        },
    };
    let rows = ip_rows_of(&elems);
    let ghost rv: Seq<(Seq<char>, Seq<char>, u64)> = rows.deep_view();
    let aliases = aliases_of(&rows);
    let ghost alv: Seq<Seq<char>> = aliases.deep_view();

    let mut i: usize = 0;
    proof {
        assert(interfaces.deep_view() =~= spec_win_ifaces_upto(alv, rv, av, 0));
    }
    while i < aliases.len()
        invariant
            i <= aliases@.len(),
            alv == aliases.deep_view(),
            rv == rows.deep_view(),
            av == adapters.deep_view(),
            interfaces.deep_view() == spec_win_ifaces_upto(alv, rv, av, i as int),
        decreases aliases@.len() - i,
    {
        let alias = &aliases[i];
        proof {
            assert(alias@ == alv[i as int]);
        }
        let iface = NetworkInterface {
            name: alias.clone(),
            ipv4_addresses: ips_for(&rows, alias.as_str(), 2),
            ipv6_addresses: ips_for(&rows, alias.as_str(), 23),
            mac_address: adapter_mac(adapters.as_slice(), alias.as_str()),
            is_up: adapter_up(adapters.as_slice(), alias.as_str()),
            is_loopback: has_pattern(alias.as_str(), "Loopback") || has_pattern(
                alias.as_str(),
                "lo",
            ),
            environment: NetworkEnvironment::Windows,
        };
        proof {
            assert(iface@ == spec_win_iface(alv[i as int], rv, av));
        }
        let ghost pre: Seq<NetworkInterface> = interfaces@;
        interfaces.push(iface);
        proof {
            lemma_deep_view_push(pre, interfaces@, interfaces@.last());
            assert(interfaces.deep_view() =~= spec_win_ifaces_upto(alv, rv, av, (i + 1) as int));
        }
        i = i + 1;
    }
    interfaces
}


} // verus!
