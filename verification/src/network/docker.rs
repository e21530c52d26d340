//! Container network discovery: parsing of the JSON-lines listings that
//! the container runtime prints for networks and containers.

use vstd::prelude::*;
use crate::jsontext::{json_get_str, json_is_valid, json_parses, json_str_field};
use crate::runner::{CommandOutcome, CommandOutcomeView, spec_success_stdout};
use crate::strutil::{
    is_blank, lemma_deep_view_push, spec_is_blank, spec_split_lines, split_lines,
};

verus! {

/// Abstract value of a [`DockerNetwork`].
pub struct DockerNetworkView {
    pub name: Seq<char>,
    pub driver: Seq<char>,
    pub scope: Seq<char>,
    pub subnet: Seq<char>,
}

/// A container network as the runtime lists it. The subnet stays empty:
/// the listing command alone does not resolve it.
#[derive(Debug, Clone, PartialEq)]
pub struct DockerNetwork {
    pub name: String,
    pub driver: String,
    pub scope: String,
    pub subnet: String,
}

impl View for DockerNetwork {
    type V = DockerNetworkView;

    open spec fn view(&self) -> DockerNetworkView {
        DockerNetworkView {
            name: self.name@,
            driver: self.driver@,
            scope: self.scope@,
            subnet: self.subnet@,
        }
    }
}

impl DeepView for DockerNetwork {
    type V = DockerNetworkView;

    open spec fn deep_view(&self) -> DockerNetworkView {
        self.view()
    }
}

/// Abstract value of a [`DockerContainer`].
pub struct DockerContainerView {
    pub name: Seq<char>,
    pub image: Seq<char>,
    pub status: Seq<char>,
    pub ports: Seq<char>,
    pub id: Seq<char>,
}

/// A container attached to one named container network.
#[derive(Debug, Clone, PartialEq)]
pub struct DockerContainer {
    pub name: String,
    pub image: String,
    pub status: String,
    pub ports: String,
    pub id: String,
}

impl View for DockerContainer {
    type V = DockerContainerView;

    open spec fn view(&self) -> DockerContainerView {
        DockerContainerView {
            name: self.name@,
            image: self.image@,
            status: self.status@,
            ports: self.ports@,
            id: self.id@,
        }
    }
}

impl DeepView for DockerContainer {
    type V = DockerContainerView;

    open spec fn deep_view(&self) -> DockerContainerView {
        self.view()
    }
}

/// The string field `key` of the object written in `line`, or `dflt` when
/// the object does not carry it as a string.
pub open spec fn spec_str_field_or(line: Seq<char>, key: Seq<char>, dflt: Seq<char>) -> Seq<char> {
    match json_str_field(line, key) {
        Some(v) => v,
        None => dflt,
    }
}

fn str_field_or(line: &str, key: &str, dflt: &str) -> (r: String)
    ensures
        r@ == spec_str_field_or(line@, key@, dflt@),
{
    match json_get_str(line, key) {
        Some(v) => v,
        None => dflt.to_owned(),
    }
}

/// The network records drawn from one listing line: one record when the
/// line is non-blank, well-formed JSON; absent fields fall back to
/// `unknown` and the subnet is always empty.
pub open spec fn spec_network_line_records(line: Seq<char>) -> Seq<DockerNetworkView> {
    if !spec_is_blank(line) && json_parses(line) {
        seq![
            (DockerNetworkView {
                name: spec_str_field_or(line, "Name"@, "unknown"@),
                driver: spec_str_field_or(line, "Driver"@, "unknown"@),
                scope: spec_str_field_or(line, "Scope"@, "unknown"@),
                subnet: Seq::empty(),
            }),
        ]
    } else {
        Seq::empty()
    }
}

/// The network records of the listing lines with an index below `n`.
pub open spec fn spec_network_records_upto(lines: Seq<Seq<char>>, n: int) -> Seq<DockerNetworkView>
    decreases n,
{
    if n <= 0 {
        Seq::empty()
    } else {
        spec_network_records_upto(lines, n - 1) + spec_network_line_records(lines[n - 1])
    }
}

/// All network records of one JSON-lines network listing.
pub open spec fn spec_parse_docker_networks(out: Seq<char>) -> Seq<DockerNetworkView> {
    let lines = spec_split_lines(out);
    spec_network_records_upto(lines, lines.len() as int)
}

/// The networks a listing outcome yields: the parsed records of its
/// standard output on success, nothing on any failure.
pub open spec fn spec_docker_networks(o: CommandOutcomeView) -> Seq<DockerNetworkView> {
    match spec_success_stdout(o) {
        Some(out) => spec_parse_docker_networks(out),
        None => Seq::empty(),
    }
}

/// Parses a JSON-lines network listing: one record per well-formed line.
/// A malformed line is dropped; the lines after it are still parsed.
pub fn parse_docker_networks(output_str: &str) -> (r: Vec<DockerNetwork>)
    ensures
        r.deep_view() == spec_parse_docker_networks(output_str@),
{
    let lines = split_lines(output_str);
    let ghost lv: Seq<Seq<char>> = spec_split_lines(output_str@);
    let mut networks: Vec<DockerNetwork> = Vec::new();
    let mut i: usize = 0;
    proof {
        assert(networks.deep_view() =~= spec_network_records_upto(lv, 0));
    }
    while i < lines.len()
        invariant
            i <= lines@.len(),
            lines.deep_view() == lv,
            networks.deep_view() == spec_network_records_upto(lv, i as int),
        decreases lines@.len() - i,
    {
        let line = &lines[i];
        proof {
            assert(line@ == lv[i as int]);
        }
        if !is_blank(line.as_str()) && json_is_valid(line.as_str()) {
            let rec = DockerNetwork {
                name: str_field_or(line.as_str(), "Name", "unknown"),
                driver: str_field_or(line.as_str(), "Driver", "unknown"),
                scope: str_field_or(line.as_str(), "Scope", "unknown"),
                subnet: String::new(),
            };
            proof {
                assert(rec@ == spec_network_line_records(lv[i as int])[0]);
            }
            let ghost pre: Seq<DockerNetwork> = networks@;
            networks.push(rec);
            proof {
                lemma_deep_view_push(pre, networks@, networks@.last());
                assert(networks.deep_view() =~= spec_network_records_upto(lv, (i + 1) as int));
            }
        } else {
            proof {
                assert(networks.deep_view() =~= spec_network_records_upto(lv, (i + 1) as int));
            }
        }
        i = i + 1;
    }
    networks
}

/// The container networks drawn from the outcome of the listing tool.
///
/// There is no fallback chain here: an empty or failed call yields the
/// empty list, and nothing is fabricated in its place.
pub fn get_docker_networks(outcome: &CommandOutcome) -> (r: Vec<DockerNetwork>)
    ensures
        r.deep_view() == spec_docker_networks(outcome@),
{
    match outcome.success_stdout() {
        Some(out) => parse_docker_networks(out.as_str()),
        None => {
            let r: Vec<DockerNetwork> = Vec::new();
            proof {
                assert(r.deep_view() =~= Seq::<DockerNetworkView>::empty());
            }
            r
        },
    }
}

/// The container records drawn from one listing line: one record when the
/// line is non-blank, well-formed JSON; absent fields fall back to
/// `unknown`, and absent port mappings to the empty string.
pub open spec fn spec_container_line_records(line: Seq<char>) -> Seq<DockerContainerView> {
    if !spec_is_blank(line) && json_parses(line) {
        seq![
            (DockerContainerView {
                name: spec_str_field_or(line, "Names"@, "unknown"@),
                image: spec_str_field_or(line, "Image"@, "unknown"@),
                status: spec_str_field_or(line, "Status"@, "unknown"@),
                ports: spec_str_field_or(line, "Ports"@, ""@),
                id: spec_str_field_or(line, "ID"@, "unknown"@),
            }),
        ]
    } else {
        Seq::empty()
    }
}

/// The container records of the listing lines with an index below `n`.
pub open spec fn spec_container_records_upto(lines: Seq<Seq<char>>, n: int) -> Seq<
    DockerContainerView,
>
    decreases n,
{
    if n <= 0 {
        Seq::empty()
    } else {
        spec_container_records_upto(lines, n - 1) + spec_container_line_records(lines[n - 1])
    }
}

/// All container records of one JSON-lines container listing.
pub open spec fn spec_parse_docker_containers(out: Seq<char>) -> Seq<DockerContainerView> {
    let lines = spec_split_lines(out);
    spec_container_records_upto(lines, lines.len() as int)
}

/// The containers a listing outcome yields.
pub open spec fn spec_docker_containers(o: CommandOutcomeView) -> Seq<DockerContainerView> {
    match spec_success_stdout(o) {
        Some(out) => spec_parse_docker_containers(out),
        None => Seq::empty(),
    }
}

/// Parses a JSON-lines container listing: one record per well-formed line.
pub fn parse_docker_containers(output_str: &str) -> (r: Vec<DockerContainer>)
    ensures
        r.deep_view() == spec_parse_docker_containers(output_str@),
{
    let lines = split_lines(output_str);
    let ghost lv: Seq<Seq<char>> = spec_split_lines(output_str@);
    let mut containers: Vec<DockerContainer> = Vec::new();
    let mut i: usize = 0;
    proof {
        assert(containers.deep_view() =~= spec_container_records_upto(lv, 0));
    }
    while i < lines.len()
        invariant
            i <= lines@.len(),
            lines.deep_view() == lv,
            containers.deep_view() == spec_container_records_upto(lv, i as int),
        decreases lines@.len() - i,
    {
        let line = &lines[i];
        proof {
            assert(line@ == lv[i as int]);
        }
        if !is_blank(line.as_str()) && json_is_valid(line.as_str()) {
            let rec = DockerContainer {
                name: str_field_or(line.as_str(), "Names", "unknown"),
                image: str_field_or(line.as_str(), "Image", "unknown"),
                status: str_field_or(line.as_str(), "Status", "unknown"),
                ports: str_field_or(line.as_str(), "Ports", ""),
                id: str_field_or(line.as_str(), "ID", "unknown"),
            };
            proof {
                assert(rec@ == spec_container_line_records(lv[i as int])[0]);
            }
            let ghost pre: Seq<DockerContainer> = containers@;
            containers.push(rec);
            proof {
                lemma_deep_view_push(pre, containers@, containers@.last());
                assert(containers.deep_view() =~= spec_container_records_upto(lv, (i + 1) as int));
            }
        } else {
            proof {
                assert(containers.deep_view() =~= spec_container_records_upto(lv, (i + 1) as int));
            }
        }
        i = i + 1;
    }
    containers
}

/// The containers attached to one named container network, drawn from the
/// outcome of the filtered container listing for that network.
pub fn get_containers_for_network(outcome: &CommandOutcome) -> (r: Vec<DockerContainer>)
    ensures
        r.deep_view() == spec_docker_containers(outcome@),
{
    match outcome.success_stdout() {
        Some(out) => parse_docker_containers(out.as_str()),
        None => {
            let r: Vec<DockerContainer> = Vec::new();
            proof {
                assert(r.deep_view() =~= Seq::<DockerContainerView>::empty());
            }
            r
        },
    }
}


/// Parsing the same raw network listing twice yields identical record
/// lists: the records are a function of the text alone, through the named
/// results of the JSON boundary.
pub proof fn lemma_parse_networks_deterministic(
    out: Seq<char>,
    r1: Seq<DockerNetworkView>,
    r2: Seq<DockerNetworkView>,
)
    requires
        r1 == spec_parse_docker_networks(out),
        r2 == spec_parse_docker_networks(out),
    ensures
        r1 == r2,
{
}


} // verus!
