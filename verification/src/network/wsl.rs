//! Port discovery for the bridged namespace: parsing of the socket table
//! that `ss -tulnp` prints.

use vstd::prelude::*;
use crate::network::{NetworkEnvironment, PortInfo, PortInfoView};
use crate::runner::{CommandOutcome, CommandOutcomeView, spec_failure_cause, spec_success_stdout};
use crate::strutil::{
    after_last_colon, chars_of, find_chars, is_valid_port, lemma_deep_view_push, spec_after_last_colon,
    spec_find, spec_is_port_token, spec_split_lines, spec_to_upper, spec_tokens, split_lines,
    str_eq, string_from_chars, to_upper_ascii, tokens_of,
};

verus! {

/// Process id and process name drawn from one `users:(("name",pid=..,fd=..))`
/// field; `N/A` for both when the field does not carry them.
pub open spec fn spec_users_field(u: Seq<char>) -> (Seq<char>, Seq<char>) {
    let na = ("N/A"@, "N/A"@);
    let start = spec_find(u, "users:(("@);
    if start < 0 {
        na
    } else {
        let up = u.skip(start + 8);
        let comma = spec_find(up, ","@);
        if comma < 2 {
            na
        } else {
            let name = up.subrange(1, comma - 1);
            let pid_start = spec_find(up, "pid="@);
            if pid_start < 0 {
                na
            } else {
                let pp = up.skip(pid_start + 4);
                let pid_end = spec_find(pp, ","@);
                if pid_end < 0 {
                    na
                } else {
                    (pp.take(pid_end), name)
                }
            }
        }
    }
}

/// Reads process id and name out of one `ss` process field.
///
/// The field has the shape `users:(("sshd",pid=1234,fd=3))`; the quoted name
/// and the digits after `pid=` are returned, and `("N/A", "N/A")` when any
/// part of that shape is missing.
pub fn parse_users_field(users_field: &str) -> (r: (String, String))
    ensures
        r.0@ == spec_users_field(users_field@).0,
        r.1@ == spec_users_field(users_field@).1,
{
    proof {
        reveal_strlit("users:((");
        reveal_strlit(",");
        reveal_strlit("pid=");
        reveal_strlit("N/A");
    }
    let na = ("N/A".to_owned(), "N/A".to_owned());
    let v = chars_of(users_field);
    let n = v.len();
    let marker = chars_of("users:((");
    let start = match find_chars(v.as_slice(), marker.as_slice()) {
        Some(i) => i,
        None => {
            return na;
        },
    };
    let up = &v.as_slice()[start + 8..n];
    proof {
        assert(up@ =~= users_field@.skip(spec_find(users_field@, "users:(("@) + 8));
    }
    let comma_pat = chars_of(",");
    let comma = match find_chars(up, comma_pat.as_slice()) {
        Some(i) => i,
        None => {
            return na;
        },
    };
    if comma < 2 {
        return na;
    }
    let name = string_from_chars(&up[1..comma - 1]);
    let pid_pat = chars_of("pid=");
    let pid_start = match find_chars(up, pid_pat.as_slice()) {
        Some(i) => i,
        None => {
            return na;
        },
    };
    let pp = &up[pid_start + 4..up.len()];
    proof {
        assert(pp@ =~= up@.skip(spec_find(up@, "pid="@) + 4));
    }
    let pid_end = match find_chars(pp, comma_pat.as_slice()) {
        Some(i) => i,
        None => {
            return na;
        },
    };
    let pid = string_from_chars(&pp[0..pid_end]);
    proof {
        assert(pid@ =~= pp@.take(spec_find(pp@, ","@)));
        assert(name@ =~= up@.subrange(1, spec_find(up@, ","@) - 1));
    }
    (pid, name)
}

/// The port records drawn from one socket-table line: one record when the
/// line has at least six tokens, its state token is `LISTEN` and its local
/// address carries a numeric port; nothing otherwise.
pub open spec fn spec_ss_line_records(line: Seq<char>) -> Seq<PortInfoView> {
    let toks = spec_tokens(line);
    if toks.len() >= 6 && toks[1] == "LISTEN"@ {
        let local = toks[4];
        let port = spec_after_last_colon(local);
        if spec_is_port_token(port) {
            let pid_name = if toks.len() >= 7 {
                spec_users_field(toks[6])
            } else {
                ("N/A"@, "N/A"@)
            };
            seq![
                PortInfoView {
                    process_id: pid_name.0,
                    process_name: pid_name.1,
                    protocol: spec_to_upper(toks[0]),
                    port: port,
                    direction: "LISTEN"@,
                    network: local,
                    environment: NetworkEnvironment::Wsl,
                },
            ]
        } else {
            Seq::empty()
        }
    } else {
        Seq::empty()
    }
}

/// The records of the socket-table lines with an index below `n`, skipping
/// the header line at index zero.
pub open spec fn spec_ss_records_upto(lines: Seq<Seq<char>>, n: int) -> Seq<PortInfoView>
    decreases n,
{
    if n <= 1 {
        Seq::empty()
    } else {
        spec_ss_records_upto(lines, n - 1) + spec_ss_line_records(lines[n - 1])
    }
}

/// All port records of one `ss -tulnp` output.
pub open spec fn spec_parse_ss(out: Seq<char>) -> Seq<PortInfoView> {
    let lines = spec_split_lines(out);
    spec_ss_records_upto(lines, lines.len() as int)
}

/// Parses `ss -tulnp` output: one record per listening socket line.
///
/// The first line is a header and is skipped. A line with fewer than six
/// tokens, a state other than `LISTEN`, or a non-numeric port is dropped;
/// the lines after it are still parsed.
pub fn parse_ss_with_process_info(output_str: &str) -> (r: Vec<PortInfo>)
    ensures
        r.deep_view() == spec_parse_ss(output_str@),
{
    let lines = split_lines(output_str);
    let ghost lv: Seq<Seq<char>> = spec_split_lines(output_str@);
    let mut ports: Vec<PortInfo> = Vec::new();
    let mut i: usize = 1;
    proof {
        assert(ports.deep_view() =~= spec_ss_records_upto(lv, 1));
        if lines@.len() == 0 {
            assert(ports.deep_view() =~= spec_ss_records_upto(lv, lv.len() as int));
        }
    }
    if lines.len() == 0 {
        return ports;
    }
    while i < lines.len()
        invariant
            1 <= i <= lines@.len(),
            lines.deep_view() == lv,
            ports.deep_view() == spec_ss_records_upto(lv, i as int),
        decreases lines@.len() - i,
    {
        let line = &lines[i];
        proof {
            assert(line@ == lv[i as int]);
        }
        let toks = tokens_of(line.as_str());
        let ghost tv: Seq<Seq<char>> = spec_tokens(line@);
        if toks.len() >= 6 && str_eq(toks[1].as_str(), "LISTEN") {
            let local_address = &toks[4];
            proof {
                assert(local_address@ == tv[4]);
                assert(toks@[0]@ == tv[0]);
            }
            let port = after_last_colon(local_address.as_str());
            if is_valid_port(port.as_str()) {
                let pid_name: (String, String) = if toks.len() >= 7 {
                    proof {
                        assert(toks@[6]@ == tv[6]);
                    }
                    parse_users_field(toks[6].as_str())
                } else {
                    ("N/A".to_owned(), "N/A".to_owned())
                };
                let rec = PortInfo {
                    process_id: pid_name.0,
                    process_name: pid_name.1,
                    protocol: to_upper_ascii(toks[0].as_str()),
                    port: port,
                    direction: "LISTEN".to_owned(),
                    network: local_address.clone(),
                    environment: NetworkEnvironment::Wsl,
                };
                proof {
                    assert(rec@ == spec_ss_line_records(lv[i as int])[0]);
                }
                let ghost pre: Seq<PortInfo> = ports@;
                ports.push(rec);
                proof {
                    lemma_deep_view_push(pre, ports@, rec);
                    assert(ports.deep_view() =~= spec_ss_records_upto(lv, (i + 1) as int));
                }
            } else {
                proof {
                    assert(ports.deep_view() =~= spec_ss_records_upto(lv, (i + 1) as int));
                }
            }
        } else {
            proof {
                assert(ports.deep_view() =~= spec_ss_records_upto(lv, (i + 1) as int));
            }
        }
        i = i + 1;
    }
    ports
}

/// The ports a socket-table outcome yields: the parsed records of its
/// standard output on success, nothing on any failure.
pub open spec fn spec_wsl_ports(o: CommandOutcomeView) -> Seq<PortInfoView> {
    match spec_success_stdout(o) {
        Some(out) => spec_parse_ss(out),
        None => Seq::empty(),
    }
}

/// The listening ports of the bridged namespace, drawn from the outcome of
/// its socket-listing tool.
///
/// Any failed outcome yields the empty list: a failure never crosses this
/// boundary as an error.
pub fn get_active_ports(outcome: &CommandOutcome) -> (r: Vec<PortInfo>)
    ensures
        r.deep_view() == spec_wsl_ports(outcome@),
{
    match outcome.success_stdout() {
        Some(s) => parse_ss_with_process_info(s.as_str()),
        None => {
            let r: Vec<PortInfo> = Vec::new();
            proof {
                assert(r.deep_view() =~= Seq::<PortInfoView>::empty());
            }
            r
        },
    }
}


/// The bridged ports with the diagnostic cause of a failed refresh: the
/// same records as [`get_active_ports`], and a cause exactly when the
/// socket-listing outcome failed. The caller still receives a list either
/// way, never an error.
pub fn get_active_ports_with_diagnostic(outcome: &CommandOutcome) -> (r: (
    Vec<PortInfo>,
    Option<String>,
))
    ensures
        r.0.deep_view() == spec_wsl_ports(outcome@),
        r.1.deep_view() == spec_failure_cause(outcome@),
{
    (get_active_ports(outcome), outcome.failure_cause())
}

// ---------------------------------------------------------------------------
// Laws of the socket-table parser.
// ---------------------------------------------------------------------------

/// Parsing the same raw socket-table output twice yields identical record
/// lists: the records are a function of the text alone, so no incidental
/// ordering nondeterminism can arise.
pub proof fn lemma_parse_ss_deterministic(
    out: Seq<char>,
    r1: Seq<PortInfoView>,
    r2: Seq<PortInfoView>,
)
    requires
        r1 == spec_parse_ss(out),
        r2 == spec_parse_ss(out),
    ensures
        r1 == r2,
{
}

/// A socket-table line with fewer than the six required tokens yields no
/// record.
pub proof fn lemma_short_ss_line_yields_nothing(line: Seq<char>)
    requires
        spec_tokens(line).len() < 6,
    ensures
        spec_ss_line_records(line) == Seq::<PortInfoView>::empty(),
{
}

proof fn lemma_ss_upto_prefix_agree(a: Seq<Seq<char>>, b: Seq<Seq<char>>, n: int)
    requires
        n <= a.len(),
        n <= b.len(),
        forall|j: int| 0 <= j < n ==> a[j] == b[j],
    ensures
        spec_ss_records_upto(a, n) == spec_ss_records_upto(b, n),
    decreases n,
{
    if n > 1 {
        lemma_ss_upto_prefix_agree(a, b, n - 1);
    }
}

/// A socket-table line with fewer than the six required tokens is dropped
/// without aborting the parse: removing it from the line list leaves the
/// record list unchanged.
pub proof fn lemma_malformed_ss_line_dropped(lines: Seq<Seq<char>>, k: int)
    requires
        1 <= k < lines.len(),
        spec_tokens(lines[k]).len() < 6,
    ensures
        spec_ss_records_upto(lines, lines.len() as int) == spec_ss_records_upto(
            lines.remove(k),
            lines.len() - 1,
        ),
{
    lemma_ss_upto_remove(lines, k, lines.len() as int);
}

proof fn lemma_ss_upto_remove(lines: Seq<Seq<char>>, k: int, n: int)
    requires
        1 <= k < n <= lines.len(),
        spec_tokens(lines[k]).len() < 6,
    ensures
        spec_ss_records_upto(lines, n) == spec_ss_records_upto(lines.remove(k), n - 1),
    decreases n,
{
    let rem = lines.remove(k);
    if n == k + 1 {
        assert(spec_ss_line_records(lines[k]) =~= Seq::<PortInfoView>::empty());
        assert(spec_ss_records_upto(lines, n) =~= spec_ss_records_upto(lines, k));
        assert forall|j: int| 0 <= j < k implies lines[j] == rem[j] by {
            assert(rem[j] == lines.subrange(0, k)[j]);
        }
        lemma_ss_upto_prefix_agree(lines, rem, k);
    } else {
        lemma_ss_upto_remove(lines, k, n - 1);
        assert(rem[n - 2] == lines.subrange(k + 1, lines.len() as int)[n - 2 - k]);
        assert(rem[n - 2] == lines[n - 1]);
    }
}


} // verus!
