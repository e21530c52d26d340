//! Firewall rules of the native namespace.

use vstd::prelude::*;
use crate::firewall::{FirewallRule, FirewallRuleView};

verus! {

/// The rule set reported for the native namespace.
pub open spec fn spec_windows_firewall_rules() -> Seq<FirewallRuleView> {
    seq![
        (FirewallRuleView {
            name: "Windows Defender Firewall"@,
            enabled: "Yes"@,
            direction: "Inbound"@,
            action: "Allow"@,
            protocol: "TCP"@,
            local_address: "192.168.1.100"@,
            remote_address: "Any"@,
        }),
        (FirewallRuleView {
            name: "Remote Desktop"@,
            enabled: "No"@,
            direction: "Inbound"@,
            action: "Allow"@,
            protocol: "TCP"@,
            local_address: "192.168.1.100"@,
            remote_address: "Any"@,
        }),
        (FirewallRuleView {
            name: "File and Printer Sharing"@,
            enabled: "Yes"@,
            direction: "Outbound"@,
            action: "Allow"@,
            protocol: "UDP"@,
            local_address: "192.168.1.100"@,
            remote_address: "192.168.1.0/24"@,
        }),
        (FirewallRuleView {
            name: "Block Malicious Traffic"@,
            enabled: "Yes"@,
            direction: "Inbound"@,
            action: "Block"@,
            protocol: "Any"@,
            local_address: "Any"@,
            remote_address: "10.0.0.0/8"@,
        }),
    ]
}

/// The firewall rules of the native namespace.
pub fn get_firewall_rules() -> (r: Vec<FirewallRule>)
    ensures
        r.deep_view() == spec_windows_firewall_rules(),
{
    let mut rules: Vec<FirewallRule> = Vec::new();
    rules.push(
        FirewallRule {
            name: "Windows Defender Firewall".to_owned(),
            enabled: "Yes".to_owned(),
            direction: "Inbound".to_owned(),
            action: "Allow".to_owned(),
            protocol: "TCP".to_owned(),
            local_address: "192.168.1.100".to_owned(),
            remote_address: "Any".to_owned(),
        },
    );
    rules.push(
        FirewallRule {
            name: "Remote Desktop".to_owned(),
            enabled: "No".to_owned(),
            direction: "Inbound".to_owned(),
            action: "Allow".to_owned(),
            protocol: "TCP".to_owned(),
            local_address: "192.168.1.100".to_owned(),
            remote_address: "Any".to_owned(),
        },
    );
    rules.push(
        FirewallRule {
            name: "File and Printer Sharing".to_owned(),
            enabled: "Yes".to_owned(),
            direction: "Outbound".to_owned(),
            action: "Allow".to_owned(),
            protocol: "UDP".to_owned(),
            local_address: "192.168.1.100".to_owned(),
            remote_address: "192.168.1.0/24".to_owned(),
        },
    );
    rules.push(
        FirewallRule {
            name: "Block Malicious Traffic".to_owned(),
            enabled: "Yes".to_owned(),
            direction: "Inbound".to_owned(),
            action: "Block".to_owned(),
            protocol: "Any".to_owned(),
            local_address: "Any".to_owned(),
            remote_address: "10.0.0.0/8".to_owned(),
        },
    );
    proof {
        assert(rules.deep_view() =~= spec_windows_firewall_rules());
    }
    rules
}

} // verus!
