//! Firewall rules of the bridged namespace.

use vstd::prelude::*;
use crate::firewall::{FirewallRule, FirewallRuleView};

verus! {

/// The rule set reported for the bridged namespace.
pub open spec fn spec_wsl_firewall_rules() -> Seq<FirewallRuleView> {
    seq![
        (FirewallRuleView {
            name: "Allow Loopback"@,
            enabled: "Yes"@,
            direction: "Inbound"@,
            action: "Accept"@,
            protocol: "Any"@,
            local_address: "127.0.0.0/8"@,
            remote_address: "Any"@,
        }),
        (FirewallRuleView {
            name: "Allow Established"@,
            enabled: "Yes"@,
            direction: "Inbound"@,
            action: "Accept"@,
            protocol: "Any"@,
            local_address: "Any"@,
            remote_address: "Any"@,
        }),
        (FirewallRuleView {
            name: "Allow SSH"@,
            enabled: "Yes"@,
            direction: "Inbound"@,
            action: "Accept"@,
            protocol: "TCP"@,
            local_address: "Any"@,
            remote_address: "Any"@,
        }),
        (FirewallRuleView {
            name: "Block All"@,
            enabled: "Yes"@,
            direction: "Inbound"@,
            action: "Drop"@,
            protocol: "Any"@,
            local_address: "Any"@,
            remote_address: "Any"@,
        }),
    ]
}

/// The firewall rules of the bridged namespace.
pub fn get_firewall_rules() -> (r: Vec<FirewallRule>)
    ensures
        r.deep_view() == spec_wsl_firewall_rules(),
{
    let mut rules: Vec<FirewallRule> = Vec::new();
    rules.push(
        FirewallRule {
            name: "Allow Loopback".to_owned(),
            enabled: "Yes".to_owned(),
            direction: "Inbound".to_owned(),
            action: "Accept".to_owned(),
            protocol: "Any".to_owned(),
            local_address: "127.0.0.0/8".to_owned(),
            remote_address: "Any".to_owned(),
        },
    );
    rules.push(
        FirewallRule {
            name: "Allow Established".to_owned(),
            enabled: "Yes".to_owned(),
            direction: "Inbound".to_owned(),
            action: "Accept".to_owned(),
            protocol: "Any".to_owned(),
            local_address: "Any".to_owned(),
            remote_address: "Any".to_owned(),
        },
    );
    rules.push(
        FirewallRule {
            name: "Allow SSH".to_owned(),
            enabled: "Yes".to_owned(),
            direction: "Inbound".to_owned(),
            action: "Accept".to_owned(),
            protocol: "TCP".to_owned(),
            local_address: "Any".to_owned(),
            remote_address: "Any".to_owned(),
        },
    );
    rules.push(
        FirewallRule {
            name: "Block All".to_owned(),
            enabled: "Yes".to_owned(),
            direction: "Inbound".to_owned(),
            action: "Drop".to_owned(),
            protocol: "Any".to_owned(),
            local_address: "Any".to_owned(),
            remote_address: "Any".to_owned(),
        },
    );
    proof {
        assert(rules.deep_view() =~= spec_wsl_firewall_rules());
    }
    rules
}

} // verus!
