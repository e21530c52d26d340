//! Firewall rule inspection for both namespaces.

pub mod windows;
pub mod wsl;

use vstd::prelude::*;

verus! {

/// Abstract value of a [`FirewallRule`].
pub struct FirewallRuleView {
    pub name: Seq<char>,
    pub enabled: Seq<char>,
    pub direction: Seq<char>,
    pub action: Seq<char>,
    pub protocol: Seq<char>,
    pub local_address: Seq<char>,
    pub remote_address: Seq<char>,
}

/// A firewall rule with its properties, all as the source tool reports
/// them; the enabled flag is not boolean-normalized.
#[derive(Debug, Clone, PartialEq)]
pub struct FirewallRule {
    pub name: String,
    pub enabled: String,
    pub direction: String,
    pub action: String,
    pub protocol: String,
    pub local_address: String,
    pub remote_address: String,
}

impl View for FirewallRule {
    type V = FirewallRuleView;

    open spec fn view(&self) -> FirewallRuleView {
        FirewallRuleView {
            name: self.name@,
            enabled: self.enabled@,
            direction: self.direction@,
            action: self.action@,
            protocol: self.protocol@,
            local_address: self.local_address@,
            remote_address: self.remote_address@,
        }
    }
}

impl DeepView for FirewallRule {
    type V = FirewallRuleView;

    open spec fn deep_view(&self) -> FirewallRuleView {
        self.view()
    }
}

/// The firewall rules of the current system: those of the bridged
/// namespace.
pub fn get_firewall_rules() -> (r: Vec<FirewallRule>)
    ensures
        r.deep_view() == wsl::spec_wsl_firewall_rules(),
{
    wsl::get_firewall_rules()
}

} // verus!
