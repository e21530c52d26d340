//! Routing table inspection for both namespaces.

pub mod windows;
pub mod wsl;

use vstd::prelude::*;

verus! {

/// Abstract value of a [`Route`].
pub struct RouteView {
    pub destination: Seq<char>,
    pub gateway: Seq<char>,
    pub interface: Seq<char>,
    pub metric: Seq<char>,
}

/// A routing rule; every field is free text as the source tool reports it.
#[derive(Debug, Clone, PartialEq)]
pub struct Route {
    pub destination: String,
    pub gateway: String,
    pub interface: String,
    pub metric: String,
}

impl View for Route {
    type V = RouteView;

    open spec fn view(&self) -> RouteView {
        RouteView {
            destination: self.destination@,
            gateway: self.gateway@,
            interface: self.interface@,
            metric: self.metric@,
        }
    }
}

impl DeepView for Route {
    type V = RouteView;

    open spec fn deep_view(&self) -> RouteView {
        self.view()
    }
}

/// The routing rules of the current system: those of the bridged namespace.
pub fn get_routing_rules() -> (r: Vec<Route>)
    ensures
        r.deep_view() == wsl::spec_wsl_routes(),
{
    wsl::get_routing_rules()
}

} // verus!
