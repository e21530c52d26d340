//! Routing rules of the bridged namespace.

use vstd::prelude::*;
use crate::routing::{Route, RouteView};

verus! {

/// The routing table reported for the bridged namespace.
pub open spec fn spec_wsl_routes() -> Seq<RouteView> {
    seq![
        (RouteView {
            destination: "default"@,
            gateway: "172.24.160.1"@,
            interface: "eth0"@,
            metric: "100"@,
        }),
        (RouteView {
            destination: "172.24.160.0/20"@,
            gateway: "On-link"@,
            interface: "eth0"@,
            metric: "100"@,
        }),
        (RouteView {
            destination: "172.24.160.1/32"@,
            gateway: "On-link"@,
            interface: "eth0"@,
            metric: "100"@,
        }),
        (RouteView {
            destination: "127.0.0.0/8"@,
            gateway: "On-link"@,
            interface: "lo"@,
            metric: "256"@,
        }),
    ]
}

/// The routing rules of the bridged namespace.
pub fn get_routing_rules() -> (r: Vec<Route>)
    ensures
        r.deep_view() == spec_wsl_routes(),
{
    let mut routes: Vec<Route> = Vec::new();
    routes.push(
        Route {
            destination: "default".to_owned(),
            gateway: "172.24.160.1".to_owned(),
            interface: "eth0".to_owned(),
            metric: "100".to_owned(),
        },
    );
    routes.push(
        Route {
            destination: "172.24.160.0/20".to_owned(),
            gateway: "On-link".to_owned(),
            interface: "eth0".to_owned(),
            metric: "100".to_owned(),
        },
    );
    routes.push(
        Route {
            destination: "172.24.160.1/32".to_owned(),
            gateway: "On-link".to_owned(),
            interface: "eth0".to_owned(),
            metric: "100".to_owned(),
        },
    );
    routes.push(
        Route {
            destination: "127.0.0.0/8".to_owned(),
            gateway: "On-link".to_owned(),
            interface: "lo".to_owned(),
            metric: "256".to_owned(),
        },
    );
    proof {
        assert(routes.deep_view() =~= spec_wsl_routes());
    }
    routes
}

} // verus!
