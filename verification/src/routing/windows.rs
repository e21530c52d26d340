//! Routing rules of the native namespace.

use vstd::prelude::*;
use crate::routing::{Route, RouteView};

verus! {

/// The routing table reported for the native namespace.
pub open spec fn spec_windows_routes() -> Seq<RouteView> {
    seq![
        (RouteView {
            destination: "0.0.0.0/0"@,
            gateway: "192.168.1.1"@,
            interface: "Ethernet"@,
            metric: "25"@,
        }),
        (RouteView {
            destination: "192.168.1.0/24"@,
            gateway: "On-link"@,
            interface: "Ethernet"@,
            metric: "281"@,
        }),
        (RouteView {
            destination: "192.168.1.1/32"@,
            gateway: "On-link"@,
            interface: "Ethernet"@,
            metric: "281"@,
        }),
        (RouteView {
            destination: "127.0.0.0/8"@,
            gateway: "On-link"@,
            interface: "Loopback"@,
            metric: "331"@,
        }),
    ]
}

/// The routing rules of the native namespace.
pub fn get_routing_rules() -> (r: Vec<Route>)
    ensures
        r.deep_view() == spec_windows_routes(),
{
    let mut routes: Vec<Route> = Vec::new();
    routes.push(
        Route {
            destination: "0.0.0.0/0".to_owned(),
            gateway: "192.168.1.1".to_owned(),
            interface: "Ethernet".to_owned(),
            metric: "25".to_owned(),
        },
    );
    routes.push(
        Route {
            destination: "192.168.1.0/24".to_owned(),
            gateway: "On-link".to_owned(),
            interface: "Ethernet".to_owned(),
            metric: "281".to_owned(),
        },
    );
    routes.push(
        Route {
            destination: "192.168.1.1/32".to_owned(),
            gateway: "On-link".to_owned(),
            interface: "Ethernet".to_owned(),
            metric: "281".to_owned(),
        },
    );
    routes.push(
        Route {
            destination: "127.0.0.0/8".to_owned(),
            gateway: "On-link".to_owned(),
            interface: "Loopback".to_owned(),
            metric: "331".to_owned(),
        },
    );
    proof {
        assert(routes.deep_view() =~= spec_windows_routes());
    }
    routes
}

} // verus!
