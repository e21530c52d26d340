//! Interface selection for probe operations: only interfaces that are up
//! and not loopbacks are suitable for sending packets.

use vstd::prelude::*;
use crate::network::{NetworkInterface, NetworkInterfaceView, clone_interface};
use crate::strutil::lemma_deep_view_push;

verus! {

/// The interfaces with an index below `n` that are up and not loopbacks,
/// in their original order.
pub open spec fn spec_available_upto(all: Seq<NetworkInterfaceView>, n: int) -> Seq<
    NetworkInterfaceView,
>
    decreases n,
{
    if n <= 0 {
        Seq::empty()
    } else {
        let prev = spec_available_upto(all, n - 1);
        if all[n - 1].is_up && !all[n - 1].is_loopback {
            prev.push(all[n - 1])
        } else {
            prev
        }
    }
}

/// The interfaces suitable for packet sending: those that are up and not
/// loopbacks, in their original order.
pub fn get_available_interfaces(all_interfaces: &Vec<NetworkInterface>) -> (r: Vec<
    NetworkInterface,
>)
    ensures
        r.deep_view() == spec_available_upto(
            all_interfaces.deep_view(),
            all_interfaces.deep_view().len() as int,
        ),
{
    let ghost av: Seq<NetworkInterfaceView> = all_interfaces.deep_view();
    let mut available: Vec<NetworkInterface> = Vec::new();
    let mut i: usize = 0;
    proof {
        assert(available.deep_view() =~= spec_available_upto(av, 0));
    }
    while i < all_interfaces.len()
        invariant
            i <= all_interfaces@.len(),
            av == all_interfaces.deep_view(),
            available.deep_view() == spec_available_upto(av, i as int),
        decreases all_interfaces@.len() - i,
    {
        let iface = &all_interfaces[i];
        proof {
            assert(iface@ == av[i as int]);
        }
        if iface.is_up && !iface.is_loopback {
            let copy = clone_interface(iface);
            let ghost pre: Seq<NetworkInterface> = available@;
            available.push(copy);
            proof {
                lemma_deep_view_push(pre, available@, available@.last());
                assert(available.deep_view() =~= spec_available_upto(av, (i + 1) as int));
            }
        } else {
            proof {
                assert(available.deep_view() =~= spec_available_upto(av, (i + 1) as int));
            }
        }
        i = i + 1;
    }
    available
}

} // verus!
