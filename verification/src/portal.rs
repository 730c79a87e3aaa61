//! The simulated portal: it picks the gateway and site a client connects to for a
//! resource, and describes the resource to the gateway.
use vstd::prelude::*;
use crate::resource::{GatewayResourceCidr, ResourceCidr};
use crate::table::ResourceTable;

verus! {

/// The portal of a simulation with one client, one gateway on one site, and one relay.
#[derive(Clone, Copy, Debug, PartialEq, Eq, Structural)]
pub struct SimPortal {
    pub client: u128,
    pub gateway: u128,
    pub relay: u128,
}

/// A resource the client can connect to: the one with the id, on at least one site.
pub open spec fn has_site(r: ResourceCidr, id: u128) -> bool {
    r.id == id && r.sites@.len() > 0
}

impl SimPortal {
    /// The gateway and site to connect to for `resource`: the portal's gateway, at the
    /// first site of the first resource with that id and some site, in the table's order.
    pub fn handle_connection_intent(&self, resource: u128, resources: &ResourceTable) -> (r: Option<(u128, u128)>)
        requires
            resources.wf(),
        ensures
            r is None <==> (forall|i: int| 0 <= i < resources.order().len() ==> !has_site(
                resources@[#[trigger] resources.order()[i]],
                resource,
            )),
            r matches Some((gateway, site)) ==> gateway == self.gateway && exists|i: int| {
                &&& 0 <= i < resources.order().len()
                &&& has_site(resources@[#[trigger] resources.order()[i]], resource)
                &&& site == resources@[resources.order()[i]].sites@[0].id
                &&& forall|j: int| 0 <= j < i ==> !has_site(resources@[#[trigger] resources.order()[j]], resource)
            },
    {
        let entries = resources.entries();
        let mut i: usize = 0;
        while i < entries.len()
            invariant
                i <= entries@.len(),
                entries@.len() == resources.order().len(),
                forall|k: int| 0 <= k < entries@.len() ==> (#[trigger] entries@[k]).0 == resources.order()[k] && *entries@[k].1 == resources@[resources.order()[k]],
                forall|j: int| 0 <= j < i ==> !has_site(resources@[#[trigger] resources.order()[j]], resource),
            decreases entries@.len() - i,
        {
            let r = entries[i].1;
            if r.id == resource && r.sites.len() > 0 {
                assert(has_site(resources@[resources.order()[i as int]], resource));
                return Some((self.gateway, r.sites[0].id));
            }
            i = i + 1;
        }
        None
    }
}

/// What the gateway is told of the client's resource with the given id: the first such
/// resource in the table's order, with its id, network and name.
pub fn map_client_resource_to_gateway_resource(resources: &ResourceTable, resource_id: u128) -> (r: Option<GatewayResourceCidr>)
    requires
        resources.wf(),
    ensures
        r is None <==> (forall|i: int| 0 <= i < resources.order().len() ==> resources@[#[trigger] resources.order()[i]].id != resource_id),
        r matches Some(g) ==> exists|i: int| {
            &&& 0 <= i < resources.order().len()
            &&& resources@[#[trigger] resources.order()[i]].id == resource_id
            &&& g.id == resource_id
            &&& g.address == resources@[resources.order()[i]].address
            &&& g.name == resources@[resources.order()[i]].name
            &&& forall|j: int| 0 <= j < i ==> resources@[#[trigger] resources.order()[j]].id != resource_id
        },
{
    let entries = resources.entries();
    let mut i: usize = 0;
    while i < entries.len()
        invariant
            i <= entries@.len(),
            entries@.len() == resources.order().len(),
            forall|k: int| 0 <= k < entries@.len() ==> (#[trigger] entries@[k]).0 == resources.order()[k] && *entries@[k].1 == resources@[resources.order()[k]],
            forall|j: int| 0 <= j < i ==> resources@[#[trigger] resources.order()[j]].id != resource_id,
        decreases entries@.len() - i,
    {
        let r = entries[i].1;
        if r.id == resource_id {
            assert(resources@[resources.order()[i as int]].id == resource_id);
            return Some(GatewayResourceCidr { id: r.id, address: r.address, name: r.name.clone() });
        }
        i = i + 1;
    }
    None
}

} // verus!
