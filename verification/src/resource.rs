//! The CIDR resources a client knows of, and what a gateway is told of one.
use vstd::prelude::*;
use crate::net::IpNet;

verus! {

/// A site at which a resource can be reached.
#[derive(Clone, Debug)]
pub struct Site {
    pub id: u128,
    pub name: String,
}

/// A resource described by a network of addresses, as the client sees it.
#[derive(Clone, Debug)]
pub struct ResourceCidr {
    pub id: u128,
    pub address: IpNet,
    pub name: String,
    pub sites: Vec<Site>,
}

/// A resource described by a network of addresses, as the gateway is told of it; the
/// harness grants it without traffic filters.
#[derive(Clone, Debug)]
pub struct GatewayResourceCidr {
    pub id: u128,
    pub address: IpNet,
    pub name: String,
}


impl Site {
    /// A copy of the site.
    pub fn duplicate(&self) -> (r: Site)
        ensures
            r == *self,
    {
        Site { id: self.id, name: self.name.clone() }
    }
}

/// Two resources with the same id, network, name and sites.
pub open spec fn same_resource(a: ResourceCidr, b: ResourceCidr) -> bool {
    &&& a.id == b.id
    &&& a.address == b.address
    &&& a.name == b.name
    &&& a.sites@ == b.sites@
}

impl ResourceCidr {
    /// A copy of the resource.
    pub fn duplicate(&self) -> (r: ResourceCidr)
        ensures
            same_resource(r, *self),
    {
        let mut sites: Vec<Site> = Vec::new();
        let mut i: usize = 0;
        while i < self.sites.len()
            invariant
                i <= self.sites@.len(),
                sites@ == self.sites@.take(i as int),
            decreases self.sites@.len() - i,
        {
            sites.push(self.sites[i].duplicate());
            assert(self.sites@.take(i + 1) =~= self.sites@.take(i as int).push(self.sites@[i as int]));
            i = i + 1;
        }
        assert(self.sites@.take(self.sites@.len() as int) =~= self.sites@);
        ResourceCidr { id: self.id, address: self.address, name: self.name.clone(), sites }
    }
}

} // verus!
