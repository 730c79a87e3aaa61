//! The client's resources, kept in a longest-prefix-match table of `ip_network_table`.
use vstd::prelude::*;
use ip_network_table::IpNetworkTable;
use crate::net::{IpAddr, IpNet, Ipv4Net, Ipv6Net};
use crate::resource::ResourceCidr;

verus! {

#[verifier::external_type_specification]
#[verifier::external_body]
#[verifier::reject_recursive_types(T)]
pub struct ExIpNetworkTable<T>(IpNetworkTable<T>);

/// What an `IpNetworkTable` of resources holds: each network with its resource.
pub uninterp spec fn table_contents(t: IpNetworkTable<ResourceCidr>) -> Map<IpNet, ResourceCidr>;

/// The order in which `IpNetworkTable::iter` walks the networks of a table.
pub uninterp spec fn table_order(t: IpNetworkTable<ResourceCidr>) -> Seq<IpNet>;

/// Number of IPv4 networks in a sequence of networks.
pub open spec fn count_v4(s: Seq<IpNet>) -> nat
    decreases s.len(),
{
    if s.len() == 0 {
        0
    } else {
        count_v4(s.drop_last()) + if s.last() is V4 { 1nat } else { 0nat }
    }
}

/// How `IpNetworkTable::iter` walks a table: every network once, the IPv4 networks
/// before the IPv6 ones.
pub open spec fn layout_ok(m: Map<IpNet, ResourceCidr>, order: Seq<IpNet>) -> bool {
    &&& order.no_duplicates()
    &&& forall|i: int| 0 <= i < order.len() ==> m.dom().contains(#[trigger] order[i])
    &&& forall|k: IpNet| m.dom().contains(k) ==> order.contains(k)
    &&& forall|i: int, j: int|
        0 <= i < j < order.len() && (#[trigger] order[j]) is V4 ==> (#[trigger] order[i]) is V4
}

/// `IpNetworkTable::new`: an empty table.
#[verifier::external_body]
fn table_new() -> (r: IpNetworkTable<ResourceCidr>)
    ensures
        table_contents(r) =~= Map::empty(),
        table_order(r) =~= Seq::empty(),
        layout_ok(table_contents(r), table_order(r)),
{
    IpNetworkTable::new()
}

/// `IpNetworkTable::insert`: sets the value of a network, replacing any earlier one. The
/// order of the walk afterwards is not stated beyond its layout.
#[verifier::external_body]
fn table_insert(t: &mut IpNetworkTable<ResourceCidr>, net: IpNet, value: ResourceCidr)
    requires
        net.wf(),
    ensures
        table_contents(*final(t)) == table_contents(*old(t)).insert(net, value),
        layout_ok(table_contents(*final(t)), table_order(*final(t))),
{
    match net {
        IpNet::V4(n) => t.insert(ip_network::Ipv4Network::new(n.addr.into(), n.prefix).unwrap(), value),
        IpNet::V6(n) => t.insert(ip_network::Ipv6Network::new(n.addr.into(), n.prefix).unwrap(), value),
    };
}

/// `IpNetworkTable::len`: the number of IPv4 networks and of IPv6 networks.
#[verifier::external_body]
fn table_len(t: &IpNetworkTable<ResourceCidr>) -> (r: (usize, usize))
    ensures
        r.0 == count_v4(table_order(*t)),
        r.0 + r.1 == table_order(*t).len(),
{
    t.len()
}

/// The longest-prefix match that `IpNetworkTable::longest_match` looks for: among the
/// networks of `m` that contain `ip`, one with the longest prefix.
pub open spec fn is_longest_match(m: Map<IpNet, ResourceCidr>, ip: IpAddr, n: IpNet) -> bool {
    &&& m.dom().contains(n)
    &&& n.contains_spec(ip)
    &&& forall|k: IpNet| #[trigger]
        m.dom().contains(k) && k.contains_spec(ip) ==> k.prefix_spec() <= n.prefix_spec()
}

/// `IpNetworkTable::longest_match_ipv4`: the IPv4 network with the longest prefix that
/// contains the address, with its value; `None` where no network contains it.
#[verifier::external_body]
fn table_longest_match_ipv4<'a>(t: &'a IpNetworkTable<ResourceCidr>, ip: u32) -> (r: Option<
    (Ipv4Net, &'a ResourceCidr),
>)
    ensures
        r is None <==> (forall|k: IpNet| #[trigger]
            table_contents(*t).dom().contains(k) ==> !k.contains_spec(IpAddr::V4(ip))),
        r matches Some((n, v)) ==> {
            &&& is_longest_match(table_contents(*t), IpAddr::V4(ip), IpNet::V4(n))
            &&& table_contents(*t)[IpNet::V4(n)] == *v
        },
{
    match t.longest_match_ipv4(ip.into()) {
        Some((n, v)) => Some((Ipv4Net { addr: u32::from(n.network_address()), prefix: n.netmask() }, v)),
        None => None,
    }
}

/// `IpNetworkTable::longest_match_ipv6`: the IPv6 network with the longest prefix that
/// contains the address, with its value; `None` where no network contains it.
#[verifier::external_body]
fn table_longest_match_ipv6<'a>(t: &'a IpNetworkTable<ResourceCidr>, ip: u128) -> (r: Option<
    (Ipv6Net, &'a ResourceCidr),
>)
    ensures
        r is None <==> (forall|k: IpNet| #[trigger]
            table_contents(*t).dom().contains(k) ==> !k.contains_spec(IpAddr::V6(ip))),
        r matches Some((n, v)) ==> {
            &&& is_longest_match(table_contents(*t), IpAddr::V6(ip), IpNet::V6(n))
            &&& table_contents(*t)[IpNet::V6(n)] == *v
        },
{
    match t.longest_match_ipv6(ip.into()) {
        Some((n, v)) => Some((Ipv6Net { addr: u128::from(n.network_address()), prefix: n.netmask() }, v)),
        None => None,
    }
}

/// `IpNetworkTable::iter_ipv4().nth(n)`, taken by its network: the IPv4 networks come
/// first in the walk.
#[verifier::external_body]
fn table_nth_ipv4(t: &IpNetworkTable<ResourceCidr>, n: usize) -> (r: Option<Ipv4Net>)
    ensures
        r == (if n < count_v4(table_order(*t)) {
            Some(table_order(*t)[n as int]->V4_0)
        } else {
            None::<Ipv4Net>
        }),
{
    match t.iter_ipv4().nth(n) {
        Some((net, _)) => Some(Ipv4Net { addr: u32::from(net.network_address()), prefix: net.netmask() }),
        None => None,
    }
}

/// `IpNetworkTable::iter_ipv6().nth(n)`, taken by its network: the IPv6 networks come
/// after the IPv4 ones in the walk.
#[verifier::external_body]
fn table_nth_ipv6(t: &IpNetworkTable<ResourceCidr>, n: usize) -> (r: Option<Ipv6Net>)
    ensures
        r == (if count_v4(table_order(*t)) + n < table_order(*t).len() {
            Some(table_order(*t)[count_v4(table_order(*t)) + n]->V6_0)
        } else {
            None::<Ipv6Net>
        }),
{
    match t.iter_ipv6().nth(n) {
        Some((net, _)) => Some(Ipv6Net { addr: u128::from(net.network_address()), prefix: net.netmask() }),
        None => None,
    }
}

/// `IpNetworkTable::iter`, collected: each network of the walk with its value.
#[verifier::external_body]
fn table_iter<'a>(t: &'a IpNetworkTable<ResourceCidr>) -> (r: Vec<(IpNet, &'a ResourceCidr)>)
    ensures
        r@.len() == table_order(*t).len(),
        forall|i: int| 0 <= i < r@.len() ==> (#[trigger] r@[i]).0 == table_order(*t)[i] && *r@[i].1
            == table_contents(*t)[table_order(*t)[i]],
{
    t.iter().map(|(net, v)| match net {
        ip_network::IpNetwork::V4(n) => (IpNet::V4(Ipv4Net { addr: u32::from(n.network_address()), prefix: n.netmask() }), v),
        ip_network::IpNetwork::V6(n) => (IpNet::V6(Ipv6Net { addr: u128::from(n.network_address()), prefix: n.netmask() }), v),
    }).collect()
}


/// The IPv4 networks of a walk come first: position `i` holds one exactly when `i` is
/// below their number.
proof fn lemma_count_v4_split(s: Seq<IpNet>)
    requires
        forall|i: int, j: int| 0 <= i < j < s.len() && (#[trigger] s[j]) is V4 ==> (#[trigger] s[i]) is V4,
    ensures
        count_v4(s) <= s.len(),
        forall|i: int| 0 <= i < s.len() ==> ((#[trigger] s[i]) is V4 <==> i < count_v4(s)),
    decreases s.len(),
{
    if s.len() > 0 {
        let p = s.drop_last();
        assert forall|i: int, j: int| 0 <= i < j < p.len() && (#[trigger] p[j]) is V4 implies (#[trigger] p[i]) is V4 by {
            assert(s[j] == p[j] && s[i] == p[i]);
        }
        lemma_count_v4_split(p);
        if s.last() is V4 {
            assert forall|i: int| 0 <= i < p.len() implies (#[trigger] p[i]) is V4 by {
                assert(s[s.len() - 1] is V4);
                assert(s[i] == p[i]);
            }
            if p.len() > 0 {
                assert(p[p.len() - 1] is V4);
            }
            assert forall|i: int| 0 <= i < s.len() implies ((#[trigger] s[i]) is V4 <==> i < count_v4(s)) by {
                if i < p.len() {
                    assert(s[i] == p[i]);
                }
            }
        } else {
            assert forall|i: int| 0 <= i < s.len() implies ((#[trigger] s[i]) is V4 <==> i < count_v4(s)) by {
                if i < p.len() {
                    assert(s[i] == p[i]);
                } else {
                    assert(s[i] == s.last());
                }
            }
        }
    }
}

/// The resources a client knows of, looked up by the longest network that holds an
/// address.
pub struct ResourceTable {
    inner: IpNetworkTable<ResourceCidr>,
}

impl View for ResourceTable {
    type V = Map<IpNet, ResourceCidr>;

    closed spec fn view(&self) -> Map<IpNet, ResourceCidr> {
        table_contents(self.inner)
    }
}

/// The networks of one family in a map of resources.
pub open spec fn networks_v4(m: Map<IpNet, ResourceCidr>) -> Set<IpNet> {
    m.dom().filter(|k: IpNet| k is V4)
}

pub open spec fn networks_v6(m: Map<IpNet, ResourceCidr>) -> Set<IpNet> {
    m.dom().filter(|k: IpNet| k is V6)
}

/// The resource of the longest network in `m` that holds `ip`, if any network does.
pub open spec fn matched_resource(m: Map<IpNet, ResourceCidr>, ip: IpAddr) -> Option<ResourceCidr> {
    if exists|n: IpNet| is_longest_match(m, ip, n) {
        Some(m[choose|n: IpNet| is_longest_match(m, ip, n)])
    } else {
        None
    }
}

/// Every network of the map is valid.
pub open spec fn all_networks_wf(m: Map<IpNet, ResourceCidr>) -> bool {
    forall|k: IpNet| #[trigger] m.dom().contains(k) ==> k.wf()
}

/// Among valid networks, the longest one that holds an address is unique.
pub proof fn lemma_longest_match_unique(m: Map<IpNet, ResourceCidr>, ip: IpAddr, n1: IpNet, n2: IpNet)
    requires
        all_networks_wf(m),
        is_longest_match(m, ip, n1),
        is_longest_match(m, ip, n2),
    ensures
        n1 == n2,
{
    assert(n1.wf() && n2.wf());
    match (n1, n2) {
        (IpNet::V4(a), IpNet::V4(b)) => {
            assert(a.prefix == b.prefix);
            let blk = crate::net::v4_block(a.prefix);
            crate::net::lemma_v4_net_fits(a);
            if a.addr < b.addr {
                crate::net::lemma_aligned_block_fits(a.addr as nat, blk, b.addr as nat);
            } else if b.addr < a.addr {
                crate::net::lemma_aligned_block_fits(b.addr as nat, blk, a.addr as nat);
            }
        },
        (IpNet::V6(a), IpNet::V6(b)) => {
            assert(a.prefix == b.prefix);
            let blk = crate::net::v6_block(a.prefix);
            crate::net::lemma_v6_net_fits(a);
            if a.addr < b.addr {
                crate::net::lemma_aligned_block_fits(a.addr as nat, blk, b.addr as nat);
            } else if b.addr < a.addr {
                crate::net::lemma_aligned_block_fits(b.addr as nat, blk, a.addr as nat);
            }
        },
        _ => {},
    }
}

/// The network of longest prefix that holds `ip` among the first `i` of `order`.
pub open spec fn best_upto(order: Seq<IpNet>, ip: IpAddr, i: int) -> Option<IpNet>
    decreases i,
{
    if i <= 0 {
        None
    } else {
        let prev = best_upto(order, ip, i - 1);
        let k = order[i - 1];
        if k.contains_spec(ip) && (prev is None || prev->0.prefix_spec() < k.prefix_spec()) {
            Some(k)
        } else {
            prev
        }
    }
}

proof fn lemma_best_upto(order: Seq<IpNet>, ip: IpAddr, i: int)
    requires
        0 <= i <= order.len(),
    ensures
        best_upto(order, ip, i) is None ==> forall|j: int| 0 <= j < i ==> !(#[trigger] order[j]).contains_spec(ip),
        best_upto(order, ip, i) matches Some(n) ==> {
            &&& n.contains_spec(ip)
            &&& exists|j: int| 0 <= j < i && order[j] == n
            &&& forall|j: int| 0 <= j < i && (#[trigger] order[j]).contains_spec(ip) ==> order[j].prefix_spec() <= n.prefix_spec()
        },
    decreases i,
{
    if i > 0 {
        lemma_best_upto(order, ip, i - 1);
        let prev = best_upto(order, ip, i - 1);
        if let Some(p) = prev {
            let j0 = choose|j: int| 0 <= j < i - 1 && order[j] == p;
            assert(0 <= j0 < i && order[j0] == p);
        }
        if let Some(n) = best_upto(order, ip, i) {
            if n == order[i - 1] && order[i - 1].contains_spec(ip) && (prev is None || prev->0.prefix_spec() < order[i - 1].prefix_spec()) {
                assert(0 <= i - 1 < i && order[i - 1] == n);
            }
        }
    }
}

impl ResourceTable {
    /// The order in which the table walks its networks.
    pub closed spec fn order(&self) -> Seq<IpNet> {
        table_order(self.inner)
    }

    /// Every network is valid and keyed by its own resource's address, and the walk
    /// visits every network once, IPv4 first.
    pub open spec fn wf(&self) -> bool {
        &&& layout_ok(self@, self.order())
        &&& forall|k: IpNet| #[trigger] self@.dom().contains(k) ==> k.wf() && self@[k].address == k
    }

    /// The walk lists the IPv4 networks, then the IPv6 ones, each network once.
    pub proof fn lemma_counts(&self)
        requires
            self.wf(),
        ensures
            count_v4(self.order()) == networks_v4(self@).len(),
            self.order().len() - count_v4(self.order()) == networks_v6(self@).len(),
            forall|i: int| 0 <= i < self.order().len() ==> ((#[trigger] self.order()[i]) is V4 <==> i < count_v4(self.order())),
            forall|i: int| 0 <= i < self.order().len() ==> self@.dom().contains(#[trigger] self.order()[i]),
    {
        let o = self.order();
        lemma_count_v4_split(o);
        let n4 = count_v4(o) as int;
        let a = o.take(n4);
        let b = o.skip(n4);
        assert(a.no_duplicates());
        assert(b.no_duplicates());
        a.unique_seq_to_set();
        b.unique_seq_to_set();
        assert(a.to_set() =~= networks_v4(self@)) by {
            assert forall|k: IpNet| a.to_set().contains(k) implies networks_v4(self@).contains(k) by {
                let i = choose|i: int| 0 <= i < a.len() && a[i] == k;
                assert(o[i] == k);
            }
            assert forall|k: IpNet| networks_v4(self@).contains(k) implies a.to_set().contains(k) by {
                assert(self@.dom().contains(k) && k is V4);
                assert(o.contains(k));
                let i = choose|i: int| 0 <= i < o.len() && o[i] == k;
                assert(o[i] is V4);
                assert(a[i] == k);
            }
        }
        assert(b.to_set() =~= networks_v6(self@)) by {
            assert forall|k: IpNet| b.to_set().contains(k) implies networks_v6(self@).contains(k) by {
                let i = choose|i: int| 0 <= i < b.len() && b[i] == k;
                assert(o[n4 + i] == k);
            }
            assert forall|k: IpNet| networks_v6(self@).contains(k) implies b.to_set().contains(k) by {
                assert(self@.dom().contains(k) && k is V6);
                assert(o.contains(k));
                let i = choose|i: int| 0 <= i < o.len() && o[i] == k;
                assert(!(o[i] is V4));
                assert(b[i - n4] == k);
            }
        }
    }

    /// Where some network holds `ip`, a longest one does.
    pub proof fn lemma_longest_match_exists(&self, ip: IpAddr, k: IpNet)
        requires
            self.wf(),
            self@.dom().contains(k),
            k.contains_spec(ip),
        ensures
            exists|n: IpNet| is_longest_match(self@, ip, n),
            matched_resource(self@, ip) is Some,
    {
        let o = self.order();
        lemma_best_upto(o, ip, o.len() as int);
        assert(o.contains(k));
        let jk = choose|j: int| 0 <= j < o.len() && o[j] == k;
        assert(o[jk].contains_spec(ip));
        let n = best_upto(o, ip, o.len() as int)->0;
        let jn = choose|j: int| 0 <= j < o.len() && o[j] == n;
        assert(self@.dom().contains(o[jn]));
        assert forall|x: IpNet| #[trigger] self@.dom().contains(x) && x.contains_spec(ip) implies x.prefix_spec() <= n.prefix_spec() by {
            assert(o.contains(x));
            let jx = choose|j: int| 0 <= j < o.len() && o[j] == x;
            assert(o[jx].contains_spec(ip));
        }
        assert(is_longest_match(self@, ip, n));
    }

    pub fn new() -> (r: ResourceTable)
        ensures
            r.wf(),
            r@ == Map::<IpNet, ResourceCidr>::empty(),
    {
        ResourceTable { inner: table_new() }
    }

    /// Adds a resource under its own network, replacing a resource of the same network.
    pub fn insert(&mut self, resource: ResourceCidr)
        requires
            old(self).wf(),
            resource.address.wf(),
        ensures
            final(self).wf(),
            final(self)@ == old(self)@.insert(resource.address, resource),
    {
        let net = resource.address;
        table_insert(&mut self.inner, net, resource);
    }

    /// The number of IPv4 networks and the number of IPv6 networks.
    pub fn len(&self) -> (r: (usize, usize))
        requires
            self.wf(),
        ensures
            r.0 == networks_v4(self@).len(),
            r.1 == networks_v6(self@).len(),
            r.0 == count_v4(self.order()),
            r.0 + r.1 == self.order().len(),
    {
        let r = table_len(&self.inner);
        proof {
            self.lemma_counts();
        }
        r
    }

    /// The resource whose network is the longest one that holds `ip`, with that network.
    pub fn longest_match(&self, ip: IpAddr) -> (r: Option<(IpNet, &ResourceCidr)>)
        requires
            self.wf(),
        ensures
            r is None <==> (forall|k: IpNet| #[trigger] self@.dom().contains(k) ==> !k.contains_spec(ip)),
            r matches Some((n, v)) ==> is_longest_match(self@, ip, n) && self@[n] == *v,
            r matches Some((n, v)) ==> matched_resource(self@, ip) == Some(*v),
            r is None ==> matched_resource(self@, ip) is None,
    {
        proof {
            if exists|n: IpNet| is_longest_match(self@, ip, n) {
                let n = choose|n: IpNet| is_longest_match(self@, ip, n);
                assert(self@.dom().contains(n) && n.contains_spec(ip));
            }
        }
        match ip {
            IpAddr::V4(a) => match table_longest_match_ipv4(&self.inner, a) {
                Some((n, v)) => {
                    proof {
                        let c = choose|c: IpNet| is_longest_match(self@, ip, c);
                        lemma_longest_match_unique(self@, ip, c, IpNet::V4(n));
                    }
                    Some((IpNet::V4(n), v))
                },
                None => None,
            },
            IpAddr::V6(a) => match table_longest_match_ipv6(&self.inner, a) {
                Some((n, v)) => {
                    proof {
                        let c = choose|c: IpNet| is_longest_match(self@, ip, c);
                        lemma_longest_match_unique(self@, ip, c, IpNet::V6(n));
                    }
                    Some((IpNet::V6(n), v))
                },
                None => None,
            },
        }
    }

    /// The `n`-th IPv4 network of the walk.
    pub fn nth_ipv4(&self, n: usize) -> (r: Option<Ipv4Net>)
        requires
            self.wf(),
        ensures
            r == (if n < count_v4(self.order()) {
                Some(self.order()[n as int]->V4_0)
            } else {
                None::<Ipv4Net>
            }),
            r matches Some(net) ==> self@.dom().contains(IpNet::V4(net)) && net.wf(),
    {
        let r = table_nth_ipv4(&self.inner, n);
        proof {
            lemma_count_v4_split(self.order());
            if n < count_v4(self.order()) {
                let k = self.order()[n as int];
                assert(self@.dom().contains(k));
            }
        }
        r
    }

    /// The `n`-th IPv6 network of the walk.
    pub fn nth_ipv6(&self, n: usize) -> (r: Option<Ipv6Net>)
        requires
            self.wf(),
        ensures
            r == (if count_v4(self.order()) + n < self.order().len() {
                Some(self.order()[count_v4(self.order()) + n]->V6_0)
            } else {
                None::<Ipv6Net>
            }),
            r matches Some(net) ==> self@.dom().contains(IpNet::V6(net)) && net.wf(),
    {
        let r = table_nth_ipv6(&self.inner, n);
        proof {
            lemma_count_v4_split(self.order());
            if count_v4(self.order()) + n < self.order().len() {
                let k = self.order()[count_v4(self.order()) + n];
                assert(self@.dom().contains(k));
            }
        }
        r
    }

    /// A table with the same networks, each with a copy of its resource.
    pub fn duplicate(&self) -> (r: ResourceTable)
        requires
            self.wf(),
        ensures
            r.wf(),
            r@.dom() == self@.dom(),
            forall|k: IpNet| #[trigger] r@.dom().contains(k) ==> crate::resource::same_resource(r@[k], self@[k]),
    {
        let entries = self.entries();
        let mut out = ResourceTable::new();
        let mut i: usize = 0;
        while i < entries.len()
            invariant
                i <= entries@.len(),
                self.wf(),
                entries@.len() == self.order().len(),
                forall|k: int| 0 <= k < entries@.len() ==> (#[trigger] entries@[k]).0 == self.order()[k] && *entries@[k].1 == self@[self.order()[k]],
                out.wf(),
                out@.dom() == self.order().take(i as int).to_set(),
                forall|k: IpNet| #[trigger] out@.dom().contains(k) ==> crate::resource::same_resource(out@[k], self@[k]),
            decreases entries@.len() - i,
        {
            let resource = entries[i].1.duplicate();
            proof {
                let k = self.order()[i as int];
                assert(self@.dom().contains(k));
                assert(self@[k].address == k);
            }
            out.insert(resource);
            proof {
                let t0 = self.order().take(i as int);
                let t1 = self.order().take(i + 1);
                assert(t1 =~= t0.push(self.order()[i as int]));
                assert(out@.dom() =~= t1.to_set()) by {
                    assert forall|x: IpNet| out@.dom().contains(x) <==> t1.to_set().contains(x) by {
                        if t0.to_set().contains(x) {
                            let j = choose|j: int| 0 <= j < t0.len() && t0[j] == x;
                            assert(t1[j] == x);
                        }
                        if t1.to_set().contains(x) && x != self.order()[i as int] {
                            let j = choose|j: int| 0 <= j < t1.len() && t1[j] == x;
                            assert(j < i);
                            assert(t0[j] == x);
                        }
                        if x == self.order()[i as int] {
                            assert(t1[i as int] == x);
                        }
                    }
                }
            }
            i = i + 1;
        }
        proof {
            assert(self.order().take(self.order().len() as int) =~= self.order());
            assert(out@.dom() =~= self@.dom()) by {
                assert forall|x: IpNet| out@.dom().contains(x) <==> self@.dom().contains(x) by {
                    if self@.dom().contains(x) {
                        assert(self.order().contains(x));
                    }
                }
            }
        }
        out
    }

    /// Every network with its resource, in the order of the walk.
    pub fn entries(&self) -> (r: Vec<(IpNet, &ResourceCidr)>)
        requires
            self.wf(),
        ensures
            r@.len() == self.order().len(),
            forall|i: int| 0 <= i < r@.len() ==> (#[trigger] r@[i]).0 == self.order()[i] && *r@[i].1 == self@[self.order()[i]],
    {
        table_iter(&self.inner)
    }
}

} // verus!
