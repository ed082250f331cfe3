use vstd::prelude::*;

use crate::endpoint::Endpoint;

verus! {

/// Where a group of endpoints runs: a region, a zone within it and a sub-zone.
pub struct Locality {
    pub region: String,
    pub zone: String,
    pub sub_zone: String,
}

impl Clone for Locality {
    fn clone(&self) -> (r: Locality)
        ensures
            same_locality(Some(r), Some(*self)),
    {
        Locality {
            region: self.region.clone(),
            zone: self.zone.clone(),
            sub_zone: self.sub_zone.clone(),
        }
    }
}

/// Whether two locality keys name the same locality.
pub open spec fn same_locality(a: Option<Locality>, b: Option<Locality>) -> bool {
    match (a, b) {
        (None, None) => true,
        (Some(x), Some(y)) => x.region@ == y.region@ && x.zone@ == y.zone@ && x.sub_zone@
            == y.sub_zone@,
        _ => false,
    }
}

fn locality_key_eq(a: &Option<Locality>, b: &Option<Locality>) -> (r: bool)
    ensures
        r == same_locality(*a, *b),
{
    match (a, b) {
        (None, None) => true,
        (Some(x), Some(y)) => x.region == y.region && x.zone == y.zone && x.sub_zone == y.sub_zone,
        _ => false,
    }
}

/// The endpoints of one locality, in order.
pub struct LocalityEndpoints {
    pub endpoints: Vec<Endpoint>,
}

/// One cluster: its endpoint lists keyed by locality (at most one entry per
/// key), in insertion order.
pub struct Cluster {
    localities: Vec<(Option<Locality>, LocalityEndpoints)>,
}

/// Whether `s` holds an entry with locality key `k`.
pub open spec fn has_locality(s: Seq<(Option<Locality>, LocalityEndpoints)>, k: Option<Locality>) -> bool {
    exists|i: int| 0 <= i < s.len() && same_locality(#[trigger] s[i].0, k)
}

impl Cluster {
    #[verifier::type_invariant]
    spec fn keys_unique(self) -> bool {
        forall|i: int, j: int|
            0 <= i < j < self.localities@.len() ==> !same_locality(
                #[trigger] self.localities@[i].0,
                #[trigger] self.localities@[j].0,
            )
    }

    /// The locality entries in insertion order.
    pub closed spec fn entries(self) -> Seq<(Option<Locality>, LocalityEndpoints)> {
        self.localities@
    }

    /// A cluster with no localities.
    pub fn new() -> (r: Cluster)
        ensures
            r.entries().len() == 0,
    {
        Cluster { localities: Vec::new() }
    }

    /// Sets the endpoints of `locality`: an entry with the same key is
    /// replaced in place, otherwise the entry is added at the end.
    pub fn insert(&mut self, locality: Option<Locality>, endpoints: LocalityEndpoints)
        ensures
            has_locality(old(self).entries(), locality) ==> exists|i: int|
                0 <= i < old(self).entries().len() && same_locality(
                    old(self).entries()[i].0,
                    locality,
                ) && final(self).entries() == old(self).entries().update(i, (locality, endpoints)),
            !has_locality(old(self).entries(), locality) ==> final(self).entries() == old(
                self,
            ).entries().push((locality, endpoints)),
    {
        proof { use_type_invariant(&*self); }
        let mut v: Vec<(Option<Locality>, LocalityEndpoints)> = Vec::new();
        std::mem::swap(&mut v, &mut self.localities);
        let ghost before = v@;
        let mut i: usize = 0;
        while i < v.len()
            invariant
                v@ == before,
                before == old(self).entries(),
                forall|a: int, b: int|
                    0 <= a < b < before.len() ==> !same_locality(
                        #[trigger] before[a].0,
                        #[trigger] before[b].0,
                    ),
                i <= v@.len(),
                forall|j: int| 0 <= j < i ==> !same_locality(#[trigger] v@[j].0, locality),
            decreases v@.len() - i,
        {
            if locality_key_eq(&v[i].0, &locality) {
                v.set(i, (locality, endpoints));
                assert(same_locality(before[i as int].0, locality));
                assert forall|a: int, b: int| 0 <= a < b < v@.len() implies !same_locality(
                    #[trigger] v@[a].0, #[trigger] v@[b].0) by {
                    assert(!same_locality(before[a].0, before[b].0));
                }
                self.localities = v;
                return;
            }
            i = i + 1;
        }
        v.push((locality, endpoints));
        assert forall|a: int, b: int| 0 <= a < b < v@.len() implies !same_locality(
            #[trigger] v@[a].0, #[trigger] v@[b].0) by {
            if b < before.len() {
                assert(!same_locality(before[a].0, before[b].0));
            }
        }
        self.localities = v;
    }

    /// The locality entries in insertion order.
    pub fn localities(&self) -> (r: &Vec<(Option<Locality>, LocalityEndpoints)>)
        ensures
            r@ == self.entries(),
    {
        &self.localities
    }
}

/// What the control plane delivers: clusters keyed by name (at most one entry
/// per name), in insertion order.
pub struct ClusterUpdate {
    clusters: Vec<(String, Cluster)>,
}

/// Whether `s` holds a cluster named `name`.
pub open spec fn has_cluster(s: Seq<(String, Cluster)>, name: Seq<char>) -> bool {
    exists|i: int| 0 <= i < s.len() && (#[trigger] s[i].0)@ == name
}

impl ClusterUpdate {
    #[verifier::type_invariant]
    spec fn names_unique(self) -> bool {
        forall|i: int, j: int|
            0 <= i < j < self.clusters@.len() ==> (#[trigger] self.clusters@[i].0)@ != (
            #[trigger] self.clusters@[j].0)@
    }

    /// The cluster entries in insertion order.
    pub closed spec fn entries(self) -> Seq<(String, Cluster)> {
        self.clusters@
    }

    /// An update with no clusters.
    pub fn new() -> (r: ClusterUpdate)
        ensures
            r.entries().len() == 0,
    {
        ClusterUpdate { clusters: Vec::new() }
    }

    /// Sets the cluster named `name`: an entry with the same name is replaced
    /// in place, otherwise the entry is added at the end.
    pub fn insert(&mut self, name: String, cluster: Cluster)
        ensures
            has_cluster(old(self).entries(), name@) ==> exists|i: int|
                0 <= i < old(self).entries().len() && old(self).entries()[i].0@ == name@
                    && final(self).entries() == old(self).entries().update(i, (name, cluster)),
            !has_cluster(old(self).entries(), name@) ==> final(self).entries() == old(
                self,
            ).entries().push((name, cluster)),
    {
        proof { use_type_invariant(&*self); }
        let mut v: Vec<(String, Cluster)> = Vec::new();
        std::mem::swap(&mut v, &mut self.clusters);
        let ghost before = v@;
        let mut i: usize = 0;
        while i < v.len()
            invariant
                v@ == before,
                before == old(self).entries(),
                forall|a: int, b: int|
                    0 <= a < b < before.len() ==> (#[trigger] before[a].0)@ != (
                    #[trigger] before[b].0)@,
                i <= v@.len(),
                forall|j: int| 0 <= j < i ==> (#[trigger] v@[j].0)@ != name@,
            decreases v@.len() - i,
        {
            if v[i].0 == name {
                v.set(i, (name, cluster));
                assert(before[i as int].0@ == name@);
                assert forall|a: int, b: int| 0 <= a < b < v@.len() implies (#[trigger] v@[a].0)@
                    != (#[trigger] v@[b].0)@ by {
                    assert(before[a].0@ != before[b].0@);
                }
                self.clusters = v;
                return;
            }
            i = i + 1;
        }
        v.push((name, cluster));
        assert forall|a: int, b: int| 0 <= a < b < v@.len() implies (#[trigger] v@[a].0)@ != (
            #[trigger] v@[b].0)@ by {
            if b < before.len() {
                assert(before[a].0@ != before[b].0@);
            }
        }
        self.clusters = v;
    }

    /// The number of clusters.
    pub fn len(&self) -> (r: usize)
        ensures
            r == self.entries().len(),
    {
        self.clusters.len()
    }

    /// The cluster entries in insertion order.
    pub fn clusters(&self) -> (r: &Vec<(String, Cluster)>)
        ensures
            r@ == self.entries(),
    {
        &self.clusters
    }
}

/// The endpoints of a run of locality entries, concatenated in order.
pub open spec fn locality_endpoints(s: Seq<(Option<Locality>, LocalityEndpoints)>) -> Seq<Endpoint>
    decreases s.len(),
{
    if s.len() == 0 {
        Seq::empty()
    } else {
        locality_endpoints(s.drop_last()) + s.last().1.endpoints@
    }
}

/// The endpoints of a run of cluster entries, across every cluster and
/// locality, concatenated in order; names and localities are dropped.
pub open spec fn flattened(s: Seq<(String, Cluster)>) -> Seq<Endpoint>
    decreases s.len(),
{
    if s.len() == 0 {
        Seq::empty()
    } else {
        flattened(s.drop_last()) + locality_endpoints(s.last().1.entries())
    }
}

} // verus!
