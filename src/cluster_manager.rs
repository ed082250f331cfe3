use vstd::prelude::*;

use crate::cluster_update::{flattened, locality_endpoints, ClusterUpdate};
use crate::endpoint::{Endpoint, Endpoints, UpstreamEndpoints};

verus! {

/// The value a gauge reports for a count: the count itself, capped at the
/// largest `i64`.
pub open spec fn gauge_value(n: nat) -> i64 {
    if n <= i64::MAX {
        n as i64
    } else {
        i64::MAX
    }
}

fn to_gauge(n: usize) -> (r: i64)
    ensures
        r == gauge_value(n as nat),
{
    if (n as u64) <= (i64::MAX as u64) {
        n as i64
    } else {
        i64::MAX
    }
}

/// The current values of the two gauges a cluster manager reports.
#[derive(Clone, Copy, Debug, PartialEq, Eq, Structural)]
pub struct Metrics {
    pub active_clusters: i64,
    pub active_endpoints: i64,
}

/// The gauges that describe `update`: its number of clusters, and the number
/// of endpoints it flattens to.
pub open spec fn update_metrics(update: ClusterUpdate) -> Metrics {
    Metrics {
        active_clusters: gauge_value(update.entries().len()),
        active_endpoints: gauge_value(flattened(update.entries()).len()),
    }
}

/// The snapshot that flattening `s` gives: `None` for no endpoints.
pub open spec fn snapshot_of(s: Seq<Endpoint>) -> Option<Seq<Endpoint>> {
    if s.len() == 0 {
        None
    } else {
        Some(s)
    }
}

/// The endpoint sequence held by an optional snapshot.
pub open spec fn endpoints_view(e: Option<Endpoints>) -> Option<Seq<Endpoint>> {
    match e {
        Some(e) => Some(e@),
        None => None,
    }
}

/// Whether `r` is what flattening `update` yields.
pub open spec fn flattens_to(update: ClusterUpdate, r: Option<Endpoints>) -> bool {
    endpoints_view(r) == snapshot_of(flattened(update.entries()))
}

/// The error of setting up a cluster manager, with a message saying why.
#[derive(Debug)]
pub enum InitializeError {
    Message(String),
}

/// What reaches the update-ingestion loop.
pub enum UpdateEvent {
    /// A cluster update arrived on the channel.
    Update(ClusterUpdate),
    /// The update channel's sender was dropped.
    ChannelClosed,
    /// The shutdown signal fired.
    Shutdown,
}

/// What the update-ingestion loop does after an event.
#[derive(Clone, Copy, Debug, PartialEq, Eq, Structural)]
pub enum LoopStep {
    /// Wait for the next event.
    Continue,
    /// Stop: the update channel's sender is gone.
    SenderDropped,
    /// Stop: shutdown was signalled.
    ShutdownReceived,
}

/// What a manager holds, as the loop sees it: its gauges and its snapshot.
pub struct ManagerState {
    pub metrics: Metrics,
    pub snapshot: Option<Seq<Endpoint>>,
}

/// The state after `event`, and what the loop does next.
pub open spec fn step(s: ManagerState, event: UpdateEvent) -> (ManagerState, LoopStep) {
    match event {
        UpdateEvent::Update(u) => (
            ManagerState { metrics: update_metrics(u), snapshot: snapshot_of(flattened(u.entries())) },
            LoopStep::Continue,
        ),
        UpdateEvent::ChannelClosed => (s, LoopStep::SenderDropped),
        UpdateEvent::Shutdown => (s, LoopStep::ShutdownReceived),
    }
}

/// The state after the loop has taken `events` in order, up to and including
/// the first one that stops it.
pub open spec fn run(s: ManagerState, events: Seq<UpdateEvent>) -> ManagerState
    decreases events.len(),
{
    if events.len() == 0 {
        s
    } else {
        let (next, what) = step(s, events[0]);
        if what == LoopStep::Continue {
            run(next, events.drop_first())
        } else {
            next
        }
    }
}

/// Once shutdown is signalled, nothing that follows changes the manager.
pub proof fn shutdown_ends_updates(s: ManagerState, later: Seq<UpdateEvent>)
    ensures
        run(s, seq![UpdateEvent::Shutdown] + later) == s,
{
    assert((seq![UpdateEvent::Shutdown] + later)[0] == UpdateEvent::Shutdown);
}

/// Once the update sender is gone, the manager keeps the last state it had.
pub proof fn closed_channel_ends_updates(s: ManagerState, later: Seq<UpdateEvent>)
    ensures
        run(s, seq![UpdateEvent::ChannelClosed] + later) == s,
{
    assert((seq![UpdateEvent::ChannelClosed] + later)[0] == UpdateEvent::ChannelClosed);
}

/// Flattening is a function of the update alone: two flattenings of the same
/// update give the same endpoints.
pub proof fn flatten_is_deterministic(update: ClusterUpdate, a: Option<Endpoints>, b: Option<Endpoints>)
    requires
        flattens_to(update, a),
        flattens_to(update, b),
    ensures
        endpoints_view(a) == endpoints_view(b),
{
}

/// The state of one cluster manager: its gauges and its current endpoint
/// snapshot (`None` when no endpoints are known).
pub struct ClusterManager {
    metrics: Metrics,
    endpoints: Option<Endpoints>,
}

impl ClusterManager {
    pub closed spec fn spec_metrics(&self) -> Metrics {
        self.metrics
    }

    /// The endpoint sequence of the current snapshot.
    pub closed spec fn snapshot(&self) -> Option<Seq<Endpoint>> {
        endpoints_view(self.endpoints)
    }

    /// The manager's state as the update loop sees it.
    pub open spec fn state(&self) -> ManagerState {
        ManagerState { metrics: self.spec_metrics(), snapshot: self.snapshot() }
    }

    /// Takes one event of the update loop: an update sets the gauges from it
    /// and replaces the snapshot with its flattening; a closed channel or a
    /// shutdown leaves the manager as it is and stops the loop.
    pub fn handle_event(&mut self, event: UpdateEvent) -> (r: LoopStep)
        ensures
            (final(self).state(), r) == step(old(self).state(), event),
    {
        match event {
            UpdateEvent::Update(update) => {
                ClusterManager::update_cluster_update_metrics(&mut self.metrics, &update);
                let endpoints = ClusterManager::create_endpoints_from_update(&update);
                self.update(endpoints);
                LoopStep::Continue
            },
            UpdateEvent::ChannelClosed => LoopStep::SenderDropped,
            UpdateEvent::Shutdown => LoopStep::ShutdownReceived,
        }
    }

    fn new(metrics: Metrics, endpoints: Option<Endpoints>) -> (r: ClusterManager)
        ensures
            r.spec_metrics() == metrics,
            r.snapshot() == endpoints_view(endpoints),
    {
        ClusterManager { metrics, endpoints }
    }

    /// Replaces the snapshot; the gauges are left as they are.
    fn update(&mut self, endpoints: Option<Endpoints>)
        ensures
            final(self).snapshot() == endpoints_view(endpoints),
            final(self).spec_metrics() == old(self).spec_metrics(),
    {
        self.endpoints = endpoints;
    }

    /// A view of the current snapshot, or `None` when no endpoints are known.
    pub fn get_all_endpoints(&self) -> (r: Option<UpstreamEndpoints>)
        ensures
            match r {
                Some(u) => self.snapshot() == Some(u@),
                None => self.snapshot() is None,
            },
    {
        match &self.endpoints {
            Some(e) => Some(UpstreamEndpoints::from_endpoints(e.clone())),
            None => None,
        }
    }

    /// The current gauge values.
    pub fn metrics(&self) -> (r: Metrics)
        ensures
            r == self.spec_metrics(),
    {
        self.metrics
    }

    /// A manager whose snapshot is `endpoints` for good: the endpoint gauge
    /// holds their count and the cluster gauge stays at zero.
    pub fn fixed(endpoints: Endpoints) -> (r: ClusterManager)
        ensures
            r.snapshot() == Some(endpoints@),
            r.spec_metrics() == (Metrics {
                active_clusters: 0,
                active_endpoints: gauge_value(endpoints@.len()),
            }),
    {
        let count = to_gauge(endpoints.len());
        ClusterManager::new(Metrics { active_clusters: 0, active_endpoints: count }, Some(endpoints))
    }

    /// A manager seeded from `update`: its snapshot is the update flattened,
    /// and its gauges describe the update.
    pub fn dynamic(update: &ClusterUpdate) -> (r: ClusterManager)
        ensures
            r.snapshot() == snapshot_of(flattened(update.entries())),
            r.spec_metrics() == update_metrics(*update),
    {
        let mut metrics = Metrics { active_clusters: 0, active_endpoints: 0 };
        ClusterManager::update_cluster_update_metrics(&mut metrics, update);
        ClusterManager::new(metrics, ClusterManager::create_endpoints_from_update(update))
    }

    /// Sets both gauges from `update`.
    pub fn update_cluster_update_metrics(metrics: &mut Metrics, update: &ClusterUpdate)
        ensures
            *final(metrics) == update_metrics(*update),
    {
        metrics.active_clusters = to_gauge(update.len());
        metrics.active_endpoints = match ClusterManager::create_endpoints_from_update(update) {
            Some(e) => to_gauge(e.len()),
            None => 0,
        };
    }

    /// Flattens `update` into one endpoint sequence, across every cluster and
    /// locality in order; `None` when that sequence is empty.
    pub fn create_endpoints_from_update(update: &ClusterUpdate) -> (r: Option<Endpoints>)
        ensures
            flattens_to(*update, r),
    {
        let clusters = update.clusters();
        let mut all: Vec<Endpoint> = Vec::new();
        let mut i: usize = 0;
        while i < clusters.len()
            invariant
                i <= clusters@.len(),
                all@ == flattened(clusters@.subrange(0, i as int)),
            decreases clusters@.len() - i,
        {
            let localities = clusters[i].1.localities();
            let ghost prefix = all@;
            let mut j: usize = 0;
            while j < localities.len()
                invariant
                    j <= localities@.len(),
                    all@ == prefix + locality_endpoints(localities@.subrange(0, j as int)),
                decreases localities@.len() - j,
            {
                let endpoints = &localities[j].1.endpoints;
                let ghost before = all@;
                let mut k: usize = 0;
                while k < endpoints.len()
                    invariant
                        k <= endpoints@.len(),
                        all@ == before + endpoints@.subrange(0, k as int),
                    decreases endpoints@.len() - k,
                {
                    all.push(endpoints[k]);
                    proof {
                        assert(endpoints@.subrange(0, k + 1) =~= endpoints@.subrange(0, k as int).push(
                            endpoints@[k as int]));
                    }
                    k = k + 1;
                }
                proof {
                    let s = localities@.subrange(0, j + 1);
                    assert(s.drop_last() =~= localities@.subrange(0, j as int));
                    assert(endpoints@.subrange(0, k as int) =~= endpoints@);
                    assert(all@ =~= prefix + locality_endpoints(s));
                }
                j = j + 1;
            }
            proof {
                let s = clusters@.subrange(0, i + 1);
                assert(s.drop_last() =~= clusters@.subrange(0, i as int));
                assert(localities@.subrange(0, j as int) =~= localities@);
            }
            i = i + 1;
        }
        proof {
            assert(clusters@.subrange(0, i as int) =~= clusters@);
        }
        match Endpoints::new(all) {
            Ok(e) => Some(e),
            Err(_) => None,
        }
    }
}

} // verus!
