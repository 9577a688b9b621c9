//! The network view: snapshots, the accessor that holds the current one,
//! the refresher's decisions and route selection.

use vstd::prelude::*;
use crate::error::ClientCoreError;
use crate::randomness::random_below;

verus! {

/// A mix node as the client needs it to build a route.
#[derive(Debug, Clone, Copy, PartialEq, Eq, Structural)]
pub struct MixNode {
    pub mix_id: u32,
    pub layer: u8,
    pub identity: u128,
    pub sphinx_key: u128,
}

/// An entry or exit gateway.
#[derive(Debug, Clone, Copy, PartialEq, Eq, Structural)]
pub struct GatewayNode {
    pub identity: u128,
    pub sphinx_key: u128,
}

/// An immutable record of the network: mix nodes per layer, gateways, version tag.
#[derive(Debug, Clone, PartialEq, Eq)]
pub struct TopologySnapshot {
    pub mixes: Vec<Vec<MixNode>>,
    pub gateways: Vec<GatewayNode>,
    pub version: u64,
}

/// The mathematical content of a snapshot.
pub struct SnapshotView {
    pub mixes: Seq<Seq<MixNode>>,
    pub gateways: Seq<GatewayNode>,
    pub version: u64,
}

impl SnapshotView {
    /// A snapshot can route a packet when no mix layer is empty and a gateway exists.
    pub open spec fn routable(self) -> bool {
        &&& self.gateways.len() > 0
        &&& forall|layer: int| 0 <= layer < self.mixes.len()
            ==> (#[trigger] self.mixes[layer]).len() > 0
    }

    /// `route` visits layers `0..route.len()` in order, one node of each.
    pub open spec fn is_route(self, route: Seq<MixNode>) -> bool {
        &&& route.len() <= self.mixes.len()
        &&& forall|hop: int| 0 <= hop < route.len()
            ==> self.mixes[hop].contains(#[trigger] route[hop])
    }

    /// The route that takes node `picks[hop]` of layer `hop`.
    pub open spec fn route_by_picks(self, picks: Seq<usize>) -> Seq<MixNode> {
        Seq::new(picks.len(), |hop: int| self.mixes[hop][picks[hop] as int])
    }

    /// Every pick names an existing node of its layer.
    pub open spec fn picks_in_range(self, picks: Seq<usize>) -> bool {
        &&& picks.len() <= self.mixes.len()
        &&& forall|hop: int| 0 <= hop < picks.len()
            ==> (#[trigger] picks[hop]) < self.mixes[hop].len()
    }
}

impl View for TopologySnapshot {
    type V = SnapshotView;

    open spec fn view(&self) -> SnapshotView {
        SnapshotView {
            mixes: Seq::new(self.mixes@.len(), |layer: int| self.mixes@[layer]@),
            gateways: self.gateways@,
            version: self.version,
        }
    }
}

impl TopologySnapshot {
    /// Decides whether packets can be routed through this snapshot.
    pub fn routable(&self) -> (ok: bool)
        ensures
            ok == self@.routable(),
    {
        if self.gateways.len() == 0 {
            return false;
        }
        let mut layer: usize = 0;
        while layer < self.mixes.len()
            invariant
                layer <= self.mixes.len(),
                forall|l: int| 0 <= l < layer ==> (#[trigger] self@.mixes[l]).len() > 0,
            decreases self.mixes.len() - layer,
        {
            if self.mixes[layer].len() == 0 {
                assert(self@.mixes[layer as int].len() == 0);
                return false;
            }
            layer += 1;
        }
        true
    }

    /// Builds the route that the given picks name, one pick per hop.
    ///
    /// Returns `None` exactly when a pick is out of range or there are more picks than layers.
    pub fn route_from_picks(&self, picks: &Vec<usize>) -> (route: Option<Vec<MixNode>>)
        ensures
            route is Some <==> self@.picks_in_range(picks@),
            route is Some ==> route.unwrap()@ == self@.route_by_picks(picks@),
            route is Some ==> self@.is_route(route.unwrap()@),
    {
        if picks.len() > self.mixes.len() {
            return None;
        }
        let mut route: Vec<MixNode> = Vec::new();
        let mut hop: usize = 0;
        while hop < picks.len()
            invariant
                hop <= picks.len(),
                picks.len() <= self.mixes.len(),
                route@.len() == hop,
                forall|h: int| 0 <= h < hop ==> (#[trigger] picks@[h]) < self@.mixes[h].len(),
                forall|h: int| 0 <= h < hop ==> #[trigger] route@[h]
                    == self@.mixes[h][picks@[h] as int],
            decreases picks.len() - hop,
        {
            let pick = picks[hop];
            if pick >= self.mixes[hop].len() {
                assert(!(picks@[hop as int] < self@.mixes[hop as int].len()));
                return None;
            }
            route.push(self.mixes[hop][pick]);
            hop += 1;
        }
        assert(route@ =~= self@.route_by_picks(picks@));
        assert forall|h: int| 0 <= h < route@.len() implies self@.mixes[h].contains(
            #[trigger] route@[h],
        ) by {
            assert(self@.mixes[h][picks@[h] as int] == route@[h]);
        }
        Some(route)
    }

    /// Chooses a route of `hops` nodes, one drawn at random from each of the first `hops` layers.
    ///
    /// Returns `None` exactly when there are fewer than `hops` layers or one of them is empty.
    pub fn random_route(&self, hops: usize) -> (route: Option<Vec<MixNode>>)
        ensures
            route is Some <==> (hops <= self@.mixes.len() && forall|layer: int|
                0 <= layer < hops ==> (#[trigger] self@.mixes[layer]).len() > 0),
            route is Some ==> route.unwrap()@.len() == hops && self@.is_route(route.unwrap()@),
    {
        if hops > self.mixes.len() {
            return None;
        }
        let mut picks: Vec<usize> = Vec::new();
        let mut layer: usize = 0;
        while layer < hops
            invariant
                layer <= hops,
                hops <= self.mixes.len(),
                picks@.len() == layer,
                forall|h: int| 0 <= h < layer ==> (#[trigger] picks@[h]) < self@.mixes[h].len(),
            decreases hops - layer,
        {
            let size = self.mixes[layer].len();
            if size == 0 {
                assert(self@.mixes[layer as int].len() == 0);
                return None;
            }
            let pick = random_below(size);
            picks.push(pick);
            layer += 1;
        }
        assert(self@.picks_in_range(picks@));
        assert forall|l: int| 0 <= l < hops implies (#[trigger] self@.mixes[l]).len() > 0 by {
            assert(picks@[l] < self@.mixes[l].len());
        }
        self.route_from_picks(&picks)
    }
}

/// How the topology provider selects nodes.
#[derive(Debug, Clone, Copy, PartialEq, Eq, Structural)]
pub enum TopologyStructure {
    /// All nodes that the directory lists.
    NymApi,
    /// The subset of nodes that belongs to a geographical group.
    GeoAware(CountryGroup),
}

/// Geographical groups that a geo-aware provider can select.
#[derive(Debug, Clone, Copy, PartialEq, Eq, Structural)]
pub enum CountryGroup {
    Europe,
    NorthAmerica,
    SouthAmerica,
    Oceania,
    Asia,
    Africa,
    Unknown,
}

/// The provider that the refresher asks for snapshots.
#[derive(Debug, Clone, PartialEq, Eq)]
pub enum ProviderChoice<P> {
    /// A provider supplied by the caller.
    Custom(P),
    /// The directory, queried at the given endpoints.
    NymApi { nym_api_urls: Vec<String>, client_version: String },
    /// The directory, restricted to one geographical group.
    GeoAware { nym_api_urls: Vec<String>, client_version: String, group: CountryGroup },
}

/// Picks the topology provider: the caller's own where one was given,
/// otherwise the one that the configuration names.
pub fn setup_topology_provider<P>(
    custom_provider: Option<P>,
    provider_from_config: TopologyStructure,
    nym_api_urls: Vec<String>,
    client_version: String,
) -> (choice: ProviderChoice<P>)
    ensures
        custom_provider is Some ==> choice == ProviderChoice::Custom(custom_provider.unwrap()),
        custom_provider is None && provider_from_config is NymApi ==> choice == (
        ProviderChoice::<P>::NymApi { nym_api_urls, client_version }),
        custom_provider is None && provider_from_config is GeoAware ==> choice == (
        ProviderChoice::<P>::GeoAware {
            nym_api_urls,
            client_version,
            group: provider_from_config->GeoAware_0,
        }),
{
    match custom_provider {
        Some(provider) => ProviderChoice::Custom(provider),
        None => match provider_from_config {
            TopologyStructure::NymApi => ProviderChoice::NymApi { nym_api_urls, client_version },
            TopologyStructure::GeoAware(group) => ProviderChoice::GeoAware {
                nym_api_urls,
                client_version,
                group,
            },
        },
    }
}

/// Holds the current snapshot. A writer replaces it whole; a reader gets
/// the snapshot that was current when it asked.
#[derive(Debug, Clone)]
pub struct TopologyAccessor {
    current: Option<TopologySnapshot>,
}

impl View for TopologyAccessor {
    type V = Option<SnapshotView>;

    closed spec fn view(&self) -> Option<SnapshotView> {
        match self.current {
            Some(snapshot) => Some(snapshot@),
            None => None,
        }
    }
}

impl TopologyAccessor {
    /// An accessor that holds no snapshot yet.
    pub fn new() -> (accessor: TopologyAccessor)
        ensures
            accessor@ is None,
    {
        TopologyAccessor { current: None }
    }

    /// The snapshot that is current now.
    pub fn current(&self) -> (snapshot: Option<&TopologySnapshot>)
        ensures
            snapshot is Some <==> self@ is Some,
            snapshot is Some ==> snapshot.unwrap()@ == self@.unwrap(),
    {
        self.current.as_ref()
    }

    /// True when a snapshot is held and it can route a packet.
    pub fn routable(&self) -> (ok: bool)
        ensures
            ok <==> (self@ is Some && self@.unwrap().routable()),
    {
        match &self.current {
            Some(snapshot) => snapshot.routable(),
            None => false,
        }
    }

    /// Replaces the current snapshot by `snapshot`, all of it at once.
    pub fn update(&mut self, snapshot: Option<TopologySnapshot>)
        ensures
            snapshot is Some ==> final(self)@ == Some(snapshot.unwrap()@),
            snapshot is None ==> final(self)@ is None,
    {
        self.current = snapshot;
    }
}

/// The topology settings that the refresher reads.
#[derive(Debug, Clone, Copy, PartialEq, Eq, Structural)]
pub struct TopologyConfig {
    /// Milliseconds between two refreshes.
    pub topology_refresh_rate_ms: u64,
    /// When set, only the initial snapshot is ever used.
    pub disable_refreshing: bool,
    pub topology_structure: TopologyStructure,
}

/// What becomes of the refresher task once the initial snapshot is in place.
#[derive(Debug, Clone, Copy, PartialEq, Eq, Structural)]
pub enum RefresherStart {
    /// The refresher runs and wakes every `refresh_rate_ms`.
    Spawned { refresh_rate_ms: u64 },
    /// Refreshing is disabled: the task is marked as successfully finished.
    NotStarted,
}

/// Periodically publishes fresh snapshots.
#[derive(Debug, Clone, Copy, PartialEq, Eq, Structural)]
pub struct TopologyRefresher {
    pub refresh_rate_ms: u64,
}

impl TopologyRefresher {
    pub fn new(refresh_rate_ms: u64) -> (refresher: TopologyRefresher)
        ensures
            refresher.refresh_rate_ms == refresh_rate_ms,
    {
        TopologyRefresher { refresh_rate_ms }
    }

    /// Publishes what the provider returned; a failed request leaves no snapshot.
    pub fn try_refresh(&self, accessor: &mut TopologyAccessor, fetched: Option<TopologySnapshot>)
        ensures
            fetched is Some ==> final(accessor)@ == Some(fetched.unwrap()@),
            fetched is None ==> final(accessor)@ is None,
    {
        accessor.update(fetched);
    }

    /// Fails with `InsufficientNetworkTopology` unless the current snapshot is routable.
    pub fn ensure_topology_is_routable(&self, accessor: &TopologyAccessor) -> (res: Result<
        (),
        ClientCoreError,
    >)
        ensures
            res is Ok <==> (accessor@ is Some && accessor@.unwrap().routable()),
            res is Err ==> res->Err_0 == ClientCoreError::InsufficientNetworkTopology,
    {
        if accessor.routable() {
            Ok(())
        } else {
            Err(ClientCoreError::InsufficientNetworkTopology)
        }
    }
}

/// Puts the initial snapshot in place and decides whether the refresher task runs.
///
/// `fetched` is what the provider returned for the initial, synchronous request.
pub fn start_topology_refresher(
    fetched: Option<TopologySnapshot>,
    topology_config: TopologyConfig,
    accessor: &mut TopologyAccessor,
) -> (res: Result<RefresherStart, ClientCoreError>)
    ensures
        fetched is Some ==> final(accessor)@ == Some(fetched.unwrap()@),
        fetched is None ==> final(accessor)@ is None,
        res is Ok <==> (fetched is Some && fetched.unwrap()@.routable()),
        res is Err ==> res->Err_0 == ClientCoreError::InsufficientNetworkTopology,
        res is Ok && topology_config.disable_refreshing ==> res->Ok_0 == RefresherStart::NotStarted,
        res is Ok && !topology_config.disable_refreshing ==> res->Ok_0 == (RefresherStart::Spawned {
            refresh_rate_ms: topology_config.topology_refresh_rate_ms,
        }),
{
    let refresher = TopologyRefresher::new(topology_config.topology_refresh_rate_ms);
    refresher.try_refresh(accessor, fetched);
    match refresher.ensure_topology_is_routable(accessor) {
        Err(err) => Err(err),
        Ok(()) => {
            if topology_config.disable_refreshing {
                Ok(RefresherStart::NotStarted)
            } else {
                Ok(RefresherStart::Spawned { refresh_rate_ms: refresher.refresh_rate_ms })
            }
        },
    }
}

} // verus!
