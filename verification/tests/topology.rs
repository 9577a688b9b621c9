use mixnet_core::error::ClientCoreError;
use mixnet_core::topology::{
    setup_topology_provider, start_topology_refresher, CountryGroup, GatewayNode, MixNode,
    ProviderChoice, RefresherStart, TopologyAccessor, TopologyConfig, TopologyRefresher,
    TopologySnapshot, TopologyStructure,
};

fn node(layer: u8, n: u32) -> MixNode {
    MixNode { mix_id: layer as u32 * 100 + n, layer, identity: (layer as u128) * 1000 + n as u128, sphinx_key: n as u128 }
}

fn snapshot(layers: &[u32], gateways: usize, version: u64) -> TopologySnapshot {
    TopologySnapshot {
        mixes: layers.iter().enumerate().map(|(l, count)| (0..*count).map(|n| node(l as u8, n)).collect()).collect(),
        gateways: (0..gateways).map(|g| GatewayNode { identity: 9000 + g as u128, sphinx_key: g as u128 }).collect(),
        version,
    }
}

fn config(disable_refreshing: bool) -> TopologyConfig {
    TopologyConfig { topology_refresh_rate_ms: 30_000, disable_refreshing, topology_structure: TopologyStructure::NymApi }
}

#[test]
fn routable_means_no_empty_layer_and_a_gateway() {
    assert!(snapshot(&[4, 4, 4], 1, 1).routable());
    assert!(!snapshot(&[4, 0, 4], 1, 1).routable());
    assert!(!snapshot(&[4, 4, 0], 1, 1).routable());
    assert!(!snapshot(&[4, 4, 4], 0, 1).routable());
    assert!(snapshot(&[], 1, 1).routable());
    assert!(!snapshot(&[], 0, 1).routable());
}

#[test]
fn picks_name_the_route() {
    let view = snapshot(&[4, 4, 4], 1, 1);
    assert_eq!(view.route_from_picks(&vec![0, 3, 1]), Some(vec![node(0, 0), node(1, 3), node(2, 1)]));
    assert_eq!(view.route_from_picks(&vec![2]), Some(vec![node(0, 2)]));
    assert_eq!(view.route_from_picks(&vec![]), Some(vec![]));
    assert_eq!(view.route_from_picks(&vec![0, 4, 1]), None);
    assert_eq!(view.route_from_picks(&vec![0, 0, 0, 0]), None);
}

#[test]
fn a_random_route_takes_one_node_of_each_layer() {
    let view = snapshot(&[4, 2, 3], 1, 1);
    let mut first_hops = Vec::new();
    for _ in 0..200 {
        let route = view.random_route(3).unwrap();
        assert_eq!(route.len(), 3);
        for (layer, hop) in route.iter().enumerate() {
            assert_eq!(hop.layer as usize, layer);
            assert!(view.mixes[layer].contains(hop));
        }
        if !first_hops.contains(&route[0].mix_id) {
            first_hops.push(route[0].mix_id);
        }
    }
    // the draw is random: 200 draws from 4 nodes do not all give the same node
    assert!(first_hops.len() > 1);
    assert_eq!(view.random_route(2).unwrap().len(), 2);
    assert_eq!(view.random_route(4), None);
    assert_eq!(snapshot(&[4, 0, 3], 1, 1).random_route(3), None);
    assert_eq!(snapshot(&[4, 0, 3], 1, 1).random_route(1).unwrap().len(), 1);
}

#[test]
fn the_accessor_swaps_whole_snapshots() {
    let mut accessor = TopologyAccessor::new();
    assert!(accessor.current().is_none());
    assert!(!accessor.routable());
    let old = snapshot(&[4, 4, 4], 1, 1);
    let new = snapshot(&[2, 2, 2], 2, 2);
    accessor.update(Some(old.clone()));
    assert_eq!(accessor.current(), Some(&old));
    assert!(accessor.routable());
    accessor.update(Some(new.clone()));
    assert_eq!(accessor.current(), Some(&new));
    accessor.update(None);
    assert!(accessor.current().is_none());
    assert!(!accessor.routable());
}

#[test]
fn the_initial_refresh_must_be_routable() {
    let mut accessor = TopologyAccessor::new();
    assert_eq!(
        start_topology_refresher(Some(snapshot(&[4, 4, 4], 1, 1)), config(false), &mut accessor),
        Ok(RefresherStart::Spawned { refresh_rate_ms: 30_000 })
    );
    assert!(accessor.routable());
    let mut accessor = TopologyAccessor::new();
    assert_eq!(
        start_topology_refresher(Some(snapshot(&[4, 4, 4], 1, 1)), config(true), &mut accessor),
        Ok(RefresherStart::NotStarted)
    );
    let mut accessor = TopologyAccessor::new();
    assert_eq!(
        start_topology_refresher(Some(snapshot(&[4, 0, 4], 1, 1)), config(false), &mut accessor),
        Err(ClientCoreError::InsufficientNetworkTopology)
    );
    assert_eq!(accessor.current().unwrap().version, 1);
    let mut accessor = TopologyAccessor::new();
    assert_eq!(
        start_topology_refresher(None, config(false), &mut accessor),
        Err(ClientCoreError::InsufficientNetworkTopology)
    );
}

#[test]
fn a_refresh_publishes_what_was_fetched() {
    let refresher = TopologyRefresher::new(500);
    assert_eq!(refresher.refresh_rate_ms, 500);
    let mut accessor = TopologyAccessor::new();
    refresher.try_refresh(&mut accessor, Some(snapshot(&[1], 1, 7)));
    assert_eq!(accessor.current().unwrap().version, 7);
    assert_eq!(refresher.ensure_topology_is_routable(&accessor), Ok(()));
    refresher.try_refresh(&mut accessor, None);
    assert!(accessor.current().is_none());
    assert_eq!(refresher.ensure_topology_is_routable(&accessor), Err(ClientCoreError::InsufficientNetworkTopology));
}

#[test]
fn the_callers_provider_wins() {
    let urls = vec!["https://a.example".to_string()];
    assert_eq!(
        setup_topology_provider(Some(17u8), TopologyStructure::NymApi, urls.clone(), "1.2.3".to_string()),
        ProviderChoice::Custom(17u8)
    );
    assert_eq!(
        setup_topology_provider(None::<u8>, TopologyStructure::NymApi, urls.clone(), "1.2.3".to_string()),
        ProviderChoice::NymApi { nym_api_urls: urls.clone(), client_version: "1.2.3".to_string() }
    );
    assert_eq!(
        setup_topology_provider(
            None::<u8>,
            TopologyStructure::GeoAware(CountryGroup::Europe),
            urls.clone(),
            "1.2.3".to_string()
        ),
        ProviderChoice::GeoAware { nym_api_urls: urls, client_version: "1.2.3".to_string(), group: CountryGroup::Europe }
    );
}
