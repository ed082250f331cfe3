use cluster_state::cluster_manager::{ClusterManager, LoopStep, Metrics, UpdateEvent};
use cluster_state::cluster_update::{Cluster, ClusterUpdate, Locality, LocalityEndpoints};
use cluster_state::endpoint::{Address, Endpoint, Endpoints, IpAddress};

fn ep(port: u16) -> Endpoint {
    Endpoint::from_address(Address::v4(127, 0, 0, 1, port))
}

fn cluster_of(ports: &[u16]) -> Cluster {
    let mut c = Cluster::new();
    c.insert(None, LocalityEndpoints { endpoints: ports.iter().map(|p| ep(*p)).collect() });
    c
}

fn update_of(clusters: &[(&str, &[u16])]) -> ClusterUpdate {
    let mut u = ClusterUpdate::new();
    for (name, ports) in clusters {
        u.insert(name.to_string(), cluster_of(ports));
    }
    u
}

fn ports_of(cm: &ClusterManager) -> Option<Vec<u16>> {
    cm.get_all_endpoints()
        .map(|u| (0..u.size()).map(|i| u.get(i).address.port).collect())
}

#[test]
fn static_cluster_manager_metrics() {
    let cm = ClusterManager::fixed(Endpoints::new(vec![ep(80), ep(81)]).unwrap());
    let metrics = cm.metrics();
    assert_eq!(2, metrics.active_endpoints);
    assert_eq!(0, metrics.active_clusters);
}

#[test]
fn dynamic_cluster_manager_metrics() {
    let mut cm = ClusterManager::dynamic(&update_of(&[("cluster-1", &[80, 81])]));

    // Initialization metrics
    {
        let metrics = cm.metrics();
        assert_eq!(2, metrics.active_endpoints);
        assert_eq!(1, metrics.active_clusters);
    }

    let update = update_of(&[("cluster-1", &[80]), ("cluster-2", &[82, 83])]);
    assert_eq!(LoopStep::Continue, cm.handle_event(UpdateEvent::Update(update)));

    let metrics = cm.metrics();
    assert_eq!(3, metrics.active_endpoints);
    assert_eq!(2, metrics.active_clusters);
    assert_eq!(Some(vec![80, 82, 83]), ports_of(&cm));
}

#[test]
fn address_v4_packs_octets() {
    let a = Address::v4(127, 0, 0, 1, 80);
    assert_eq!(IpAddress::V4(0x7f00_0001), a.ip);
    assert_eq!(80, a.port);
}

#[test]
fn endpoints_reject_empty_list() {
    assert!(Endpoints::new(vec![]).is_err());
}

#[test]
fn endpoints_keep_count_and_order() {
    let e = Endpoints::new(vec![ep(1), ep(2), ep(3)]).unwrap();
    assert_eq!(3, e.len());
    assert_eq!(vec![ep(1), ep(2), ep(3)], e.as_slice().to_vec());
}

#[test]
fn fixed_manager_reports_its_endpoints() {
    let cm = ClusterManager::fixed(Endpoints::new(vec![ep(80), ep(81)]).unwrap());
    assert_eq!(Some(vec![80, 81]), ports_of(&cm));
}

#[test]
fn flatten_one_cluster_two_endpoints() {
    let u = update_of(&[("cluster-1", &[80, 81])]);
    let e = ClusterManager::create_endpoints_from_update(&u).unwrap();
    assert_eq!(vec![ep(80), ep(81)], e.as_slice().to_vec());
}

#[test]
fn flatten_no_clusters_is_none() {
    assert!(ClusterManager::create_endpoints_from_update(&ClusterUpdate::new()).is_none());
}

#[test]
fn flatten_clusters_without_endpoints_is_none() {
    let u = update_of(&[("a", &[]), ("b", &[])]);
    assert!(ClusterManager::create_endpoints_from_update(&u).is_none());
    let cm = ClusterManager::dynamic(&u);
    assert_eq!(Metrics { active_clusters: 2, active_endpoints: 0 }, cm.metrics());
    assert!(cm.get_all_endpoints().is_none());
}

#[test]
fn flatten_keeps_every_locality_in_order() {
    let mut c = Cluster::new();
    let zone = |z: &str| Locality { region: "r".to_string(), zone: z.to_string(), sub_zone: String::new() };
    c.insert(Some(zone("a")), LocalityEndpoints { endpoints: vec![ep(1), ep(2)] });
    c.insert(None, LocalityEndpoints { endpoints: vec![ep(3)] });
    c.insert(Some(zone("b")), LocalityEndpoints { endpoints: vec![ep(4)] });
    let mut u = ClusterUpdate::new();
    u.insert("x".to_string(), c);
    u.insert("y".to_string(), cluster_of(&[5, 6]));
    let e = ClusterManager::create_endpoints_from_update(&u).unwrap();
    assert_eq!(vec![ep(1), ep(2), ep(3), ep(4), ep(5), ep(6)], e.as_slice().to_vec());
}

#[test]
fn flatten_twice_gives_the_same_endpoints() {
    let u = update_of(&[("a", &[1]), ("b", &[2, 3])]);
    let first = ClusterManager::create_endpoints_from_update(&u).unwrap();
    let second = ClusterManager::create_endpoints_from_update(&u).unwrap();
    assert_eq!(first.as_slice().to_vec(), second.as_slice().to_vec());
}

#[test]
fn inserting_a_known_cluster_name_replaces_it() {
    let mut u = update_of(&[("a", &[1]), ("b", &[2])]);
    u.insert("a".to_string(), cluster_of(&[7, 8]));
    assert_eq!(2, u.len());
    let e = ClusterManager::create_endpoints_from_update(&u).unwrap();
    assert_eq!(vec![ep(7), ep(8), ep(2)], e.as_slice().to_vec());
}

#[test]
fn inserting_a_known_locality_replaces_it() {
    let mut c = cluster_of(&[1]);
    c.insert(None, LocalityEndpoints { endpoints: vec![ep(9)] });
    assert_eq!(1, c.localities().len());
    assert_eq!(vec![ep(9)], c.localities()[0].1.endpoints);
}

#[test]
fn update_to_empty_clears_snapshot() {
    let mut cm = ClusterManager::dynamic(&update_of(&[("a", &[1, 2])]));
    let step = cm.handle_event(UpdateEvent::Update(ClusterUpdate::new()));
    assert_eq!(LoopStep::Continue, step);
    assert!(cm.get_all_endpoints().is_none());
    assert_eq!(Metrics { active_clusters: 0, active_endpoints: 0 }, cm.metrics());
}

#[test]
fn shutdown_stops_the_loop_and_keeps_state() {
    let mut cm = ClusterManager::dynamic(&update_of(&[("a", &[1, 2])]));
    assert_eq!(LoopStep::ShutdownReceived, cm.handle_event(UpdateEvent::Shutdown));
    assert_eq!(Some(vec![1, 2]), ports_of(&cm));
    assert_eq!(Metrics { active_clusters: 1, active_endpoints: 2 }, cm.metrics());
}

#[test]
fn closed_channel_stops_the_loop_and_keeps_state() {
    let mut cm = ClusterManager::dynamic(&update_of(&[("a", &[1]), ("b", &[2])]));
    assert_eq!(LoopStep::SenderDropped, cm.handle_event(UpdateEvent::ChannelClosed));
    assert_eq!(Some(vec![1, 2]), ports_of(&cm));
    assert_eq!(Metrics { active_clusters: 2, active_endpoints: 2 }, cm.metrics());
}
