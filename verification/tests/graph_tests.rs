use satsconnect_core::network_graph::ChannelUpdate;
use satsconnect_core::network_graph::NetworkChannelInfo;
use satsconnect_core::network_graph::NetworkGraph;
use satsconnect_core::network_graph::NodeInfo;
use satsconnect_core::CoreError;

fn node(id: &str) -> NodeInfo {
    NodeInfo {
        node_id: id.to_string(),
        alias: None,
        color: None,
        last_seen: 0,
        features: vec![],
        addresses: vec![],
    }
}

fn edge(id: &str, a: &str, b: &str, enabled: bool) -> NetworkChannelInfo {
    NetworkChannelInfo {
        channel_id: id.to_string(),
        node1: a.to_string(),
        node2: b.to_string(),
        capacity_sat: 1000000,
        is_enabled: enabled,
        last_update: 0,
        base_fee_msat: 1000,
        fee_rate_ppm: 1,
    }
}

#[test]
fn test_network_graph_creation() {
    let graph = NetworkGraph::new();
    assert_eq!(graph.get_all_nodes().len(), 0);
    assert_eq!(graph.get_all_channels().len(), 0);
}

#[test]
fn test_add_node_and_channel() {
    let mut graph = NetworkGraph::new();

    let node1 = NodeInfo {
        node_id: "node1".to_string(),
        alias: Some("Alice".to_string()),
        color: Some("#FF0000".to_string()),
        last_seen: 1234567890,
        features: vec![1, 2, 3],
        addresses: vec!["1.2.3.4:9735".to_string()],
    };

    let node2 = NodeInfo {
        node_id: "node2".to_string(),
        alias: Some("Bob".to_string()),
        color: Some("#00FF00".to_string()),
        last_seen: 1234567890,
        features: vec![1, 2, 3],
        addresses: vec!["5.6.7.8:9735".to_string()],
    };

    graph.add_node(node1);
    graph.add_node(node2);

    let channel = NetworkChannelInfo {
        channel_id: "channel1".to_string(),
        node1: "node1".to_string(),
        node2: "node2".to_string(),
        capacity_sat: 1000000,
        is_enabled: true,
        last_update: 1234567890,
        base_fee_msat: 1000,
        fee_rate_ppm: 1,
    };

    graph.add_channel(channel);

    assert_eq!(graph.get_all_nodes().len(), 2);
    assert_eq!(graph.get_all_channels().len(), 1);
    assert_eq!(graph.get_node_channels("node1").len(), 1);
}

#[test]
fn test_find_shortest_path() {
    let mut graph = NetworkGraph::new();

    graph.add_node(node("A"));
    graph.add_node(node("B"));
    graph.add_node(node("C"));

    graph.add_channel(edge("AB", "A", "B", true));
    graph.add_channel(edge("BC", "B", "C", true));

    let path = graph.find_shortest_path("A", "C");
    assert!(path.is_some());
    assert_eq!(path.unwrap(), vec!["A", "B", "C"]);
}

#[test]
fn test_find_shortest_path_to_self() {
    let graph = NetworkGraph::new();
    let path = graph.find_shortest_path("A", "A");
    assert_eq!(path, Some(vec!["A".to_string()]));
}

#[test]
fn test_find_shortest_path_unreachable() {
    let mut graph = NetworkGraph::new();
    graph.add_channel(edge("AB", "A", "B", true));
    graph.add_channel(edge("CD", "C", "D", true));
    assert_eq!(graph.find_shortest_path("A", "D"), None);
}

#[test]
fn test_find_shortest_path_skips_disabled_edges() {
    let mut graph = NetworkGraph::new();
    graph.add_channel(edge("AB", "A", "B", true));
    graph.add_channel(edge("BC", "B", "C", false));
    assert_eq!(graph.find_shortest_path("A", "C"), None);
    assert!(graph.find_shortest_path("A", "B").is_some());
}

#[test]
fn test_find_shortest_path_prefers_fewer_hops() {
    let mut graph = NetworkGraph::new();
    graph.add_channel(edge("AB", "A", "B", true));
    graph.add_channel(edge("BC", "B", "C", true));
    graph.add_channel(edge("AC", "A", "C", true));
    let path = graph.find_shortest_path("A", "C").unwrap();
    assert_eq!(path.len(), 2);
    assert_eq!(path[0], "A");
    assert_eq!(path[1], "C");
}

#[test]
fn test_update_channel_unknown_edge() {
    let mut graph = NetworkGraph::new();
    let updates = ChannelUpdate { is_enabled: Some(false), base_fee_msat: None, fee_rate_ppm: None };
    assert_eq!(graph.update_channel("missing", updates, 7), Err(CoreError::NotFound));
}

#[test]
fn test_update_channel_partial() {
    let mut graph = NetworkGraph::new();
    graph.add_channel(edge("AB", "A", "B", true));
    let updates = ChannelUpdate { is_enabled: Some(false), base_fee_msat: Some(500), fee_rate_ppm: None };
    graph.update_channel("AB", updates, 99).unwrap();
    let ch = graph.get_channel("AB").unwrap();
    assert!(!ch.is_enabled);
    assert_eq!(ch.base_fee_msat, 500);
    assert_eq!(ch.fee_rate_ppm, 1);
    assert_eq!(ch.last_update, 99);
}

#[test]
fn test_network_stats() {
    let mut graph = NetworkGraph::new();
    graph.add_node(node("A"));
    graph.add_channel(edge("AB", "A", "B", true));
    graph.add_channel(edge("BC", "B", "C", false));
    let stats = graph.get_network_stats();
    assert_eq!(stats.total_nodes, 1);
    assert_eq!(stats.total_channels, 2);
    assert_eq!(stats.enabled_channels, 1);
    assert_eq!(stats.total_capacity_sat, 2000000);
}

#[test]
fn test_add_node_upserts_by_id() {
    let mut graph = NetworkGraph::new();
    graph.add_node(node("A"));
    let mut renamed = node("A");
    renamed.alias = Some("Alice".to_string());
    graph.add_node(renamed);
    assert_eq!(graph.get_all_nodes().len(), 1);
    assert_eq!(graph.get_node("A").unwrap().alias, Some("Alice".to_string()));
}
