use vibes::dashboard::format::{ago_label, status_color, StatusColor};
use vibes::dashboard::stats::{try_read_sample, RawStats};
use vibes::entities::edge::{Edge, EdgeProperties, EdgeType};
use vibes::entities::node::{ComputeComponent, Node, NodeProperties, NodeType, Position, Size};
use vibes::services::layout::LayoutService;

fn node(id: u128) -> Node {
    Node {
        id,
        node_type: NodeType::Compute(ComputeComponent::Worker),
        label: format!("n{id}"),
        position: Position { x_bits: 0f64.to_bits(), y_bits: 0f64.to_bits() },
        size: Size { width_bits: 180f64.to_bits(), height_bits: 48f64.to_bits() },
        properties: NodeProperties { config: "{}".to_string(), style: None },
        parent_id: None,
        provider_mappings: None,
    }
}

fn edge(id: u128, source: u128, target: u128) -> Edge {
    Edge {
        id,
        source_id: source,
        target_id: target,
        edge_type: EdgeType::Synchronous,
        label: None,
        properties: EdgeProperties {
            protocol: None,
            port: None,
            bidirectional: false,
            communication_pattern: None,
            style: None,
        },
    }
}

#[test]
fn chain_is_laid_out_left_to_right() {
    let nodes = vec![node(1), node(2), node(3)];
    let edges = vec![edge(10, 1, 2), edge(11, 2, 3)];
    let cells = LayoutService::grid_cells(&nodes, &edges);
    assert_eq!(cells, vec![(0, 0), (1, 0), (2, 0)]);
}

#[test]
fn unconnected_nodes_share_the_first_column() {
    let nodes = vec![node(1), node(2), node(3)];
    let cells = LayoutService::grid_cells(&nodes, &vec![]);
    assert_eq!(cells, vec![(0, 0), (0, 1), (0, 2)]);
}

#[test]
fn cycle_goes_after_the_last_layer() {
    // 1 -> 2 and a cycle 3 <-> 4 that nothing reaches.
    let nodes = vec![node(1), node(2), node(3), node(4)];
    let edges = vec![edge(10, 1, 2), edge(11, 3, 4), edge(12, 4, 3)];
    let cells = LayoutService::grid_cells(&nodes, &edges);
    assert_eq!(cells, vec![(0, 0), (1, 0), (2, 0), (2, 1)]);
}

#[test]
fn edges_to_unknown_nodes_are_ignored() {
    let nodes = vec![node(1), node(2)];
    let edges = vec![edge(10, 1, 99), edge(11, 98, 2)];
    let cells = LayoutService::grid_cells(&nodes, &edges);
    assert_eq!(cells, vec![(0, 0), (0, 1)]);
}

#[test]
fn diamond_takes_the_longest_path() {
    // 1 -> 2 -> 3 -> 4 and 1 -> 4: node 4 sits after 3.
    let nodes = vec![node(1), node(2), node(3), node(4)];
    let edges = vec![edge(10, 1, 2), edge(11, 2, 3), edge(12, 3, 4), edge(13, 1, 4)];
    let cells = LayoutService::grid_cells(&nodes, &edges);
    assert_eq!(cells, vec![(0, 0), (1, 0), (2, 0), (3, 0)]);
}

#[test]
fn status_colors() {
    assert_eq!(status_color("RUNNING"), StatusColor::Green);
    assert_eq!(status_color("Up 3 minutes (running)"), StatusColor::Green);
    assert_eq!(status_color("Exited (0)"), StatusColor::Red);
    assert_eq!(status_color("dead"), StatusColor::Red);
    assert_eq!(status_color("restarting"), StatusColor::Yellow);
}

#[test]
fn ago_labels() {
    assert_eq!(ago_label(0), "0s ago");
    assert_eq!(ago_label(59), "59s ago");
    assert_eq!(ago_label(60), "1m ago");
    assert_eq!(ago_label(180), "3m ago");
    assert_eq!(ago_label(90), "1m ago");
}

#[test]
fn sample_with_overflowing_totals_is_refused() {
    let raw = RawStats {
        cpu_total: 0,
        precpu_total: 0,
        system_cpu: None,
        presystem_cpu: None,
        online_cpus: Some(4),
        mem_usage: None,
        mem_cache: None,
        mem_limit: None,
        networks: Some(vec![(u64::MAX, 1), (1, 1)]),
        block_io: None,
    };
    assert!(try_read_sample(&raw).is_none());
    let fine = RawStats { networks: Some(vec![(u64::MAX - 1, 1), (1, 1)]), ..raw };
    let r = try_read_sample(&fine).unwrap();
    assert_eq!((r.net_rx, r.net_tx), (u64::MAX, 2));
    assert_eq!(r.num_cpus, 4);
}
