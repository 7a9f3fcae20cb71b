use shiloh::node_graph::{GraphLink, NodeGraph, NodeKind};
use shiloh::scripting::VisualNodeKind;

fn demo() -> NodeGraph {
    let mut g = NodeGraph::new();
    let a = g.add_node(NodeKind::Event, "On Begin Play", [40.0f32.to_bits(), 80.0f32.to_bits()], &[], &["Exec"]);
    let b = g.add_node(NodeKind::Query, "Get Player", [0, 0], &["Exec"], &["Exec", "Entity"]);
    let c = g.add_node(NodeKind::Action, "Play Sound", [0, 0], &["Exec", "Sound"], &["Exec"]);
    g.connect(a, 0, b, 0);
    g.connect(b, 0, c, 0);
    g
}

#[test]
fn add_node_counts_ids() {
    let g = demo();
    let ids: Vec<u64> = g.nodes.iter().map(|n| n.id).collect();
    assert_eq!(ids, vec![0, 1, 2]);
    assert_eq!(g.next_id, 3);
    assert_eq!(g.nodes[1].outputs, vec!["Exec", "Entity"]);
}

#[test]
fn input_pin_takes_one_link() {
    let mut g = demo();
    g.connect(0, 0, 2, 0);
    let into_c: Vec<&GraphLink> = g.links.iter().filter(|l| l.to_node == 2 && l.to_pin == 0).collect();
    assert_eq!(into_c.len(), 1);
    assert_eq!(into_c[0].from_node, 0);
    assert_eq!(g.links.len(), 2);
    g.connect(1, 0, 1, 0);
    assert_eq!(g.links.len(), 2);
}

#[test]
fn delete_node_drops_its_links() {
    let mut g = demo();
    g.delete_node(1);
    assert_eq!(g.nodes.iter().map(|n| n.id).collect::<Vec<_>>(), vec![0, 2]);
    assert!(g.links.is_empty());
    g.clear_links();
    assert!(g.links.is_empty());
}

#[test]
fn exports_to_visual_graph() {
    let g = demo();
    let v = g.to_visual_graph("demo");
    assert_eq!(v.name, "demo");
    assert_eq!(v.nodes.len(), 3);
    assert_eq!(v.nodes[0].kind, VisualNodeKind::Event);
    assert_eq!(v.nodes[1].kind, VisualNodeKind::Query);
    assert_eq!(v.nodes[0].pos_bits, [40.0f32.to_bits(), 80.0f32.to_bits()]);
    assert_eq!(v.nodes[1].outputs, vec!["Exec".to_string(), "Entity".to_string()]);
    assert_eq!(v.links.len(), 2);
    assert_eq!((v.links[1].from_node, v.links[1].to_node), (1, 2));
    let steps = v.execute(Some("On Begin Play"));
    assert_eq!(steps.iter().map(|s| s.title.as_str()).collect::<Vec<_>>(), vec!["On Begin Play", "Get Player", "Play Sound"]);
}

#[test]
fn demo_graph_links_event_query_action() {
    let g = NodeGraph::new_demo();
    let titles: Vec<&str> = g.nodes.iter().map(|n| n.title.as_str()).collect();
    assert_eq!(titles, vec!["On Begin Play", "Get Player", "Play Sound", "Float +"]);
    assert_eq!(g.nodes[0].kind, NodeKind::Event);
    assert_eq!(g.nodes[3].kind, NodeKind::Math);
    assert_eq!(g.nodes[1].pos_bits, [260.0f32.to_bits(), 40.0f32.to_bits()]);
    assert_eq!(g.nodes[3].pos_bits, [260.0f32.to_bits(), 220.0f32.to_bits()]);
    assert_eq!(g.nodes[2].inputs, vec!["Exec", "Sound"]);
    assert_eq!(g.next_id, 4);
    let links: Vec<(u64, u64)> = g.links.iter().map(|l| (l.from_node, l.to_node)).collect();
    assert_eq!(links, vec![(0, 1), (1, 2)]);
    let steps = g.to_visual_graph("demo").execute(None);
    let run: Vec<&str> = steps.iter().map(|s| s.title.as_str()).collect();
    assert_eq!(run, vec!["On Begin Play", "Get Player", "Play Sound"]);
}
