use shiloh::scripting::{ScriptComponent, ScriptKind, VisualGraph, VisualLink, VisualNode, VisualNodeKind};

fn node(id: u64, kind: VisualNodeKind, title: &str, x: f32) -> VisualNode {
    VisualNode {
        id,
        kind,
        title: title.to_string(),
        pos_bits: [x.to_bits(), 0.0f32.to_bits()],
        inputs: vec![],
        outputs: vec!["Exec".to_string()],
    }
}

fn link(from: u64, to: u64) -> VisualLink {
    VisualLink { from_node: from, from_pin: 0, to_node: to, to_pin: 0 }
}

#[test]
fn executes_event_chain() {
    let g = VisualGraph {
        name: "t".into(),
        nodes: vec![
            VisualNode {
                id: 1,
                kind: VisualNodeKind::Event,
                title: "On Begin Play".into(),
                pos_bits: [0.0f32.to_bits(), 0.0f32.to_bits()],
                inputs: vec![],
                outputs: vec!["Exec".into()],
            },
            VisualNode {
                id: 2,
                kind: VisualNodeKind::Action,
                title: "Play Sound".into(),
                pos_bits: [1.0f32.to_bits(), 0.0f32.to_bits()],
                inputs: vec!["Exec".into()],
                outputs: vec!["Exec".into()],
            },
        ],
        links: vec![VisualLink {
            from_node: 1,
            from_pin: 0,
            to_node: 2,
            to_pin: 0,
        }],
    };
    let steps = g.execute(Some("On Begin Play"));
    assert_eq!(steps.len(), 2);
    assert_eq!(steps[1].title, "Play Sound");
}

#[test]
fn execute_walks_breadth_first_once_each() {
    let mut g = VisualGraph::new("bfs");
    g.nodes = vec![
        node(1, VisualNodeKind::Event, "Start", 0.0),
        node(2, VisualNodeKind::Action, "A", 1.0),
        node(3, VisualNodeKind::Query, "B", 2.0),
        node(4, VisualNodeKind::Math, "C", 3.0),
    ];
    g.links = vec![link(1, 2), link(1, 3), link(2, 4), link(3, 4), link(4, 1), link(2, 99)];
    let steps = g.execute(None);
    let ids: Vec<u64> = steps.iter().map(|s| s.node_id).collect();
    assert_eq!(ids, vec![1, 2, 3, 4]);
    assert_eq!(steps[3].kind, VisualNodeKind::Math);
    assert_eq!(steps[0].title, "Start");
}

#[test]
fn execute_picks_titled_event() {
    let mut g = VisualGraph::new("two events");
    g.nodes = vec![
        node(1, VisualNodeKind::Event, "On Tick", 0.0),
        node(2, VisualNodeKind::Event, "On Hit", 0.0),
        node(3, VisualNodeKind::Action, "Flash", 0.0),
    ];
    g.links = vec![link(2, 3)];
    let hit: Vec<u64> = g.execute(Some("On Hit")).iter().map(|s| s.node_id).collect();
    assert_eq!(hit, vec![2, 3]);
    let first: Vec<u64> = g.execute(None).iter().map(|s| s.node_id).collect();
    assert_eq!(first, vec![1]);
    assert!(g.execute(Some("Missing")).is_empty());
}

#[test]
fn execute_without_event_is_empty() {
    let mut g = VisualGraph::new("none");
    g.nodes = vec![node(1, VisualNodeKind::Action, "A", 0.0)];
    assert!(g.execute(None).is_empty());
    assert!(VisualGraph::default().execute(None).is_empty());
}

#[test]
fn script_components() {
    let c = ScriptComponent::rhai("scripts/player.rhai");
    assert_eq!(c.path, "scripts/player.rhai");
    assert_eq!(c.kind, ScriptKind::Rhai);
    let v = ScriptComponent::visual("graphs/door.json");
    assert_eq!(v.path, "graphs/door.json");
    assert_eq!(v.kind, ScriptKind::Visual);
}

#[test]
fn components_and_steps_compare_by_value() {
    assert_eq!(ScriptComponent::rhai("a.rhai"), ScriptComponent::rhai("a.rhai"));
    assert_ne!(ScriptComponent::rhai("a.rhai"), ScriptComponent::visual("a.rhai"));
    assert_ne!(ScriptComponent::rhai("a.rhai"), ScriptComponent::rhai("b.rhai"));
    let mut g = VisualGraph::new("eq");
    g.nodes = vec![node(7, VisualNodeKind::Event, "Go", 0.0)];
    let steps = g.execute(None);
    assert_eq!(
        steps,
        vec![shiloh::scripting::VisualExecStep { node_id: 7, title: "Go".to_string(), kind: VisualNodeKind::Event }]
    );
}
