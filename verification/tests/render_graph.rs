use shiloh::render_graph::{GraphError, PassNode, RenderGraph, Renderer, ResourceId};

#[test]
fn compile_orders_writers_before_readers() {
    let mut g = RenderGraph::new();
    let depth = g.create_resource("depth");
    let color = g.create_resource("color");
    assert_eq!(depth, ResourceId(0));
    assert_eq!(color, ResourceId(1));
    g.add_pass(PassNode::new("post", vec![color], vec![]));
    g.add_pass(PassNode::new("lit", vec![depth], vec![color]));
    g.add_pass(PassNode::new("prepass", vec![], vec![depth]));
    let order = g.compile_order().unwrap();
    let mut sorted = order.clone();
    sorted.sort();
    assert_eq!(sorted, vec![0, 1, 2]);
    let pos = |p: usize| order.iter().position(|&x| x == p).unwrap();
    assert!(pos(2) < pos(1));
    assert!(pos(1) < pos(0));
    assert_eq!(order, vec![2, 1, 0]);
}

#[test]
fn compile_runs_newest_ready_pass_first() {
    let mut g = RenderGraph::new();
    let a = g.create_resource("a");
    g.add_pass(PassNode::new("w", vec![], vec![a]));
    g.add_pass(PassNode::new("x", vec![], vec![]));
    g.add_pass(PassNode::new("r", vec![a], vec![]));
    g.add_pass(PassNode::new("y", vec![], vec![]));
    assert_eq!(g.compile_order().unwrap(), vec![3, 1, 0, 2]);
}

#[test]
fn compile_reports_unknown_and_cycle() {
    let mut g = RenderGraph::new();
    let a = g.create_resource("a");
    g.add_pass(PassNode::new("p", vec![], vec![ResourceId(5)]));
    assert!(matches!(g.compile_order(), Err(GraphError::UnknownResource(ResourceId(5)))));
    g.clear();
    let a2 = g.create_resource("a");
    let b = g.create_resource("b");
    assert_eq!(a, a2);
    g.add_pass(PassNode::new("x", vec![b], vec![a2]));
    g.add_pass(PassNode::new("y", vec![a2], vec![b]));
    assert!(matches!(g.compile_order(), Err(GraphError::Cycle)));
}

#[test]
fn renderer_frame_has_clear_pass() {
    let mut r = Renderer::new();
    r.begin_frame();
    assert_eq!(r.graph().compile_order().unwrap(), vec![0]);
    let extra = r.graph_mut().create_resource("hud");
    assert_eq!(extra, ResourceId(1));
    r.graph_mut().add_pass(PassNode::new("hud", vec![ResourceId(0)], vec![extra]));
    assert_eq!(r.graph().compile_order().unwrap(), vec![0, 1]);
    r.begin_frame();
    assert_eq!(r.graph().compile_order().unwrap(), vec![0]);
}
