//! The editor's visual node graph (Blueprints-style flow): its nodes and
//! links, the edits the graph view makes to them, and its export to the
//! visual scripting IR.

use vstd::prelude::*;

use crate::scripting::{VisualGraph, VisualLink, VisualNode, VisualNodeKind};

verus! {

#[derive(Debug, Clone, Copy, PartialEq, Eq, Structural)]
pub enum NodeKind {
    Event,
    Action,
    Math,
    Query,
}

/// The IR kind of each editor node kind.
pub open spec fn visual_kind(k: NodeKind) -> VisualNodeKind {
    match k {
        NodeKind::Event => VisualNodeKind::Event,
        NodeKind::Action => VisualNodeKind::Action,
        NodeKind::Math => VisualNodeKind::Math,
        NodeKind::Query => VisualNodeKind::Query,
    }
}

pub fn to_visual_kind(k: NodeKind) -> (v: VisualNodeKind)
    ensures
        v == visual_kind(k),
{
    match k {
        NodeKind::Event => VisualNodeKind::Event,
        NodeKind::Action => VisualNodeKind::Action,
        NodeKind::Math => VisualNodeKind::Math,
        NodeKind::Query => VisualNodeKind::Query,
    }
}

/// One node of the editor graph.
#[derive(Debug, Clone)]
pub struct GraphNode {
    pub id: u64,
    pub kind: NodeKind,
    pub title: String,
    /// Position in graph space `(x, y)`, each as the bit pattern of an
    /// IEEE-754 single (what `f32::to_bits` gives).
    pub pos_bits: [u32; 2],
    pub inputs: Vec<&'static str>,
    pub outputs: Vec<&'static str>,
}

/// A link from output pin `from_pin` of one node to input pin `to_pin` of
/// another.
#[derive(Debug, Clone, Copy)]
pub struct GraphLink {
    pub from_node: u64,
    pub from_pin: usize,
    pub to_node: u64,
    pub to_pin: usize,
}

/// The nodes and links of an editor graph, and the id the next node gets.
#[derive(Debug)]
pub struct NodeGraph {
    pub nodes: Vec<GraphNode>,
    pub links: Vec<GraphLink>,
    pub next_id: u64,
}

/// `l` ends at input pin `pin` of node `to`.
pub open spec fn ends_at(l: GraphLink, to: u64, pin: usize) -> bool {
    l.to_node == to && l.to_pin == pin
}

/// `links` without those ending at input pin `pin` of node `to`, in order.
pub open spec fn links_not_into(links: Seq<GraphLink>, to: u64, pin: usize) -> Seq<GraphLink>
    decreases links.len(),
{
    if links.len() == 0 {
        Seq::empty()
    } else {
        let rest = links_not_into(links.drop_last(), to, pin);
        if ends_at(links.last(), to, pin) {
            rest
        } else {
            rest.push(links.last())
        }
    }
}

/// `links` without those leaving or entering node `id`, in order.
pub open spec fn links_not_touching(links: Seq<GraphLink>, id: u64) -> Seq<GraphLink>
    decreases links.len(),
{
    if links.len() == 0 {
        Seq::empty()
    } else {
        let rest = links_not_touching(links.drop_last(), id);
        if links.last().from_node == id || links.last().to_node == id {
            rest
        } else {
            rest.push(links.last())
        }
    }
}

/// `nodes` without those whose id is `id`, in order.
pub open spec fn nodes_without(nodes: Seq<GraphNode>, id: u64) -> Seq<GraphNode>
    decreases nodes.len(),
{
    if nodes.len() == 0 {
        Seq::empty()
    } else {
        let rest = nodes_without(nodes.drop_last(), id);
        if nodes.last().id == id {
            rest
        } else {
            rest.push(nodes.last())
        }
    }
}

/// `v` is the IR form of editor node `n`.
pub open spec fn exports_node(n: GraphNode, v: VisualNode) -> bool {
    &&& v.id == n.id
    &&& v.kind == visual_kind(n.kind)
    &&& v.title@ == n.title@
    &&& v.pos_bits == n.pos_bits
    &&& v.inputs@.map_values(|s: String| s@) == n.inputs@.map_values(|s: &str| s@)
    &&& v.outputs@.map_values(|s: String| s@) == n.outputs@.map_values(|s: &str| s@)
}

/// `v` is the IR form of editor link `l`.
pub open spec fn exports_link(l: GraphLink, v: VisualLink) -> bool {
    v.from_node == l.from_node && v.from_pin == l.from_pin && v.to_node == l.to_node && v.to_pin
        == l.to_pin
}

/// Owned copies of pin names.
fn pin_names(pins: &Vec<&'static str>) -> (r: Vec<String>)
    ensures
        r@.map_values(|s: String| s@) == pins@.map_values(|s: &str| s@),
{
    let mut out: Vec<String> = Vec::new();
    let mut i: usize = 0;
    while i < pins.len()
        invariant
            i <= pins@.len(),
            out@.len() == i,
            forall|j: int| 0 <= j < i ==> (#[trigger] out@[j])@ == pins@[j]@,
        decreases pins.len() - i,
    {
        out.push(String::from_str(pins[i]));
        i += 1;
    }
    assert(out@.map_values(|s: String| s@) =~= pins@.map_values(|s: &str| s@));
    out
}

/// A copy of a pin list.
fn copy_pins(pins: &[&'static str]) -> (r: Vec<&'static str>)
    ensures
        r@ == pins@,
{
    let mut out: Vec<&'static str> = Vec::new();
    let mut i: usize = 0;
    while i < pins.len()
        invariant
            i <= pins@.len(),
            out@ == pins@.take(i as int),
        decreases pins.len() - i,
    {
        out.push(pins[i]);
        assert(pins@.take(i + 1) =~= pins@.take(i as int).push(pins@[i as int]));
        i += 1;
    }
    assert(pins@.take(pins@.len() as int) =~= pins@);
    out
}

/// The names of a pin list.
pub open spec fn pin_names_of(pins: Seq<&'static str>) -> Seq<Seq<char>> {
    pins.map_values(|s: &str| s@)
}

/// `n` is the node `id` of kind `kind` titled `title` at `pos_bits`, with
/// input pins `ins` and output pins `outs`.
pub open spec fn node_is(
    n: GraphNode,
    id: u64,
    kind: NodeKind,
    title: Seq<char>,
    pos_bits: [u32; 2],
    ins: Seq<Seq<char>>,
    outs: Seq<Seq<char>>,
) -> bool {
    &&& n.id == id
    &&& n.kind == kind
    &&& n.title@ == title
    &&& n.pos_bits == pos_bits
    &&& pin_names_of(n.inputs@) == ins
    &&& pin_names_of(n.outputs@) == outs
}

impl NodeGraph {
    /// An empty graph whose first node gets id 0.
    pub fn new() -> (g: Self)
        ensures
            g.nodes@ == Seq::<GraphNode>::empty(),
            g.links@ == Seq::<GraphLink>::empty(),
            g.next_id == 0,
    {
        NodeGraph { nodes: Vec::new(), links: Vec::new(), next_id: 0 }
    }

    /// Append a node with the next id, and return that id.
    pub fn add_node(
        &mut self,
        kind: NodeKind,
        title: &str,
        pos_bits: [u32; 2],
        inputs: &[&'static str],
        outputs: &[&'static str],
    ) -> (id: u64)
        requires
            old(self).next_id < u64::MAX,
        ensures
            id == old(self).next_id,
            final(self).next_id == id + 1,
            final(self).links@ == old(self).links@,
            final(self).nodes@.len() == old(self).nodes@.len() + 1,
            final(self).nodes@.drop_last() == old(self).nodes@,
            ({
                let n = final(self).nodes@.last();
                &&& n.id == id
                &&& n.kind == kind
                &&& n.title@ == title@
                &&& n.pos_bits == pos_bits
                &&& n.inputs@ == inputs@
                &&& n.outputs@ == outputs@
            }),
    {
        let id = self.next_id;
        self.next_id = self.next_id + 1;
        let node = GraphNode {
            id,
            kind,
            title: String::from_str(title),
            pos_bits,
            inputs: copy_pins(inputs),
            outputs: copy_pins(outputs),
        };
        self.nodes.push(node);
        proof {
            assert(self.nodes@.drop_last() =~= old(self).nodes@);
        }
        id
    }

    /// The starter graph the editor opens with: an event, a query, an action
    /// and a math node, the event's and the query's first outputs linked on to
    /// the next node's first input.
    pub fn new_demo() -> (g: Self)
        ensures
            g.next_id == 4,
            g.nodes@.len() == 4,
            node_is(g.nodes@[0], 0, NodeKind::Event, "On Begin Play"@, [0x4220_0000, 0x42a0_0000],
                seq![], seq!["Exec"@]),
            node_is(g.nodes@[1], 1, NodeKind::Query, "Get Player"@, [0x4382_0000, 0x4220_0000],
                seq!["Exec"@], seq!["Exec"@, "Entity"@]),
            node_is(g.nodes@[2], 2, NodeKind::Action, "Play Sound"@, [0x4402_0000, 0x42c8_0000],
                seq!["Exec"@, "Sound"@], seq!["Exec"@]),
            node_is(g.nodes@[3], 3, NodeKind::Math, "Float +"@, [0x4382_0000, 0x435c_0000],
                seq!["A"@, "B"@], seq!["Sum"@]),
            g.links@ == seq![
                GraphLink { from_node: 0, from_pin: 0, to_node: 1, to_pin: 0 },
                GraphLink { from_node: 1, from_pin: 0, to_node: 2, to_pin: 0 },
            ],
    {
        let mut g = NodeGraph::new();
        // Positions: (40, 80), (260, 40), (520, 100), (260, 220).
        g.add_node(NodeKind::Event, "On Begin Play", [0x4220_0000, 0x42a0_0000], &[], &["Exec"]);
        g.add_node(NodeKind::Query, "Get Player", [0x4382_0000, 0x4220_0000], &["Exec"], &["Exec", "Entity"]);
        g.add_node(NodeKind::Action, "Play Sound", [0x4402_0000, 0x42c8_0000], &["Exec", "Sound"], &["Exec"]);
        g.add_node(NodeKind::Math, "Float +", [0x4382_0000, 0x435c_0000], &["A", "B"], &["Sum"]);
        if g.nodes.len() >= 3 {
            let first = g.nodes[0].id;
            let second = g.nodes[1].id;
            let third = g.nodes[2].id;
            g.links.push(GraphLink { from_node: first, from_pin: 0, to_node: second, to_pin: 0 });
            g.links.push(GraphLink { from_node: second, from_pin: 0, to_node: third, to_pin: 0 });
        }
        proof {
            let ns = g.nodes@;
            assert(pin_names_of(ns[0].inputs@) =~= seq![]);
            assert(pin_names_of(ns[0].outputs@) =~= seq!["Exec"@]);
            assert(pin_names_of(ns[1].inputs@) =~= seq!["Exec"@]);
            assert(pin_names_of(ns[1].outputs@) =~= seq!["Exec"@, "Entity"@]);
            assert(pin_names_of(ns[2].inputs@) =~= seq!["Exec"@, "Sound"@]);
            assert(pin_names_of(ns[2].outputs@) =~= seq!["Exec"@]);
            assert(pin_names_of(ns[3].inputs@) =~= seq!["A"@, "B"@]);
            assert(pin_names_of(ns[3].outputs@) =~= seq!["Sum"@]);
        }
        g
    }

    /// Connect output `from_pin` of `from` to input `to_pin` of `to`. A node
    /// is never linked to itself; an input pin takes one link, so any link
    /// already ending there is dropped.
    pub fn connect(&mut self, from: u64, from_pin: usize, to: u64, to_pin: usize)
        ensures
            final(self).nodes@ == old(self).nodes@,
            final(self).next_id == old(self).next_id,
            from == to ==> final(self).links@ == old(self).links@,
            from != to ==> final(self).links@ == links_not_into(old(self).links@, to, to_pin).push(
                GraphLink { from_node: from, from_pin, to_node: to, to_pin },
            ),
    {
        if from == to {
            return;
        }
        let ghost links = self.links@;
        let mut kept: Vec<GraphLink> = Vec::new();
        let mut i: usize = 0;
        while i < self.links.len()
            invariant
                links == self.links@,
                i <= links.len(),
                kept@ == links_not_into(links.take(i as int), to, to_pin),
            decreases self.links.len() - i,
        {
            let l = self.links[i];
            proof {
                assert(links.take(i + 1).drop_last() =~= links.take(i as int));
            }
            if !(l.to_node == to && l.to_pin == to_pin) {
                kept.push(l);
            }
            i += 1;
        }
        proof {
            assert(links.take(links.len() as int) =~= links);
        }
        kept.push(GraphLink { from_node: from, from_pin, to_node: to, to_pin });
        self.links = kept;
    }

    /// Delete every node with id `id` and every link leaving or entering it.
    pub fn delete_node(&mut self, id: u64)
        ensures
            final(self).nodes@ == nodes_without(old(self).nodes@, id),
            final(self).links@ == links_not_touching(old(self).links@, id),
            final(self).next_id == old(self).next_id,
    {
        let ghost links = self.links@;
        let mut kept: Vec<GraphLink> = Vec::new();
        let mut i: usize = 0;
        while i < self.links.len()
            invariant
                links == self.links@,
                i <= links.len(),
                kept@ == links_not_touching(links.take(i as int), id),
            decreases self.links.len() - i,
        {
            let l = self.links[i];
            proof {
                assert(links.take(i + 1).drop_last() =~= links.take(i as int));
            }
            if !(l.from_node == id || l.to_node == id) {
                kept.push(l);
            }
            i += 1;
        }
        proof {
            assert(links.take(links.len() as int) =~= links);
        }
        self.links = kept;
        let mut nodes = Vec::new();
        std::mem::swap(&mut nodes, &mut self.nodes);
        let ghost all = nodes@;
        let mut keep_nodes: Vec<GraphNode> = Vec::new();
        let mut rest = nodes;
        let ghost mut k: int = 0;
        while rest.len() > 0
            invariant
                0 <= k <= all.len(),
                rest@ == all.skip(k),
                keep_nodes@ == nodes_without(all.take(k), id),
            decreases rest.len(),
        {
            let n = rest.remove(0);
            proof {
                assert(n == all[k]);
                assert(all.take(k + 1).drop_last() =~= all.take(k));
                assert(rest@ =~= all.skip(k + 1));
            }
            if n.id != id {
                keep_nodes.push(n);
            }
            proof {
                k = k + 1;
            }
        }
        proof {
            assert(all.take(k) =~= all);
        }
        self.nodes = keep_nodes;
    }

    /// Drop every link.
    pub fn clear_links(&mut self)
        ensures
            final(self).links@ == Seq::<GraphLink>::empty(),
            final(self).nodes@ == old(self).nodes@,
            final(self).next_id == old(self).next_id,
    {
        self.links.clear();
    }

    /// The graph as visual scripting IR named `name`: each node and link, in
    /// order, in its IR form.
    pub fn to_visual_graph(&self, name: &str) -> (g: VisualGraph)
        ensures
            g.name@ == name@,
            g.nodes@.len() == self.nodes@.len(),
            forall|i: int| 0 <= i < self.nodes@.len() ==> exports_node(self.nodes@[i], #[trigger] g.nodes@[i]),
            g.links@.len() == self.links@.len(),
            forall|i: int| 0 <= i < self.links@.len() ==> exports_link(self.links@[i], #[trigger] g.links@[i]),
    {
        let mut nodes: Vec<VisualNode> = Vec::new();
        let mut i: usize = 0;
        while i < self.nodes.len()
            invariant
                i <= self.nodes@.len(),
                nodes@.len() == i,
                forall|j: int| 0 <= j < i ==> exports_node(self.nodes@[j], #[trigger] nodes@[j]),
            decreases self.nodes.len() - i,
        {
            let n = &self.nodes[i];
            let v = VisualNode {
                id: n.id,
                kind: to_visual_kind(n.kind),
                title: n.title.clone(),
                pos_bits: n.pos_bits,
                inputs: pin_names(&n.inputs),
                outputs: pin_names(&n.outputs),
            };
            nodes.push(v);
            i += 1;
        }
        let mut links: Vec<VisualLink> = Vec::new();
        let mut j: usize = 0;
        while j < self.links.len()
            invariant
                j <= self.links@.len(),
                links@.len() == j,
                forall|k: int| 0 <= k < j ==> exports_link(self.links@[k], #[trigger] links@[k]),
            decreases self.links.len() - j,
        {
            let l = self.links[j];
            links.push(
                VisualLink {
                    from_node: l.from_node,
                    from_pin: l.from_pin,
                    to_node: l.to_node,
                    to_pin: l.to_pin,
                },
            );
            j += 1;
        }
        VisualGraph { name: String::from_str(name), nodes, links }
    }
}

impl Default for NodeGraph {
    fn default() -> (g: Self)
        ensures
            g.nodes@ == Seq::<GraphNode>::empty(),
            g.links@ == Seq::<GraphLink>::empty(),
            g.next_id == 0,
    {
        NodeGraph::new()
    }
}

// ---------------------------------------------------------------------------
// Laws.

proof fn lemma_links_not_into(links: Seq<GraphLink>, to: u64, pin: usize)
    ensures
        forall|i: int|
            0 <= i < links_not_into(links, to, pin).len() ==> !ends_at(
                #[trigger] links_not_into(links, to, pin)[i],
                to,
                pin,
            ),
        forall|l: GraphLink| #[trigger] links.contains(l) && !ends_at(l, to, pin) ==> links_not_into(links, to, pin).contains(l),
    decreases links.len(),
{
    if links.len() > 0 {
        let init = links.drop_last();
        lemma_links_not_into(init, to, pin);
        let rest = links_not_into(init, to, pin);
        assert forall|l: GraphLink| #[trigger] links.contains(l) && !ends_at(l, to, pin) implies links_not_into(links, to, pin).contains(l) by {
            let m = choose|m: int| 0 <= m < links.len() && links[m] == l;
            if m < links.len() - 1 {
                assert(init[m] == l);
                assert(init.contains(l));
                let r = choose|r: int| 0 <= r < rest.len() && rest[r] == l;
                if !ends_at(links.last(), to, pin) {
                    assert(rest.push(links.last())[r] == l);
                }
            } else {
                assert(rest.push(links.last())[rest.len() as int] == l);
            }
        }
    }
}

/// An input pin takes one link: after connecting to it, the new link is the
/// only one ending there, and every other link that did not end there stays.
pub proof fn law_connect_single_input(links: Seq<GraphLink>, from: u64, from_pin: usize, to: u64, to_pin: usize)
    requires
        from != to,
    ensures
        ({
            let after = links_not_into(links, to, to_pin).push(
                GraphLink { from_node: from, from_pin, to_node: to, to_pin },
            );
            &&& forall|i: int|
                0 <= i < after.len() && ends_at(#[trigger] after[i], to, to_pin) ==> i == after.len() - 1
            &&& forall|l: GraphLink| #[trigger] links.contains(l) && !ends_at(l, to, to_pin) ==> after.contains(l)
        }),
{
    lemma_links_not_into(links, to, to_pin);
    let kept = links_not_into(links, to, to_pin);
    let after = kept.push(GraphLink { from_node: from, from_pin, to_node: to, to_pin });
    assert forall|i: int| 0 <= i < after.len() && ends_at(#[trigger] after[i], to, to_pin) implies i == after.len() - 1 by {
        if i < kept.len() {
            assert(after[i] == kept[i]);
        }
    }
    assert forall|l: GraphLink| #[trigger] links.contains(l) && !ends_at(l, to, to_pin) implies after.contains(l) by {
        let r = choose|r: int| 0 <= r < kept.len() && kept[r] == l;
        assert(after[r] == l);
    }
}

proof fn lemma_nodes_without(nodes: Seq<GraphNode>, id: u64)
    ensures
        forall|i: int| 0 <= i < nodes_without(nodes, id).len() ==> (#[trigger] nodes_without(nodes, id)[i]).id != id,
    decreases nodes.len(),
{
    if nodes.len() > 0 {
        let init = nodes.drop_last();
        lemma_nodes_without(init, id);
        let rest = nodes_without(init, id);
        assert forall|i: int| 0 <= i < nodes_without(nodes, id).len() implies (#[trigger] nodes_without(nodes, id)[i]).id != id by {
            if i < rest.len() {
                assert(nodes_without(nodes, id)[i] == rest[i]);
            }
        }
    }
}

proof fn lemma_links_not_touching(links: Seq<GraphLink>, id: u64)
    ensures
        forall|i: int|
            0 <= i < links_not_touching(links, id).len() ==> (#[trigger] links_not_touching(links, id)[i]).from_node != id
                && links_not_touching(links, id)[i].to_node != id,
    decreases links.len(),
{
    if links.len() > 0 {
        let init = links.drop_last();
        lemma_links_not_touching(init, id);
        let rest = links_not_touching(init, id);
        assert forall|i: int| 0 <= i < links_not_touching(links, id).len() implies (#[trigger] links_not_touching(links, id)[i]).from_node != id
                && links_not_touching(links, id)[i].to_node != id by {
            if i < rest.len() {
                assert(links_not_touching(links, id)[i] == rest[i]);
            }
        }
    }
}

proof fn lemma_links_not_touching_keeps(links: Seq<GraphLink>, id: u64)
    ensures
        forall|l: GraphLink|
            #[trigger] links_not_touching(links, id).contains(l) <==> (links.contains(l) && l.from_node != id
                && l.to_node != id),
    decreases links.len(),
{
    broadcast use {vstd::seq_lib::lemma_seq_contains_after_push, vstd::seq_lib::lemma_seq_empty_contains_nothing};

    if links.len() > 0 {
        let init = links.drop_last();
        lemma_links_not_touching_keeps(init, id);
        assert(links =~= init.push(links.last()));
        assert forall|l: GraphLink| #[trigger] links_not_touching(links, id).contains(l) <==> (links.contains(l)
            && l.from_node != id && l.to_node != id) by {
            assert(links.contains(l) == init.push(links.last()).contains(l));
            let rest = links_not_touching(init, id);
            assert(rest.contains(l) <==> (init.contains(l) && l.from_node != id && l.to_node != id));
            assert(rest.push(links.last()).contains(l) <==> (rest.contains(l) || links.last() == l));
        }
    }
}

proof fn lemma_nodes_without_keeps(nodes: Seq<GraphNode>, id: u64)
    ensures
        forall|n: GraphNode|
            #[trigger] nodes_without(nodes, id).contains(n) <==> (nodes.contains(n) && n.id != id),
    decreases nodes.len(),
{
    broadcast use {vstd::seq_lib::lemma_seq_contains_after_push, vstd::seq_lib::lemma_seq_empty_contains_nothing};

    if nodes.len() > 0 {
        let init = nodes.drop_last();
        lemma_nodes_without_keeps(init, id);
        assert(nodes =~= init.push(nodes.last()));
        assert forall|n: GraphNode| #[trigger] nodes_without(nodes, id).contains(n) <==> (nodes.contains(n)
            && n.id != id) by {
            assert(nodes.contains(n) == init.push(nodes.last()).contains(n));
            let rest = nodes_without(init, id);
            assert(rest.contains(n) <==> (init.contains(n) && n.id != id));
            assert(rest.push(nodes.last()).contains(n) <==> (rest.contains(n) || nodes.last() == n));
        }
    }
}

/// Deleting a node leaves no node with its id and no link touching it, and
/// keeps every other node and every link that neither leaves nor enters it.
pub proof fn law_delete_node(nodes: Seq<GraphNode>, links: Seq<GraphLink>, id: u64)
    ensures
        forall|l: GraphLink|
            #[trigger] links_not_touching(links, id).contains(l) <==> (links.contains(l) && l.from_node != id
                && l.to_node != id),
        forall|n: GraphNode| #[trigger] nodes_without(nodes, id).contains(n) <==> (nodes.contains(n) && n.id != id),
        forall|i: int| 0 <= i < nodes_without(nodes, id).len() ==> (#[trigger] nodes_without(nodes, id)[i]).id != id,
        forall|i: int|
            0 <= i < links_not_touching(links, id).len() ==> (#[trigger] links_not_touching(links, id)[i]).from_node != id
                && links_not_touching(links, id)[i].to_node != id,
{
    lemma_nodes_without(nodes, id);
    lemma_links_not_touching(links, id);
    lemma_links_not_touching_keeps(links, id);
    lemma_nodes_without_keeps(nodes, id);
}

} // verus!
