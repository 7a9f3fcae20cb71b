//! Script attachments and the visual scripting graph: its node/link IR and
//! the interpreter that fires an event node and follows links breadth-first.

use vstd::prelude::*;

use std::collections::{HashSet, VecDeque};

verus! {

broadcast use vstd::std_specs::hash::group_hash_axioms;

// ---------------------------------------------------------------------------
// Script attachments.

/// Which scripting backend a [`ScriptComponent`] refers to.
#[derive(Debug, Clone, Copy, PartialEq, Eq, Structural)]
pub enum ScriptKind {
    Rhai,
    Visual,
}

/// Component linking an entity to a script asset path.
#[derive(Debug, Clone)]
pub struct ScriptComponent {
    pub path: String,
    pub kind: ScriptKind,
}

impl ScriptComponent {
    /// A Rhai script at `path`.
    pub fn rhai(path: &str) -> (c: Self)
        ensures
            c.path@ == path@,
            c.kind == ScriptKind::Rhai,
    {
        ScriptComponent { path: String::from_str(path), kind: ScriptKind::Rhai }
    }

    /// A visual graph at `path`.
    pub fn visual(path: &str) -> (c: Self)
        ensures
            c.path@ == path@,
            c.kind == ScriptKind::Visual,
    {
        ScriptComponent { path: String::from_str(path), kind: ScriptKind::Visual }
    }
}

impl PartialEq for ScriptComponent {
    fn eq(&self, other: &Self) -> (r: bool) {
        self.path == other.path && self.kind == other.kind
    }
}

impl vstd::std_specs::cmp::PartialEqSpecImpl for ScriptComponent {
    open spec fn obeys_eq_spec() -> bool {
        true
    }

    open spec fn eq_spec(&self, other: &Self) -> bool {
        self.path@ == other.path@ && self.kind == other.kind
    }
}

impl Eq for ScriptComponent {}

/// Errors from compiling or loading a Rhai script.
#[derive(Debug)]
pub enum RhaiHostError {
    /// The interpreter's own message.
    Rhai(String),
    Io(std::io::Error),
}

// ---------------------------------------------------------------------------
// Visual graph IR.

#[derive(Debug, Clone, Copy, PartialEq, Eq, Structural)]
pub enum VisualNodeKind {
    Event,
    Action,
    Math,
    Query,
}

/// One node of a visual graph.
#[derive(Debug, Clone)]
pub struct VisualNode {
    pub id: u64,
    pub kind: VisualNodeKind,
    pub title: String,
    /// The node's editor position `(x, y)`, each as the bit pattern of an
    /// IEEE-754 single (what `f32::to_bits` gives).
    pub pos_bits: [u32; 2],
    pub inputs: Vec<String>,
    pub outputs: Vec<String>,
}

/// A link from an output pin of one node to an input pin of another.
#[derive(Debug, Clone)]
pub struct VisualLink {
    pub from_node: u64,
    pub from_pin: usize,
    pub to_node: u64,
    pub to_pin: usize,
}

#[derive(Debug, Clone)]
pub struct VisualGraph {
    pub name: String,
    pub nodes: Vec<VisualNode>,
    pub links: Vec<VisualLink>,
}

/// One step recorded by [`VisualGraph::execute`].
#[derive(Debug, Clone)]
pub struct VisualExecStep {
    pub node_id: u64,
    pub title: String,
    pub kind: VisualNodeKind,
}

impl PartialEq for VisualExecStep {
    fn eq(&self, other: &Self) -> (r: bool) {
        self.node_id == other.node_id && self.title == other.title && self.kind == other.kind
    }
}

impl vstd::std_specs::cmp::PartialEqSpecImpl for VisualExecStep {
    open spec fn obeys_eq_spec() -> bool {
        true
    }

    open spec fn eq_spec(&self, other: &Self) -> bool {
        self.node_id == other.node_id && self.title@ == other.title@ && self.kind == other.kind
    }
}

impl Eq for VisualExecStep {}

// ---------------------------------------------------------------------------
// What the interpreter does, stated over the graph's nodes and links.

/// `nodes[i]` is the first node whose id is `id`.
pub open spec fn is_first_with_id(nodes: Seq<VisualNode>, id: u64, i: int) -> bool {
    &&& 0 <= i < nodes.len()
    &&& nodes[i].id == id
    &&& forall|j: int| 0 <= j < i ==> nodes[j].id != id
}

/// The first node whose id is `id`, if there is one.
pub open spec fn node_with_id(nodes: Seq<VisualNode>, id: u64) -> Option<VisualNode> {
    if exists|i: int| 0 <= i < nodes.len() && nodes[i].id == id {
        Some(nodes[choose|i: int| is_first_with_id(nodes, id, i)])
    } else {
        None
    }
}

/// `n` is an event node whose title is `title` (any title when `None`).
pub open spec fn fires_on(n: VisualNode, title: Option<Seq<char>>) -> bool {
    &&& n.kind == VisualNodeKind::Event
    &&& match title {
        Some(t) => n.title@ == t,
        None => true,
    }
}

/// `nodes[i]` is the first node that fires on `title`.
pub open spec fn is_start(nodes: Seq<VisualNode>, title: Option<Seq<char>>, i: int) -> bool {
    &&& 0 <= i < nodes.len()
    &&& fires_on(nodes[i], title)
    &&& forall|j: int| 0 <= j < i ==> !fires_on(nodes[j], title)
}

/// The node an execution for `title` starts from, if any.
pub open spec fn start_node(nodes: Seq<VisualNode>, title: Option<Seq<char>>) -> Option<VisualNode> {
    if exists|i: int| 0 <= i < nodes.len() && fires_on(nodes[i], title) {
        Some(nodes[choose|i: int| is_start(nodes, title, i)])
    } else {
        None
    }
}

/// Targets of the links leaving node `id`, in link order.
pub open spec fn out_targets(links: Seq<VisualLink>, id: u64) -> Seq<u64>
    decreases links.len(),
{
    if links.len() == 0 {
        Seq::empty()
    } else {
        let rest = out_targets(links.drop_last(), id);
        if links.last().from_node == id {
            rest.push(links.last().to_node)
        } else {
            rest
        }
    }
}

/// Breadth-first walk: the ids executed when `queue` is pending and the ids
/// in `visited` have been dequeued before, for at most `fuel` dequeues.
///
/// A dequeued id that was seen before is dropped; an unseen one is marked
/// seen, and when a node carries it, it is executed and the targets of its
/// links are enqueued.
pub open spec fn run_order(
    nodes: Seq<VisualNode>,
    links: Seq<VisualLink>,
    queue: Seq<u64>,
    visited: Set<u64>,
    fuel: nat,
) -> Seq<u64>
    decreases fuel,
{
    if fuel == 0 || queue.len() == 0 {
        Seq::empty()
    } else {
        let id = queue[0];
        let rest = queue.drop_first();
        if visited.contains(id) {
            run_order(nodes, links, rest, visited, (fuel - 1) as nat)
        } else if node_with_id(nodes, id) is None {
            run_order(nodes, links, rest, visited.insert(id), (fuel - 1) as nat)
        } else {
            seq![id] + run_order(
                nodes,
                links,
                rest + out_targets(links, id),
                visited.insert(id),
                (fuel - 1) as nat,
            )
        }
    }
}

/// The ids of the nodes executed for `title`, in order. A walk dequeues at
/// most one id per link plus the start, so that many dequeues finish it.
pub open spec fn executed_ids(
    nodes: Seq<VisualNode>,
    links: Seq<VisualLink>,
    title: Option<Seq<char>>,
) -> Seq<u64> {
    match start_node(nodes, title) {
        None => Seq::empty(),
        Some(s) => run_order(nodes, links, seq![s.id], Set::empty(), (links.len() + 1) as nat),
    }
}

/// `s` records the first node with its id: that node's title and kind.
pub open spec fn records_node(nodes: Seq<VisualNode>, s: VisualExecStep) -> bool {
    match node_with_id(nodes, s.node_id) {
        Some(n) => s.title@ == n.title@ && s.kind == n.kind,
        None => false,
    }
}

pub open spec fn step_ids(steps: Seq<VisualExecStep>) -> Seq<u64> {
    steps.map_values(|s: VisualExecStep| s.node_id)
}

pub open spec fn title_view(t: Option<&str>) -> Option<Seq<char>> {
    match t {
        Some(s) => Some(s@),
        None => None,
    }
}

/// Links whose source has not been visited yet.
spec fn unvisited_links(links: Seq<VisualLink>, visited: Set<u64>) -> nat
    decreases links.len(),
{
    if links.len() == 0 {
        0
    } else {
        unvisited_links(links.drop_last(), visited) + if visited.contains(links.last().from_node) {
            0nat
        } else {
            1nat
        }
    }
}

proof fn lemma_unvisited_links_empty(links: Seq<VisualLink>)
    ensures
        unvisited_links(links, Set::empty()) == links.len(),
    decreases links.len(),
{
    if links.len() > 0 {
        lemma_unvisited_links_empty(links.drop_last());
    }
}

proof fn lemma_unvisited_links_visit(links: Seq<VisualLink>, visited: Set<u64>, id: u64)
    requires
        !visited.contains(id),
    ensures
        unvisited_links(links, visited) == unvisited_links(links, visited.insert(id))
            + out_targets(links, id).len(),
    decreases links.len(),
{
    if links.len() > 0 {
        lemma_unvisited_links_visit(links.drop_last(), visited, id);
    }
}

proof fn lemma_first_with_id_unique(nodes: Seq<VisualNode>, id: u64, i: int, j: int)
    requires
        is_first_with_id(nodes, id, i),
        is_first_with_id(nodes, id, j),
    ensures
        i == j,
{
}

proof fn lemma_start_unique(nodes: Seq<VisualNode>, title: Option<Seq<char>>, i: int, j: int)
    requires
        is_start(nodes, title, i),
        is_start(nodes, title, j),
    ensures
        i == j,
{
}

impl Default for VisualGraph {
    fn default() -> (g: Self)
        ensures
            g.name@ == Seq::<char>::empty(),
            g.nodes@ == Seq::<VisualNode>::empty(),
            g.links@ == Seq::<VisualLink>::empty(),
    {
        VisualGraph { name: String::new(), nodes: Vec::new(), links: Vec::new() }
    }
}

impl VisualGraph {
    /// An empty graph named `name`.
    pub fn new(name: &str) -> (g: Self)
        ensures
            g.name@ == name@,
            g.nodes@ == Seq::<VisualNode>::empty(),
            g.links@ == Seq::<VisualLink>::empty(),
    {
        VisualGraph { name: String::from_str(name), nodes: Vec::new(), links: Vec::new() }
    }

    /// The first node with id `id`.
    fn node(&self, id: u64) -> (r: Option<&VisualNode>)
        ensures
            match r {
                Some(n) => n.id == id && node_with_id(self.nodes@, id) == Some(*n),
                None => node_with_id(self.nodes@, id) is None,
            },
    {
        let mut i: usize = 0;
        while i < self.nodes.len()
            invariant
                i <= self.nodes@.len(),
                forall|j: int| 0 <= j < i ==> self.nodes@[j].id != id,
            decreases self.nodes.len() - i,
        {
            if self.nodes[i].id == id {
                proof {
                    let nodes = self.nodes@;
                    assert(is_first_with_id(nodes, id, i as int));
                    let k = choose|k: int| is_first_with_id(nodes, id, k);
                    lemma_first_with_id_unique(nodes, id, i as int, k);
                }
                return Some(&self.nodes[i]);
            }
            i += 1;
        }
        None
    }

    /// The node an execution for `event_title` starts from.
    fn start(&self, event_title: Option<&str>) -> (r: Option<&VisualNode>)
        ensures
            match r {
                Some(n) => {
                    &&& start_node(self.nodes@, title_view(event_title)) == Some(*n)
                    &&& exists|i: int| is_start(self.nodes@, title_view(event_title), i) && self.nodes@[i] == *n
                },
                None => start_node(self.nodes@, title_view(event_title)) is None,
            },
    {
        let ghost title = title_view(event_title);
        let wanted: Option<String> = match event_title {
            Some(t) => Some(String::from_str(t)),
            None => None,
        };
        let mut i: usize = 0;
        while i < self.nodes.len()
            invariant
                i <= self.nodes@.len(),
                title == title_view(event_title),
                match wanted {
                    Some(w) => title == Some(w@),
                    None => title is None,
                },
                forall|j: int| 0 <= j < i ==> !fires_on(self.nodes@[j], title),
            decreases self.nodes.len() - i,
        {
            let n = &self.nodes[i];
            let fires = n.kind == VisualNodeKind::Event && match &wanted {
                Some(w) => n.title == *w,
                None => true,
            };
            if fires {
                proof {
                    let nodes = self.nodes@;
                    assert(is_start(nodes, title, i as int));
                    let k = choose|k: int| is_start(nodes, title, k);
                    lemma_start_unique(nodes, title, i as int, k);
                }
                return Some(n);
            }
            i += 1;
        }
        None
    }

    /// Enqueues the targets of the links leaving `id`, in link order.
    fn push_targets(&self, id: u64, queue: &mut VecDeque<u64>)
        ensures
            final(queue)@ == old(queue)@ + out_targets(self.links@, id),
    {
        let ghost links = self.links@;
        let ghost base = queue@;
        let mut k: usize = 0;
        while k < self.links.len()
            invariant
                links == self.links@,
                k <= links.len(),
                queue@ == base + out_targets(links.take(k as int), id),
            decreases self.links.len() - k,
        {
            proof {
                assert(links.take(k + 1).drop_last() =~= links.take(k as int));
            }
            if self.links[k].from_node == id {
                queue.push_back(self.links[k].to_node);
                proof {
                    assert(queue@ =~= base + out_targets(links.take(k + 1), id));
                }
            }
            k += 1;
        }
        proof {
            assert(links.take(links.len() as int) =~= links);
        }
    }

    /// Fire the first event node (the first titled `event_title`, when
    /// given) and follow links breadth-first, recording each node reached.
    ///
    /// The steps are exactly the nodes of [`executed_ids`], each recorded
    /// from the first node with its id; no node is executed twice, and the
    /// event node comes first.
    pub fn execute(&self, event_title: Option<&str>) -> (steps: Vec<VisualExecStep>)
        ensures
            step_ids(steps@) == executed_ids(self.nodes@, self.links@, title_view(event_title)),
            forall|i: int| 0 <= i < steps@.len() ==> records_node(self.nodes@, #[trigger] steps@[i]),
            forall|i: int, j: int|
                0 <= i < j < steps@.len() ==> steps@[i].node_id != steps@[j].node_id,
            match start_node(self.nodes@, title_view(event_title)) {
                Some(s) => steps@.len() > 0 && steps@[0].node_id == s.id,
                None => steps@.len() == 0,
            },
    {
        let ghost nodes = self.nodes@;
        let ghost links = self.links@;
        let ghost title = title_view(event_title);
        let start = match self.start(event_title) {
            Some(s) => s,
            None => {
                return Vec::new();
            },
        };
        let start_id = start.id;
        let ghost total: nat = (links.len() + 1) as nat;
        let ghost whole = run_order(nodes, links, seq![start_id], Set::empty(), total);
        proof {
            // The start node carries its own id, so the walk executes it first.
            let si = choose|i: int| is_start(nodes, title, i) && nodes[i] == *start;
            assert(nodes[si].id == start_id);
            assert(node_with_id(nodes, start_id) is Some);
            assert(seq![start_id].drop_first() =~= Seq::<u64>::empty());
            assert(whole[0] == start_id);
            lemma_unvisited_links_empty(links);
        }
        let mut steps: Vec<VisualExecStep> = Vec::new();
        let mut visited: HashSet<u64> = HashSet::new();
        let mut queue: VecDeque<u64> = VecDeque::new();
        queue.push_back(start_id);
        let ghost mut fuel: nat = total;
        proof {
            assert(step_ids(steps@) =~= Seq::<u64>::empty());
            assert(queue@ =~= seq![start_id]);
        }
        while queue.len() > 0
            invariant
                nodes == self.nodes@,
                links == self.links@,
                whole == run_order(nodes, links, seq![start_id], Set::empty(), total),
                whole.len() > 0 && whole[0] == start_id,
                queue@.len() + unvisited_links(links, visited@) <= fuel,
                step_ids(steps@) + run_order(nodes, links, queue@, visited@, fuel) == whole,
                forall|i: int| 0 <= i < steps@.len() ==> records_node(nodes, #[trigger] steps@[i]),
                forall|i: int| 0 <= i < steps@.len() ==> visited@.contains(#[trigger] steps@[i].node_id),
                forall|i: int, j: int|
                    0 <= i < j < steps@.len() ==> steps@[i].node_id != steps@[j].node_id,
            decreases fuel,
        {
            let ghost q0 = queue@;
            let ghost v0 = visited@;
            let ghost f0 = fuel;
            let ghost done = step_ids(steps@);
            let id = queue.pop_front().unwrap();
            proof {
                fuel = (fuel - 1) as nat;
                assert(queue@ == q0.drop_first());
            }
            assert(id == q0[0]);
            let fresh = visited.insert(id);
            if !fresh {
                proof {
                    assert(visited@ =~= v0);
                    assert(run_order(nodes, links, q0, v0, f0) == run_order(nodes, links, queue@, v0, fuel));
                }
                continue;
            }
            proof {
                lemma_unvisited_links_visit(links, v0, id);
            }
            match self.node(id) {
                None => {
                    proof {
                        assert(run_order(nodes, links, q0, v0, f0)
                            == run_order(nodes, links, queue@, visited@, fuel));
                    }
                    continue;
                },
                Some(node) => {
                    let step = VisualExecStep {
                        node_id: node.id,
                        title: node.title.clone(),
                        kind: node.kind,
                    };
                    steps.push(step);
                    self.push_targets(id, &mut queue);
                    proof {
                        assert(step_ids(steps@) =~= done.push(id));
                        assert(done.push(id) + run_order(nodes, links, queue@, visited@, fuel)
                            =~= done + (seq![id] + run_order(nodes, links, queue@, visited@, fuel)));
                        assert(records_node(nodes, steps@[steps@.len() - 1]));
                    }
                },
            }
        }
        proof {
            assert(step_ids(steps@) =~= whole);
        }
        steps
    }
}

} // verus!
