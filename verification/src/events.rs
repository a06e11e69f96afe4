//! Graph events for event sourcing and undo/redo.
//!
//! Events are facts about what happened to the graph. Undo does not reverse
//! a mutation: it applies the compensating event, the event that states the
//! opposite fact. Timestamps are milliseconds since the Unix epoch.

use vstd::prelude::*;
use crate::graph_model::{
    ColorBits, EdgeType, GraphEdge, GraphNode, GraphState, NodeData, NodeType, OrganizationGraph, Position,
    edges_apart_from, edges_filtered_without, edges_without, has_node, ids_unique, selection_without,
    with_node, without_node,
};
use crate::ids::{uuid_string, uuid_text};
use crate::text::{concat, concat3, owned};

verus! {

broadcast use vstd::seq_lib::group_filter_ensures;

/// A change of the graph.
#[derive(Clone, Debug, PartialEq)]
pub enum GraphEvent {
    /// A node was created.
    NodeCreated {
        node_id: u128,
        node_type: NodeType,
        position: Position,
        color: ColorBits,
        label: String,
        data: NodeData,
        timestamp: i64,
    },
    /// A node was deleted; the fields keep what it was, for a later redo.
    NodeDeleted {
        node_id: u128,
        node_type: NodeType,
        position: Position,
        color: ColorBits,
        label: String,
        data: NodeData,
        timestamp: i64,
    },
    /// The type and label of a node were changed.
    NodePropertiesChanged {
        node_id: u128,
        old_node_type: NodeType,
        old_label: String,
        new_node_type: NodeType,
        new_label: String,
        timestamp: i64,
    },
    /// A node was moved.
    NodeMoved { node_id: u128, old_position: Position, new_position: Position, timestamp: i64 },
    /// An edge was created.
    EdgeCreated { from: u128, to: u128, edge_type: EdgeType, color: ColorBits, timestamp: i64 },
    /// An edge was deleted.
    EdgeDeleted { from: u128, to: u128, edge_type: EdgeType, color: ColorBits, timestamp: i64 },
}

/// When the event happened.
pub open spec fn event_time(e: GraphEvent) -> i64 {
    match e {
        GraphEvent::NodeCreated { timestamp, .. } => timestamp,
        GraphEvent::NodeDeleted { timestamp, .. } => timestamp,
        GraphEvent::NodePropertiesChanged { timestamp, .. } => timestamp,
        GraphEvent::NodeMoved { timestamp, .. } => timestamp,
        GraphEvent::EdgeCreated { timestamp, .. } => timestamp,
        GraphEvent::EdgeDeleted { timestamp, .. } => timestamp,
    }
}

/// The event that undoes `e`, stamped `at`.
pub open spec fn compensation(e: GraphEvent, at: i64) -> GraphEvent {
    match e {
        GraphEvent::NodeCreated { node_id, node_type, position, color, label, data, .. } => GraphEvent::NodeDeleted {
            node_id,
            node_type,
            position,
            color,
            label,
            data,
            timestamp: at,
        },
        GraphEvent::NodeDeleted { node_id, node_type, position, color, label, data, .. } => GraphEvent::NodeCreated {
            node_id,
            node_type,
            position,
            color,
            label,
            data,
            timestamp: at,
        },
        GraphEvent::NodePropertiesChanged { node_id, old_node_type, old_label, new_node_type, new_label, .. } =>
            GraphEvent::NodePropertiesChanged {
            node_id,
            old_node_type: new_node_type,
            old_label: new_label,
            new_node_type: old_node_type,
            new_label: old_label,
            timestamp: at,
        },
        GraphEvent::NodeMoved { node_id, old_position, new_position, .. } => GraphEvent::NodeMoved {
            node_id,
            old_position: new_position,
            new_position: old_position,
            timestamp: at,
        },
        GraphEvent::EdgeCreated { from, to, edge_type, color, .. } => GraphEvent::EdgeDeleted {
            from,
            to,
            edge_type,
            color,
            timestamp: at,
        },
        GraphEvent::EdgeDeleted { from, to, edge_type, color, .. } => GraphEvent::EdgeCreated {
            from,
            to,
            edge_type,
            color,
            timestamp: at,
        },
    }
}

/// A human-readable account of the event.
pub open spec fn event_description(e: GraphEvent) -> Seq<char> {
    match e {
        GraphEvent::NodeCreated { label, .. } => "Created node '"@ + label@ + "'"@,
        GraphEvent::NodeDeleted { label, .. } => "Deleted node '"@ + label@ + "'"@,
        GraphEvent::NodePropertiesChanged { old_label, new_label, .. } => "Changed '"@ + old_label@ + "' to '"@
            + new_label@ + "'"@,
        GraphEvent::NodeMoved { node_id, .. } => "Moved node "@ + uuid_text(node_id),
        GraphEvent::EdgeCreated { .. } => "Created edge"@,
        GraphEvent::EdgeDeleted { .. } => "Deleted edge"@,
    }
}

/// Milliseconds in a day.
pub const DAY_MILLIS: i64 = 86_400_000;

/// The most milliseconds that a chrono date lies from the Unix epoch:
/// those of 10^8 days. chrono's dates lie between the years -262143 and
/// 262142 (its `MIN_YEAR` and `MAX_YEAR`), less than 10^8 days from 1970.
pub const CHRONO_MILLIS_BOUND: i64 = 8_640_000_000_000_000;

/// The current time in milliseconds since the Unix epoch, as
/// `chrono::Utc::now().timestamp_millis()` gives it. Which instant it is
/// is the clock's; the contract states only that it is a date chrono can
/// hold, within `CHRONO_MILLIS_BOUND` of the epoch.
#[verifier::external_body]
pub(crate) fn now_millis() -> (r: i64)
    ensures
        -CHRONO_MILLIS_BOUND <= r <= CHRONO_MILLIS_BOUND,
{
    chrono::Utc::now().timestamp_millis()
}

impl GraphEvent {
    /// When the event happened.
    pub fn timestamp(&self) -> (r: i64)
        ensures
            r == event_time(*self),
    {
        match self {
            GraphEvent::NodeCreated { timestamp, .. } => *timestamp,
            GraphEvent::NodeDeleted { timestamp, .. } => *timestamp,
            GraphEvent::NodePropertiesChanged { timestamp, .. } => *timestamp,
            GraphEvent::NodeMoved { timestamp, .. } => *timestamp,
            GraphEvent::EdgeCreated { timestamp, .. } => *timestamp,
            GraphEvent::EdgeDeleted { timestamp, .. } => *timestamp,
        }
    }

    /// A copy of the event.
    pub fn duplicate(&self) -> (r: GraphEvent)
        ensures
            r == *self,
    {
        match self {
            GraphEvent::NodeCreated { node_id, node_type, position, color, label, data, timestamp } =>
                GraphEvent::NodeCreated {
                node_id: *node_id,
                node_type: *node_type,
                position: *position,
                color: *color,
                label: label.clone(),
                data: data.duplicate(),
                timestamp: *timestamp,
            },
            GraphEvent::NodeDeleted { node_id, node_type, position, color, label, data, timestamp } =>
                GraphEvent::NodeDeleted {
                node_id: *node_id,
                node_type: *node_type,
                position: *position,
                color: *color,
                label: label.clone(),
                data: data.duplicate(),
                timestamp: *timestamp,
            },
            GraphEvent::NodePropertiesChanged {
                node_id,
                old_node_type,
                old_label,
                new_node_type,
                new_label,
                timestamp,
            } => GraphEvent::NodePropertiesChanged {
                node_id: *node_id,
                old_node_type: *old_node_type,
                old_label: old_label.clone(),
                new_node_type: *new_node_type,
                new_label: new_label.clone(),
                timestamp: *timestamp,
            },
            GraphEvent::NodeMoved { node_id, old_position, new_position, timestamp } => GraphEvent::NodeMoved {
                node_id: *node_id,
                old_position: *old_position,
                new_position: *new_position,
                timestamp: *timestamp,
            },
            GraphEvent::EdgeCreated { from, to, edge_type, color, timestamp } => GraphEvent::EdgeCreated {
                from: *from,
                to: *to,
                edge_type: *edge_type,
                color: *color,
                timestamp: *timestamp,
            },
            GraphEvent::EdgeDeleted { from, to, edge_type, color, timestamp } => GraphEvent::EdgeDeleted {
                from: *from,
                to: *to,
                edge_type: *edge_type,
                color: *color,
                timestamp: *timestamp,
            },
        }
    }

    /// The event that undoes this one, stamped with the current time.
    pub fn compensate(&self) -> (r: GraphEvent)
        ensures
            r == compensation(*self, event_time(r)),
    {
        let at = now_millis();
        match self {
            GraphEvent::NodeCreated { node_id, node_type, position, color, label, data, .. } => GraphEvent::NodeDeleted {
                node_id: *node_id,
                node_type: *node_type,
                position: *position,
                color: *color,
                label: label.clone(),
                data: data.duplicate(),
                timestamp: at,
            },
            GraphEvent::NodeDeleted { node_id, node_type, position, color, label, data, .. } => GraphEvent::NodeCreated {
                node_id: *node_id,
                node_type: *node_type,
                position: *position,
                color: *color,
                label: label.clone(),
                data: data.duplicate(),
                timestamp: at,
            },
            GraphEvent::NodePropertiesChanged { node_id, old_node_type, old_label, new_node_type, new_label, .. } =>
                GraphEvent::NodePropertiesChanged {
                node_id: *node_id,
                old_node_type: *new_node_type,
                old_label: new_label.clone(),
                new_node_type: *old_node_type,
                new_label: old_label.clone(),
                timestamp: at,
            },
            GraphEvent::NodeMoved { node_id, old_position, new_position, .. } => GraphEvent::NodeMoved {
                node_id: *node_id,
                old_position: *new_position,
                new_position: *old_position,
                timestamp: at,
            },
            GraphEvent::EdgeCreated { from, to, edge_type, color, .. } => GraphEvent::EdgeDeleted {
                from: *from,
                to: *to,
                edge_type: *edge_type,
                color: *color,
                timestamp: at,
            },
            GraphEvent::EdgeDeleted { from, to, edge_type, color, .. } => GraphEvent::EdgeCreated {
                from: *from,
                to: *to,
                edge_type: *edge_type,
                color: *color,
                timestamp: at,
            },
        }
    }

    /// A human-readable account of the event.
    pub fn description(&self) -> (r: String)
        ensures
            r@ == event_description(*self),
    {
        match self {
            GraphEvent::NodeCreated { label, .. } => concat3("Created node '", label.as_str(), "'"),
            GraphEvent::NodeDeleted { label, .. } => concat3("Deleted node '", label.as_str(), "'"),
            GraphEvent::NodePropertiesChanged { old_label, new_label, .. } => {
                let head = concat3("Changed '", old_label.as_str(), "' to '");
                concat3(head.as_str(), new_label.as_str(), "'")
            },
            GraphEvent::NodeMoved { node_id, .. } => {
                let id = uuid_string(*node_id);
                concat("Moved node ", id.as_str())
            },
            GraphEvent::EdgeCreated { .. } => owned("Created edge"),
            GraphEvent::EdgeDeleted { .. } => owned("Deleted edge"),
        }
    }
}

/// The nodes with the node `id` given type `t` and label `l`.
pub open spec fn relabeled(nodes: Seq<GraphNode>, id: u128, t: NodeType, l: String) -> Seq<GraphNode> {
    nodes.map_values(|n: GraphNode| if n.id == id { GraphNode { node_type: t, label: l, ..n } } else { n })
}

/// The nodes with the node `id` moved to `p`.
pub open spec fn moved(nodes: Seq<GraphNode>, id: u128, p: Position) -> Seq<GraphNode> {
    nodes.map_values(|n: GraphNode| if n.id == id { GraphNode { position: p, ..n } } else { n })
}

/// What the event makes of a graph.
pub open spec fn applied_to(g: GraphState, e: GraphEvent) -> GraphState {
    match e {
        GraphEvent::NodeCreated { node_id, node_type, position, color, label, data, .. } => GraphState {
            nodes: with_node(g.nodes, GraphNode { id: node_id, node_type, label, position, color, data }),
            ..g
        },
        GraphEvent::NodeDeleted { node_id, .. } => GraphState {
            nodes: without_node(g.nodes, node_id),
            edges: edges_apart_from(g.edges, node_id),
            selected: selection_without(g.selected, node_id),
        },
        GraphEvent::NodePropertiesChanged { node_id, new_node_type, new_label, .. } => GraphState {
            nodes: relabeled(g.nodes, node_id, new_node_type, new_label),
            ..g
        },
        GraphEvent::NodeMoved { node_id, new_position, .. } => GraphState {
            nodes: moved(g.nodes, node_id, new_position),
            ..g
        },
        GraphEvent::EdgeCreated { from, to, edge_type, color, .. } => GraphState {
            edges: g.edges.push(GraphEdge { from, to, edge_type, color }),
            ..g
        },
        GraphEvent::EdgeDeleted { from, to, edge_type, .. } => GraphState {
            edges: edges_without(g.edges, from, to, edge_type),
            ..g
        },
    }
}

impl OrganizationGraph {
    /// Applies an event to the graph; the only change that undo and redo
    /// can follow.
    pub fn apply_event(&mut self, event: &GraphEvent)
        requires
            old(self).well_formed(),
        ensures
            final(self).well_formed(),
            final(self)@ == applied_to(old(self)@, *event),
    {
        match event {
            GraphEvent::NodeCreated { node_id, node_type, position, color, label, data, .. } => {
                self.add_node(
                    GraphNode {
                        id: *node_id,
                        node_type: *node_type,
                        label: label.clone(),
                        data: data.duplicate(),
                        position: *position,
                        color: *color,
                    },
                );
            },
            GraphEvent::NodeDeleted { node_id, .. } => {
                self.delete_node(*node_id);
            },
            GraphEvent::NodePropertiesChanged { node_id, new_node_type, new_label, .. } => {
                let ghost before = self.nodes@;
                let id = *node_id;
                match self.find_node(id) {
                    Some(i) => {
                        let n = GraphNode {
                            id: self.nodes[i].id,
                            node_type: *new_node_type,
                            label: new_label.clone(),
                            position: self.nodes[i].position,
                            color: self.nodes[i].color,
                            data: self.nodes[i].data.duplicate(),
                        };
                        self.nodes.set(i, n);
                        proof {
                            assert forall|k: int| 0 <= k < before.len() && k != i implies before[k].id != id by {
                                if k < i {
                                    assert(before[k].id != before[i as int].id);
                                } else {
                                    assert(before[i as int].id != before[k].id);
                                }
                            }
                            assert(self.nodes@ =~= relabeled(before, id, *new_node_type, *new_label));
                        }
                    },
                    None => {
                        assert(self.nodes@ =~= relabeled(before, id, *new_node_type, *new_label));
                    },
                }
            },
            GraphEvent::NodeMoved { node_id, new_position, .. } => {
                let ghost before = self.nodes@;
                let id = *node_id;
                match self.find_node(id) {
                    Some(i) => {
                        let n = GraphNode {
                            id: self.nodes[i].id,
                            node_type: self.nodes[i].node_type,
                            label: self.nodes[i].label.clone(),
                            position: *new_position,
                            color: self.nodes[i].color,
                            data: self.nodes[i].data.duplicate(),
                        };
                        self.nodes.set(i, n);
                        proof {
                            assert forall|k: int| 0 <= k < before.len() && k != i implies before[k].id != id by {
                                if k < i {
                                    assert(before[k].id != before[i as int].id);
                                } else {
                                    assert(before[i as int].id != before[k].id);
                                }
                            }
                            assert(self.nodes@ =~= moved(before, id, *new_position));
                        }
                    },
                    None => {
                        assert(self.nodes@ =~= moved(before, id, *new_position));
                    },
                }
            },
            GraphEvent::EdgeCreated { from, to, edge_type, color, .. } => {
                self.add_edge(*from, *to, *edge_type, *color);
            },
            GraphEvent::EdgeDeleted { from, to, edge_type, .. } => {
                self.edges = edges_filtered_without(&self.edges, *from, *to, *edge_type);
            },
        }
    }
}

/// No edge starts or ends at `id`.
pub open spec fn untouched(edges: Seq<GraphEdge>, id: u128) -> bool {
    forall|k: int| 0 <= k < edges.len() ==> edges[k].from != id && edges[k].to != id
}

/// No edge goes from `from` to `to` with type `t`.
pub open spec fn no_such_edge(edges: Seq<GraphEdge>, from: u128, to: u128, t: EdgeType) -> bool {
    forall|k: int| 0 <= k < edges.len() ==> !(edges[k].from == from && edges[k].to == to && edges[k].edge_type == t)
}

/// The states in which applying `e` and then its compensation leaves the
/// graph as it was: `e` states a change from what the graph holds.
pub open spec fn undoable_from(g: GraphState, e: GraphEvent) -> bool {
    match e {
        GraphEvent::NodeCreated { node_id, .. } => !has_node(g.nodes, node_id) && untouched(g.edges, node_id)
            && g.selected != Some(node_id),
        GraphEvent::NodeDeleted { node_id, node_type, position, color, label, data, .. } => {
            &&& g.nodes.len() > 0
            &&& g.nodes.last() == GraphNode { id: node_id, node_type, label, position, color, data }
            &&& untouched(g.edges, node_id)
            &&& g.selected != Some(node_id)
        },
        GraphEvent::NodePropertiesChanged { node_id, old_node_type, old_label, .. } => forall|k: int|
            0 <= k < g.nodes.len() && g.nodes[k].id == node_id ==> g.nodes[k].node_type == old_node_type
                && g.nodes[k].label == old_label,
        GraphEvent::NodeMoved { node_id, old_position, .. } => forall|k: int|
            0 <= k < g.nodes.len() && g.nodes[k].id == node_id ==> g.nodes[k].position == old_position,
        GraphEvent::EdgeCreated { from, to, edge_type, .. } => no_such_edge(g.edges, from, to, edge_type),
        GraphEvent::EdgeDeleted { from, to, edge_type, color, .. } => {
            &&& g.edges.len() > 0
            &&& g.edges.last() == GraphEdge { from, to, edge_type, color }
            &&& no_such_edge(g.edges.drop_last(), from, to, edge_type)
        },
    }
}

/// Filtering with a predicate that every element meets changes nothing.
pub proof fn lemma_filter_all<A>(s: Seq<A>, pred: spec_fn(A) -> bool)
    requires
        forall|k: int| 0 <= k < s.len() ==> pred(s[k]),
    ensures
        s.filter(pred) == s,
    decreases s.len(),
{
    reveal_with_fuel(Seq::filter, 1);
    if s.len() > 0 {
        lemma_filter_all(s.drop_last(), pred);
        assert(s.drop_last().push(s.last()) =~= s);
    }
}

/// Filtering `s` pushed with an element that fails the predicate is
/// filtering `s`.
pub proof fn lemma_filter_push_rejected<A>(s: Seq<A>, x: A, pred: spec_fn(A) -> bool)
    requires
        !pred(x),
    ensures
        s.push(x).filter(pred) == s.filter(pred),
{
    reveal_with_fuel(Seq::filter, 1);
    assert(s.push(x).drop_last() =~= s);
}

/// Undo by compensation: where an event states a change from what the graph
/// holds, applying it and then its compensating event gives the graph back.
pub proof fn lemma_compensation_restores(g: GraphState, e: GraphEvent, at: i64)
    requires
        ids_unique(g.nodes),
        undoable_from(g, e),
    ensures
        applied_to(applied_to(g, e), compensation(e, at)) == g,
{
    let h = applied_to(g, e);
    let r = applied_to(h, compensation(e, at));
    match e {
        GraphEvent::NodeCreated { node_id, node_type, position, color, label, data, .. } => {
            let n = GraphNode { id: node_id, node_type, label, position, color, data };
            let pred = |m: GraphNode| m.id != node_id;
            lemma_filter_push_rejected(g.nodes, n, pred);
            lemma_filter_all(g.nodes, pred);
            lemma_filter_all(g.edges, |x: GraphEdge| x.from != node_id && x.to != node_id);
            assert(r.nodes == g.nodes);
            assert(r.edges == g.edges);
        },
        GraphEvent::NodeDeleted { node_id, node_type, position, color, label, data, .. } => {
            let n = GraphNode { id: node_id, node_type, label, position, color, data };
            let pred = |m: GraphNode| m.id != node_id;
            let front = g.nodes.drop_last();
            assert(front.push(n) =~= g.nodes);
            assert forall|k: int| 0 <= k < front.len() implies pred(front[k]) by {
                assert(g.nodes[k].id != g.nodes[g.nodes.len() - 1].id);
            }
            lemma_filter_push_rejected(front, n, pred);
            lemma_filter_all(front, pred);
            lemma_filter_all(g.edges, |x: GraphEdge| x.from != node_id && x.to != node_id);
            assert(h.nodes == front);
            assert(!has_node(front, node_id));
            assert(r.nodes == g.nodes);
            assert(r.edges == g.edges);
        },
        GraphEvent::NodePropertiesChanged { node_id, .. } => {
            assert(r.nodes =~= g.nodes);
        },
        GraphEvent::NodeMoved { node_id, .. } => {
            assert(r.nodes =~= g.nodes);
        },
        GraphEvent::EdgeCreated { from, to, edge_type, color, .. } => {
            let x = GraphEdge { from, to, edge_type, color };
            let pred = |y: GraphEdge| !(y.from == from && y.to == to && y.edge_type == edge_type);
            lemma_filter_push_rejected(g.edges, x, pred);
            lemma_filter_all(g.edges, pred);
            assert(r.edges == g.edges);
        },
        GraphEvent::EdgeDeleted { from, to, edge_type, color, .. } => {
            let x = GraphEdge { from, to, edge_type, color };
            let pred = |y: GraphEdge| !(y.from == from && y.to == to && y.edge_type == edge_type);
            let front = g.edges.drop_last();
            assert(front.push(x) =~= g.edges);
            lemma_filter_push_rejected(front, x, pred);
            lemma_filter_all(front, pred);
            assert(r.edges == g.edges);
        },
    }
}

/// The events of an undo/redo history.
pub struct EventStackView {
    /// Applied events, oldest first: what undo takes back.
    pub applied: Seq<GraphEvent>,
    /// Undone events, oldest first: what redo applies again.
    pub undone: Seq<GraphEvent>,
    /// How many events the history keeps at most.
    pub max_size: nat,
}

/// The history after `e` was applied: `e` comes last, the oldest event
/// leaves when the history would grow beyond its size, and nothing is left
/// to redo.
pub open spec fn pushed(v: EventStackView, e: GraphEvent) -> EventStackView {
    let a = v.applied.push(e);
    EventStackView {
        applied: if a.len() > v.max_size { a.drop_first() } else { a },
        undone: Seq::empty(),
        max_size: v.max_size,
    }
}

/// The history after an undo: the last applied event moves to the undone
/// ones.
pub open spec fn after_undo(v: EventStackView) -> EventStackView {
    if v.applied.len() == 0 {
        v
    } else {
        EventStackView { applied: v.applied.drop_last(), undone: v.undone.push(v.applied.last()), max_size: v.max_size }
    }
}

/// The history after a redo: the last undone event moves back to the
/// applied ones.
pub open spec fn after_redo(v: EventStackView) -> EventStackView {
    if v.undone.len() == 0 {
        v
    } else {
        EventStackView { applied: v.applied.push(v.undone.last()), undone: v.undone.drop_last(), max_size: v.max_size }
    }
}

/// Undo/redo history of graph events, keeping at most `max_size` of them.
pub struct EventStack {
    applied: Vec<GraphEvent>,
    undone: Vec<GraphEvent>,
    max_size: usize,
}

impl View for EventStack {
    type V = EventStackView;

    closed spec fn view(&self) -> EventStackView {
        EventStackView { applied: self.applied@, undone: self.undone@, max_size: self.max_size as nat }
    }
}

impl EventStack {
    /// The history never holds more events than its size.
    #[verifier::type_invariant]
    spec fn within_size(self) -> bool {
        self.applied.len() + self.undone.len() <= self.max_size
    }

    /// An empty history that keeps at most `max_size` events.
    pub fn new(max_size: usize) -> (r: Self)
        ensures
            r@ == (EventStackView { applied: Seq::empty(), undone: Seq::empty(), max_size: max_size as nat }),
    {
        EventStack { applied: Vec::new(), undone: Vec::new(), max_size }
    }

    /// Records an applied event; what was undone can no longer be redone.
    pub fn push(&mut self, event: GraphEvent)
        ensures
            final(self)@ == pushed(old(self)@, event),
            final(self)@.applied.len() + final(self)@.undone.len() <= final(self)@.max_size,
    {
        proof {
            use_type_invariant(&*self);
        }
        let mut applied: Vec<GraphEvent> = Vec::new();
        std::mem::swap(&mut applied, &mut self.applied);
        applied.push(event);
        if applied.len() > self.max_size {
            applied.remove(0);
        }
        self.undone = Vec::new();
        self.applied = applied;
        proof {
            let a = old(self)@.applied.push(event);
            if a.len() > old(self)@.max_size {
                assert(a.remove(0) =~= a.drop_first());
            }
        }
    }

    /// Takes back the last applied event: returns its compensating event,
    /// or `None` when there is nothing to undo.
    pub fn undo(&mut self) -> (r: Option<GraphEvent>)
        ensures
            final(self)@ == after_undo(old(self)@),
            final(self)@.applied.len() + final(self)@.undone.len() <= final(self)@.max_size,
            match r {
                Some(c) => old(self)@.applied.len() > 0 && c == compensation(
                    old(self)@.applied.last(),
                    event_time(c),
                ),
                None => old(self)@.applied.len() == 0,
            },
    {
        proof {
            use_type_invariant(&*self);
        }
        let mut applied: Vec<GraphEvent> = Vec::new();
        std::mem::swap(&mut applied, &mut self.applied);
        let last = applied.pop();
        match last {
            Some(event) => {
                let compensating = event.compensate();
                let mut undone: Vec<GraphEvent> = Vec::new();
                std::mem::swap(&mut undone, &mut self.undone);
                undone.push(event);
                self.undone = undone;
                self.applied = applied;
                Some(compensating)
            },
            None => {
                self.applied = applied;
                None
            },
        }
    }

    /// Applies again the last undone event: returns that event, or `None`
    /// when there is nothing to redo.
    pub fn redo(&mut self) -> (r: Option<GraphEvent>)
        ensures
            final(self)@ == after_redo(old(self)@),
            final(self)@.applied.len() + final(self)@.undone.len() <= final(self)@.max_size,
            match r {
                Some(e) => old(self)@.undone.len() > 0 && e == old(self)@.undone.last(),
                None => old(self)@.undone.len() == 0,
            },
    {
        proof {
            use_type_invariant(&*self);
        }
        let mut undone: Vec<GraphEvent> = Vec::new();
        std::mem::swap(&mut undone, &mut self.undone);
        let last = undone.pop();
        match last {
            Some(event) => {
                let again = event.duplicate();
                let mut applied: Vec<GraphEvent> = Vec::new();
                std::mem::swap(&mut applied, &mut self.applied);
                applied.push(event);
                self.applied = applied;
                self.undone = undone;
                Some(again)
            },
            None => {
                self.undone = undone;
                None
            },
        }
    }

    /// Whether there is an event to undo.
    pub fn can_undo(&self) -> (r: bool)
        ensures
            r == (self@.applied.len() > 0),
    {
        self.applied.len() > 0
    }

    /// Whether there is an event to redo.
    pub fn can_redo(&self) -> (r: bool)
        ensures
            r == (self@.undone.len() > 0),
    {
        self.undone.len() > 0
    }

    /// How many applied events the history keeps.
    pub fn applied_count(&self) -> (r: usize)
        ensures
            r == self@.applied.len(),
    {
        self.applied.len()
    }

    /// The description of the event that undo would take back.
    pub fn undo_description(&self) -> (r: Option<String>)
        ensures
            match r {
                Some(d) => self@.applied.len() > 0 && d@ == event_description(self@.applied.last()),
                None => self@.applied.len() == 0,
            },
    {
        let n = self.applied.len();
        if n == 0 {
            None
        } else {
            Some(self.applied[n - 1].description())
        }
    }

    /// The description of the event that redo would apply again.
    pub fn redo_description(&self) -> (r: Option<String>)
        ensures
            match r {
                Some(d) => self@.undone.len() > 0 && d@ == event_description(self@.undone.last()),
                None => self@.undone.len() == 0,
            },
    {
        let n = self.undone.len();
        if n == 0 {
            None
        } else {
            Some(self.undone[n - 1].description())
        }
    }

    /// Forgets every event.
    pub fn clear(&mut self)
        ensures
            final(self)@ == (EventStackView { applied: Seq::empty(), undone: Seq::empty(), max_size: old(self)@.max_size }),
    {
        proof {
            use_type_invariant(&*self);
        }
        self.applied = Vec::new();
        self.undone = Vec::new();
    }
}

impl Default for EventStack {
    /// A history of 100 events.
    fn default() -> (r: Self)
        ensures
            r@ == (EventStackView { applied: Seq::empty(), undone: Seq::empty(), max_size: 100 }),
    {
        EventStack::new(100)
    }
}

/// Undo then redo gives the history back.
pub proof fn lemma_undo_then_redo(v: EventStackView)
    requires
        v.applied.len() > 0,
    ensures
        after_redo(after_undo(v)) == v,
{
    assert(v.applied.drop_last().push(v.applied.last()) =~= v.applied);
    assert(v.undone.push(v.applied.last()).drop_last() =~= v.undone);
}

/// Push, undo, redo: in a history that holds at least one event, after
/// recording `e`, undoing and redoing, the event redone is `e` itself, `e`
/// is again the last applied event (so it can be undone, and its
/// description is the one undo shows), and nothing is left to redo.
pub proof fn lemma_push_undo_redo(v: EventStackView, e: GraphEvent)
    requires
        v.max_size >= 1,
    ensures
        after_undo(pushed(v, e)).undone.len() > 0,
        after_undo(pushed(v, e)).undone.last() == e,
        after_redo(after_undo(pushed(v, e))).applied.len() > 0,
        after_redo(after_undo(pushed(v, e))).applied.last() == e,
        after_redo(after_undo(pushed(v, e))).undone.len() == 0,
        after_redo(after_undo(pushed(v, e))) == pushed(v, e),
{
    let p = pushed(v, e);
    let a = v.applied.push(e);
    assert(p.applied.len() > 0);
    assert(p.applied.last() == e) by {
        if a.len() > v.max_size {
            assert(a.drop_first().last() == a.last());
        }
    }
    lemma_undo_then_redo(p);
}

/// Redo then undo gives the history back.
pub proof fn lemma_redo_then_undo(v: EventStackView)
    requires
        v.undone.len() > 0,
    ensures
        after_undo(after_redo(v)) == v,
{
    assert(v.undone.drop_last().push(v.undone.last()) =~= v.undone);
    assert(v.applied.push(v.undone.last()).drop_last() =~= v.applied);
}

/// After a push there is nothing to redo, and, where the history keeps at
/// least one event, the pushed event is the one undo takes back; the events
/// before it keep their order.
pub proof fn lemma_push_forgets_redo(v: EventStackView, e: GraphEvent)
    requires
        v.applied.len() <= v.max_size,
    ensures
        pushed(v, e).undone.len() == 0,
        v.max_size > 0 ==> pushed(v, e).applied.last() == e,
        pushed(v, e).applied.len() <= v.max_size,
        v.applied.len() < v.max_size ==> pushed(v, e).applied == v.applied.push(e),
{
}

/// Compensating twice gives back the event, up to its timestamp.
pub proof fn lemma_compensation_twice(e: GraphEvent, at: i64)
    ensures
        compensation(compensation(e, at), event_time(e)) == e,
{
}

} // verus!
