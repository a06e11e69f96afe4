//! Editing the organization graph: selecting nodes and edges, dragging a
//! node, adding and deleting edges, and undo/redo through the event
//! history. Geometry (zoom, pan, cursor arithmetic and layouts) is the
//! drawing layer's; it hands this state canvas positions and its verdicts.

use vstd::prelude::*;
use std::collections::HashMap;
use crate::badges::{
    DragSource, DraggingRole, PersonRoleBadges, RoleBadge, RoleDragView, dragged_role_class, dragged_role_name,
};
use crate::role_palette::SeparationClass;
use crate::events::{
    EventStack, EventStackView, GraphEvent, after_redo, after_undo, applied_to, compensation, event_time, moved,
    now_millis, pushed, undoable_from, lemma_compensation_restores, lemma_compensation_twice,
};
use crate::graph_model::{
    ColorBits, EdgeType, GraphEdge, GraphNode, GraphState, LayoutAlgorithm, NodeType, OrganizationGraph, Position,
    has_node, ids_unique,
};
use crate::graph_pki::node_with_id;

verus! {

broadcast use vstd::std_specs::hash::group_hash_axioms;

/// What the user does to the graph, as far as it changes the graph or its
/// selection.
#[derive(Clone, Debug, PartialEq)]
pub enum OrganizationIntent {
    /// A node was clicked: it becomes the selection and any drag ends.
    NodeClicked(u128),
    /// Dragging of a node starts.
    NodeDragStarted(u128),
    /// The dragged node is now at this canvas position.
    NodeDraggedTo(Position),
    /// The drag ended; `moved` tells whether the node went far enough to
    /// count as a move.
    NodeDragEnded { moved: bool },
    /// The edge at this index was selected.
    EdgeSelected(usize),
    /// The edge at this index is to be deleted.
    EdgeDeleted(usize),
    /// An edge is to be added, drawn in `color`.
    AddEdge { from: u128, to: u128, edge_type: EdgeType, color: ColorBits },
    /// Take back the last recorded change.
    Undo,
    /// Apply again the last change taken back.
    Redo,
    /// Dragging of a role starts.
    RoleDragStarted(DragSource),
    /// The dragged role is now at this canvas position, over this person
    /// if any.
    RoleDragMoved { position: Position, hover_person: Option<u128> },
    /// The role drag is given up.
    RoleDragCancelled,
    /// The dragged role was dropped; what the drop assigns is decided by
    /// the caller, which holds the policy data.
    RoleDragDropped,
    /// A role was assigned to a person (a notice; nothing changes here).
    RoleAssigned { person_id: u128, role_name: String },
    /// A role was taken from a person (a notice; nothing changes here).
    RoleRemoved { person_id: u128, role_name: String },
    /// Zoom in one step (the drawing layer's view; nothing changes here).
    ZoomIn,
    /// Zoom out one step (the drawing layer's view; nothing changes here).
    ZoomOut,
    /// Back to the unzoomed, unpanned view (the drawing layer's).
    ResetView,
    /// Lay the graph out automatically (the drawing layer places nodes).
    AutoLayout,
    /// Lay the graph out with this algorithm (the drawing layer places
    /// nodes).
    ApplyLayout(LayoutAlgorithm),
}

/// The role drag once an intent is handled: a drag starts at the canvas
/// origin over no person with no conflicts, a move updates the position and
/// the person under the cursor of a drag in progress, and a cancel or drop
/// ends it.
pub open spec fn role_drag_after(d: Option<RoleDragView>, intent: OrganizationIntent) -> Option<RoleDragView> {
    match intent {
        OrganizationIntent::RoleDragStarted(source) => Some(
            RoleDragView {
                source,
                cursor_position: Position { x_bits: 0, y_bits: 0 },
                hover_person: None,
                sod_conflicts: Seq::empty(),
            },
        ),
        OrganizationIntent::RoleDragMoved { position, hover_person } => match d {
            Some(v) => Some(RoleDragView { cursor_position: position, hover_person, ..v }),
            None => None,
        },
        OrganizationIntent::RoleDragCancelled => None,
        OrganizationIntent::RoleDragDropped => None,
        _ => d,
    }
}

/// The editing state of the graph.
pub struct OrganizationConcept {
    graph: OrganizationGraph,
    selected_edge: Option<usize>,
    dragging_node: Option<u128>,
    drag_start_position: Option<Position>,
    event_stack: EventStack,
    role_badges: HashMap<u128, PersonRoleBadges>,
    dragging_role: Option<DraggingRole>,
    /// Which node types are drawn.
    pub filters: TypeFilters,
}

/// Which node types the editor draws.
#[derive(Clone, Copy, Debug, PartialEq, Eq, Structural)]
pub struct TypeFilters {
    /// People.
    pub show_people: bool,
    /// Organizations, units, locations, roles and policies.
    pub show_orgs: bool,
    /// The NATS hierarchy.
    pub show_nats: bool,
    /// Certificates.
    pub show_pki: bool,
    /// YubiKeys, their slots and status.
    pub show_yubikey: bool,
}

/// Whether the filters let a node of type `t` be drawn.
pub open spec fn type_shown(f: TypeFilters, t: NodeType) -> bool {
    match t {
        NodeType::Person => f.show_people,
        NodeType::Organization | NodeType::OrganizationalUnit | NodeType::Location | NodeType::Role
        | NodeType::Policy | NodeType::Manifest => f.show_orgs,
        NodeType::NatsOperator | NodeType::NatsAccount | NodeType::NatsUser | NodeType::NatsServiceAccount =>
            f.show_nats,
        NodeType::RootCertificate | NodeType::IntermediateCertificate | NodeType::LeafCertificate | NodeType::Key =>
            f.show_pki,
        NodeType::YubiKey | NodeType::PivSlot | NodeType::YubiKeyStatus => f.show_yubikey,
    }
}

/// What the editing state holds.
pub struct ConceptView {
    pub graph: GraphState,
    pub selected_edge: Option<usize>,
    pub dragging_node: Option<u128>,
    pub drag_start_position: Option<Position>,
    pub history: EventStackView,
}

/// The position of the node `id`, if there is one.
pub open spec fn position_of(g: GraphState, id: u128) -> Option<Position> {
    match node_with_id(g.nodes, id) {
        Some(n) => Some(n.position),
        None => None,
    }
}

/// What an intent makes of the editing state, given the time `t` at which
/// a recorded change is stamped and the time `at` of a compensating event.
pub open spec fn intent_applied(s: ConceptView, intent: OrganizationIntent, t: i64, at: i64) -> ConceptView {
    match intent {
        OrganizationIntent::NodeClicked(id) => ConceptView {
            graph: GraphState { selected: Some(id), ..s.graph },
            dragging_node: None,
            drag_start_position: None,
            ..s
        },
        OrganizationIntent::NodeDragStarted(id) => ConceptView {
            dragging_node: Some(id),
            drag_start_position: match position_of(s.graph, id) {
                Some(p) => Some(p),
                None => s.drag_start_position,
            },
            ..s
        },
        OrganizationIntent::NodeDraggedTo(p) => match s.dragging_node {
            Some(id) => ConceptView { graph: GraphState { nodes: moved(s.graph.nodes, id, p), ..s.graph }, ..s },
            None => s,
        },
        OrganizationIntent::NodeDragEnded { moved: far } => ConceptView {
            history: match (s.dragging_node, s.drag_start_position) {
                (Some(id), Some(old_position)) => match position_of(s.graph, id) {
                    Some(new_position) => if far {
                        pushed(s.history, GraphEvent::NodeMoved { node_id: id, old_position, new_position, timestamp: t })
                    } else {
                        s.history
                    },
                    None => s.history,
                },
                _ => s.history,
            },
            dragging_node: None,
            drag_start_position: None,
            ..s
        },
        OrganizationIntent::EdgeSelected(i) => ConceptView {
            graph: GraphState { selected: None, ..s.graph },
            selected_edge: Some(i),
            ..s
        },
        OrganizationIntent::EdgeDeleted(i) => if i < s.graph.edges.len() {
            let e = s.graph.edges[i as int];
            ConceptView {
                graph: GraphState { edges: s.graph.edges.remove(i as int), ..s.graph },
                history: pushed(
                    s.history,
                    GraphEvent::EdgeDeleted { from: e.from, to: e.to, edge_type: e.edge_type, color: e.color, timestamp: t },
                ),
                selected_edge: None,
                ..s
            }
        } else {
            s
        },
        OrganizationIntent::AddEdge { from, to, edge_type, color } => ConceptView {
            graph: GraphState { edges: s.graph.edges.push(GraphEdge { from, to, edge_type, color }), ..s.graph },
            ..s
        },
        OrganizationIntent::Undo => if s.history.applied.len() > 0 {
            ConceptView {
                graph: applied_to(s.graph, compensation(s.history.applied.last(), at)),
                history: after_undo(s.history),
                ..s
            }
        } else {
            s
        },
        OrganizationIntent::Redo => if s.history.undone.len() > 0 {
            ConceptView { graph: applied_to(s.graph, s.history.undone.last()), history: after_redo(s.history), ..s }
        } else {
            s
        },
        _ => s,
    }
}

impl OrganizationConcept {
    /// The graph is well formed (no two nodes share an identifier) and the
    /// history keeps up to 100 events.
    pub closed spec fn well_formed(&self) -> bool {
        &&& self.graph.well_formed()
        &&& self.event_stack@.max_size == 100
    }

    /// A well-formed editing state keeps a history of 100 events.
    pub proof fn lemma_history_size(&self)
        requires
            self.well_formed(),
        ensures
            self.view().history.max_size == 100,
    {
    }

    /// What the editing state holds.
    pub closed spec fn view(&self) -> ConceptView {
        ConceptView {
            graph: self.graph@,
            selected_edge: self.selected_edge,
            dragging_node: self.dragging_node,
            drag_start_position: self.drag_start_position,
            history: self.event_stack@,
        }
    }

    /// Which node types are drawn.
    pub closed spec fn type_filters(&self) -> TypeFilters {
        self.filters
    }

    /// The role badges shown on person nodes, by person.
    pub closed spec fn badges(&self) -> Map<u128, PersonRoleBadges> {
        self.role_badges@
    }

    /// The role being dragged, if any.
    pub closed spec fn role_drag(&self) -> Option<RoleDragView> {
        match self.dragging_role {
            Some(d) => Some(
                RoleDragView {
                    source: d.source,
                    cursor_position: d.cursor_position,
                    hover_person: d.hover_person,
                    sod_conflicts: d.sod_conflicts@,
                },
            ),
            None => None,
        }
    }

    /// An empty graph with an empty history of 100 events.
    pub fn new() -> (r: Self)
        ensures
            r.well_formed(),
            r.view().graph.nodes.len() == 0,
            r.view().graph.edges.len() == 0,
            r.view().graph.selected is None,
            r.view().selected_edge is None,
            r.view().dragging_node is None,
            r.view().drag_start_position is None,
            r.view().history == (EventStackView { applied: Seq::empty(), undone: Seq::empty(), max_size: 100 }),
            r.badges() == Map::<u128, PersonRoleBadges>::empty(),
            r.role_drag() is None,
            r.type_filters() == (TypeFilters {
                show_people: true,
                show_orgs: true,
                show_nats: true,
                show_pki: true,
                show_yubikey: true,
            }),
    {
        OrganizationConcept {
            graph: OrganizationGraph::new(),
            selected_edge: None,
            dragging_node: None,
            drag_start_position: None,
            event_stack: EventStack::default(),
            role_badges: HashMap::new(),
            dragging_role: None,
            filters: TypeFilters {
                show_people: true,
                show_orgs: true,
                show_nats: true,
                show_pki: true,
                show_yubikey: true,
            },
        }
    }

    /// The graph being edited.
    pub fn graph(&self) -> (r: &OrganizationGraph)
        requires
            self.well_formed(),
        ensures
            r@ == self.view().graph,
            r.well_formed(),
    {
        &self.graph
    }

    /// Whether the type filters let `node` be drawn.
    pub fn should_show_node(&self, node: &GraphNode) -> (r: bool)
        ensures
            r == type_shown(self.type_filters(), node.node_type),
    {
        match node.node_type {
            NodeType::Person => self.filters.show_people,
            NodeType::Organization | NodeType::OrganizationalUnit | NodeType::Location | NodeType::Role
            | NodeType::Policy | NodeType::Manifest => self.filters.show_orgs,
            NodeType::NatsOperator | NodeType::NatsAccount | NodeType::NatsUser | NodeType::NatsServiceAccount =>
                self.filters.show_nats,
            NodeType::RootCertificate | NodeType::IntermediateCertificate | NodeType::LeafCertificate
            | NodeType::Key => self.filters.show_pki,
            NodeType::YubiKey | NodeType::PivSlot | NodeType::YubiKeyStatus => self.filters.show_yubikey,
        }
    }

    /// The index of the selected edge.
    pub fn selected_edge(&self) -> (r: Option<usize>)
        ensures
            r == self.view().selected_edge,
    {
        self.selected_edge
    }

    /// The node being dragged.
    pub fn dragging_node(&self) -> (r: Option<u128>)
        ensures
            r == self.view().dragging_node,
    {
        self.dragging_node
    }

    /// Whether there is a change to take back.
    pub fn can_undo(&self) -> (r: bool)
        ensures
            r == (self.view().history.applied.len() > 0),
    {
        self.event_stack.can_undo()
    }

    /// Whether there is a change to apply again.
    pub fn can_redo(&self) -> (r: bool)
        ensures
            r == (self.view().history.undone.len() > 0),
    {
        self.event_stack.can_redo()
    }

    /// Applies an event to the graph; the history is not touched.
    pub fn apply_event(&mut self, event: &GraphEvent)
        requires
            old(self).well_formed(),
        ensures
            final(self).well_formed(),
            final(self).type_filters() == old(self).type_filters(),
            final(self).view() == (ConceptView { graph: applied_to(old(self).view().graph, *event), ..old(self).view() }),
            final(self).badges() == old(self).badges(),
            final(self).role_drag() == old(self).role_drag(),
    {
        self.graph.apply_event(event);
    }

    /// Records a change in the history, as the change undo takes back first.
    pub fn push_event(&mut self, event: GraphEvent)
        requires
            old(self).well_formed(),
        ensures
            final(self).well_formed(),
            final(self).type_filters() == old(self).type_filters(),
            final(self).view() == (ConceptView { history: pushed(old(self).view().history, event), ..old(self).view() }),
            final(self).badges() == old(self).badges(),
            final(self).role_drag() == old(self).role_drag(),
    {
        self.event_stack.push(event);
    }

    /// Forgets the graph, the selections, the drag and the history.
    pub fn clear(&mut self)
        requires
            old(self).well_formed(),
        ensures
            final(self).well_formed(),
            final(self).type_filters() == old(self).type_filters(),
            final(self).view().graph.nodes.len() == 0,
            final(self).view().graph.edges.len() == 0,
            final(self).view().graph.selected is None,
            final(self).view().selected_edge is None,
            final(self).view().dragging_node is None,
            final(self).view().drag_start_position == old(self).view().drag_start_position,
            final(self).view().history == (EventStackView {
                applied: Seq::empty(),
                undone: Seq::empty(),
                max_size: old(self).view().history.max_size,
            }),
            final(self).badges() == Map::<u128, PersonRoleBadges>::empty(),
            final(self).role_drag() == old(self).role_drag(),
    {
        self.graph = OrganizationGraph::new();
        self.selected_edge = None;
        self.dragging_node = None;
        self.event_stack.clear();
        self.role_badges.clear();
    }

    /// Sets the role badges shown on a person.
    pub fn set_person_role_badges(&mut self, person_id: u128, badges: Vec<RoleBadge>, has_more: bool)
        requires
            old(self).well_formed(),
        ensures
            final(self).well_formed(),
            final(self).type_filters() == old(self).type_filters(),
            final(self).badges() == old(self).badges().insert(person_id, PersonRoleBadges { badges, has_more }),
            final(self).view() == old(self).view(),
            final(self).role_drag() == old(self).role_drag(),
    {
        self.role_badges.insert(person_id, PersonRoleBadges { badges, has_more });
    }

    /// The role badges shown on a person, if any.
    pub fn get_person_role_badges(&self, person_id: &u128) -> (r: Option<&PersonRoleBadges>)
        ensures
            match r {
                Some(b) => self.badges().contains_key(*person_id) && *b == self.badges()[*person_id],
                None => !self.badges().contains_key(*person_id),
            },
    {
        self.role_badges.get(person_id)
    }

    /// Removes every role badge.
    pub fn clear_role_badges(&mut self)
        requires
            old(self).well_formed(),
        ensures
            final(self).well_formed(),
            final(self).type_filters() == old(self).type_filters(),
            final(self).badges() == Map::<u128, PersonRoleBadges>::empty(),
            final(self).view() == old(self).view(),
            final(self).role_drag() == old(self).role_drag(),
    {
        self.role_badges.clear();
    }

    /// Handles an intent; changes that can be undone are recorded in the
    /// history, stamped with the current time.
    pub fn handle_message(&mut self, message: OrganizationIntent)
        requires
            old(self).well_formed(),
        ensures
            final(self).well_formed(),
            final(self).type_filters() == old(self).type_filters(),
            exists|t: i64, at: i64| final(self).view() == intent_applied(old(self).view(), message, t, at),
            final(self).badges() == old(self).badges(),
            final(self).role_drag() == role_drag_after(old(self).role_drag(), message),
    {
        let ghost s = self.view();
        match message {
            OrganizationIntent::NodeClicked(id) => {
                self.graph.select_node(id);
                self.dragging_node = None;
                self.drag_start_position = None;
                assert(self.view() == intent_applied(s, message, 0, 0));
            },
            OrganizationIntent::NodeDragStarted(id) => {
                self.dragging_node = Some(id);
                match self.graph.find_node(id) {
                    Some(k) => {
                        proof {
                            lemma_found_node_position(self.graph@, k as int);
                        }
                        self.drag_start_position = Some(self.graph.nodes[k].position);
                    },
                    None => {},
                }
                assert(self.view() == intent_applied(s, message, 0, 0));
            },
            OrganizationIntent::NodeDraggedTo(p) => {
                match self.dragging_node {
                    Some(id) => {
                        let moved_event = GraphEvent::NodeMoved {
                            node_id: id,
                            old_position: p,
                            new_position: p,
                            timestamp: 0,
                        };
                        self.graph.apply_event(&moved_event);
                    },
                    None => {},
                }
                assert(self.view() == intent_applied(s, message, 0, 0));
            },
            OrganizationIntent::NodeDragEnded { moved: far } => {
                let t = now_millis();
                match (self.dragging_node, self.drag_start_position) {
                    (Some(id), Some(old_position)) => {
                        match self.graph.find_node(id) {
                            Some(k) => {
                                proof {
                                    lemma_found_node_position(self.graph@, k as int);
                                }
                                if far {
                                    let new_position = self.graph.nodes[k].position;
                                    self.event_stack.push(
                                        GraphEvent::NodeMoved { node_id: id, old_position, new_position, timestamp: t },
                                    );
                                }
                            },
                            None => {},
                        }
                    },
                    _ => {},
                }
                self.dragging_node = None;
                self.drag_start_position = None;
                assert(self.view() == intent_applied(s, message, t, 0));
            },
            OrganizationIntent::EdgeSelected(i) => {
                self.selected_edge = Some(i);
                self.graph.selected_node = None;
                assert(self.view() == intent_applied(s, message, 0, 0));
            },
            OrganizationIntent::EdgeDeleted(i) => {
                let t = now_millis();
                if i < self.graph.edges.len() {
                    let e = self.graph.edges[i];
                    self.event_stack.push(
                        GraphEvent::EdgeDeleted { from: e.from, to: e.to, edge_type: e.edge_type, color: e.color, timestamp: t },
                    );
                    self.graph.edges.remove(i);
                    self.selected_edge = None;
                }
                assert(self.view() == intent_applied(s, message, t, 0));
            },
            OrganizationIntent::AddEdge { from, to, edge_type, color } => {
                self.graph.add_edge(from, to, edge_type, color);
                assert(self.view() == intent_applied(s, message, 0, 0));
            },
            OrganizationIntent::Undo => {
                match self.event_stack.undo() {
                    Some(c) => {
                        self.graph.apply_event(&c);
                        assert(self.view() == intent_applied(s, message, 0, event_time(c)));
                    },
                    None => {
                        assert(self.view() == intent_applied(s, message, 0, 0));
                    },
                }
            },
            OrganizationIntent::Redo => {
                match self.event_stack.redo() {
                    Some(e) => {
                        self.graph.apply_event(&e);
                    },
                    None => {},
                }
                assert(self.view() == intent_applied(s, message, 0, 0));
            },
            OrganizationIntent::RoleDragStarted(source) => {
                self.start_role_drag(source, Position { x_bits: 0, y_bits: 0 });
                assert(self.view() == intent_applied(s, message, 0, 0));
            },
            OrganizationIntent::RoleDragMoved { position, hover_person } => {
                self.update_role_drag(position, hover_person);
                assert(self.view() == intent_applied(s, message, 0, 0));
            },
            OrganizationIntent::RoleDragCancelled | OrganizationIntent::RoleDragDropped => {
                self.cancel_role_drag();
                assert(self.view() == intent_applied(s, message, 0, 0));
            },
            OrganizationIntent::RoleAssigned { .. } | OrganizationIntent::RoleRemoved { .. } => {
                assert(self.view() == intent_applied(s, message, 0, 0));
            },
            OrganizationIntent::ZoomIn | OrganizationIntent::ZoomOut | OrganizationIntent::ResetView
            | OrganizationIntent::AutoLayout | OrganizationIntent::ApplyLayout(_) => {
                assert(self.view() == intent_applied(s, message, 0, 0));
            },
        }
    }

    /// Starts dragging a role from `source`, with the cursor at
    /// `cursor_position`, over no person and with no conflicts.
    pub fn start_role_drag(&mut self, source: DragSource, cursor_position: Position)
        ensures
            final(self).view() == old(self).view(),
            final(self).well_formed() == old(self).well_formed(),
            final(self).badges() == old(self).badges(),
            final(self).type_filters() == old(self).type_filters(),
            final(self).role_drag() == Some(
                RoleDragView { source, cursor_position, hover_person: None, sod_conflicts: Seq::empty() },
            ),
    {
        self.dragging_role = Some(
            DraggingRole { source, cursor_position, hover_person: None, sod_conflicts: Vec::new() },
        );
    }

    /// Moves a role drag in progress to `cursor_position`, over
    /// `hover_person`; the person under the cursor is the drawing layer's
    /// finding. Without a drag nothing changes.
    pub fn update_role_drag(&mut self, cursor_position: Position, hover_person: Option<u128>)
        ensures
            final(self).view() == old(self).view(),
            final(self).well_formed() == old(self).well_formed(),
            final(self).badges() == old(self).badges(),
            final(self).type_filters() == old(self).type_filters(),
            final(self).role_drag() == match old(self).role_drag() {
                Some(v) => Some(RoleDragView { cursor_position, hover_person, ..v }),
                None => None,
            },
    {
        match self.dragging_role.take() {
            Some(d) => {
                self.dragging_role = Some(
                    DraggingRole {
                        source: d.source,
                        cursor_position,
                        hover_person,
                        sod_conflicts: d.sod_conflicts,
                    },
                );
            },
            None => {},
        }
    }

    /// Ends the role drag.
    pub fn cancel_role_drag(&mut self)
        ensures
            final(self).view() == old(self).view(),
            final(self).well_formed() == old(self).well_formed(),
            final(self).badges() == old(self).badges(),
            final(self).type_filters() == old(self).type_filters(),
            final(self).role_drag() is None,
    {
        self.dragging_role = None;
    }

    /// The name of the role being dragged, if any.
    pub fn get_dragging_role_name(&self) -> (r: Option<&str>)
        ensures
            match self.role_drag() {
                Some(d) => r matches Some(n) && n@ == dragged_role_name(d.source)@,
                None => r is None,
            },
    {
        match &self.dragging_role {
            Some(d) => match &d.source {
                DragSource::RoleFromPalette { role_name, .. } => Some(role_name.as_str()),
                DragSource::RoleFromPerson { role_name, .. } => Some(role_name.as_str()),
            },
            None => None,
        }
    }

    /// The separation class of the role being dragged, if any; the drawing
    /// layer colours the drag by it.
    pub fn get_dragging_role_class(&self) -> (r: Option<SeparationClass>)
        ensures
            r == match self.role_drag() {
                Some(d) => Some(dragged_role_class(d.source)),
                None => None,
            },
    {
        match &self.dragging_role {
            Some(d) => match &d.source {
                DragSource::RoleFromPalette { separation_class, .. } => Some(*separation_class),
                DragSource::RoleFromPerson { separation_class, .. } => Some(*separation_class),
            },
            None => None,
        }
    }
}

impl Default for OrganizationConcept {
    /// An empty graph with an empty history of 100 events.
    fn default() -> (r: Self)
        ensures
            r.well_formed(),
            r.view().graph.nodes.len() == 0,
            r.view().graph.edges.len() == 0,
            r.view().history.applied.len() == 0,
            r.view().history.undone.len() == 0,
            r.view().history.max_size == 100,
    {
        OrganizationConcept::new()
    }
}

/// With unique identifiers, the position found at index `k` is the
/// position of the node with its identifier.
proof fn lemma_found_node_position(g: GraphState, k: int)
    requires
        ids_unique(g.nodes),
        0 <= k < g.nodes.len(),
    ensures
        position_of(g, g.nodes[k].id) == Some(g.nodes[k].position),
{
    let id = g.nodes[k].id;
    assert(has_node(g.nodes, id));
    let j = choose|j: int| 0 <= j < g.nodes.len() && g.nodes[j].id == id;
    if j != k {
        if j < k {
            assert(g.nodes[j].id != g.nodes[k].id);
        } else {
            assert(g.nodes[k].id != g.nodes[j].id);
        }
    }
}

/// Redo after undo: where the graph holds what the compensating event
/// changes, applying the compensation and then the event itself gives the
/// graph back, whatever the timestamps.
pub proof fn lemma_redo_after_undo_restores(g: GraphState, e: GraphEvent, at: i64)
    requires
        ids_unique(g.nodes),
        undoable_from(g, compensation(e, at)),
    ensures
        applied_to(applied_to(g, compensation(e, at)), e) == g,
{
    let c = compensation(e, at);
    lemma_compensation_restores(g, c, event_time(e));
    lemma_compensation_twice(e, at);
}

} // verus!
