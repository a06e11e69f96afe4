//! The read model of the organization graph and the views of its
//! relations: a projection holds the entities and relations that domain
//! events leave, with indexes by end, by kind and by category; the colour,
//! line style and label of an edge are derived from the relation it shows.

use std::collections::HashMap;
use vstd::prelude::*;
use crate::events::now_millis;
use crate::graph_model::NodeType;
use crate::ids::fresh_id;
use crate::text::owned;

verus! {

broadcast use vstd::std_specs::hash::group_hash_axioms;

/// The area a relation belongs to.
#[derive(Clone, Copy, Debug, PartialEq, Eq, Structural)]
pub enum RelationCategory {
    Organizational,
    KeyManagement,
    Policy,
    Trust,
    Nats,
    Pki,
    YubiKey,
}

/// The colour of an edge, one per relation category; the drawing layer
/// turns each into its RGB value.
#[derive(Clone, Copy, Debug, PartialEq, Eq, Structural)]
pub enum EdgePalette {
    /// RGB (0.5, 0.5, 0.6).
    Gray,
    /// RGB (0.2, 0.6, 0.8).
    Cyan,
    /// RGB (0.6, 0.3, 0.8).
    Purple,
    /// RGB (0.8, 0.6, 0.2).
    Gold,
    /// RGB (0.3, 0.7, 0.4).
    Green,
    /// RGB (0.8, 0.2, 0.2).
    Red,
    /// RGB (0.2, 0.4, 0.8).
    Blue,
}

/// How the line of an edge is drawn.
#[derive(Clone, Copy, Debug, PartialEq, Eq, Structural)]
pub enum EdgeStyle {
    Solid,
    Dashed,
    Dotted,
}

/// The kind of a relation, by what the views read of it: its label,
/// whether it holds for a period of time, whether it goes both ways, and
/// its category.
#[derive(Clone, Debug, PartialEq)]
pub struct RelationType {
    pub label: String,
    pub temporal: bool,
    pub bidirectional: bool,
    pub category: RelationCategory,
}

/// A relation between two entities.
#[derive(Clone, Debug, PartialEq)]
pub struct DomainRelation {
    pub id: u128,
    pub from: u128,
    pub to: u128,
    pub relation_type: RelationType,
}

/// What is drawn for a relation.
#[derive(Clone, Debug, PartialEq)]
pub struct EdgeView {
    pub from_id: u128,
    pub to_id: u128,
    pub color: EdgePalette,
    pub style: EdgeStyle,
    pub label: Option<String>,
}

/// The colour of a category.
pub open spec fn palette_of(category: RelationCategory) -> EdgePalette {
    match category {
        RelationCategory::Organizational => EdgePalette::Gray,
        RelationCategory::KeyManagement => EdgePalette::Cyan,
        RelationCategory::Policy => EdgePalette::Purple,
        RelationCategory::Trust => EdgePalette::Gold,
        RelationCategory::Nats => EdgePalette::Green,
        RelationCategory::Pki => EdgePalette::Red,
        RelationCategory::YubiKey => EdgePalette::Blue,
    }
}

/// The line style of a relation type: dashed when it holds for a period,
/// dotted when it goes both ways, solid otherwise.
pub open spec fn style_of(t: RelationType) -> EdgeStyle {
    if t.temporal {
        EdgeStyle::Dashed
    } else if t.bidirectional {
        EdgeStyle::Dotted
    } else {
        EdgeStyle::Solid
    }
}

/// The colour of the edges of a relation category.
pub fn derive_edge_color(category: RelationCategory) -> (r: EdgePalette)
    ensures
        r == palette_of(category),
{
    match category {
        RelationCategory::Organizational => EdgePalette::Gray,
        RelationCategory::KeyManagement => EdgePalette::Cyan,
        RelationCategory::Policy => EdgePalette::Purple,
        RelationCategory::Trust => EdgePalette::Gold,
        RelationCategory::Nats => EdgePalette::Green,
        RelationCategory::Pki => EdgePalette::Red,
        RelationCategory::YubiKey => EdgePalette::Blue,
    }
}

/// The line style of the edges of a relation type.
pub fn derive_edge_style(relation_type: &RelationType) -> (r: EdgeStyle)
    ensures
        r == style_of(*relation_type),
{
    if relation_type.temporal {
        EdgeStyle::Dashed
    } else if relation_type.bidirectional {
        EdgeStyle::Dotted
    } else {
        EdgeStyle::Solid
    }
}

/// The view of a relation: its ends, the colour of its category, the style
/// of its type and the label of its type.
pub fn create_edge_view(relation: &DomainRelation) -> (r: EdgeView)
    ensures
        r.from_id == relation.from,
        r.to_id == relation.to,
        r.color == palette_of(relation.relation_type.category),
        r.style == style_of(relation.relation_type),
        r.label matches Some(l) && l@ == relation.relation_type.label@,
{
    let color = derive_edge_color(relation.relation_type.category);
    let style = derive_edge_style(&relation.relation_type);
    let label = Some(owned(relation.relation_type.label.as_str()));
    EdgeView { from_id: relation.from, to_id: relation.to, color, style, label }
}

/// Different categories are drawn in different colours.
pub proof fn lemma_palette_tells_categories_apart(a: RelationCategory, b: RelationCategory)
    ensures
        palette_of(a) == palette_of(b) ==> a == b,
{
}


impl RelationType {
    /// A copy of this relation type.
    pub fn duplicate(&self) -> (r: RelationType)
        ensures
            r == *self,
    {
        RelationType {
            label: self.label.clone(),
            temporal: self.temporal,
            bidirectional: self.bidirectional,
            category: self.category,
        }
    }
}

impl DomainRelation {
    /// A copy of this relation.
    pub fn duplicate(&self) -> (r: DomainRelation)
        ensures
            r == *self,
    {
        DomainRelation { id: self.id, from: self.from, to: self.to, relation_type: self.relation_type.duplicate() }
    }
}

/// A domain event of the organization graph, by what the projection reads
/// of it; every event carries when it happened, in milliseconds since the
/// Unix epoch.
#[derive(Clone, Debug)]
pub enum GraphDomainEvent {
    EntityAdded { entity_id: u128, entity_type: String, timestamp: i64 },
    EntityRemoved { entity_id: u128, timestamp: i64 },
    RelationEstablished { relation_id: u128, from: u128, to: u128, relation_type: RelationType, timestamp: i64 },
    RelationDissolved { relation_id: u128, timestamp: i64 },
    RelationModified { relation_id: u128, timestamp: i64 },
    GraphRestructured { timestamp: i64 },
    SubgraphMerged { timestamp: i64 },
}

/// When an event happened.
pub open spec fn domain_event_time(e: GraphDomainEvent) -> i64 {
    match e {
        GraphDomainEvent::EntityAdded { timestamp, .. } => timestamp,
        GraphDomainEvent::EntityRemoved { timestamp, .. } => timestamp,
        GraphDomainEvent::RelationEstablished { timestamp, .. } => timestamp,
        GraphDomainEvent::RelationDissolved { timestamp, .. } => timestamp,
        GraphDomainEvent::RelationModified { timestamp, .. } => timestamp,
        GraphDomainEvent::GraphRestructured { timestamp } => timestamp,
        GraphDomainEvent::SubgraphMerged { timestamp } => timestamp,
    }
}

impl GraphDomainEvent {
    /// A new relation of type `relation_type` from `from` to `to`,
    /// established now under a fresh identifier.
    pub fn relation_established(from: u128, to: u128, relation_type: RelationType) -> (r: GraphDomainEvent)
        ensures
            r matches GraphDomainEvent::RelationEstablished { from: f, to: t, relation_type: rt, .. } && f == from
                && t == to && rt == relation_type,
    {
        GraphDomainEvent::RelationEstablished {
            relation_id: fresh_id(),
            from,
            to,
            relation_type,
            timestamp: now_millis(),
        }
    }

    /// When the event happened.
    pub fn timestamp(&self) -> (r: i64)
        ensures
            r == domain_event_time(*self),
    {
        match self {
            GraphDomainEvent::EntityAdded { timestamp, .. } => *timestamp,
            GraphDomainEvent::EntityRemoved { timestamp, .. } => *timestamp,
            GraphDomainEvent::RelationEstablished { timestamp, .. } => *timestamp,
            GraphDomainEvent::RelationDissolved { timestamp, .. } => *timestamp,
            GraphDomainEvent::RelationModified { timestamp, .. } => *timestamp,
            GraphDomainEvent::GraphRestructured { timestamp } => *timestamp,
            GraphDomainEvent::SubgraphMerged { timestamp } => *timestamp,
        }
    }
}

/// The slot of a node type in the index of entities by type.
pub open spec fn type_slot(t: NodeType) -> int {
    match t {
        NodeType::Person => 0,
        NodeType::Organization => 1,
        NodeType::OrganizationalUnit => 2,
        NodeType::NatsOperator => 3,
        NodeType::NatsAccount => 4,
        NodeType::NatsUser => 5,
        NodeType::NatsServiceAccount => 6,
        NodeType::RootCertificate => 7,
        NodeType::IntermediateCertificate => 8,
        NodeType::LeafCertificate => 9,
        NodeType::YubiKey => 10,
        NodeType::PivSlot => 11,
        NodeType::YubiKeyStatus => 12,
        NodeType::Location => 13,
        NodeType::Role => 14,
        NodeType::Policy => 15,
        NodeType::Key => 16,
        NodeType::Manifest => 17,
    }
}

fn type_slot_of(t: NodeType) -> (r: usize)
    ensures
        r == type_slot(t),
{
    match t {
        NodeType::Person => 0,
        NodeType::Organization => 1,
        NodeType::OrganizationalUnit => 2,
        NodeType::NatsOperator => 3,
        NodeType::NatsAccount => 4,
        NodeType::NatsUser => 5,
        NodeType::NatsServiceAccount => 6,
        NodeType::RootCertificate => 7,
        NodeType::IntermediateCertificate => 8,
        NodeType::LeafCertificate => 9,
        NodeType::YubiKey => 10,
        NodeType::PivSlot => 11,
        NodeType::YubiKeyStatus => 12,
        NodeType::Location => 13,
        NodeType::Role => 14,
        NodeType::Policy => 15,
        NodeType::Key => 16,
        NodeType::Manifest => 17,
    }
}

/// The slot of a relation category in the index of relations by category.
pub open spec fn category_slot(c: RelationCategory) -> int {
    match c {
        RelationCategory::Organizational => 0,
        RelationCategory::KeyManagement => 1,
        RelationCategory::Policy => 2,
        RelationCategory::Trust => 3,
        RelationCategory::Nats => 4,
        RelationCategory::Pki => 5,
        RelationCategory::YubiKey => 6,
    }
}

fn category_slot_of(c: RelationCategory) -> (r: usize)
    ensures
        r == category_slot(c),
{
    match c {
        RelationCategory::Organizational => 0,
        RelationCategory::KeyManagement => 1,
        RelationCategory::Policy => 2,
        RelationCategory::Trust => 3,
        RelationCategory::Nats => 4,
        RelationCategory::Pki => 5,
        RelationCategory::YubiKey => 6,
    }
}

/// What a projection holds: the entities by identifier with their kind,
/// the relations by identifier, the lists of relation identifiers by start,
/// by end and by category, the lists of entity identifiers by kind, the
/// number of changes and when the last one happened. A list that was never
/// filled is empty.
#[verifier::ext_equal]
pub struct ProjectionView {
    pub entities: Map<u128, NodeType>,
    pub relations: Map<u128, DomainRelation>,
    pub outgoing: Map<u128, Seq<u128>>,
    pub incoming: Map<u128, Seq<u128>>,
    pub by_type: Map<NodeType, Seq<u128>>,
    pub by_category: Map<RelationCategory, Seq<u128>>,
    pub version: u64,
    pub last_updated: Option<i64>,
}

/// The category of a relation.
pub open spec fn category_of(r: DomainRelation) -> RelationCategory {
    r.relation_type.category
}

/// Every relation is listed under its start, its end and its category.
pub open spec fn indexed(v: ProjectionView) -> bool {
    forall|x: u128|
        #[trigger] v.relations.contains_key(x) ==> {
            &&& v.outgoing[v.relations[x].from].contains(x)
            &&& v.incoming[v.relations[x].to].contains(x)
            &&& v.by_category[category_of(v.relations[x])].contains(x)
        }
}

/// The projection once relation `r` is established: it is stored under its
/// identifier, in place of any relation with that identifier, and its
/// identifier is appended to the lists of its start, its end and its
/// category.
pub open spec fn with_relation(v: ProjectionView, r: DomainRelation) -> ProjectionView {
    ProjectionView {
        relations: v.relations.insert(r.id, r),
        outgoing: v.outgoing.insert(r.from, v.outgoing[r.from].push(r.id)),
        incoming: v.incoming.insert(r.to, v.incoming[r.to].push(r.id)),
        by_category: v.by_category.insert(category_of(r), v.by_category[category_of(r)].push(r.id)),
        ..v
    }
}

/// The projection once relation `id` is dissolved: if there is such a
/// relation it is gone, and its identifier is taken out of the lists of its
/// start, its end and its category; otherwise nothing changes.
pub open spec fn without_relation(v: ProjectionView, id: u128) -> ProjectionView {
    if v.relations.contains_key(id) {
        let r = v.relations[id];
        ProjectionView {
            relations: v.relations.remove(id),
            outgoing: v.outgoing.insert(r.from, v.outgoing[r.from].filter(other_than(id))),
            incoming: v.incoming.insert(r.to, v.incoming[r.to].filter(other_than(id))),
            by_category: v.by_category.insert(
                category_of(r),
                v.by_category[category_of(r)].filter(other_than(id)),
            ),
            ..v
        }
    } else {
        v
    }
}

/// Whether an identifier differs from `id`.
pub open spec fn other_than(id: u128) -> spec_fn(u128) -> bool {
    |x: u128| x != id
}

/// The relations with identifiers in `ids`, in order, skipping those that
/// are gone.
pub open spec fn resolved(ids: Seq<u128>, relations: Map<u128, DomainRelation>) -> Seq<DomainRelation>
    decreases ids.len(),
{
    if ids.len() == 0 {
        Seq::empty()
    } else {
        let rest = resolved(ids.drop_last(), relations);
        if relations.contains_key(ids.last()) {
            rest.push(relations[ids.last()])
        } else {
            rest
        }
    }
}

/// The identifiers in `ids` that are keys of `m`, in order.
pub open spec fn present_ids<V>(ids: Seq<u128>, m: Map<u128, V>) -> Seq<u128> {
    ids.filter(|x: u128| m.contains_key(x))
}

/// The read model of the organization graph.
pub struct GraphProjection {
    entities: HashMap<u128, NodeType>,
    relations: HashMap<u128, DomainRelation>,
    outgoing_relations: HashMap<u128, Vec<u128>>,
    incoming_relations: HashMap<u128, Vec<u128>>,
    entities_by_type: Vec<Vec<u128>>,
    relations_by_category: Vec<Vec<u128>>,
    version: u64,
    last_updated: Option<i64>,
}

/// The list under `k`, empty if there is none.
pub open spec fn list_at(m: Map<u128, Vec<u128>>, k: u128) -> Seq<u128> {
    if m.contains_key(k) {
        m[k]@
    } else {
        Seq::empty()
    }
}

impl View for GraphProjection {
    type V = ProjectionView;

    closed spec fn view(&self) -> ProjectionView {
        ProjectionView {
            entities: self.entities@,
            relations: self.relations@,
            outgoing: Map::total(|k: u128| list_at(self.outgoing_relations@, k)),
            incoming: Map::total(|k: u128| list_at(self.incoming_relations@, k)),
            by_type: Map::total(|t: NodeType| self.entities_by_type@[type_slot(t)]@),
            by_category: Map::total(|c: RelationCategory| self.relations_by_category@[category_slot(c)]@),
            version: self.version,
            last_updated: self.last_updated,
        }
    }
}

/// The list under `k` with `id` appended.
fn appended(m: &mut HashMap<u128, Vec<u128>>, k: u128, id: u128)
    ensures
        forall|j: u128| #[trigger] list_at(final(m)@, j) == if j == k { list_at(old(m)@, k).push(id) } else {
            list_at(old(m)@, j)
        },
{
    let mut list = match m.remove(&k) {
        Some(l) => l,
        None => Vec::new(),
    };
    list.push(id);
    m.insert(k, list);
}

/// `ids` without `id`, in order.
fn without_id(ids: &Vec<u128>, id: u128) -> (r: Vec<u128>)
    ensures
        r@ == ids@.filter(other_than(id)),
{
    let ghost pred = other_than(id);
    let mut out: Vec<u128> = Vec::new();
    let mut i: usize = 0;
    while i < ids.len()
        invariant
            i <= ids@.len(),
            pred == other_than(id),
            out@ == ids@.take(i as int).filter(pred),
        decreases ids.len() - i,
    {
        proof {
            reveal_with_fuel(Seq::filter, 1);
            assert(ids@.take(i + 1).drop_last() =~= ids@.take(i as int));
        }
        if ids[i] != id {
            out.push(ids[i]);
        }
        proof {
            assert(out@ =~= ids@.take(i + 1).filter(pred));
        }
        i = i + 1;
    }
    proof {
        assert(ids@.take(ids@.len() as int) =~= ids@);
    }
    out
}

/// The list under `k` without `id`; a missing list stays missing.
fn dropped(m: &mut HashMap<u128, Vec<u128>>, k: u128, id: u128)
    ensures
        forall|j: u128| #[trigger] list_at(final(m)@, j) == if j == k {
            list_at(old(m)@, k).filter(other_than(id))
        } else {
            list_at(old(m)@, j)
        },
{
    match m.remove(&k) {
        Some(list) => {
            let kept = without_id(&list, id);
            m.insert(k, kept);
        },
        None => {
            proof {
                reveal_with_fuel(Seq::filter, 1);
                assert(Seq::<u128>::empty().filter(other_than(id)) =~= Seq::<u128>::empty());
            }
        },
    }
}

/// Establishing a relation keeps every relation indexed.
pub proof fn lemma_with_relation_indexed(v: ProjectionView, r: DomainRelation)
    requires
        indexed(v),
    ensures
        indexed(with_relation(v, r)),
{
    let w = with_relation(v, r);
    assert forall|x: u128| #[trigger] w.relations.contains_key(x) implies {
        &&& w.outgoing[w.relations[x].from].contains(x)
        &&& w.incoming[w.relations[x].to].contains(x)
        &&& w.by_category[category_of(w.relations[x])].contains(x)
    } by {
        if x == r.id {
            assert(w.outgoing[r.from].last() == x);
            assert(w.incoming[r.to].last() == x);
            assert(w.by_category[category_of(r)].last() == x);
        } else {
            let q = v.relations[x];
            assert(w.relations[x] == q);
            assert(v.outgoing[q.from].contains(x));
            let i = choose|i: int| 0 <= i < v.outgoing[q.from].len() && v.outgoing[q.from][i] == x;
            assert(w.outgoing[q.from][i] == x);
            let j = choose|j: int| 0 <= j < v.incoming[q.to].len() && v.incoming[q.to][j] == x;
            assert(w.incoming[q.to][j] == x);
            let k = choose|k: int|
                0 <= k < v.by_category[category_of(q)].len() && v.by_category[category_of(q)][k] == x;
            assert(w.by_category[category_of(q)][k] == x);
        }
    }
}

/// Dissolving a relation keeps every other relation indexed.
pub proof fn lemma_without_relation_indexed(v: ProjectionView, id: u128)
    requires
        indexed(v),
    ensures
        indexed(without_relation(v, id)),
{
    let w = without_relation(v, id);
    if v.relations.contains_key(id) {
        let r = v.relations[id];
        let keep = other_than(id);
        assert forall|x: u128| #[trigger] w.relations.contains_key(x) implies {
            &&& w.outgoing[w.relations[x].from].contains(x)
            &&& w.incoming[w.relations[x].to].contains(x)
            &&& w.by_category[category_of(w.relations[x])].contains(x)
        } by {
            let q = v.relations[x];
            assert(x != id);
            assert(w.relations[x] == q);
            let i = choose|i: int| 0 <= i < v.outgoing[q.from].len() && v.outgoing[q.from][i] == x;
            v.outgoing[q.from].filter_lemma(keep);
            assert(v.outgoing[q.from].filter(keep).contains(x));
            let j = choose|j: int| 0 <= j < v.incoming[q.to].len() && v.incoming[q.to][j] == x;
            v.incoming[q.to].filter_lemma(keep);
            assert(v.incoming[q.to].filter(keep).contains(x));
            let k = choose|k: int|
                0 <= k < v.by_category[category_of(q)].len() && v.by_category[category_of(q)][k] == x;
            v.by_category[category_of(q)].filter_lemma(keep);
            assert(v.by_category[category_of(q)].filter(keep).contains(x));
        }
    }
}

/// Whether relation `x` starts or ends at entity `e`.
pub open spec fn touches(v: ProjectionView, e: u128, x: u128) -> bool {
    v.relations.contains_key(x) && (v.relations[x].from == e || v.relations[x].to == e)
}

/// Whether relation `x` is among `done` and starts or ends at `e`.
pub open spec fn dropped_with(v: ProjectionView, e: u128, done: Set<u128>, x: u128) -> bool {
    done.contains(x) && touches(v, e, x)
}

/// The identifiers to keep in the list of start `k` once the relations of
/// `done` that start or end at `e` are gone.
pub open spec fn kept_from(v: ProjectionView, e: u128, done: Set<u128>, k: u128) -> spec_fn(u128) -> bool {
    |x: u128| !(dropped_with(v, e, done, x) && v.relations[x].from == k)
}

/// The same for the list of end `k`.
pub open spec fn kept_to(v: ProjectionView, e: u128, done: Set<u128>, k: u128) -> spec_fn(u128) -> bool {
    |x: u128| !(dropped_with(v, e, done, x) && v.relations[x].to == k)
}

/// The same for the list of category `c`.
pub open spec fn kept_in(v: ProjectionView, e: u128, done: Set<u128>, c: RelationCategory) -> spec_fn(
    u128,
) -> bool {
    |x: u128| !(dropped_with(v, e, done, x) && category_of(v.relations[x]) == c)
}

/// The projection once the relations of `done` that start or end at `e`
/// are dissolved.
pub open spec fn without_touching(v: ProjectionView, e: u128, done: Set<u128>) -> ProjectionView {
    ProjectionView {
        relations: Map::new(
            |x: u128| v.relations.contains_key(x) && !dropped_with(v, e, done, x),
            |x: u128| v.relations[x],
        ),
        outgoing: Map::total(|k: u128| v.outgoing[k].filter(kept_from(v, e, done, k))),
        incoming: Map::total(|k: u128| v.incoming[k].filter(kept_to(v, e, done, k))),
        by_category: Map::total(|c: RelationCategory| v.by_category[c].filter(kept_in(v, e, done, c))),
        ..v
    }
}

/// The projection once entity `e` is removed: if it is there, it is gone
/// from the entities and from the list of its kind, and every relation that
/// starts or ends at it is dissolved; otherwise nothing changes.
pub open spec fn without_entity(v: ProjectionView, e: u128) -> ProjectionView {
    if v.entities.contains_key(e) {
        let t = v.entities[e];
        let u = ProjectionView {
            entities: v.entities.remove(e),
            by_type: v.by_type.insert(t, v.by_type[t].filter(other_than(e))),
            ..v
        };
        without_touching(u, e, Set::full())
    } else {
        v
    }
}

/// Filtering twice keeps what both predicates keep.
pub proof fn lemma_filter_twice(s: Seq<u128>, p: spec_fn(u128) -> bool, q: spec_fn(u128) -> bool)
    ensures
        s.filter(p).filter(q) =~= s.filter(|x: u128| p(x) && q(x)),
    decreases s.len(),
{
    reveal_with_fuel(Seq::filter, 1);
    let pq = |x: u128| p(x) && q(x);
    if s.len() > 0 {
        let rest = s.drop_last();
        let a = s.last();
        lemma_filter_twice(rest, p, q);
        let t = rest.filter(p);
        if p(a) {
            assert(s.filter(p) == t.push(a));
            assert(t.push(a).drop_last() =~= t);
            assert(t.push(a).last() == a);
            if q(a) {
                assert(s.filter(p).filter(q) == t.filter(q).push(a));
            } else {
                assert(s.filter(p).filter(q) == t.filter(q));
            }
        } else {
            assert(s.filter(p) == t);
        }
        assert(s.filter(pq) == if pq(a) { rest.filter(pq).push(a) } else { rest.filter(pq) });
    }
}

/// Filters by predicates that agree everywhere agree.
pub proof fn lemma_filter_same(s: Seq<u128>, p: spec_fn(u128) -> bool, q: spec_fn(u128) -> bool)
    requires
        forall|x: u128| #[trigger] p(x) == q(x),
    ensures
        s.filter(p) == s.filter(q),
{
    assert(p =~= q);
}

/// Every list of a projection is there, empty if never filled.
pub open spec fn lists_total(v: ProjectionView) -> bool {
    &&& forall|k: u128| #[trigger] v.outgoing.contains_key(k)
    &&& forall|k: u128| #[trigger] v.incoming.contains_key(k)
    &&& forall|t: NodeType| #[trigger] v.by_type.contains_key(t)
    &&& forall|c: RelationCategory| #[trigger] v.by_category.contains_key(c)
}

/// Nothing handled yet: nothing is gone.
pub proof fn lemma_without_touching_nothing(v: ProjectionView, e: u128)
    requires
        lists_total(v),
    ensures
        without_touching(v, e, Set::empty()) =~= v,
{
    let w = without_touching(v, e, Set::empty());
    assert forall|k: u128| #[trigger] w.outgoing[k] == v.outgoing[k] by {
        lemma_filter_same(v.outgoing[k], kept_from(v, e, Set::empty(), k), |x: u128| true);
        assert(v.outgoing[k].filter(|x: u128| true) =~= v.outgoing[k]) by {
            v.outgoing[k].filter_lemma(|x: u128| true);
            lemma_filter_keeps_all(v.outgoing[k], |x: u128| true);
        }
    }
    assert forall|k: u128| #[trigger] w.incoming[k] == v.incoming[k] by {
        lemma_filter_same(v.incoming[k], kept_to(v, e, Set::empty(), k), |x: u128| true);
        lemma_filter_keeps_all(v.incoming[k], |x: u128| true);
    }
    assert forall|c: RelationCategory| #[trigger] w.by_category[c] == v.by_category[c] by {
        lemma_filter_same(v.by_category[c], kept_in(v, e, Set::empty(), c), |x: u128| true);
        lemma_filter_keeps_all(v.by_category[c], |x: u128| true);
    }
    assert(w.outgoing =~= v.outgoing);
    assert(w.incoming =~= v.incoming);
    assert(w.by_category =~= v.by_category);
    assert(w.relations =~= v.relations);
}

/// A filter that keeps everything changes nothing.
pub proof fn lemma_filter_keeps_all(s: Seq<u128>, p: spec_fn(u128) -> bool)
    requires
        forall|x: u128| #[trigger] p(x),
    ensures
        s.filter(p) =~= s,
    decreases s.len(),
{
    reveal_with_fuel(Seq::filter, 1);
    if s.len() > 0 {
        lemma_filter_keeps_all(s.drop_last(), p);
        assert(s.drop_last().push(s.last()) =~= s);
    }
}

/// Handling one more relation: if it starts or ends at `e` and is still
/// there, dissolving it gives the projection with it counted as handled;
/// otherwise counting it as handled changes nothing.
pub proof fn lemma_without_touching_step(v: ProjectionView, e: u128, done: Set<u128>, x: u128)
    ensures
        touches(v, e, x) && !done.contains(x) ==> without_relation(without_touching(v, e, done), x)
            =~= without_touching(v, e, done.insert(x)),
        !(touches(v, e, x) && !done.contains(x)) ==> without_touching(v, e, done) =~= without_touching(
            v,
            e,
            done.insert(x),
        ),
        without_touching(v, e, done).relations.contains_key(x) <==> v.relations.contains_key(x)
            && !dropped_with(v, e, done, x),
        without_touching(v, e, done).relations.contains_key(x) ==> without_touching(v, e, done).relations[x]
            == v.relations[x],
{
    let d2 = done.insert(x);
    let cur = without_touching(v, e, done);
    let nxt = without_touching(v, e, d2);
    if touches(v, e, x) && !done.contains(x) {
        let r = v.relations[x];
        let w = without_relation(cur, x);
        assert(cur.relations.contains_key(x));
        assert(cur.relations[x] == r);
        assert forall|k: u128| #[trigger] w.outgoing[k] == nxt.outgoing[k] by {
            if k == r.from {
                lemma_filter_twice(v.outgoing[k], kept_from(v, e, done, k), other_than(x));
                lemma_filter_same(
                    v.outgoing[k],
                    |y: u128| kept_from(v, e, done, k)(y) && other_than(x)(y),
                    kept_from(v, e, d2, k),
                );
            } else {
                lemma_filter_same(v.outgoing[k], kept_from(v, e, done, k), kept_from(v, e, d2, k));
            }
        }
        assert forall|k: u128| #[trigger] w.incoming[k] == nxt.incoming[k] by {
            if k == r.to {
                lemma_filter_twice(v.incoming[k], kept_to(v, e, done, k), other_than(x));
                lemma_filter_same(
                    v.incoming[k],
                    |y: u128| kept_to(v, e, done, k)(y) && other_than(x)(y),
                    kept_to(v, e, d2, k),
                );
            } else {
                lemma_filter_same(v.incoming[k], kept_to(v, e, done, k), kept_to(v, e, d2, k));
            }
        }
        assert forall|c: RelationCategory| #[trigger] w.by_category[c] == nxt.by_category[c] by {
            if c == category_of(r) {
                lemma_filter_twice(v.by_category[c], kept_in(v, e, done, c), other_than(x));
                lemma_filter_same(
                    v.by_category[c],
                    |y: u128| kept_in(v, e, done, c)(y) && other_than(x)(y),
                    kept_in(v, e, d2, c),
                );
            } else {
                lemma_filter_same(v.by_category[c], kept_in(v, e, done, c), kept_in(v, e, d2, c));
            }
        }
        assert(w.outgoing =~= nxt.outgoing);
        assert(w.incoming =~= nxt.incoming);
        assert(w.by_category =~= nxt.by_category);
        assert(w.relations =~= nxt.relations);
    } else {
        assert forall|k: u128| #[trigger] cur.outgoing[k] == nxt.outgoing[k] by {
            lemma_filter_same(v.outgoing[k], kept_from(v, e, done, k), kept_from(v, e, d2, k));
        }
        assert forall|k: u128| #[trigger] cur.incoming[k] == nxt.incoming[k] by {
            lemma_filter_same(v.incoming[k], kept_to(v, e, done, k), kept_to(v, e, d2, k));
        }
        assert forall|c: RelationCategory| #[trigger] cur.by_category[c] == nxt.by_category[c] by {
            lemma_filter_same(v.by_category[c], kept_in(v, e, done, c), kept_in(v, e, d2, c));
        }
        assert(cur.outgoing =~= nxt.outgoing);
        assert(cur.incoming =~= nxt.incoming);
        assert(cur.by_category =~= nxt.by_category);
        assert(cur.relations =~= nxt.relations);
    }
}

/// Once every relation that starts or ends at `e` is handled, the result
/// is that of handling them all.
pub proof fn lemma_without_touching_all(v: ProjectionView, e: u128, done: Set<u128>)
    requires
        forall|x: u128| touches(v, e, x) ==> #[trigger] done.contains(x),
    ensures
        without_touching(v, e, done) =~= without_touching(v, e, Set::full()),
{
    let a = without_touching(v, e, done);
    let b = without_touching(v, e, Set::full());
    assert forall|k: u128| #[trigger] a.outgoing[k] == b.outgoing[k] by {
        lemma_filter_same(v.outgoing[k], kept_from(v, e, done, k), kept_from(v, e, Set::full(), k));
    }
    assert forall|k: u128| #[trigger] a.incoming[k] == b.incoming[k] by {
        lemma_filter_same(v.incoming[k], kept_to(v, e, done, k), kept_to(v, e, Set::full(), k));
    }
    assert forall|c: RelationCategory| #[trigger] a.by_category[c] == b.by_category[c] by {
        lemma_filter_same(v.by_category[c], kept_in(v, e, done, c), kept_in(v, e, Set::full(), c));
    }
    assert(a.outgoing =~= b.outgoing);
    assert(a.incoming =~= b.incoming);
    assert(a.by_category =~= b.by_category);
    assert(a.relations =~= b.relations);
}

/// The projection once `event` is applied: an entity removal removes the
/// entity and its relations, an established relation is stored, a dissolved
/// one is taken out, and other events change nothing but the version,
/// which counts one more, and the time of the last update, which becomes
/// the event's.
pub open spec fn applied(v: ProjectionView, event: GraphDomainEvent) -> ProjectionView {
    let w = match event {
        GraphDomainEvent::EntityRemoved { entity_id, .. } => without_entity(v, entity_id),
        GraphDomainEvent::RelationEstablished { relation_id, from, to, relation_type, .. } => with_relation(
            v,
            DomainRelation { id: relation_id, from, to, relation_type },
        ),
        GraphDomainEvent::RelationDissolved { relation_id, .. } => without_relation(v, relation_id),
        _ => v,
    };
    ProjectionView { version: (v.version + 1) as u64, last_updated: Some(domain_event_time(event)), ..w }
}

/// Dissolving a relation just established under an identifier that no
/// relation and no list holds gives back the projection as it was.
pub proof fn lemma_dissolve_undoes_establish(v: ProjectionView, r: DomainRelation)
    requires
        lists_total(v),
        !v.relations.contains_key(r.id),
        !v.outgoing[r.from].contains(r.id),
        !v.incoming[r.to].contains(r.id),
        !v.by_category[category_of(r)].contains(r.id),
    ensures
        without_relation(with_relation(v, r), r.id) =~= v,
{
    let w = with_relation(v, r);
    let u = without_relation(w, r.id);
    assert(w.relations.contains_key(r.id) && w.relations[r.id] == r);
    assert(v.outgoing[r.from].push(r.id).filter(other_than(r.id)) =~= v.outgoing[r.from]) by {
        reveal_with_fuel(Seq::filter, 1);
        assert(v.outgoing[r.from].push(r.id).drop_last() =~= v.outgoing[r.from]);
        lemma_filter_keeps_absent(v.outgoing[r.from], r.id);
    }
    assert(v.incoming[r.to].push(r.id).filter(other_than(r.id)) =~= v.incoming[r.to]) by {
        reveal_with_fuel(Seq::filter, 1);
        assert(v.incoming[r.to].push(r.id).drop_last() =~= v.incoming[r.to]);
        lemma_filter_keeps_absent(v.incoming[r.to], r.id);
    }
    let c = category_of(r);
    assert(v.by_category[c].push(r.id).filter(other_than(r.id)) =~= v.by_category[c]) by {
        reveal_with_fuel(Seq::filter, 1);
        assert(v.by_category[c].push(r.id).drop_last() =~= v.by_category[c]);
        lemma_filter_keeps_absent(v.by_category[c], r.id);
    }
    assert(u.relations =~= v.relations);
    assert(u.outgoing =~= v.outgoing);
    assert(u.incoming =~= v.incoming);
    assert(u.by_category =~= v.by_category);
}

/// Taking out an identifier that a list does not hold leaves the list.
pub proof fn lemma_filter_keeps_absent(s: Seq<u128>, id: u128)
    requires
        !s.contains(id),
    ensures
        s.filter(other_than(id)) =~= s,
{
    assert forall|x: u128| #[trigger] s.contains(x) implies other_than(id)(x) by {}
    lemma_filter_keeps_present(s, other_than(id));
}

/// A filter that keeps every element of a list leaves the list.
pub proof fn lemma_filter_keeps_present(s: Seq<u128>, p: spec_fn(u128) -> bool)
    requires
        forall|x: u128| #[trigger] s.contains(x) ==> p(x),
    ensures
        s.filter(p) =~= s,
    decreases s.len(),
{
    reveal_with_fuel(Seq::filter, 1);
    if s.len() > 0 {
        let rest = s.drop_last();
        assert forall|x: u128| #[trigger] rest.contains(x) implies p(x) by {
            let i = choose|i: int| 0 <= i < rest.len() && rest[i] == x;
            assert(s[i] == x);
            assert(s.contains(x));
        }
        lemma_filter_keeps_present(rest, p);
        assert(s.contains(s.last()));
        assert(rest.push(s.last()) =~= s);
    }
}

/// Once an entity is removed, no relation starts or ends at it, and it is
/// gone from the entities.
pub proof fn lemma_removed_entity_has_no_relations(v: ProjectionView, e: u128)
    ensures
        !without_entity(v, e).entities.contains_key(e),
        v.entities.contains_key(e) ==> forall|x: u128|
            #[trigger] without_entity(v, e).relations.contains_key(x) ==> without_entity(v, e).relations[x].from
                != e && without_entity(v, e).relations[x].to != e,
{
}

impl GraphProjection {
    /// The index slots are in place and every relation is indexed.
    pub closed spec fn well_formed(&self) -> bool {
        &&& self.entities_by_type@.len() == 18
        &&& self.relations_by_category@.len() == 7
        &&& indexed(self@)
    }

    /// An empty projection at version 0, never updated.
    pub fn new() -> (r: Self)
        ensures
            r.well_formed(),
            r@.entities == Map::<u128, NodeType>::empty(),
            r@.relations == Map::<u128, DomainRelation>::empty(),
            forall|k: u128| #[trigger] r@.outgoing[k] == Seq::<u128>::empty(),
            forall|k: u128| #[trigger] r@.incoming[k] == Seq::<u128>::empty(),
            forall|t: NodeType| #[trigger] r@.by_type[t] == Seq::<u128>::empty(),
            forall|c: RelationCategory| #[trigger] r@.by_category[c] == Seq::<u128>::empty(),
            r@.version == 0,
            r@.last_updated is None,
    {
        let mut by_type: Vec<Vec<u128>> = Vec::new();
        let mut i: usize = 0;
        while i < 18
            invariant
                i <= 18,
                by_type@.len() == i,
                forall|k: int| 0 <= k < i ==> (#[trigger] by_type@[k])@ == Seq::<u128>::empty(),
            decreases 18 - i,
        {
            by_type.push(Vec::new());
            i = i + 1;
        }
        let mut by_category: Vec<Vec<u128>> = Vec::new();
        let mut j: usize = 0;
        while j < 7
            invariant
                j <= 7,
                by_category@.len() == j,
                forall|k: int| 0 <= k < j ==> (#[trigger] by_category@[k])@ == Seq::<u128>::empty(),
            decreases 7 - j,
        {
            by_category.push(Vec::new());
            j = j + 1;
        }
        let r = GraphProjection {
            entities: HashMap::new(),
            relations: HashMap::new(),
            outgoing_relations: HashMap::new(),
            incoming_relations: HashMap::new(),
            entities_by_type: by_type,
            relations_by_category: by_category,
            version: 0,
            last_updated: None,
        };
        proof {
            assert forall|t: NodeType| #[trigger] r@.by_type[t] == Seq::<u128>::empty() by {
                assert(0 <= type_slot(t) < 18);
            }
            assert forall|c: RelationCategory| #[trigger] r@.by_category[c] == Seq::<u128>::empty() by {
                assert(0 <= category_slot(c) < 7);
            }
        }
        r
    }

    /// Stores `relation` under its identifier and lists it under its start,
    /// its end and its category.
    fn add_relation(&mut self, relation: DomainRelation)
        requires
            old(self).well_formed(),
        ensures
            final(self).well_formed(),
            final(self)@ =~= with_relation(old(self)@, relation),
    {
        let ghost before = self@;
        let id = relation.id;
        let from = relation.from;
        let to = relation.to;
        let slot = category_slot_of(relation.relation_type.category);
        self.relations.insert(id, relation);
        appended(&mut self.outgoing_relations, from, id);
        appended(&mut self.incoming_relations, to, id);
        let mut listed = self.relations_by_category[slot].clone();
        listed.push(id);
        self.relations_by_category.set(slot, listed);
        proof {
            let w = with_relation(before, relation);
            assert(self@.outgoing =~= w.outgoing);
            assert(self@.incoming =~= w.incoming);
            assert forall|c: RelationCategory| #[trigger] self@.by_category[c] == w.by_category[c] by {
                assert(0 <= category_slot(c) < 7);
                if c != category_of(relation) {
                    assert(category_slot(c) != category_slot(category_of(relation)));
                }
            }
            assert(self@.by_category =~= w.by_category);
            assert(self@.by_type =~= w.by_type);
            lemma_with_relation_indexed(before, relation);
        }
    }

    /// Takes relation `id` out, with its place in the lists of its start,
    /// its end and its category.
    fn remove_relation(&mut self, id: u128)
        requires
            old(self).well_formed(),
        ensures
            final(self).well_formed(),
            final(self)@ =~= without_relation(old(self)@, id),
    {
        let ghost before = self@;
        match self.relations.remove(&id) {
            None => {
                proof {
                    assert(self@.outgoing =~= before.outgoing);
                    assert(self@.incoming =~= before.incoming);
                    assert(self@.by_category =~= before.by_category);
                    assert(self@.by_type =~= before.by_type);
                }
            },
            Some(relation) => {
                let slot = category_slot_of(relation.relation_type.category);
                dropped(&mut self.outgoing_relations, relation.from, id);
                dropped(&mut self.incoming_relations, relation.to, id);
                let kept = without_id(&self.relations_by_category[slot], id);
                self.relations_by_category.set(slot, kept);
                proof {
                    let w = without_relation(before, id);
                    assert(self@.outgoing =~= w.outgoing);
                    assert(self@.incoming =~= w.incoming);
                    assert forall|c: RelationCategory| #[trigger] self@.by_category[c] == w.by_category[c] by {
                        assert(0 <= category_slot(c) < 7);
                        if c != category_of(relation) {
                            assert(category_slot(c) != category_slot(category_of(relation)));
                        }
                    }
                    assert(self@.by_category =~= w.by_category);
                    assert(self@.by_type =~= w.by_type);
                    lemma_without_relation_indexed(before, id);
                }
            },
        }
    }

    /// Removes entity `e`, from the entities and from the list of its kind,
    /// and dissolves every relation that starts or ends at it.
    fn remove_entity(&mut self, e: u128)
        requires
            old(self).well_formed(),
        ensures
            final(self).well_formed(),
            final(self)@ =~= without_entity(old(self)@, e),
    {
        let ghost v0 = self@;
        match self.entities.remove(&e) {
            None => {
                proof {
                    assert(self@.outgoing =~= v0.outgoing);
                    assert(self@.incoming =~= v0.incoming);
                    assert(self@.by_category =~= v0.by_category);
                    assert(self@.by_type =~= v0.by_type);
                }
            },
            Some(t) => {
                let slot = type_slot_of(t);
                let kept = without_id(&self.entities_by_type[slot], e);
                self.entities_by_type.set(slot, kept);
                let ghost u = self@;
                proof {
                    let u0 = ProjectionView {
                        entities: v0.entities.remove(e),
                        by_type: v0.by_type.insert(t, v0.by_type[t].filter(other_than(e))),
                        ..v0
                    };
                    assert forall|k: NodeType| #[trigger] u.by_type[k] == u0.by_type[k] by {
                        assert(0 <= type_slot(k) < 18);
                        if k != t {
                            assert(type_slot(k) != type_slot(t));
                        }
                    }
                    assert(u.by_type =~= u0.by_type);
                    assert(u.outgoing =~= u0.outgoing);
                    assert(u.incoming =~= u0.incoming);
                    assert(u.by_category =~= u0.by_category);
                    assert(u =~= u0);
                    lemma_without_touching_nothing(u, e);
                }
                let starting: Vec<u128> = match self.outgoing_relations.get(&e) {
                    Some(l) => l.clone(),
                    None => Vec::new(),
                };
                let ending: Vec<u128> = match self.incoming_relations.get(&e) {
                    Some(l) => l.clone(),
                    None => Vec::new(),
                };
                let ghost mut done: Set<u128> = Set::empty();
                let mut i: usize = 0;
                while i < starting.len()
                    invariant
                        self.well_formed(),
                        lists_total(u),
                        indexed(u),
                        self@ =~= without_touching(u, e, done),
                        starting@ == u.outgoing[e],
                        i <= starting@.len(),
                        forall|k: int| 0 <= k < i ==> done.contains(#[trigger] starting@[k]),
                    decreases starting.len() - i,
                {
                    let x = starting[i];
                    let gone = match self.relations.get(&x) {
                        Some(r) => r.from == e || r.to == e,
                        None => false,
                    };
                    proof {
                        lemma_without_touching_step(u, e, done, x);
                    }
                    if gone {
                        self.remove_relation(x);
                    }
                    proof {
                        done = done.insert(x);
                    }
                    i = i + 1;
                }
                let mut j: usize = 0;
                while j < ending.len()
                    invariant
                        self.well_formed(),
                        lists_total(u),
                        indexed(u),
                        self@ =~= without_touching(u, e, done),
                        starting@ == u.outgoing[e],
                        ending@ == u.incoming[e],
                        forall|k: int| 0 <= k < starting@.len() ==> done.contains(#[trigger] starting@[k]),
                        j <= ending@.len(),
                        forall|k: int| 0 <= k < j ==> done.contains(#[trigger] ending@[k]),
                    decreases ending.len() - j,
                {
                    let x = ending[j];
                    let gone = match self.relations.get(&x) {
                        Some(r) => r.from == e || r.to == e,
                        None => false,
                    };
                    proof {
                        lemma_without_touching_step(u, e, done, x);
                    }
                    if gone {
                        self.remove_relation(x);
                    }
                    proof {
                        done = done.insert(x);
                    }
                    j = j + 1;
                }
                proof {
                    assert forall|x: u128| touches(u, e, x) implies #[trigger] done.contains(x) by {
                        if u.relations[x].from == e {
                            assert(u.outgoing[e].contains(x));
                            let k = choose|k: int| 0 <= k < starting@.len() && starting@[k] == x;
                            assert(done.contains(starting@[k]));
                        } else {
                            assert(u.incoming[e].contains(x));
                            let k = choose|k: int| 0 <= k < ending@.len() && ending@[k] == x;
                            assert(done.contains(ending@[k]));
                        }
                    }
                    lemma_without_touching_all(u, e, done);
                }
            },
        }
    }

    /// Applies a domain event: an entity removal removes the entity and
    /// every relation that starts or ends at it, an established relation is
    /// stored and indexed, a dissolved relation is taken out, and other
    /// events change nothing else; the version counts one more and the time
    /// of the last update becomes the event's.
    pub fn apply(&mut self, event: &GraphDomainEvent)
        requires
            old(self).well_formed(),
            old(self)@.version < u64::MAX,
        ensures
            final(self).well_formed(),
            final(self)@ =~= applied(old(self)@, *event),
    {
        let ghost v0 = self@;
        match event {
            GraphDomainEvent::EntityRemoved { entity_id, .. } => {
                self.remove_entity(*entity_id);
            },
            GraphDomainEvent::RelationEstablished { relation_id, from, to, relation_type, .. } => {
                let relation = DomainRelation {
                    id: *relation_id,
                    from: *from,
                    to: *to,
                    relation_type: relation_type.duplicate(),
                };
                self.add_relation(relation);
            },
            GraphDomainEvent::RelationDissolved { relation_id, .. } => {
                self.remove_relation(*relation_id);
            },
            _ => {
                proof {
                    assert(self@ =~= v0);
                }
            },
        }
        self.version = self.version + 1;
        self.last_updated = Some(event.timestamp());
        proof {
            assert(self@.outgoing =~= applied(v0, *event).outgoing);
            assert(self@.incoming =~= applied(v0, *event).incoming);
            assert(self@.by_type =~= applied(v0, *event).by_type);
            assert(self@.by_category =~= applied(v0, *event).by_category);
        }
    }

    /// Adds entity `id` of kind `entity_type`, in place of any entity with
    /// that identifier, and appends it to the list of its kind; the version
    /// counts one more and the time of the last update becomes the clock's.
    pub fn add_entity(&mut self, id: u128, entity_type: NodeType)
        requires
            old(self).well_formed(),
            old(self)@.version < u64::MAX,
        ensures
            final(self).well_formed(),
            final(self)@.entities == old(self)@.entities.insert(id, entity_type),
            final(self)@.by_type == old(self)@.by_type.insert(entity_type, old(self)@.by_type[entity_type].push(id)),
            final(self)@.relations == old(self)@.relations,
            final(self)@.outgoing == old(self)@.outgoing,
            final(self)@.incoming == old(self)@.incoming,
            final(self)@.by_category == old(self)@.by_category,
            final(self)@.version == old(self)@.version + 1,
            final(self)@.last_updated is Some,
    {
        let ghost v0 = self@;
        let slot = type_slot_of(entity_type);
        self.entities.insert(id, entity_type);
        let mut listed = self.entities_by_type[slot].clone();
        listed.push(id);
        self.entities_by_type.set(slot, listed);
        self.version = self.version + 1;
        self.last_updated = Some(now_millis());
        proof {
            assert forall|k: NodeType| #[trigger] self@.by_type[k] == v0.by_type.insert(
                entity_type,
                v0.by_type[entity_type].push(id),
            )[k] by {
                assert(0 <= type_slot(k) < 18);
                if k != entity_type {
                    assert(type_slot(k) != type_slot(entity_type));
                }
            }
            assert(self@.by_type =~= v0.by_type.insert(entity_type, v0.by_type[entity_type].push(id)));
            assert(self@.outgoing =~= v0.outgoing);
            assert(self@.incoming =~= v0.incoming);
            assert(self@.by_category =~= v0.by_category);
        }
    }

    /// The kind of entity `id`, if there is one.
    pub fn get_entity(&self, id: &u128) -> (r: Option<NodeType>)
        ensures
            r == (if self@.entities.contains_key(*id) {
                Some(self@.entities[*id])
            } else {
                None
            }),
    {
        match self.entities.get(id) {
            Some(t) => Some(*t),
            None => None,
        }
    }

    /// Relation `id`, if there is one.
    pub fn get_relation(&self, id: &u128) -> (r: Option<&DomainRelation>)
        ensures
            match r {
                Some(rel) => self@.relations.contains_key(*id) && *rel == self@.relations[*id],
                None => !self@.relations.contains_key(*id),
            },
    {
        self.relations.get(id)
    }

    /// The relations listed under `ids` that are still there, in order.
    fn resolve(&self, ids: &Vec<u128>) -> (r: Vec<DomainRelation>)
        ensures
            r@ == resolved(ids@, self@.relations),
    {
        let mut out: Vec<DomainRelation> = Vec::new();
        let mut i: usize = 0;
        while i < ids.len()
            invariant
                i <= ids@.len(),
                out@ == resolved(ids@.take(i as int), self@.relations),
            decreases ids.len() - i,
        {
            proof {
                assert(ids@.take(i + 1).drop_last() =~= ids@.take(i as int));
            }
            match self.relations.get(&ids[i]) {
                Some(rel) => {
                    out.push(rel.duplicate());
                },
                None => {},
            }
            i = i + 1;
        }
        proof {
            assert(ids@.take(ids@.len() as int) =~= ids@);
        }
        out
    }

    /// The relations listed under their start `entity_id`, in the order
    /// they were established, skipping those that are gone.
    pub fn outgoing_from(&self, entity_id: &u128) -> (r: Vec<DomainRelation>)
        ensures
            r@ == resolved(self@.outgoing[*entity_id], self@.relations),
    {
        match self.outgoing_relations.get(entity_id) {
            Some(ids) => self.resolve(ids),
            None => Vec::new(),
        }
    }

    /// The relations listed under their end `entity_id`, in the order they
    /// were established, skipping those that are gone.
    pub fn incoming_to(&self, entity_id: &u128) -> (r: Vec<DomainRelation>)
        ensures
            r@ == resolved(self@.incoming[*entity_id], self@.relations),
    {
        match self.incoming_relations.get(entity_id) {
            Some(ids) => self.resolve(ids),
            None => Vec::new(),
        }
    }

    /// The relations listed under `category`, in the order they were
    /// established, skipping those that are gone.
    pub fn relations_in_category(&self, category: RelationCategory) -> (r: Vec<DomainRelation>)
        requires
            self.well_formed(),
        ensures
            r@ == resolved(self@.by_category[category], self@.relations),
    {
        let slot = category_slot_of(category);
        self.resolve(&self.relations_by_category[slot])
    }

    /// The identifiers listed under kind `entity_type` whose entities are
    /// still there, in the order they were added.
    pub fn entities_of_type(&self, entity_type: NodeType) -> (r: Vec<u128>)
        requires
            self.well_formed(),
        ensures
            r@ == present_ids(self@.by_type[entity_type], self@.entities),
    {
        let slot = type_slot_of(entity_type);
        let ids = &self.entities_by_type[slot];
        let ghost pred = |x: u128| self@.entities.contains_key(x);
        let mut out: Vec<u128> = Vec::new();
        let mut i: usize = 0;
        while i < ids.len()
            invariant
                i <= ids@.len(),
                pred == (|x: u128| self@.entities.contains_key(x)),
                out@ == ids@.take(i as int).filter(pred),
            decreases ids.len() - i,
        {
            proof {
                reveal_with_fuel(Seq::filter, 1);
                assert(ids@.take(i + 1).drop_last() =~= ids@.take(i as int));
            }
            if self.entities.contains_key(&ids[i]) {
                out.push(ids[i]);
            }
            proof {
                assert(out@ =~= ids@.take(i + 1).filter(pred));
            }
            i = i + 1;
        }
        proof {
            assert(ids@.take(ids@.len() as int) =~= ids@);
        }
        out
    }

    /// The number of changes applied so far.
    pub fn version(&self) -> (r: u64)
        ensures
            r == self@.version,
    {
        self.version
    }

    /// When the last change happened, in milliseconds since the Unix epoch.
    pub fn last_updated(&self) -> (r: Option<i64>)
        ensures
            r == self@.last_updated,
    {
        self.last_updated
    }

    /// The number of entities.
    pub fn entity_count(&self) -> (r: usize)
        ensures
            r == self@.entities.len(),
    {
        self.entities.len()
    }

    /// The number of relations.
    pub fn relation_count(&self) -> (r: usize)
        ensures
            r == self@.relations.len(),
    {
        self.relations.len()
    }

    /// The entities with their kind, each once, in no stated order.
    pub fn entities(&self) -> (r: Vec<(u128, NodeType)>)
        ensures
            r@.len() == self@.entities.len(),
            forall|i: int|
                0 <= i < r@.len() ==> self@.entities.contains_key(#[trigger] r@[i].0) && self@.entities[r@[i].0]
                    == r@[i].1,
            forall|k: u128| #[trigger] self@.entities.contains_key(k) ==> r@.contains((k, self@.entities[k])),
    {
        let mut out: Vec<(u128, NodeType)> = Vec::new();
        let ghost pairs = vstd::std_specs::iter::IteratorSpec::remaining(&vstd::std_specs::hash::spec_hash_map_iter(&self.entities));
        for pair in it: self.entities.iter()
            invariant
                it.seq() == pairs,
                out@ == it.seq().take(it.index() as int).map_values(|p: (&u128, &NodeType)| (*p.0, *p.1)),
        {
            out.push((*pair.0, *pair.1));
        }
        proof {
            assert(out@ =~= pairs.map_values(|p: (&u128, &NodeType)| (*p.0, *p.1)));
            assert forall|k: u128| #[trigger] self@.entities.contains_key(k) implies out@.contains(
                (k, self@.entities[k]),
            ) by {
                assert(pairs.contains((&k, &self@.entities[k])));
                let i = choose|i: int| 0 <= i < pairs.len() && pairs[i] == (&k, &self@.entities[k]);
                assert(out@[i] == (k, self@.entities[k]));
            }
        }
        out
    }

    /// The relations with their identifier, each once, in no stated order.
    pub fn relations(&self) -> (r: Vec<(u128, DomainRelation)>)
        ensures
            r@.len() == self@.relations.len(),
            forall|i: int|
                0 <= i < r@.len() ==> self@.relations.contains_key(#[trigger] r@[i].0) && self@.relations[r@[i].0]
                    == r@[i].1,
            forall|k: u128| #[trigger] self@.relations.contains_key(k) ==> r@.contains((k, self@.relations[k])),
    {
        let mut out: Vec<(u128, DomainRelation)> = Vec::new();
        let ghost pairs = vstd::std_specs::iter::IteratorSpec::remaining(
            &vstd::std_specs::hash::spec_hash_map_iter(&self.relations),
        );
        for pair in it: self.relations.iter()
            invariant
                it.seq() == pairs,
                out@ == it.seq().take(it.index() as int).map_values(
                    |p: (&u128, &DomainRelation)| (*p.0, *p.1),
                ),
        {
            out.push((*pair.0, pair.1.duplicate()));
        }
        proof {
            assert(out@ =~= pairs.map_values(|p: (&u128, &DomainRelation)| (*p.0, *p.1)));
            assert forall|k: u128| #[trigger] self@.relations.contains_key(k) implies out@.contains(
                (k, self@.relations[k]),
            ) by {
                assert(pairs.contains((&k, &self@.relations[k])));
                let i = choose|i: int| 0 <= i < pairs.len() && pairs[i] == (&k, &self@.relations[k]);
                assert(out@[i] == (k, self@.relations[k]));
            }
        }
        out
    }
}


impl Default for GraphProjection {
    /// An empty projection at version 0, never updated.
    fn default() -> (r: Self)
        ensures
            r.well_formed(),
            r@.entities == Map::<u128, NodeType>::empty(),
            r@.relations == Map::<u128, DomainRelation>::empty(),
            r@.version == 0,
            r@.last_updated is None,
    {
        GraphProjection::new()
    }
}

} // verus!
