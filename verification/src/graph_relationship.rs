//! Relationships across the organization graph: who trusts whom, who
//! delegates keys to whom, who holds which roles, who may enter which
//! locations, who belongs to which unit and who manages what, gathered from
//! the edges in one pass.

use std::collections::HashMap;
use vstd::prelude::*;
use crate::graph_model::{EdgeType, GraphEdge, OrganizationGraph};
use crate::text::{concat, decimal, decimal_chars, owned};

verus! {

broadcast use vstd::std_specs::hash::group_hash_axioms;

/// A kind of relationship that the analysis gathers.
#[derive(Clone, Copy, Debug, PartialEq, Eq, Structural)]
pub enum RelationshipKind {
    /// Trust and trusts edges, by truster.
    Trust,
    /// Key delegation edges, by delegator.
    Delegation,
    /// Role edges, by person.
    Role,
    /// Access edges, by person.
    Access,
    /// Membership edges, by unit.
    Membership,
    /// Management edges, by manager.
    Management,
}

/// Whether edge `e` is of kind `k`.
pub open spec fn gathers(k: RelationshipKind, e: GraphEdge) -> bool {
    match k {
        RelationshipKind::Trust => e.edge_type == EdgeType::Trust || e.edge_type == EdgeType::Trusts,
        RelationshipKind::Delegation => e.edge_type == EdgeType::DelegatesKey,
        RelationshipKind::Role => e.edge_type == EdgeType::HasRole,
        RelationshipKind::Access => e.edge_type == EdgeType::HasAccess,
        RelationshipKind::Membership => e.edge_type == EdgeType::MemberOf,
        RelationshipKind::Management => e.edge_type == EdgeType::Manages,
    }
}

/// The entity an edge of kind `k` is listed under: its end for a
/// membership (the unit), its start otherwise.
pub open spec fn listed_under(k: RelationshipKind, e: GraphEdge) -> u128 {
    if k == RelationshipKind::Membership {
        e.to
    } else {
        e.from
    }
}

/// The entity an edge of kind `k` lists: its start for a membership (the
/// member), its end otherwise.
pub open spec fn listed(k: RelationshipKind, e: GraphEdge) -> u128 {
    if k == RelationshipKind::Membership {
        e.from
    } else {
        e.to
    }
}

/// The entities that the edges of kind `k` list under `x`, in edge order.
pub open spec fn related(edges: Seq<GraphEdge>, k: RelationshipKind, x: u128) -> Seq<u128>
    decreases edges.len(),
{
    if edges.len() == 0 {
        Seq::empty()
    } else {
        let rest = related(edges.drop_last(), k, x);
        let e = edges.last();
        if gathers(k, e) && listed_under(k, e) == x {
            rest.push(listed(k, e))
        } else {
            rest
        }
    }
}

/// The number of edges of kind `k`.
pub open spec fn count_of(edges: Seq<GraphEdge>, k: RelationshipKind) -> nat
    decreases edges.len(),
{
    if edges.len() == 0 {
        0
    } else {
        count_of(edges.drop_last(), k) + if gathers(k, edges.last()) {
            1nat
        } else {
            0nat
        }
    }
}

/// The lists of a map: the list under `x`, empty if there is none.
pub open spec fn lists(m: Map<u128, Vec<u128>>, x: u128) -> Seq<u128> {
    if m.contains_key(x) {
        m[x]@
    } else {
        Seq::empty()
    }
}

/// Whether `m` lists, under each entity that edges of kind `k` list
/// anything under, what they list, and has no other entries.
pub open spec fn gathered_from(m: Map<u128, Vec<u128>>, edges: Seq<GraphEdge>, k: RelationshipKind) -> bool {
    forall|x: u128|
        (#[trigger] m.contains_key(x) <==> related(edges, k, x).len() > 0) && lists(m, x) == related(edges, k, x)
}

/// The relationships of an organization graph.
pub struct RelationshipAnalysis {
    trust_relationships: HashMap<u128, Vec<u128>>,
    key_delegations: HashMap<u128, Vec<u128>>,
    role_assignments: HashMap<u128, Vec<u128>>,
    access_permissions: HashMap<u128, Vec<u128>>,
    org_membership: HashMap<u128, Vec<u128>>,
    org_management: HashMap<u128, Vec<u128>>,
    member_count: usize,
}

/// Appends `v` to the list under `k`, starting the list if there is none.
fn push_under(m: &mut HashMap<u128, Vec<u128>>, k: u128, v: u128)
    ensures
        forall|x: u128| #[trigger] final(m)@.contains_key(x) <==> (x == k || old(m)@.contains_key(x)),
        forall|x: u128| #[trigger] lists(final(m)@, x) == if x == k { lists(old(m)@, k).push(v) } else { lists(old(m)@, x) },
{
    let mut list = match m.remove(&k) {
        Some(l) => l,
        None => Vec::new(),
    };
    list.push(v);
    m.insert(k, list);
}

/// One more edge: the lists of kind `k` gain what it lists if it is of
/// that kind.
proof fn lemma_gathered_step(
    before: Map<u128, Vec<u128>>,
    after: Map<u128, Vec<u128>>,
    edges: Seq<GraphEdge>,
    i: int,
    k: RelationshipKind,
)
    requires
        0 <= i < edges.len(),
        gathered_from(before, edges.take(i), k),
        gathers(k, edges[i]) ==> {
            &&& forall|x: u128| #[trigger] after.contains_key(x) <==> (x == listed_under(k, edges[i]) || before.contains_key(x))
            &&& forall|x: u128|
                #[trigger] lists(after, x) == if x == listed_under(k, edges[i]) {
                    lists(before, x).push(listed(k, edges[i]))
                } else {
                    lists(before, x)
                }
        },
        !gathers(k, edges[i]) ==> after == before,
    ensures
        gathered_from(after, edges.take(i + 1), k),
{
    let t = edges.take(i + 1);
    assert(t.drop_last() =~= edges.take(i));
    assert(t.last() == edges[i]);
    assert forall|x: u128|
        (#[trigger] after.contains_key(x) <==> related(t, k, x).len() > 0) && lists(after, x) == related(t, k, x) by {
        assert(lists(before, x) == related(edges.take(i), k, x));
        assert(before.contains_key(x) <==> related(edges.take(i), k, x).len() > 0);
    }
}

/// One more edge: the count of kind `k` grows by one if it is of that
/// kind.
proof fn lemma_count_step(edges: Seq<GraphEdge>, i: int, k: RelationshipKind)
    requires
        0 <= i < edges.len(),
    ensures
        count_of(edges.take(i + 1), k) == count_of(edges.take(i), k) + if gathers(k, edges[i]) {
            1nat
        } else {
            0nat
        },
{
    let t = edges.take(i + 1);
    assert(t.drop_last() =~= edges.take(i));
}

/// What a list holds once one more element is appended.
proof fn lemma_push_contains(s: Seq<u128>, a: u128, x: u128)
    ensures
        s.push(a).contains(x) <==> (s.contains(x) || a == x),
{
    if s.contains(x) {
        let i = choose|i: int| 0 <= i < s.len() && s[i] == x;
        assert(s.push(a)[i] == x);
    }
    if a == x {
        assert(s.push(a)[s.len() as int] == x);
    }
    if s.push(a).contains(x) {
        let i = choose|i: int| 0 <= i < s.push(a).len() && s.push(a)[i] == x;
        if i < s.len() {
            assert(s[i] == x);
        }
    }
}

/// There are no more edges of a kind than edges.
proof fn lemma_count_bounded(edges: Seq<GraphEdge>, k: RelationshipKind)
    ensures
        count_of(edges, k) <= edges.len(),
    decreases edges.len(),
{
    if edges.len() > 0 {
        lemma_count_bounded(edges.drop_last(), k);
    }
}

impl RelationshipAnalysis {
    /// The map of the lists of kind `k`.
    pub closed spec fn gathered(&self, k: RelationshipKind) -> Map<u128, Vec<u128>> {
        match k {
            RelationshipKind::Trust => self.trust_relationships@,
            RelationshipKind::Delegation => self.key_delegations@,
            RelationshipKind::Role => self.role_assignments@,
            RelationshipKind::Access => self.access_permissions@,
            RelationshipKind::Membership => self.org_membership@,
            RelationshipKind::Management => self.org_management@,
        }
    }

    /// The number of membership edges.
    pub closed spec fn members(&self) -> nat {
        self.member_count as nat
    }

    /// Gathers the relationships of the graph from its edges: trust and
    /// trusts edges by truster, key delegations by delegator, roles by
    /// person, access grants by person, members by unit and managed
    /// entities by manager, each list in edge order.
    pub fn analyze(graph: &OrganizationGraph) -> (r: Self)
        ensures
            forall|k: RelationshipKind| gathered_from(#[trigger] r.gathered(k), graph.edges@, k),
            r.members() == count_of(graph.edges@, RelationshipKind::Membership),
    {
        let mut r = RelationshipAnalysis {
            trust_relationships: HashMap::new(),
            key_delegations: HashMap::new(),
            role_assignments: HashMap::new(),
            access_permissions: HashMap::new(),
            org_membership: HashMap::new(),
            org_management: HashMap::new(),
            member_count: 0,
        };
        let n = graph.edges.len();
        let ghost edges = graph.edges@;
        proof {
            assert forall|k: RelationshipKind| gathered_from(#[trigger] r.gathered(k), edges.take(0), k) by {
                assert(edges.take(0) =~= Seq::<GraphEdge>::empty());
            }
            assert(edges.take(0) =~= Seq::<GraphEdge>::empty());
        }
        let mut i: usize = 0;
        while i < n
            invariant
                n == edges.len(),
                edges == graph.edges@,
                i <= n,
                forall|k: RelationshipKind| gathered_from(#[trigger] r.gathered(k), edges.take(i as int), k),
                r.member_count == count_of(edges.take(i as int), RelationshipKind::Membership),
            decreases n - i,
        {
            let e = graph.edges[i];
            let ghost before = r;
            proof {
                lemma_count_step(edges, i as int, RelationshipKind::Membership);
                lemma_count_bounded(edges.take(i + 1), RelationshipKind::Membership);
                assert(edges.take(i + 1).len() == i + 1);
            }
            match e.edge_type {
                EdgeType::Trust | EdgeType::Trusts => push_under(&mut r.trust_relationships, e.from, e.to),
                EdgeType::DelegatesKey => push_under(&mut r.key_delegations, e.from, e.to),
                EdgeType::HasRole => push_under(&mut r.role_assignments, e.from, e.to),
                EdgeType::HasAccess => push_under(&mut r.access_permissions, e.from, e.to),
                EdgeType::MemberOf => {
                    push_under(&mut r.org_membership, e.to, e.from);
                    r.member_count = r.member_count + 1;
                },
                EdgeType::Manages => push_under(&mut r.org_management, e.from, e.to),
                _ => {},
            }
            proof {
                assert forall|k: RelationshipKind| gathered_from(#[trigger] r.gathered(k), edges.take(i + 1), k) by {
                    lemma_gathered_step(before.gathered(k), r.gathered(k), edges, i as int, k);
                }
            }
            i = i + 1;
        }
        proof {
            assert(edges.take(n as int) =~= edges);
        }
        r
    }

    /// The list of kind `k` under `x`, a copy; empty if there is none.
    fn list_of(m: &HashMap<u128, Vec<u128>>, x: &u128) -> (r: Vec<u128>)
        ensures
            r@ == lists(m@, *x),
    {
        match m.get(x) {
            Some(l) => l.clone(),
            None => Vec::new(),
        }
    }

    /// Everyone that `person_id` trusts, each as trusted.
    pub fn get_trusted_by(&self, person_id: &u128) -> (r: Vec<(u128, String)>)
        ensures
            r@.len() == lists(self.gathered(RelationshipKind::Trust), *person_id).len(),
            forall|i: int|
                0 <= i < r@.len() ==> (#[trigger] r@[i]).0 == lists(self.gathered(RelationshipKind::Trust), *person_id)[i]
                    && r@[i].1@ == "Trust"@,
    {
        let ids = Self::list_of(&self.trust_relationships, person_id);
        let mut out: Vec<(u128, String)> = Vec::new();
        let mut i: usize = 0;
        while i < ids.len()
            invariant
                i <= ids@.len(),
                out@.len() == i,
                forall|j: int| 0 <= j < i ==> (#[trigger] out@[j]).0 == ids@[j] && out@[j].1@ == "Trust"@,
            decreases ids.len() - i,
        {
            out.push((ids[i], owned("Trust")));
            i = i + 1;
        }
        out
    }

    /// Everyone that `person_id` delegates a key to, in edge order.
    pub fn get_delegations_from(&self, person_id: &u128) -> (r: Vec<u128>)
        ensures
            r@ == lists(self.gathered(RelationshipKind::Delegation), *person_id),
    {
        Self::list_of(&self.key_delegations, person_id)
    }

    /// The roles of `person_id`, in edge order.
    pub fn get_roles_for_person(&self, person_id: &u128) -> (r: Vec<u128>)
        ensures
            r@ == lists(self.gathered(RelationshipKind::Role), *person_id),
    {
        Self::list_of(&self.role_assignments, person_id)
    }

    /// The members of unit `unit_id`, in edge order.
    pub fn get_unit_members(&self, unit_id: &u128) -> (r: Vec<u128>)
        ensures
            r@ == lists(self.gathered(RelationshipKind::Membership), *unit_id),
    {
        Self::list_of(&self.org_membership, unit_id)
    }

    /// Everyone with access to `location_id`, each once, in no stated
    /// order.
    pub fn get_people_with_access(&self, location_id: &u128) -> (r: Vec<u128>)
        ensures
            r@.no_duplicates(),
            forall|p: u128|
                #[trigger] r@.contains(p) <==> lists(self.gathered(RelationshipKind::Access), p).contains(*location_id),
    {
        let ghost m = self.access_permissions@;
        let ghost pairs = vstd::std_specs::iter::IteratorSpec::remaining(
            &vstd::std_specs::hash::spec_hash_map_iter(&self.access_permissions),
        );
        let mut out: Vec<u128> = Vec::new();
        for pair in it: self.access_permissions.iter()
            invariant
                it.seq() == pairs,
                m == self.access_permissions@,
                pairs.no_duplicates(),
                forall|j: int|
                    0 <= j < pairs.len() ==> m.contains_key(*(#[trigger] pairs[j]).0) && m[*pairs[j].0] == *pairs[j].1,
                out@.no_duplicates(),
                forall|p: u128|
                    #[trigger] out@.contains(p) <==> exists|j: int|
                        0 <= j < it.index() && *pairs[j].0 == p && pairs[j].1@.contains(*location_id),
        {
            let ghost idx = it.index();
            let ghost old_out = out@;
            let (person, places) = pair;
            let mut found = false;
            let mut k: usize = 0;
            while k < places.len()
                invariant
                    k <= places@.len(),
                    found <==> places@.take(k as int).contains(*location_id),
                decreases places.len() - k,
            {
                proof {
                    assert(places@.take(k + 1) =~= places@.take(k as int).push(places@[k as int]));
                }
                proof {
                    lemma_push_contains(places@.take(k as int), places@[k as int], *location_id);
                }
                if places[k] == *location_id {
                    found = true;
                }
                k = k + 1;
            }
            proof {
                assert(places@.take(places@.len() as int) =~= places@);
            }
            if found {
                proof {
                    assert(!out@.contains(*person)) by {
                        if out@.contains(*person) {
                            let j = choose|j: int|
                                0 <= j < idx && *pairs[j].0 == *person && pairs[j].1@.contains(*location_id);
                            assert(pairs[j] != pairs[idx]);
                            assert(m[*pairs[j].0] == *pairs[j].1);
                            assert(m[*pairs[idx].0] == *pairs[idx].1);
                        }
                    }
                }
                proof {
                    lemma_push_contains(out@, *person, *person);
                }
                out.push(*person);
            }
            proof {
                assert(pair == pairs[idx]);
                assert forall|p: u128|
                    #[trigger] out@.contains(p) <==> exists|j: int|
                        0 <= j < idx + 1 && *pairs[j].0 == p && pairs[j].1@.contains(*location_id) by {
                    if found {
                        lemma_push_contains(old_out, *person, p);
                    }
                    if exists|j: int| 0 <= j < idx + 1 && *pairs[j].0 == p && pairs[j].1@.contains(*location_id) {
                        let j = choose|j: int|
                            0 <= j < idx + 1 && *pairs[j].0 == p && pairs[j].1@.contains(*location_id);
                        if j < idx {
                            assert(old_out.contains(p));
                        }
                    }
                }
            }
        }
        proof {
            assert forall|p: u128|
                #[trigger] out@.contains(p) <==> lists(self.gathered(RelationshipKind::Access), p).contains(
                    *location_id,
                ) by {
                if lists(m, p).contains(*location_id) {
                    assert(m.contains_key(p));
                    assert(pairs.contains((&p, &m[p])));
                    let j = choose|j: int| 0 <= j < pairs.len() && pairs[j] == (&p, &m[p]);
                    assert(*pairs[j].0 == p);
                }
                if out@.contains(p) {
                    let j = choose|j: int|
                        0 <= j < pairs.len() && *pairs[j].0 == p && pairs[j].1@.contains(*location_id);
                    assert(m.contains_key(p) && m[p] == *pairs[j].1);
                }
            }
        }
        out
    }

    /// "Relationships: T trust, D delegations, R roles, A access grants, M
    /// members": the numbers of trusters, delegators, people with roles and
    /// people with access, and the number of memberships.
    pub fn summary(&self) -> (r: String)
        ensures
            r@ == "Relationships: "@ + decimal_chars(self.gathered(RelationshipKind::Trust).len()) + " trust, "@
                + decimal_chars(self.gathered(RelationshipKind::Delegation).len()) + " delegations, "@
                + decimal_chars(self.gathered(RelationshipKind::Role).len()) + " roles, "@ + decimal_chars(
                self.gathered(RelationshipKind::Access).len(),
            ) + " access grants, "@ + decimal_chars(self.members()) + " members"@,
    {
        let mut s = owned("Relationships: ");
        s = concat(s.as_str(), decimal(self.trust_relationships.len()).as_str());
        s = concat(s.as_str(), " trust, ");
        s = concat(s.as_str(), decimal(self.key_delegations.len()).as_str());
        s = concat(s.as_str(), " delegations, ");
        s = concat(s.as_str(), decimal(self.role_assignments.len()).as_str());
        s = concat(s.as_str(), " roles, ");
        s = concat(s.as_str(), decimal(self.access_permissions.len()).as_str());
        s = concat(s.as_str(), " access grants, ");
        s = concat(s.as_str(), decimal(self.member_count).as_str());
        s = concat(s.as_str(), " members");
        s
    }
}

} // verus!
