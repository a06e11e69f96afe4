//! The tiers of the hierarchical layout: nodes grouped by what they stand
//! for, from the organization down to YubiKey slots, people ordered by the
//! authority of their role; and the pairs of edges whose drawings may
//! cross. Placing the tiers on the canvas, and testing whether two drawn
//! edges do cross, is the drawing layer's.

use vstd::prelude::*;
use crate::graph_model::{GraphEdge, GraphNode, NodeType, OrganizationGraph, has_node};
use crate::graph_pki::{find_person_key_role, person_role};
use crate::yubikey::KeyOwnerRole;

verus! {

/// Number of tiers of the hierarchical layout.
pub const TIER_COUNT: u8 = 23;

/// The tier of a person with key-owner role `r`: root authorities first,
/// then security admins, backup holders, auditors, developers and service
/// accounts.
pub open spec fn person_tier(r: KeyOwnerRole) -> nat {
    match r {
        KeyOwnerRole::RootAuthority => 4,
        KeyOwnerRole::SecurityAdmin => 5,
        KeyOwnerRole::BackupHolder => 6,
        KeyOwnerRole::Auditor => 7,
        KeyOwnerRole::Developer => 8,
        KeyOwnerRole::ServiceAccount => 9,
    }
}

/// The tier of a node, top to bottom: organization, units, roles, policies,
/// people by role, locations, the NATS hierarchy, the PKI chain, and
/// YubiKeys with their slots and status.
pub open spec fn tier_of(g: OrganizationGraph, n: GraphNode) -> nat {
    match n.node_type {
        NodeType::Organization => 0,
        NodeType::OrganizationalUnit => 1,
        NodeType::Role => 2,
        NodeType::Policy => 3,
        NodeType::Person => person_tier(person_role(g.nodes@, g.edges@, n.id)),
        NodeType::Location => 10,
        NodeType::NatsOperator => 11,
        NodeType::NatsAccount => 12,
        NodeType::NatsUser => 13,
        NodeType::NatsServiceAccount => 14,
        NodeType::RootCertificate => 15,
        NodeType::IntermediateCertificate => 16,
        NodeType::LeafCertificate => 17,
        NodeType::Key => 18,
        NodeType::YubiKey => 19,
        NodeType::PivSlot => 20,
        NodeType::YubiKeyStatus => 21,
        NodeType::Manifest => 22,
    }
}

/// The order of the tiers, top to bottom: the organization, its units,
/// roles and policies; then people, by role from the root authority down to
/// service accounts; then locations; the NATS operator, accounts, users and
/// service accounts; the PKI chain from root CA through intermediate CAs to
/// leaf certificates; keys; YubiKeys, their slots and status; and
/// manifests. Nodes of one kind other than people share a tier.
pub proof fn lemma_tier_order(g: OrganizationGraph, a: GraphNode, b: GraphNode)
    ensures
        (a.node_type == NodeType::Organization && b.node_type == NodeType::OrganizationalUnit) ==> tier_of(g, a) < tier_of(g, b),
        (a.node_type == NodeType::OrganizationalUnit && b.node_type == NodeType::Role) ==> tier_of(g, a) < tier_of(g, b),
        (a.node_type == NodeType::Role && b.node_type == NodeType::Policy) ==> tier_of(g, a) < tier_of(g, b),
        (a.node_type == NodeType::Location && b.node_type == NodeType::NatsOperator) ==> tier_of(g, a) < tier_of(g, b),
        (a.node_type == NodeType::NatsOperator && b.node_type == NodeType::NatsAccount) ==> tier_of(g, a) < tier_of(g, b),
        (a.node_type == NodeType::NatsAccount && b.node_type == NodeType::NatsUser) ==> tier_of(g, a) < tier_of(g, b),
        (a.node_type == NodeType::NatsUser && b.node_type == NodeType::NatsServiceAccount) ==> tier_of(g, a) < tier_of(g, b),
        (a.node_type == NodeType::NatsServiceAccount && b.node_type == NodeType::RootCertificate) ==> tier_of(g, a) < tier_of(g, b),
        (a.node_type == NodeType::RootCertificate && b.node_type == NodeType::IntermediateCertificate) ==> tier_of(g, a) < tier_of(g, b),
        (a.node_type == NodeType::IntermediateCertificate && b.node_type == NodeType::LeafCertificate) ==> tier_of(g, a) < tier_of(g, b),
        (a.node_type == NodeType::LeafCertificate && b.node_type == NodeType::Key) ==> tier_of(g, a) < tier_of(g, b),
        (a.node_type == NodeType::Key && b.node_type == NodeType::YubiKey) ==> tier_of(g, a) < tier_of(g, b),
        (a.node_type == NodeType::YubiKey && b.node_type == NodeType::PivSlot) ==> tier_of(g, a) < tier_of(g, b),
        (a.node_type == NodeType::PivSlot && b.node_type == NodeType::YubiKeyStatus) ==> tier_of(g, a) < tier_of(g, b),
        (a.node_type == NodeType::YubiKeyStatus && b.node_type == NodeType::Manifest) ==> tier_of(g, a) < tier_of(g, b),
        (a.node_type == NodeType::Policy && b.node_type == NodeType::Person) ==> tier_of(g, a) < tier_of(g, b),
        (a.node_type == NodeType::Person && b.node_type == NodeType::Location) ==> tier_of(g, a) < tier_of(g, b),
        (a.node_type == NodeType::Person && b.node_type == NodeType::Person && person_role(g.nodes@, g.edges@, a.id)
            == KeyOwnerRole::RootAuthority && person_role(g.nodes@, g.edges@, b.id) == KeyOwnerRole::SecurityAdmin) ==> tier_of(g, a) < tier_of(g, b),
        (a.node_type == NodeType::Person && b.node_type == NodeType::Person && person_role(g.nodes@, g.edges@, a.id)
            == KeyOwnerRole::SecurityAdmin && person_role(g.nodes@, g.edges@, b.id) == KeyOwnerRole::BackupHolder) ==> tier_of(g, a) < tier_of(g, b),
        (a.node_type == NodeType::Person && b.node_type == NodeType::Person && person_role(g.nodes@, g.edges@, a.id)
            == KeyOwnerRole::BackupHolder && person_role(g.nodes@, g.edges@, b.id) == KeyOwnerRole::Auditor) ==> tier_of(g, a) < tier_of(g, b),
        (a.node_type == NodeType::Person && b.node_type == NodeType::Person && person_role(g.nodes@, g.edges@, a.id)
            == KeyOwnerRole::Auditor && person_role(g.nodes@, g.edges@, b.id) == KeyOwnerRole::Developer) ==> tier_of(g, a) < tier_of(g, b),
        (a.node_type == NodeType::Person && b.node_type == NodeType::Person && person_role(g.nodes@, g.edges@, a.id)
            == KeyOwnerRole::Developer && person_role(g.nodes@, g.edges@, b.id) == KeyOwnerRole::ServiceAccount) ==> tier_of(g, a) < tier_of(g, b),
        (a.node_type == b.node_type && a.node_type != NodeType::Person) ==> tier_of(g, a) == tier_of(g, b),
{
}

/// The identifiers of the nodes in tier `k`, in the order of the graph.
pub open spec fn tier_members(g: OrganizationGraph, k: nat) -> Seq<u128> {
    g.nodes@.filter(|n: GraphNode| tier_of(g, n) == k).map_values(|n: GraphNode| n.id)
}

/// The non-empty tiers among the first `k`, top to bottom.
pub open spec fn tiers_upto(g: OrganizationGraph, k: nat) -> Seq<Seq<u128>>
    decreases k,
{
    if k == 0 {
        Seq::empty()
    } else {
        let prev = tiers_upto(g, (k - 1) as nat);
        let m = tier_members(g, (k - 1) as nat);
        if m.len() > 0 {
            prev.push(m)
        } else {
            prev
        }
    }
}

/// The tier of a node.
fn node_tier(graph: &OrganizationGraph, n: &GraphNode) -> (r: u8)
    requires
        graph.well_formed(),
    ensures
        r == tier_of(*graph, *n),
{
    match n.node_type {
        NodeType::Organization => 0,
        NodeType::OrganizationalUnit => 1,
        NodeType::Role => 2,
        NodeType::Policy => 3,
        NodeType::Person => match find_person_key_role(n.id, graph) {
            KeyOwnerRole::RootAuthority => 4,
            KeyOwnerRole::SecurityAdmin => 5,
            KeyOwnerRole::BackupHolder => 6,
            KeyOwnerRole::Auditor => 7,
            KeyOwnerRole::Developer => 8,
            KeyOwnerRole::ServiceAccount => 9,
        },
        NodeType::Location => 10,
        NodeType::NatsOperator => 11,
        NodeType::NatsAccount => 12,
        NodeType::NatsUser => 13,
        NodeType::NatsServiceAccount => 14,
        NodeType::RootCertificate => 15,
        NodeType::IntermediateCertificate => 16,
        NodeType::LeafCertificate => 17,
        NodeType::Key => 18,
        NodeType::YubiKey => 19,
        NodeType::PivSlot => 20,
        NodeType::YubiKeyStatus => 21,
        NodeType::Manifest => 22,
    }
}

/// The tiers of the hierarchical layout: for each tier that has nodes, top
/// to bottom, the identifiers of its nodes in the order of the graph.
pub fn layout_tiers(graph: &OrganizationGraph) -> (r: Vec<Vec<u128>>)
    requires
        graph.well_formed(),
    ensures
        r@.map_values(|t: Vec<u128>| t@) == tiers_upto(*graph, TIER_COUNT as nat),
{
    let mut ranks: Vec<u8> = Vec::new();
    let mut i: usize = 0;
    while i < graph.nodes.len()
        invariant
            graph.well_formed(),
            i <= graph.nodes@.len(),
            ranks@.len() == i,
            forall|j: int| 0 <= j < i ==> ranks@[j] == tier_of(*graph, #[trigger] graph.nodes@[j]),
        decreases graph.nodes.len() - i,
    {
        let r = node_tier(graph, &graph.nodes[i]);
        ranks.push(r);
        i = i + 1;
    }
    let mut tiers: Vec<Vec<u128>> = Vec::new();
    let mut k: u8 = 0;
    while k < TIER_COUNT
        invariant
            k <= TIER_COUNT,
            ranks@.len() == graph.nodes@.len(),
            forall|j: int| 0 <= j < graph.nodes@.len() ==> ranks@[j] == tier_of(*graph, #[trigger] graph.nodes@[j]),
            tiers@.map_values(|t: Vec<u128>| t@) == tiers_upto(*graph, k as nat),
        decreases TIER_COUNT - k,
    {
        let ghost pred = |n: GraphNode| tier_of(*graph, n) == k as nat;
        let mut members: Vec<u128> = Vec::new();
        let mut j: usize = 0;
        while j < graph.nodes.len()
            invariant
                j <= graph.nodes@.len(),
                ranks@.len() == graph.nodes@.len(),
                forall|m: int| 0 <= m < graph.nodes@.len() ==> ranks@[m] == tier_of(*graph, #[trigger] graph.nodes@[m]),
                pred == (|n: GraphNode| tier_of(*graph, n) == k as nat),
                members@ == graph.nodes@.take(j as int).filter(pred).map_values(|n: GraphNode| n.id),
            decreases graph.nodes.len() - j,
        {
            proof {
                reveal_with_fuel(Seq::filter, 1);
                assert(graph.nodes@.take(j + 1).drop_last() =~= graph.nodes@.take(j as int));
            }
            if ranks[j] == k {
                members.push(graph.nodes[j].id);
            }
            proof {
                assert(members@ =~= graph.nodes@.take(j + 1).filter(pred).map_values(|n: GraphNode| n.id));
            }
            j = j + 1;
        }
        proof {
            assert(graph.nodes@.take(graph.nodes@.len() as int) =~= graph.nodes@);
            assert(members@ == tier_members(*graph, k as nat));
        }
        let ghost before = tiers@;
        if members.len() > 0 {
            tiers.push(members);
            proof {
                assert(tiers@.map_values(|t: Vec<u128>| t@) =~= before.map_values(|t: Vec<u128>| t@).push(
                    tier_members(*graph, k as nat),
                ));
            }
        }
        k = k + 1;
    }
    tiers
}

/// Every node of the graph has one of the tiers, and is among its members.
pub proof fn lemma_tiers_partition(g: OrganizationGraph, n: GraphNode)
    requires
        g.nodes@.contains(n),
    ensures
        tier_of(g, n) < TIER_COUNT,
        tier_members(g, tier_of(g, n)).contains(n.id),
{
    let pred = |m: GraphNode| tier_of(g, m) == tier_of(g, n);
    let i = choose|i: int| 0 <= i < g.nodes@.len() && g.nodes@[i] == n;
    g.nodes@.lemma_filter_contains(pred, i);
    let f = g.nodes@.filter(pred);
    let j = choose|j: int| 0 <= j < f.len() && f[j] == n;
    assert(f.map_values(|m: GraphNode| m.id)[j] == n.id);
}


/// Whether two edges share an end.
pub open spec fn shares_end(a: GraphEdge, b: GraphEdge) -> bool {
    a.from == b.from || a.from == b.to || a.to == b.from || a.to == b.to
}

/// Whether both ends of an edge are nodes of the graph.
pub open spec fn drawn(nodes: Seq<GraphNode>, e: GraphEdge) -> bool {
    has_node(nodes, e.from) && has_node(nodes, e.to)
}

/// Whether edges `i` and `j` (with `i` before `j`) are both drawn and share
/// no end, so that their drawings may cross.
pub open spec fn may_cross(g: OrganizationGraph, i: int, j: int) -> bool {
    &&& 0 <= i < j < g.edges@.len()
    &&& !shares_end(g.edges@[i], g.edges@[j])
    &&& drawn(g.nodes@, g.edges@[i])
    &&& drawn(g.nodes@, g.edges@[j])
}

/// The pairs `(i, j)` that may cross, for edge `i` and every later edge
/// `j` below `m`, in order of `j`.
pub open spec fn pairs_with(g: OrganizationGraph, i: int, m: int) -> Seq<(usize, usize)>
    decreases m - i,
{
    if m <= i + 1 {
        Seq::empty()
    } else if may_cross(g, i, m - 1) {
        pairs_with(g, i, m - 1).push((i as usize, (m - 1) as usize))
    } else {
        pairs_with(g, i, m - 1)
    }
}

/// The pairs that may cross whose first edge is below `n`, in order of
/// the first edge, then of the second.
pub open spec fn crossing_candidates(g: OrganizationGraph, n: int) -> Seq<(usize, usize)>
    decreases n,
{
    if n <= 0 {
        Seq::empty()
    } else {
        crossing_candidates(g, n - 1) + pairs_with(g, n - 1, g.edges@.len() as int)
    }
}

/// Every pair listed for edge `i` may cross.
pub proof fn lemma_pairs_with_may_cross(g: OrganizationGraph, i: int, m: int)
    requires
        0 <= i,
        m <= g.edges@.len(),
    ensures
        forall|k: int|
            0 <= k < pairs_with(g, i, m).len() ==> may_cross(
                g,
                (#[trigger] pairs_with(g, i, m)[k]).0 as int,
                pairs_with(g, i, m)[k].1 as int,
            ),
    decreases m - i,
{
    if m > i + 1 {
        lemma_pairs_with_may_cross(g, i, m - 1);
        assert(g.edges@.len() == g.edges.len());
        assert(((i as usize) as int) == i);
        assert((((m - 1) as usize) as int) == m - 1);
        let prev = pairs_with(g, i, m - 1);
        assert forall|k: int| 0 <= k < pairs_with(g, i, m).len() implies may_cross(
            g,
            (#[trigger] pairs_with(g, i, m)[k]).0 as int,
            pairs_with(g, i, m)[k].1 as int,
        ) by {
            if k < prev.len() {
                assert(pairs_with(g, i, m)[k] == prev[k]);
            }
        }
    }
}

/// Every listed pair may cross.
pub proof fn lemma_crossing_candidates_may_cross(g: OrganizationGraph, n: int)
    requires
        n <= g.edges@.len(),
    ensures
        forall|k: int|
            0 <= k < crossing_candidates(g, n).len() ==> may_cross(
                g,
                (#[trigger] crossing_candidates(g, n)[k]).0 as int,
                crossing_candidates(g, n)[k].1 as int,
            ),
    decreases n,
{
    if n > 0 {
        lemma_crossing_candidates_may_cross(g, n - 1);
        lemma_pairs_with_may_cross(g, n - 1, g.edges@.len() as int);
        let front = crossing_candidates(g, n - 1);
        let back = pairs_with(g, n - 1, g.edges@.len() as int);
        assert forall|k: int| 0 <= k < crossing_candidates(g, n).len() implies may_cross(
            g,
            (#[trigger] crossing_candidates(g, n)[k]).0 as int,
            crossing_candidates(g, n)[k].1 as int,
        ) by {
            if k < front.len() {
                assert(crossing_candidates(g, n)[k] == front[k]);
            } else {
                assert(crossing_candidates(g, n)[k] == back[k - front.len()]);
            }
        }
    }
}

/// Whether both ends of `e` are nodes of the graph.
fn is_drawn(graph: &OrganizationGraph, e: &GraphEdge) -> (r: bool)
    ensures
        r == drawn(graph.nodes@, *e),
{
    graph.find_node(e.from).is_some() && graph.find_node(e.to).is_some()
}

/// The pairs of edges `(i, j)`, `i < j`, whose drawings may cross: both
/// drawn, sharing no end; in order of `i`, then of `j`. Which of them do
/// cross is a question of canvas geometry.
pub fn crossing_pairs(graph: &OrganizationGraph) -> (r: Vec<(usize, usize)>)
    ensures
        r@ == crossing_candidates(*graph, graph.edges@.len() as int),
{
    let n = graph.edges.len();
    let mut out: Vec<(usize, usize)> = Vec::new();
    let mut i: usize = 0;
    while i < n
        invariant
            n == graph.edges@.len(),
            i <= n,
            out@ == crossing_candidates(*graph, i as int),
        decreases n - i,
    {
        let ghost front = out@;
        let mut j: usize = i + 1;
        while j < n
            invariant
                n == graph.edges@.len(),
                i < n,
                i + 1 <= j <= n,
                out@ == front + pairs_with(*graph, i as int, j as int),
            decreases n - j,
        {
            let a = graph.edges[i];
            let b = graph.edges[j];
            let apart = !(a.from == b.from || a.from == b.to || a.to == b.from || a.to == b.to);
            if apart && is_drawn(graph, &a) && is_drawn(graph, &b) {
                out.push((i, j));
                proof {
                    assert(out@ =~= front + pairs_with(*graph, i as int, j + 1));
                }
            }
            j = j + 1;
        }
        i = i + 1;
    }
    out
}

/// The pairs that may cross whose first edge starts or ends at `node`, in
/// order of the first edge, then of the second.
pub open spec fn node_crossing_candidates(g: OrganizationGraph, node: u128) -> Seq<(usize, usize)> {
    crossing_candidates(g, g.edges@.len() as int).filter(
        |p: (usize, usize)| g.edges@[p.0 as int].from == node || g.edges@[p.0 as int].to == node,
    )
}

/// The pairs of `crossing_pairs` whose first edge starts or ends at `node`.
pub fn crossing_pairs_for_node(graph: &OrganizationGraph, node: u128) -> (r: Vec<(usize, usize)>)
    ensures
        r@ == node_crossing_candidates(*graph, node),
{
    let all = crossing_pairs(graph);
    proof {
        lemma_crossing_candidates_may_cross(*graph, graph.edges@.len() as int);
    }
    let ghost pred = |p: (usize, usize)|
        graph.edges@[p.0 as int].from == node || graph.edges@[p.0 as int].to == node;
    let mut out: Vec<(usize, usize)> = Vec::new();
    let mut k: usize = 0;
    while k < all.len()
        invariant
            k <= all@.len(),
            all@ == crossing_candidates(*graph, graph.edges@.len() as int),
            pred == (|p: (usize, usize)| graph.edges@[p.0 as int].from == node || graph.edges@[p.0 as int].to == node),
            forall|m: int| 0 <= m < all@.len() ==> (#[trigger] all@[m]).0 < graph.edges@.len(),
            out@ == all@.take(k as int).filter(pred),
        decreases all.len() - k,
    {
        proof {
            reveal_with_fuel(Seq::filter, 1);
            assert(all@.take(k + 1).drop_last() =~= all@.take(k as int));
        }
        let p = all[k];
        let e = graph.edges[p.0];
        if e.from == node || e.to == node {
            out.push(p);
        }
        proof {
            assert(out@ =~= all@.take(k + 1).filter(pred));
        }
        k = k + 1;
    }
    proof {
        assert(all@.take(all@.len() as int) =~= all@);
    }
    out
}

} // verus!
