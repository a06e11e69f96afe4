//! Graph-first NATS: the organization graph decides the NATS hierarchy. The
//! organization becomes the operator, each organizational unit an account
//! under its parent, and each person a user under the unit they are a
//! member of. Roles come from the graph as for the certificates.

use vstd::prelude::*;
use crate::graph_model::{GraphNode, NodeType, OrganizationGraph, Position};
use crate::graph_pki::{
    HierarchyStep, PersonPlacement, UnitPlacement, all_parents_ready, first_of_type, first_step_for,
    lemma_only_first_step_is_root,
    first_unready, graph_steps, issued_for, label_for, label_of_node, links_of, no_organization_message,
    organization_root, parent_ready, person_placements, place_people, place_units, placement_links,
    position_of_tier, tier_position, unit_placements,
};
use crate::ids::fresh_id;
use crate::text::{concat, first_word, first_word_or_all, lowercase, lowercase_of, owned};
use crate::yubikey::KeyOwnerRole;

verus! {

/// The NATS hierarchy that the graph calls for.
#[derive(Clone, Debug)]
pub struct NatsHierarchy {
    /// The organization that becomes the operator.
    pub root_organization: Option<u128>,
    /// The units that become accounts, each under its parent.
    pub nats_accounts: Vec<UnitPlacement>,
    /// The people who become users, with their role and parent.
    pub nats_users: Vec<PersonPlacement>,
    /// Parent-to-child edges of the hierarchy.
    pub hierarchy_edges: Vec<(u128, u128)>,
}

impl NatsHierarchy {
    /// An empty hierarchy.
    pub fn new() -> (r: Self)
        ensures
            r.root_organization is None,
            r.nats_accounts@.len() == 0,
            r.nats_users@.len() == 0,
            r.hierarchy_edges@.len() == 0,
    {
        NatsHierarchy {
            root_organization: None,
            nats_accounts: Vec::new(),
            nats_users: Vec::new(),
            hierarchy_edges: Vec::new(),
        }
    }
}

/// Reads the NATS hierarchy off the graph, placing units and people as the
/// certificate hierarchy does.
pub fn analyze_graph_for_nats(graph: &OrganizationGraph) -> (r: NatsHierarchy)
    requires
        graph.well_formed(),
    ensures
        r.root_organization == first_of_type(graph.nodes@, NodeType::Organization),
        r.nats_accounts@ == unit_placements(*graph, r.root_organization),
        r.nats_users@ == person_placements(*graph, r.root_organization),
        r.hierarchy_edges@ == placement_links(r.nats_accounts@, r.nats_users@),
{
    let root = organization_root(graph);
    let accounts = place_units(graph, root);
    let users = place_people(graph, root);
    let links = links_of(&accounts, &users);
    NatsHierarchy { root_organization: root, nats_accounts: accounts, nats_users: users, hierarchy_edges: links }
}

/// A NATS entity to generate, named by the entity it is for.
#[derive(Clone, Copy, Debug, PartialEq, Eq, Hash, Structural)]
pub enum NatsGenerationOrder {
    /// The operator of an organization.
    Operator(u128),
    /// The account of a unit.
    Account(u128),
    /// The user of a person.
    User(u128),
}

/// The entities of a hierarchy in generation order: the operator, then the
/// accounts, then the users.
pub open spec fn nats_order(
    root: Option<u128>,
    accounts: Seq<UnitPlacement>,
    users: Seq<PersonPlacement>,
) -> Seq<NatsGenerationOrder> {
    let head = match root {
        Some(org) => seq![NatsGenerationOrder::Operator(org)],
        None => Seq::empty(),
    };
    head + accounts.map_values(|u: UnitPlacement| NatsGenerationOrder::Account(u.unit_id)) + users.map_values(
        |p: PersonPlacement| NatsGenerationOrder::User(p.person_id),
    )
}

/// The tier of a NATS entity: operator, account, user.
pub open spec fn nats_tier(o: NatsGenerationOrder) -> nat {
    match o {
        NatsGenerationOrder::Operator(_) => 0,
        NatsGenerationOrder::Account(_) => 1,
        NatsGenerationOrder::User(_) => 2,
    }
}

/// The order in which to generate the NATS entities of a hierarchy:
/// operator first, then accounts, then users.
pub fn determine_generation_order(hierarchy: &NatsHierarchy) -> (r: Vec<NatsGenerationOrder>)
    ensures
        r@ == nats_order(hierarchy.root_organization, hierarchy.nats_accounts@, hierarchy.nats_users@),
{
    let mut order: Vec<NatsGenerationOrder> = Vec::new();
    match hierarchy.root_organization {
        Some(org) => order.push(NatsGenerationOrder::Operator(org)),
        None => {},
    }
    let ghost head = order@;
    let mut i: usize = 0;
    while i < hierarchy.nats_accounts.len()
        invariant
            i <= hierarchy.nats_accounts@.len(),
            head == (match hierarchy.root_organization {
                Some(org) => seq![NatsGenerationOrder::Operator(org)],
                None => Seq::<NatsGenerationOrder>::empty(),
            }),
            order@ == head + hierarchy.nats_accounts@.take(i as int).map_values(
                |u: UnitPlacement| NatsGenerationOrder::Account(u.unit_id),
            ),
        decreases hierarchy.nats_accounts.len() - i,
    {
        order.push(NatsGenerationOrder::Account(hierarchy.nats_accounts[i].unit_id));
        proof {
            assert(order@ =~= head + hierarchy.nats_accounts@.take(i + 1).map_values(
                |u: UnitPlacement| NatsGenerationOrder::Account(u.unit_id),
            ));
        }
        i = i + 1;
    }
    proof {
        assert(hierarchy.nats_accounts@.take(hierarchy.nats_accounts@.len() as int) =~= hierarchy.nats_accounts@);
    }
    let ghost mid = order@;
    let mut j: usize = 0;
    while j < hierarchy.nats_users.len()
        invariant
            j <= hierarchy.nats_users@.len(),
            order@ == mid + hierarchy.nats_users@.take(j as int).map_values(
                |p: PersonPlacement| NatsGenerationOrder::User(p.person_id),
            ),
        decreases hierarchy.nats_users.len() - j,
    {
        order.push(NatsGenerationOrder::User(hierarchy.nats_users[j].person_id));
        proof {
            assert(order@ =~= mid + hierarchy.nats_users@.take(j + 1).map_values(
                |p: PersonPlacement| NatsGenerationOrder::User(p.person_id),
            ));
        }
        j = j + 1;
    }
    proof {
        assert(hierarchy.nats_users@.take(hierarchy.nats_users@.len() as int) =~= hierarchy.nats_users@);
    }
    order
}

/// Signers come first: the operator precedes every account, and every
/// account precedes every user.
pub proof fn lemma_nats_order_is_tiered(
    root: Option<u128>,
    accounts: Seq<UnitPlacement>,
    users: Seq<PersonPlacement>,
)
    ensures
        forall|i: int, j: int|
            0 <= i < j < nats_order(root, accounts, users).len() ==> nats_tier(
                #[trigger] nats_order(root, accounts, users)[i],
            ) <= nats_tier(#[trigger] nats_order(root, accounts, users)[j]),
{
    let o = nats_order(root, accounts, users);
    let h: int = if root is Some { 1 } else { 0 };
    assert forall|i: int, j: int| 0 <= i < j < o.len() implies nats_tier(#[trigger] o[i]) <= nats_tier(
        #[trigger] o[j],
    ) by {
        if i < h {
            assert(nats_tier(o[i]) == 0);
        } else if i < h + accounts.len() {
            assert(nats_tier(o[i]) == 1);
            if j < h + accounts.len() {
                assert(nats_tier(o[j]) == 1);
            } else {
                assert(nats_tier(o[j]) == 2);
            }
        } else {
            assert(nats_tier(o[i]) == 2);
            assert(nats_tier(o[j]) == 2);
        }
    }
}


/// A NATS entity that the graph calls for, as it goes into the graph.
#[derive(Clone, Debug)]
pub enum NatsNode {
    /// The operator of an organization.
    Operator { id: u128, name: String, organization_id: Option<u128> },
    /// The account of a unit.
    Account { id: u128, name: String, unit_id: Option<u128>, is_system: bool },
    /// The user of a person, in an account.
    User { id: u128, name: String, person_id: Option<u128>, account_name: String },
}

/// The identifier of a NATS node.
pub open spec fn nats_node_id(n: NatsNode) -> u128 {
    match n {
        NatsNode::Operator { id, .. } => id,
        NatsNode::Account { id, .. } => id,
        NatsNode::User { id, .. } => id,
    }
}

impl NatsNode {
    /// The node's identifier.
    pub fn id(&self) -> (r: u128)
        ensures
            r == nats_node_id(*self),
    {
        match self {
            NatsNode::Operator { id, .. } => *id,
            NatsNode::Account { id, .. } => *id,
            NatsNode::User { id, .. } => *id,
        }
    }
}

/// The user name of a person called `name`: the first word of the name in
/// lower case.
pub open spec fn nats_user_name(name: Seq<char>) -> Seq<char> {
    lowercase_of(first_word_or_all(name))
}

/// Whether the `i`th generated NATS node is the one that step `i` calls
/// for: an operator named after the organization, a non-system account
/// named after the unit, or a user named by the person's first name in
/// lower case, in the account "default"; each drawn where its tier goes and
/// signed by the node of the first step for its parent.
pub open spec fn nats_node_fits(
    nodes: Seq<GraphNode>,
    steps: Seq<HierarchyStep>,
    out: Seq<(NatsNode, Position, Option<u128>)>,
    i: int,
) -> bool {
    let s = steps[i];
    let name = label_for(nodes, s.entity);
    &&& match out[i].0 {
        NatsNode::Operator { name: n, organization_id, .. } => s.tier == 0 && n@ == name && organization_id == Some(
            s.entity,
        ),
        NatsNode::Account { name: n, unit_id, is_system, .. } => s.tier == 1 && n@ == name && unit_id == Some(
            s.entity,
        ) && !is_system,
        NatsNode::User { name: n, person_id, account_name, .. } => s.tier == 2 && n@ == nats_user_name(name)
            && person_id == Some(s.entity) && account_name@ == "default"@,
    }
    &&& out[i].1 == tier_position(s.tier)
    &&& match s.parent {
        None => out[i].2 is None,
        Some(p) => exists|j: int|
            #![trigger out[j]]
            first_step_for(steps, p, j, i) && out[i].2 == Some(nats_node_id(out[j].0)),
    }
}

/// The error for a unit or person whose parent NATS entity is missing.
pub open spec fn missing_parent_entity(tier: u8, name: Seq<char>) -> Seq<char> {
    if tier == 1 {
        "Parent NATS entity not found for unit: "@ + name + ". Generate parent first."@
    } else {
        "Parent NATS entity not found for person: "@ + name + ". Generate parent first."@
    }
}

/// Extending the generated list keeps what held of its earlier entries.
proof fn lemma_nats_fits_after_push(
    nodes: Seq<GraphNode>,
    steps: Seq<HierarchyStep>,
    out: Seq<(NatsNode, Position, Option<u128>)>,
    x: (NatsNode, Position, Option<u128>),
    k: int,
)
    requires
        0 <= k < out.len(),
        nats_node_fits(nodes, steps, out, k),
    ensures
        nats_node_fits(nodes, steps, out.push(x), k),
{
    let o2 = out.push(x);
    assert(o2[k] == out[k]);
    match steps[k].parent {
        None => {},
        Some(p) => {
            let j = choose|j: int|
                #![trigger out[j]]
                first_step_for(steps, p, j, k) && out[k].2 == Some(nats_node_id(out[j].0));
            assert(o2[j] == out[j]);
        },
    }
}

/// The NATS node of a tier for the entity `entity` called `name`.
fn new_nats_node(tier: u8, entity: u128, name: &String) -> (r: NatsNode)
    ensures
        match r {
            NatsNode::Operator { name: n, organization_id, .. } => tier == 0 && n@ == name@ && organization_id
                == Some(entity),
            NatsNode::Account { name: n, unit_id, is_system, .. } => tier == 1 && n@ == name@ && unit_id == Some(
                entity,
            ) && !is_system,
            NatsNode::User { name: n, person_id, account_name, .. } => tier != 0 && tier != 1 && n@
                == nats_user_name(name@) && person_id == Some(entity) && account_name@ == "default"@,
        },
{
    let id = fresh_id();
    if tier == 0 {
        NatsNode::Operator { id, name: name.clone(), organization_id: Some(entity) }
    } else if tier == 1 {
        NatsNode::Account { id, name: name.clone(), unit_id: Some(entity), is_system: false }
    } else {
        let word = first_word(name.as_str());
        NatsNode::User { id, name: lowercase(word.as_str()), person_id: Some(entity), account_name: owned("default") }
    }
}

/// Adds the NATS node of step `k` (tier 1 or 2, for `entity` under
/// `parent`) to the generated list, or gives the error that its parent has
/// no node yet.
fn nats_step(
    graph: &OrganizationGraph,
    steps: Ghost<Seq<HierarchyStep>>,
    out: &mut Vec<(NatsNode, Position, Option<u128>)>,
    issued: &mut Vec<(u128, u128)>,
    entity: u128,
    tier: u8,
    parent: u128,
    role: Option<KeyOwnerRole>,
) -> (r: Result<(), String>)
    requires
        graph.well_formed(),
        1 <= tier <= 2,
        old(out)@.len() < steps@.len(),
        old(issued)@.len() == old(out)@.len(),
        steps@[old(out)@.len() as int] == (HierarchyStep { entity, tier, parent: Some(parent), role }),
        forall|k: int|
            0 <= k < old(out)@.len() ==> #[trigger] old(issued)@[k].0 == steps@[k].entity && old(issued)@[k].1
                == nats_node_id(old(out)@[k].0),
        forall|k: int| 0 <= k < old(out)@.len() ==> nats_node_fits(graph.nodes@, steps@, old(out)@, k),
        forall|k: int| 0 <= k < old(out)@.len() ==> parent_ready(steps@, k),
    ensures
        match r {
            Ok(_) => {
                &&& final(out)@.len() == old(out)@.len() + 1
                &&& final(issued)@.len() == final(out)@.len()
                &&& forall|k: int|
                    0 <= k < final(out)@.len() ==> #[trigger] final(issued)@[k].0 == steps@[k].entity
                        && final(issued)@[k].1 == nats_node_id(final(out)@[k].0)
                &&& forall|k: int|
                    0 <= k < final(out)@.len() ==> nats_node_fits(graph.nodes@, steps@, final(out)@, k)
                &&& forall|k: int| 0 <= k < final(out)@.len() ==> parent_ready(steps@, k)
            },
            Err(e) => {
                &&& first_unready(steps@, old(out)@.len() as int)
                &&& e@ == missing_parent_entity(tier, label_for(graph.nodes@, entity))
            },
        },
{
    let ghost n = out@.len() as int;
    let name = label_of_node(graph, entity);
    match issued_for(issued, parent) {
        None => {
            proof {
                assert forall|j: int| 0 <= j < n implies steps@[j].entity != parent by {
                    assert(issued@[j].0 == steps@[j].entity);
                }
            }
            let front = if tier == 1 {
                concat("Parent NATS entity not found for unit: ", name.as_str())
            } else {
                concat("Parent NATS entity not found for person: ", name.as_str())
            };
            Err(concat(front.as_str(), ". Generate parent first."))
        },
        Some(j) => {
            let parent_node = issued[j].1;
            let node = new_nats_node(tier, entity, &name);
            let id = node.id();
            let ghost before = out@;
            let item = (node, position_of_tier(tier), Some(parent_node));
            proof {
                assert forall|k: int| 0 <= k < n implies nats_node_fits(graph.nodes@, steps@, before.push(item), k) by {
                    lemma_nats_fits_after_push(graph.nodes@, steps@, before, item, k);
                }
                assert(issued@[j as int].0 == steps@[j as int].entity);
                assert forall|k: int| 0 <= k < j implies steps@[k].entity != parent by {
                    assert(issued@[k].0 == steps@[k].entity);
                }
                assert(first_step_for(steps@, parent, j as int, n));
                assert(before.push(item)[j as int] == before[j as int]);
                assert(nats_node_fits(graph.nodes@, steps@, before.push(item), n));
            }
            let ghost issued_before = issued@;
            out.push(item);
            issued.push((entity, id));
            proof {
                assert(parent_ready(steps@, n));
                assert(out@ == before.push(item));
                assert forall|k: int| 0 <= k < out@.len() implies #[trigger] issued@[k].0 == steps@[k].entity
                    && issued@[k].1 == nats_node_id(out@[k].0) by {
                    if k < n {
                        assert(issued@[k] == issued_before[k]);
                        assert(out@[k] == before[k]);
                    }
                }
            }
            Ok(())
        },
    }
}

/// The NATS entities of the hierarchy that the graph calls for, in
/// generation order, each with where it is drawn and the entity that signs
/// it: an operator for the organization, an account for each unit and a
/// user for each person, each under the node of the entity it goes under.
/// Without an organization, and when a unit or person goes under an entity
/// whose node does not come before its own, the result is the error that
/// says so.
pub fn generate_nats_from_graph(graph: &OrganizationGraph) -> (r: Result<
    Vec<(NatsNode, Position, Option<u128>)>,
    String,
>)
    requires
        graph.well_formed(),
    ensures
        match r {
            Ok(v) => {
                &&& first_of_type(graph.nodes@, NodeType::Organization) is Some
                &&& all_parents_ready(graph_steps(*graph))
                &&& v@.len() == graph_steps(*graph).len()
                &&& forall|i: int| 0 <= i < v@.len() ==> nats_node_fits(graph.nodes@, graph_steps(*graph), v@, i)
            },
            Err(e) => match first_of_type(graph.nodes@, NodeType::Organization) {
                None => e@ == no_organization_message(),
                Some(_) => exists|i: int|
                    first_unready(graph_steps(*graph), i) && e@ == missing_parent_entity(
                        graph_steps(*graph)[i].tier,
                        label_for(graph.nodes@, graph_steps(*graph)[i].entity),
                    ),
            },
        },
{
    let hierarchy = analyze_graph_for_nats(graph);
    let ghost steps = graph_steps(*graph);
    let org = match hierarchy.root_organization {
        None => {
            return Err(owned("No organization found in graph. Create an organization node first."));
        },
        Some(o) => o,
    };
    let ghost units = hierarchy.nats_accounts@;
    let ghost people = hierarchy.nats_users@;
    let ghost nu = units.len() as int;
    proof {
        assert(steps.len() == 1 + nu + people.len());
        assert(steps[0] == HierarchyStep { entity: org, tier: 0, parent: None, role: None });
        assert forall|k: int| 0 <= k < nu implies #[trigger] steps[1 + k] == (HierarchyStep {
            entity: units[k].unit_id,
            tier: 1,
            parent: Some(units[k].parent_id),
            role: None,
        }) by {}
        assert forall|k: int| 0 <= k < people.len() implies #[trigger] steps[1 + nu + k] == (HierarchyStep {
            entity: people[k].person_id,
            tier: 2,
            parent: Some(people[k].parent_id),
            role: Some(people[k].role),
        }) by {}
    }
    let mut out: Vec<(NatsNode, Position, Option<u128>)> = Vec::new();
    let mut issued: Vec<(u128, u128)> = Vec::new();
    let name = label_of_node(graph, org);
    let operator = new_nats_node(0, org, &name);
    let operator_id = operator.id();
    out.push((operator, position_of_tier(0), None));
    issued.push((org, operator_id));
    proof {
        assert(nats_node_fits(graph.nodes@, steps, out@, 0));
        assert(parent_ready(steps, 0));
    }
    let mut i: usize = 0;
    while i < hierarchy.nats_accounts.len()
        invariant
            graph.well_formed(),
            steps == graph_steps(*graph),
            first_of_type(graph.nodes@, NodeType::Organization) == Some(org),
            i <= nu,
            nu == hierarchy.nats_accounts@.len(),
            units == hierarchy.nats_accounts@,
            steps.len() == 1 + nu + people.len(),
            forall|k: int| 0 <= k < nu ==> #[trigger] steps[1 + k] == (HierarchyStep {
                entity: units[k].unit_id,
                tier: 1,
                parent: Some(units[k].parent_id),
                role: None,
            }),
            out@.len() == 1 + i,
            issued@.len() == out@.len(),
            forall|k: int|
                0 <= k < out@.len() ==> #[trigger] issued@[k].0 == steps[k].entity && issued@[k].1 == nats_node_id(
                    out@[k].0,
                ),
            forall|k: int| 0 <= k < out@.len() ==> nats_node_fits(graph.nodes@, steps, out@, k),
            forall|k: int| 0 <= k < out@.len() ==> parent_ready(steps, k),
        decreases nu - i,
    {
        let u = hierarchy.nats_accounts[i];
        proof {
            assert(steps[1 + i as int] == steps[out@.len() as int]);
        }
        match nats_step(graph, Ghost(steps), &mut out, &mut issued, u.unit_id, 1, u.parent_id, None) {
            Ok(_) => {},
            Err(e) => {
                proof {
                    let w = 1 + i as int;
                    assert(first_unready(steps, w) && e@ == missing_parent_entity(
                        steps[w].tier,
                        label_for(graph.nodes@, steps[w].entity),
                    ));
                }
                return Err(e);
            },
        }
        i = i + 1;
    }
    let mut m: usize = 0;
    while m < hierarchy.nats_users.len()
        invariant
            graph.well_formed(),
            steps == graph_steps(*graph),
            first_of_type(graph.nodes@, NodeType::Organization) == Some(org),
            m <= people.len(),
            people == hierarchy.nats_users@,
            steps.len() == 1 + nu + people.len(),
            forall|k: int| 0 <= k < people.len() ==> #[trigger] steps[1 + nu + k] == (HierarchyStep {
                entity: people[k].person_id,
                tier: 2,
                parent: Some(people[k].parent_id),
                role: Some(people[k].role),
            }),
            out@.len() == 1 + nu + m,
            issued@.len() == out@.len(),
            forall|k: int|
                0 <= k < out@.len() ==> #[trigger] issued@[k].0 == steps[k].entity && issued@[k].1 == nats_node_id(
                    out@[k].0,
                ),
            forall|k: int| 0 <= k < out@.len() ==> nats_node_fits(graph.nodes@, steps, out@, k),
            forall|k: int| 0 <= k < out@.len() ==> parent_ready(steps, k),
        decreases people.len() - m,
    {
        let p = hierarchy.nats_users[m];
        proof {
            assert(steps[1 + nu + m as int] == steps[out@.len() as int]);
        }
        match nats_step(graph, Ghost(steps), &mut out, &mut issued, p.person_id, 2, p.parent_id, Some(p.role)) {
            Ok(_) => {},
            Err(e) => {
                proof {
                    let w = 1 + nu + m as int;
                    assert(first_unready(steps, w) && e@ == missing_parent_entity(
                        steps[w].tier,
                        label_for(graph.nodes@, steps[w].entity),
                    ));
                }
                return Err(e);
            },
        }
        m = m + 1;
    }
    Ok(out)
}


/// A generated NATS hierarchy has exactly one operator: the first node is
/// the only one that no node signs, and it is the operator.
pub proof fn lemma_one_operator(g: OrganizationGraph, v: Seq<(NatsNode, Position, Option<u128>)>)
    requires
        first_of_type(g.nodes@, NodeType::Organization) is Some,
        v.len() == graph_steps(g).len(),
        forall|i: int| 0 <= i < v.len() ==> nats_node_fits(g.nodes@, graph_steps(g), v, i),
    ensures
        v.len() > 0,
        forall|i: int| 0 <= i < v.len() ==> (#[trigger] v[i].2 is None <==> i == 0),
        v[0].0 is Operator,
{
    lemma_only_first_step_is_root(g);
    let steps = graph_steps(g);
    assert forall|i: int| 0 <= i < v.len() implies (#[trigger] v[i].2 is None <==> i == 0) by {
        assert(nats_node_fits(g.nodes@, steps, v, i));
        assert(steps[i].parent is None <==> i == 0);
    }
    assert(nats_node_fits(g.nodes@, steps, v, 0));
    assert(steps[0].tier == 0);
}

} // verus!
