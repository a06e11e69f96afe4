//! The infrastructure that the organization graph calls for, as workflows
//! of graph operations in causal order.

use vstd::prelude::*;
use crate::causality::CausalChain;
use crate::graph_causality::{
    GraphOperation, InfraKind, build_nats_from_graph, build_pki_from_graph, follows, infra_shapes,
};
use crate::graph_model::OrganizationGraph;

verus! {

/// A workflow: the operations to carry out, in causal order.
pub struct WorkflowStep {
    pub operations: CausalChain<GraphOperation>,
}

/// The workflows for the whole infrastructure of an organization.
pub struct InfrastructureWorkflows {
    /// Certificates to create.
    pub pki_workflow: WorkflowStep,
    /// NATS entities to create.
    pub nats_workflow: WorkflowStep,
}

/// Both workflows for the graph: its certificates and its NATS entities.
pub fn generate_infrastructure(graph: &OrganizationGraph) -> (r: InfrastructureWorkflows)
    requires
        graph.well_formed(),
    ensures
        follows(r.pki_workflow.operations@, infra_shapes(InfraKind::Pki, *graph)),
        follows(r.nats_workflow.operations@, infra_shapes(InfraKind::Nats, *graph)),
{
    InfrastructureWorkflows {
        pki_workflow: WorkflowStep { operations: build_pki_from_graph(graph) },
        nats_workflow: WorkflowStep { operations: build_nats_from_graph(graph) },
    }
}

} // verus!
