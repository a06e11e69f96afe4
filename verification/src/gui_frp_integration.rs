//! Adapters between the application's messages and layouts and those of
//! the routing and signal layer.

use vstd::prelude::*;
use crate::graph_signals::LayoutAlgorithm;
use crate::routing::AppMessage;

verus! {

/// Layout of the graph as the application names it.
#[derive(Clone, Copy, Debug, PartialEq, Eq, Structural)]
pub enum GraphLayout {
    Manual,
    Hierarchical,
    ForceDirected,
    Circular,
}

/// The layout algorithm for an application layout.
pub open spec fn algorithm_of(layout: GraphLayout) -> LayoutAlgorithm {
    match layout {
        GraphLayout::Manual => LayoutAlgorithm::Manual,
        GraphLayout::Hierarchical => LayoutAlgorithm::Hierarchical,
        GraphLayout::ForceDirected => LayoutAlgorithm::ForceDirected,
        GraphLayout::Circular => LayoutAlgorithm::Circular,
    }
}

/// The application layout for a layout algorithm.
pub open spec fn layout_of(algorithm: LayoutAlgorithm) -> GraphLayout {
    match algorithm {
        LayoutAlgorithm::Manual => GraphLayout::Manual,
        LayoutAlgorithm::Hierarchical => GraphLayout::Hierarchical,
        LayoutAlgorithm::ForceDirected => GraphLayout::ForceDirected,
        LayoutAlgorithm::Circular => GraphLayout::Circular,
    }
}

/// Turns the application's own messages and layouts into those of the
/// routing and signal layer.
pub struct MessageAdapter;

impl MessageAdapter {
    /// The message for a changed search query.
    pub fn search_query_changed(query: String) -> (r: AppMessage)
        ensures
            r == AppMessage::SearchQueryChanged(query),
    {
        AppMessage::SearchQueryChanged(query)
    }

    /// The message for the people filter.
    pub fn filter_people_toggled(show: bool) -> (r: AppMessage)
        ensures
            r == AppMessage::FilterPeopleToggled(show),
    {
        AppMessage::FilterPeopleToggled(show)
    }

    /// The message for the organizations filter.
    pub fn filter_orgs_toggled(show: bool) -> (r: AppMessage)
        ensures
            r == AppMessage::FilterOrgsToggled(show),
    {
        AppMessage::FilterOrgsToggled(show)
    }

    /// The message for the NATS filter.
    pub fn filter_nats_toggled(show: bool) -> (r: AppMessage)
        ensures
            r == AppMessage::FilterNatsToggled(show),
    {
        AppMessage::FilterNatsToggled(show)
    }

    /// The message for the PKI filter.
    pub fn filter_pki_toggled(show: bool) -> (r: AppMessage)
        ensures
            r == AppMessage::FilterPkiToggled(show),
    {
        AppMessage::FilterPkiToggled(show)
    }

    /// The message for the YubiKey filter.
    pub fn filter_yubikey_toggled(show: bool) -> (r: AppMessage)
        ensures
            r == AppMessage::FilterYubikeyToggled(show),
    {
        AppMessage::FilterYubikeyToggled(show)
    }

    /// The layout algorithm for an application layout.
    pub fn layout_to_algorithm(layout: GraphLayout) -> (r: LayoutAlgorithm)
        ensures
            r == algorithm_of(layout),
    {
        match layout {
            GraphLayout::Manual => LayoutAlgorithm::Manual,
            GraphLayout::Hierarchical => LayoutAlgorithm::Hierarchical,
            GraphLayout::ForceDirected => LayoutAlgorithm::ForceDirected,
            GraphLayout::Circular => LayoutAlgorithm::Circular,
        }
    }

    /// The application layout for a layout algorithm.
    pub fn algorithm_to_layout(algorithm: LayoutAlgorithm) -> (r: GraphLayout)
        ensures
            r == layout_of(algorithm),
    {
        match algorithm {
            LayoutAlgorithm::Manual => GraphLayout::Manual,
            LayoutAlgorithm::Hierarchical => GraphLayout::Hierarchical,
            LayoutAlgorithm::ForceDirected => GraphLayout::ForceDirected,
            LayoutAlgorithm::Circular => GraphLayout::Circular,
        }
    }
}

/// The two conversions are inverse to each other, both ways round.
pub proof fn lemma_layout_round_trip(layout: GraphLayout, algorithm: LayoutAlgorithm)
    ensures
        layout_of(algorithm_of(layout)) == layout,
        algorithm_of(layout_of(algorithm)) == algorithm,
{
}

} // verus!
