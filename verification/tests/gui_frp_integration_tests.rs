use cim_keys::graph_signals::LayoutAlgorithm;
use cim_keys::gui_frp_integration::{GraphLayout, MessageAdapter};
use cim_keys::routing::AppMessage;

#[test]
fn test_message_adapter_conversions() {
    let layout = GraphLayout::Hierarchical;
    let algorithm = MessageAdapter::layout_to_algorithm(layout);
    let back_to_layout = MessageAdapter::algorithm_to_layout(algorithm);

    assert_eq!(layout, back_to_layout);
}

#[test]
fn frp_adapter_round_trips_every_layout() {
    for layout in [GraphLayout::Manual, GraphLayout::Hierarchical, GraphLayout::ForceDirected, GraphLayout::Circular] {
        assert_eq!(MessageAdapter::algorithm_to_layout(MessageAdapter::layout_to_algorithm(layout)), layout);
    }
    assert_eq!(MessageAdapter::layout_to_algorithm(GraphLayout::Circular), LayoutAlgorithm::Circular);
}

#[test]
fn frp_adapter_builds_messages() {
    assert_eq!(
        MessageAdapter::search_query_changed("alice".to_string()),
        AppMessage::SearchQueryChanged("alice".to_string())
    );
    assert_eq!(MessageAdapter::filter_people_toggled(false), AppMessage::FilterPeopleToggled(false));
    assert_eq!(MessageAdapter::filter_orgs_toggled(true), AppMessage::FilterOrgsToggled(true));
    assert_eq!(MessageAdapter::filter_nats_toggled(true), AppMessage::FilterNatsToggled(true));
    assert_eq!(MessageAdapter::filter_pki_toggled(false), AppMessage::FilterPkiToggled(false));
    assert_eq!(MessageAdapter::filter_yubikey_toggled(true), AppMessage::FilterYubikeyToggled(true));
}
