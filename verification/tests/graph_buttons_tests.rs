use cim_keys::concept::OrganizationIntent;
use cim_keys::graph_buttons::{domain_layout_buttons, layout_buttons, zoom_controls, ButtonVariant, GraphButtonDef};
use cim_keys::graph_model::LayoutAlgorithm;

#[test]
fn test_button_def_creation() {
    let icon_btn = GraphButtonDef::icon("+", OrganizationIntent::ZoomIn);
    assert!(icon_btn.icon.is_some());
    assert!(icon_btn.label.is_empty());
    assert_eq!(icon_btn.variant, ButtonVariant::Icon);

    let compact_btn = GraphButtonDef::compact("Test", OrganizationIntent::AutoLayout);
    assert!(compact_btn.icon.is_none());
    assert_eq!(compact_btn.label, "Test");
    assert_eq!(compact_btn.variant, ButtonVariant::Compact);
}

#[test]
fn test_button_with_icon() {
    let btn = GraphButtonDef::standard("Layout", OrganizationIntent::AutoLayout).with_icon("📐");
    assert!(btn.icon.is_some());
    assert_eq!(btn.label, "Layout");
}

#[test]
fn test_zoom_controls_count() {
    let controls = zoom_controls();
    assert_eq!(controls.len(), 3);
}

#[test]
fn test_layout_buttons_count() {
    let buttons = layout_buttons();
    assert_eq!(buttons.len(), 5);
}

#[test]
fn buttons_send_their_intents() {
    let zoom = zoom_controls();
    assert_eq!(zoom[1].icon.as_deref(), Some("−"));
    assert_eq!(zoom[2].message, OrganizationIntent::ResetView);
    assert_eq!(zoom[2].icon.as_deref(), Some("🎯"));
    let layouts = layout_buttons();
    assert_eq!(layouts[4].label, "Tree");
    assert_eq!(layouts[4].message, OrganizationIntent::ApplyLayout(LayoutAlgorithm::Hierarchical));
    assert!(domain_layout_buttons(false, false).is_empty());
    let both = domain_layout_buttons(true, true);
    assert_eq!(both.len(), 2);
    assert_eq!(both[0].label, "Keys");
    assert_eq!(both[1].message, OrganizationIntent::ApplyLayout(LayoutAlgorithm::NatsHierarchical));
    assert_eq!(domain_layout_buttons(false, true)[0].label, "NATS");
}
