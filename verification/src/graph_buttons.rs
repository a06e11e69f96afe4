//! The buttons drawn on the graph canvas, as data: a label, an icon, the
//! intent a press sends and a size. Drawing them is the drawing layer's.

use vstd::prelude::*;
use crate::concept::OrganizationIntent;
use crate::graph_model::LayoutAlgorithm;
use crate::text::owned;

verus! {

/// How large a graph button is drawn.
#[derive(Clone, Copy, Debug, PartialEq, Eq, Default, Structural)]
pub enum ButtonVariant {
    /// Icon only, small and square.
    Icon,
    /// Short text.
    Compact,
    /// Full size.
    #[default]
    Standard,
}

/// A button of the graph canvas.
#[derive(Clone, Debug)]
pub struct GraphButtonDef {
    /// The text shown, empty for an icon-only button.
    pub label: String,
    /// The icon shown, if any.
    pub icon: Option<String>,
    /// What a press sends.
    pub message: OrganizationIntent,
    /// How large it is drawn.
    pub variant: ButtonVariant,
}

/// The text of an optional string.
pub open spec fn icon_text(icon: Option<String>) -> Option<Seq<char>> {
    match icon {
        Some(s) => Some(s@),
        None => None,
    }
}

/// Whether button `b` shows `label` and `icon` and sends `message`.
pub open spec fn button_is(
    b: GraphButtonDef,
    label: Seq<char>,
    icon: Option<Seq<char>>,
    message: OrganizationIntent,
    variant: ButtonVariant,
) -> bool {
    &&& b.label@ == label
    &&& icon_text(b.icon) == icon
    &&& b.message == message
    &&& b.variant == variant
}

impl GraphButtonDef {
    /// An icon-only button.
    pub fn icon(icon: &str, message: OrganizationIntent) -> (r: Self)
        ensures
            button_is(r, Seq::empty(), Some(icon@), message, ButtonVariant::Icon),
    {
        GraphButtonDef { label: String::new(), icon: Some(owned(icon)), message, variant: ButtonVariant::Icon }
    }

    /// A compact text button.
    pub fn compact(label: &str, message: OrganizationIntent) -> (r: Self)
        ensures
            button_is(r, label@, None, message, ButtonVariant::Compact),
    {
        GraphButtonDef { label: owned(label), icon: None, message, variant: ButtonVariant::Compact }
    }

    /// A standard text button.
    pub fn standard(label: &str, message: OrganizationIntent) -> (r: Self)
        ensures
            button_is(r, label@, None, message, ButtonVariant::Standard),
    {
        GraphButtonDef { label: owned(label), icon: None, message, variant: ButtonVariant::Standard }
    }

    /// The same button with `icon`.
    pub fn with_icon(self, icon: &str) -> (r: Self)
        ensures
            button_is(r, self.label@, Some(icon@), self.message, self.variant),
    {
        GraphButtonDef { icon: Some(owned(icon)), ..self }
    }
}

/// Zoom in (+), zoom out (−) and a reset button with a target icon.
pub fn zoom_controls() -> (r: Vec<GraphButtonDef>)
    ensures
        r@.len() == 3,
        button_is(r@[0], Seq::empty(), Some("+"@), OrganizationIntent::ZoomIn, ButtonVariant::Icon),
        button_is(r@[1], Seq::empty(), Some("\u{2212}"@), OrganizationIntent::ZoomOut, ButtonVariant::Icon),
        button_is(r@[2], "Reset"@, Some("\u{1f3af}"@), OrganizationIntent::ResetView, ButtonVariant::Compact),
{
    vec![
        GraphButtonDef::icon("+", OrganizationIntent::ZoomIn),
        GraphButtonDef::icon("\u{2212}", OrganizationIntent::ZoomOut),
        GraphButtonDef::compact("Reset", OrganizationIntent::ResetView).with_icon("\u{1f3af}"),
    ]
}

/// The layout buttons: automatic, Tutte, force-directed, circular and tree.
pub fn layout_buttons() -> (r: Vec<GraphButtonDef>)
    ensures
        r@.len() == 5,
        button_is(r@[0], "Auto"@, Some("\u{2728}"@), OrganizationIntent::AutoLayout, ButtonVariant::Compact),
        button_is(
            r@[1],
            "Tutte"@,
            Some("\u{1f4d0}"@),
            OrganizationIntent::ApplyLayout(LayoutAlgorithm::Tutte),
            ButtonVariant::Compact,
        ),
        button_is(
            r@[2],
            "Force"@,
            Some("\u{26a1}"@),
            OrganizationIntent::ApplyLayout(LayoutAlgorithm::FruchtermanReingold),
            ButtonVariant::Compact,
        ),
        button_is(
            r@[3],
            "Circle"@,
            Some("\u{2b55}"@),
            OrganizationIntent::ApplyLayout(LayoutAlgorithm::Circular),
            ButtonVariant::Compact,
        ),
        button_is(
            r@[4],
            "Tree"@,
            Some("\u{1f333}"@),
            OrganizationIntent::ApplyLayout(LayoutAlgorithm::Hierarchical),
            ButtonVariant::Compact,
        ),
{
    vec![
        GraphButtonDef::compact("Auto", OrganizationIntent::AutoLayout).with_icon("\u{2728}"),
        GraphButtonDef::compact("Tutte", OrganizationIntent::ApplyLayout(LayoutAlgorithm::Tutte)).with_icon(
            "\u{1f4d0}",
        ),
        GraphButtonDef::compact("Force", OrganizationIntent::ApplyLayout(LayoutAlgorithm::FruchtermanReingold))
            .with_icon("\u{26a1}"),
        GraphButtonDef::compact("Circle", OrganizationIntent::ApplyLayout(LayoutAlgorithm::Circular)).with_icon(
            "\u{2b55}",
        ),
        GraphButtonDef::compact("Tree", OrganizationIntent::ApplyLayout(LayoutAlgorithm::Hierarchical)).with_icon(
            "\u{1f333}",
        ),
    ]
}

/// The domain layout buttons: YubiKey grouping when the graph has keys,
/// the NATS hierarchy when it has NATS entities, in that order.
pub fn domain_layout_buttons(has_keys: bool, has_nats: bool) -> (r: Vec<GraphButtonDef>)
    ensures
        r@.len() == (if has_keys { 1int } else { 0int }) + (if has_nats { 1int } else { 0int }),
        has_keys ==> button_is(
            r@[0],
            "Keys"@,
            Some("\u{1f511}"@),
            OrganizationIntent::ApplyLayout(LayoutAlgorithm::YubiKeyGrouped),
            ButtonVariant::Compact,
        ),
        has_nats ==> button_is(
            r@[r@.len() - 1],
            "NATS"@,
            Some("\u{1f4e1}"@),
            OrganizationIntent::ApplyLayout(LayoutAlgorithm::NatsHierarchical),
            ButtonVariant::Compact,
        ),
{
    let mut buttons: Vec<GraphButtonDef> = Vec::new();
    if has_keys {
        buttons.push(
            GraphButtonDef::compact("Keys", OrganizationIntent::ApplyLayout(LayoutAlgorithm::YubiKeyGrouped))
                .with_icon("\u{1f511}"),
        );
    }
    if has_nats {
        buttons.push(
            GraphButtonDef::compact("NATS", OrganizationIntent::ApplyLayout(LayoutAlgorithm::NatsHierarchical))
                .with_icon("\u{1f4e1}"),
        );
    }
    buttons
}

} // verus!
