use cim_keys::badges::{DragSource, RoleBadge};
use cim_keys::role_palette::{PolicyBootstrapData, RolePalette, RolePaletteMessage, SeparationClass, StandardRoleEntry};

fn badge(name: &str) -> RoleBadge {
    RoleBadge { name: name.to_string(), separation_class: SeparationClass::Operational, level: 1 }
}

fn role(name: &str, level: u8, class: SeparationClass) -> StandardRoleEntry {
    StandardRoleEntry { name: name.to_string(), level, separation_class: class, claims: vec![] }
}

#[test]
fn badge_abbreviations() {
    assert_eq!(badge("CTO").abbrev(), "CTO");
    assert_eq!(badge("Security Admin").abbrev(), "SA");
    assert_eq!(badge("Chief Security Officer Deputy").abbrev(), "CSO");
    assert_eq!(badge("Developer").abbrev(), "Dev");
    assert_eq!(badge("  Key   Holder ").abbrev(), "KH");
    assert_eq!(badge("ab").abbrev(), "ab");
}

#[test]
fn palette_toggling_a_category_twice_restores_it() {
    let mut palette = RolePalette::new();
    assert!(!palette.is_expanded(&SeparationClass::Audit));
    palette.toggle_category(SeparationClass::Audit);
    assert!(palette.is_expanded(&SeparationClass::Audit));
    assert!(!palette.is_expanded(&SeparationClass::Financial));
    palette.toggle_category(SeparationClass::Audit);
    assert!(!palette.is_expanded(&SeparationClass::Audit));
    assert!(!palette.collapsed);
    palette.toggle_collapsed();
    assert!(palette.collapsed);
}

#[test]
fn palette_class_names() {
    assert_eq!(RolePalette::class_name(&SeparationClass::Operational), "Operational");
    assert_eq!(RolePalette::class_name(&SeparationClass::Personnel), "Personnel");
}

#[test]
fn palette_groups_roles_by_class_in_order() {
    let data = PolicyBootstrapData {
        standard_roles: vec![
            role("Engineer", 2, SeparationClass::Operational),
            role("Auditor", 3, SeparationClass::Audit),
            role("Architect", 4, SeparationClass::Operational),
            role("Analyst", 2, SeparationClass::Operational),
        ],
    };
    let groups = RolePalette::group_roles_by_class(&data);
    assert_eq!(groups.len(), 2);
    assert_eq!(groups[0].0, SeparationClass::Operational);
    let names: Vec<&str> = groups[0].1.iter().map(|r| r.name.as_str()).collect();
    assert_eq!(names, vec!["Architect", "Analyst", "Engineer"]);
    assert_eq!(groups[1].0, SeparationClass::Audit);
    assert_eq!(groups[1].1.len(), 1);
}

#[test]
fn palette_start_drag_becomes_a_drag_source() {
    let start = RolePaletteMessage::StartDrag { role_name: "Auditor".to_string(), separation_class: SeparationClass::Audit };
    let source: Option<DragSource> = start.into();
    assert_eq!(
        source,
        Some(DragSource::RoleFromPalette { role_name: "Auditor".to_string(), separation_class: SeparationClass::Audit })
    );
    let none: Option<DragSource> = RolePaletteMessage::CancelDrag.into();
    assert_eq!(none, None);
    let toggle: Option<DragSource> = RolePaletteMessage::ToggleCategory(SeparationClass::Audit).into();
    assert_eq!(toggle, None);
}
