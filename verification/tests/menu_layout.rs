use sni_tray::layout::DBusMenuLayoutItem;
use sni_tray::menu::{DBusMenu, MenuItemType, MenuProperty, PropertyValue};
use sni_tray::tray::TrayMenuItem;

fn sample_items() -> Vec<TrayMenuItem> {
    vec![
        TrayMenuItem::checkbox("copy".to_string(), "Copy".to_string(), true),
        TrayMenuItem::separator(),
        TrayMenuItem::menu(
            "more".to_string(),
            "More".to_string(),
            vec![
                TrayMenuItem::radio("a".to_string(), "Alpha".to_string(), false),
                TrayMenuItem::menu(
                    "deep".to_string(),
                    "Deep".to_string(),
                    vec![TrayMenuItem::checkbox("b".to_string(), "Beta".to_string(), false)],
                ),
            ],
        ),
        TrayMenuItem::labeled_separator("section".to_string()),
    ]
}

fn collect_ids(layout: &DBusMenuLayoutItem, out: &mut Vec<i32>) {
    out.push(layout.id);
    for child in &layout.children {
        collect_ids(child, out);
    }
}

#[test]
fn menu_build_is_deterministic() {
    let menu1 = DBusMenu::from_tray_menu_items(&sample_items());
    let menu2 = DBusMenu::from_tray_menu_items(&sample_items());
    assert_eq!(menu1.node_count(), menu2.node_count());
    let layout1 = menu1.to_layout(0, -1, &Vec::new());
    let layout2 = menu2.to_layout(0, -1, &Vec::new());
    let mut ids1 = Vec::new();
    let mut ids2 = Vec::new();
    collect_ids(&layout1, &mut ids1);
    collect_ids(&layout2, &mut ids2);
    assert_eq!(ids1, ids2);
    for id in 0..menu1.node_count() as i32 {
        let u1 = menu1.user_id_for_node(id);
        let u2 = menu2.user_id_for_node(id);
        assert_eq!(u1, u2);
    }
}

#[test]
fn layout_includes_every_node_once() {
    let menu = DBusMenu::from_tray_menu_items(&sample_items());
    // Root + 4 top-level entries + 2 nested under "more" + 1 under "deep".
    assert_eq!(menu.node_count(), 8);
    let layout = menu.to_layout(0, -1, &Vec::new());
    let mut ids = Vec::new();
    collect_ids(&layout, &mut ids);
    ids.sort();
    let expected: Vec<i32> = (0..8).collect();
    assert_eq!(ids, expected);
}

#[test]
fn layout_of_inner_node_covers_its_subtree() {
    let menu = DBusMenu::from_tray_menu_items(&sample_items());
    // Node 3 is "more": its subtree is ids 3, 4 (radio), 5 (deep), 6 (beta).
    let layout = menu.to_layout(3, -1, &Vec::new());
    let mut ids = Vec::new();
    collect_ids(&layout, &mut ids);
    ids.sort();
    assert_eq!(ids, vec![3, 4, 5, 6]);
}

#[test]
fn layout_depth_zero_has_no_children() {
    let menu = DBusMenu::from_tray_menu_items(&sample_items());
    let layout = menu.to_layout(0, 0, &Vec::new());
    assert_eq!(layout.id, 0);
    assert!(layout.children.is_empty());
    assert!(!layout
        .properties
        .iter()
        .any(|p| matches!(p, MenuProperty::ChildrenDisplay)));
}

#[test]
fn layout_depth_one_stops_at_grandchildren() {
    let menu = DBusMenu::from_tray_menu_items(&sample_items());
    let layout = menu.to_layout(0, 1, &Vec::new());
    assert_eq!(layout.children.len(), 4);
    // "more" (third child) has children, but depth 1 must not serialize them.
    let more = &layout.children[2];
    assert_eq!(more.id, 3);
    assert!(more.children.is_empty());
    // The root got the synthetic marker; so did not the childless first child.
    assert!(layout
        .properties
        .iter()
        .any(|p| matches!(p, MenuProperty::ChildrenDisplay)));
    assert!(!layout.children[0]
        .properties
        .iter()
        .any(|p| matches!(p, MenuProperty::ChildrenDisplay)));
}

#[test]
fn layout_unknown_id_returns_stub() {
    let menu = DBusMenu::from_tray_menu_items(&sample_items());
    let layout = menu.to_layout(99, -1, &Vec::new());
    assert_eq!(layout.id, 99);
    assert!(layout.properties.is_empty());
    assert!(layout.children.is_empty());
}

#[test]
fn layout_property_filter_keeps_only_requested_names() {
    let menu = DBusMenu::from_tray_menu_items(&sample_items());
    let names = vec!["label".to_string()];
    let layout = menu.to_layout(1, -1, &names);
    // Node 1 is the checkbox: label is its only property named "label".
    assert_eq!(layout.properties.len(), 1);
    assert!(matches!(&layout.properties[0], MenuProperty::Label(l) if l == "Copy"));
}

#[test]
fn separator_nodes_carry_separator_type() {
    let menu = DBusMenu::from_tray_menu_items(&sample_items());
    let layout = menu.to_layout(2, -1, &Vec::new());
    assert!(layout
        .properties
        .iter()
        .any(|p| matches!(p, MenuProperty::Type(MenuItemType::Separator))));
    assert!(!layout
        .properties
        .iter()
        .any(|p| matches!(p, MenuProperty::Label(_))));
}

#[test]
fn user_ids_follow_the_walk() {
    let menu = DBusMenu::from_tray_menu_items(&sample_items());
    assert_eq!(menu.user_id_for_node(0), None);
    assert_eq!(menu.user_id_for_node(1), Some("copy".to_string()));
    assert_eq!(menu.user_id_for_node(2), None);
    assert_eq!(menu.user_id_for_node(3), Some("more".to_string()));
    assert_eq!(menu.user_id_for_node(4), Some("a".to_string()));
    assert_eq!(menu.user_id_for_node(5), Some("deep".to_string()));
    assert_eq!(menu.user_id_for_node(6), Some("b".to_string()));
    assert_eq!(menu.user_id_for_node(7), None);
    assert_eq!(menu.user_id_for_node(8), None);
    assert_eq!(menu.user_id_for_node(-1), None);
}

#[test]
fn get_property_returns_exact_values() {
    let menu = DBusMenu::from_tray_menu_items(&sample_items());
    let v = menu.get_property(1, &"label".to_string());
    assert!(matches!(v, PropertyValue::Text(s) if s == "Copy"));
    let v = menu.get_property(1, &"type".to_string());
    assert!(matches!(v, PropertyValue::Text(s) if s == "standard"));
    let v = menu.get_property(1, &"toggle-type".to_string());
    assert!(matches!(v, PropertyValue::Text(s) if s == "checkmark"));
    let v = menu.get_property(1, &"toggle-state".to_string());
    assert!(matches!(v, PropertyValue::Number(1)));
    let v = menu.get_property(4, &"toggle-type".to_string());
    assert!(matches!(v, PropertyValue::Text(s) if s == "radio"));
    let v = menu.get_property(4, &"enabled".to_string());
    assert!(matches!(v, PropertyValue::Flag(true)));
}

#[test]
fn get_property_unknown_returns_empty_string() {
    let menu = DBusMenu::from_tray_menu_items(&sample_items());
    // Unknown id: an empty string value, never an error.
    let v = menu.get_property(42, &"label".to_string());
    assert!(matches!(v, PropertyValue::Text(s) if s.is_empty()));
    // Known id, unknown property name: likewise.
    let v = menu.get_property(1, &"no-such-property".to_string());
    assert!(matches!(v, PropertyValue::Text(s) if s.is_empty()));
}

#[test]
fn group_properties_answer_each_requested_id() {
    let menu = DBusMenu::from_tray_menu_items(&sample_items());
    let ids = vec![1, 42, 2];
    let names = vec!["label".to_string()];
    let groups = menu.get_group_properties(&ids, &names);
    assert_eq!(groups.len(), 3);
    assert_eq!(groups[0].0, 1);
    assert_eq!(groups[0].1.len(), 1);
    assert!(matches!(&groups[0].1[0], MenuProperty::Label(l) if l == "Copy"));
    assert_eq!(groups[1].0, 42);
    assert!(groups[1].1.is_empty());
    assert_eq!(groups[2].0, 2);
    assert!(groups[2].1.is_empty());
}

#[test]
fn group_properties_empty_request_means_all() {
    let menu = DBusMenu::from_tray_menu_items(&sample_items());
    let groups = menu.get_group_properties(&vec![1], &Vec::new());
    // type, label, enabled, visible, toggle-type, toggle-state.
    assert_eq!(groups[0].1.len(), 6);
}
