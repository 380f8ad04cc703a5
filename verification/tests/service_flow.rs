use sni_tray::error::TrayError;
use sni_tray::events::{NativeEvent, map_native_event};
use sni_tray::menu::{MenuItemType, MenuProperty, MenuToggleType, PropertyValue};
use sni_tray::service::TrayService;
use sni_tray::tray::{TrayEvent, TrayIcon, TrayItem, TrayMenuItem};

fn checkbox_item(checked: bool) -> TrayItem {
    TrayItem::new()
        .title("demo".to_string())
        .tooltip("demo tray".to_string())
        .description("a demo tray".to_string())
        .submenu(TrayMenuItem::checkbox("X".to_string(), "Toggle".to_string(), checked))
}

#[test]
fn setup_rejects_a_second_registration() {
    let mut service = TrayService::new();
    assert!(service.set_up_tray(checkbox_item(false)).is_ok());
    assert!(service.is_initialized());
    let before = service.revision();
    assert_eq!(
        service.set_up_tray(checkbox_item(false)).unwrap_err(),
        TrayError::AlreadyInitialized
    );
    // The running instance is unaffected.
    assert_eq!(service.revision(), before);
}

#[test]
fn sync_before_setup_is_a_no_op_success() {
    let mut service = TrayService::new();
    assert!(service.sync_tray(checkbox_item(true)).is_ok());
    assert!(!service.is_initialized());
    assert_eq!(service.revision(), 1);
}

#[test]
fn revision_increments_by_one_per_publish() {
    let mut service = TrayService::new();
    assert_eq!(service.revision(), 1);
    service.set_up_tray(checkbox_item(false)).unwrap();
    assert_eq!(service.revision(), 2);
    service.sync_tray(checkbox_item(true)).unwrap();
    assert_eq!(service.revision(), 3);
    service.sync_tray(checkbox_item(false)).unwrap();
    assert_eq!(service.revision(), 4);
    let (rev, _) = service.get_layout(0, -1, &Vec::new());
    assert_eq!(rev, 4);
}

#[test]
fn failed_publish_keeps_previous_state() {
    let mut service = TrayService::new();
    service.set_up_tray(checkbox_item(false)).unwrap();
    let before = service.revision();
    let bad = TrayItem::new().icon(TrayIcon::Image { width: 3, height: 3, bytes: vec![1, 2, 3] });
    assert_eq!(service.sync_tray(bad).unwrap_err(), TrayError::IconLengthMismatch);
    // Previous snapshot, the revision included, is untouched.
    assert_eq!(service.revision(), before);
    assert_eq!(service.title(), "demo");
}

#[test]
fn status_follows_visibility() {
    let mut service = TrayService::new();
    service.set_up_tray(checkbox_item(false).visible(true)).unwrap();
    assert_eq!(service.status(), "Active");
    service.sync_tray(checkbox_item(false).visible(false)).unwrap();
    assert_eq!(service.status(), "Passive");
}

#[test]
fn tooltip_carries_text_and_pixmaps() {
    let mut service = TrayService::new();
    service.set_up_tray(checkbox_item(false)).unwrap();
    let tip = service.tool_tip();
    assert!(tip.icon_name.is_empty());
    assert!(tip.icon_pixmap.is_empty());
    assert_eq!(tip.title, "demo tray");
    assert_eq!(tip.description, "a demo tray");
    assert_eq!(service.title(), "demo");
}

#[test]
fn wire_constants_are_stable() {
    let service = TrayService::new();
    assert_eq!(service.category(), "ApplicationStatus");
    assert_eq!(service.id(), "sni-tray");
    assert_eq!(service.icon_name(), "application-x-executable");
    assert_eq!(service.menu_path(), "/MenuBar");
    assert_eq!(service.version(), 4);
    assert!(!service.item_is_menu());
    assert!(!service.about_to_show(0));
    assert!(!service.about_to_show(7));
}

#[test]
fn published_icon_ladder_is_queryable() {
    let mut bytes = Vec::new();
    for _ in 0..64 * 64 {
        bytes.extend_from_slice(&[9, 8, 7, 255]);
    }
    let mut service = TrayService::new();
    let item = checkbox_item(false).icon(TrayIcon::Image { width: 64, height: 64, bytes });
    service.set_up_tray(item).unwrap();
    let sizes: Vec<i32> = service.icon_pixmap().iter().map(|p| p.width).collect();
    assert_eq!(sizes, vec![16, 24, 32, 48]);
    let tip = service.tool_tip();
    assert_eq!(tip.icon_pixmap.len(), 4);
}

#[test]
fn event_group_routes_through_the_same_whitelist() {
    let mut service = TrayService::new();
    let item = TrayItem::new()
        .submenu(TrayMenuItem::checkbox("X".to_string(), "One".to_string(), false))
        .submenu(TrayMenuItem::checkbox("Y".to_string(), "Two".to_string(), false));
    service.set_up_tray(item).unwrap();
    let batch = vec![
        (1, "clicked".to_string()),
        (1, "about to show".to_string()),
        (2, "ACTIVATE".to_string()),
        (0, "clicked".to_string()),
        (99, "clicked".to_string()),
    ];
    let dispatched = service.event_group(&batch);
    let ids: Vec<String> = dispatched
        .into_iter()
        .map(|ev| match ev {
            NativeEvent::MenuClick(id) => id,
            other => panic!("unexpected event {other:?}"),
        })
        .collect();
    assert_eq!(ids, vec!["X".to_string(), "Y".to_string()]);
    // A batch of one agrees with the singular entry point.
    let single = service.event(1, "clicked");
    assert!(matches!(single, Some(NativeEvent::MenuClick(id)) if id == "X"));
    let grouped = service.event_group(&vec![(1, "clicked".to_string())]);
    assert_eq!(grouped.len(), 1);
    assert!(matches!(&grouped[0], NativeEvent::MenuClick(id) if id == "X"));
}

#[test]
fn end_to_end_checkbox_toggle() {
    let mut service = TrayService::new();
    service.set_up_tray(checkbox_item(false)).unwrap();

    // The published layout has a root whose single child is the checkbox.
    let (_, layout) = service.get_layout(0, -1, &Vec::new());
    assert_eq!(layout.id, 0);
    assert_eq!(layout.children.len(), 1);
    let child = &layout.children[0];
    assert!(child
        .properties
        .iter()
        .any(|p| matches!(p, MenuProperty::Type(MenuItemType::Standard))));
    assert!(child
        .properties
        .iter()
        .any(|p| matches!(p, MenuProperty::Label(l) if l == "Toggle")));
    assert!(child
        .properties
        .iter()
        .any(|p| matches!(p, MenuProperty::ToggleType(MenuToggleType::Checkmark))));
    assert!(child
        .properties
        .iter()
        .any(|p| matches!(p, MenuProperty::ToggleState(0))));

    // Clicking that child dispatches exactly one menu click carrying the
    // caller id, through the normal event mapping.
    let child_id = child.id;
    let native = service.event(child_id, "clicked").expect("activation dispatches");
    let event = map_native_event(native);
    assert!(matches!(event, TrayEvent::MenuClick { id } if id == "X"));

    // Until the host republishes, the toggle state is unchanged.
    let v = service.get_property(child_id, &"toggle-state".to_string());
    assert!(matches!(v, PropertyValue::Number(0)));

    // After a republish with checked set, the state flips.
    service.sync_tray(checkbox_item(true)).unwrap();
    let v = service.get_property(child_id, &"toggle-state".to_string());
    assert!(matches!(v, PropertyValue::Number(1)));
}

#[test]
fn non_activation_event_dispatches_nothing() {
    let mut service = TrayService::new();
    service.set_up_tray(checkbox_item(false)).unwrap();
    assert!(service.event(1, "somethingelse").is_none());
    // The root has no caller id, so even an activation dispatches nothing.
    assert!(service.event(0, "clicked").is_none());
    assert!(service.event(77, "clicked").is_none());
}

#[test]
fn builder_methods_compose() {
    let item = TrayItem::new()
        .visible(false)
        .title("t".to_string())
        .tooltip("tt".to_string())
        .description("d".to_string())
        .icon(TrayIcon::Name("edit-copy".to_string()))
        .submenu(TrayMenuItem::separator());
    let mut service = TrayService::new();
    service.set_up_tray(item).unwrap();
    assert_eq!(service.status(), "Passive");
    assert_eq!(service.title(), "t");
    let tip = service.tool_tip();
    assert_eq!(tip.title, "tt");
    assert_eq!(tip.description, "d");
    assert!(service.icon_pixmap().is_empty());
    let (_, layout) = service.get_layout(0, -1, &Vec::new());
    assert_eq!(layout.children.len(), 1);
}
