use sni_tray::error::TrayError;
use sni_tray::events::{NativeEvent, activation_event, map_native_event};
use sni_tray::icon::{icon_pixmaps, resize_bgra32_nearest};
use sni_tray::tray::{MouseButton, Point, TrayEvent, TrayIcon};

fn solid_image(width: u32, height: u32) -> TrayIcon {
    let mut bytes = Vec::new();
    for i in 0..(width as usize * height as usize) {
        let v = (i % 251) as u8;
        bytes.extend_from_slice(&[v, v.wrapping_add(1), v.wrapping_add(2), 255]);
    }
    TrayIcon::Image { width, height, bytes }
}

#[test]
fn icon_ladder_for_64_square() {
    let icon = solid_image(64, 64);
    let pixmaps = icon_pixmaps(&icon).expect("valid icon");
    let sizes: Vec<i32> = pixmaps.iter().map(|p| p.width).collect();
    assert_eq!(sizes, vec![16, 24, 32, 48]);
    for p in &pixmaps {
        assert_eq!(p.width, p.height);
        assert_eq!(p.bytes.len(), (p.width * p.height * 4) as usize);
    }
}

#[test]
fn icon_ladder_respects_source_bounds() {
    let icon = solid_image(24, 64);
    let pixmaps = icon_pixmaps(&icon).expect("valid icon");
    let sizes: Vec<i32> = pixmaps.iter().map(|p| p.width).collect();
    assert_eq!(sizes, vec![16, 24]);
}

#[test]
fn icon_smaller_than_every_rung_passes_through() {
    let icon = solid_image(8, 8);
    let pixmaps = icon_pixmaps(&icon).expect("valid icon");
    assert_eq!(pixmaps.len(), 1);
    assert_eq!(pixmaps[0].width, 8);
    assert_eq!(pixmaps[0].height, 8);
    match &icon {
        TrayIcon::Image { bytes, .. } => assert_eq!(&pixmaps[0].bytes, bytes),
        _ => unreachable!(),
    }
}

#[test]
fn theme_icon_has_no_pixmaps() {
    let icon = TrayIcon::Name("application-menu".to_string());
    let pixmaps = icon_pixmaps(&icon).expect("theme icons are always valid");
    assert!(pixmaps.is_empty());
}

#[test]
fn zero_size_icon_is_rejected() {
    let icon = TrayIcon::Image { width: 0, height: 16, bytes: Vec::new() };
    assert_eq!(icon_pixmaps(&icon).unwrap_err(), TrayError::IconZeroSize);
}

#[test]
fn oversize_icon_is_rejected() {
    let icon = TrayIcon::Image { width: u32::MAX, height: 1, bytes: Vec::new() };
    assert_eq!(icon_pixmaps(&icon).unwrap_err(), TrayError::IconOversize);
}

#[test]
fn mismatched_icon_length_is_rejected() {
    let icon = TrayIcon::Image { width: 4, height: 4, bytes: vec![0u8; 63] };
    assert_eq!(icon_pixmaps(&icon).unwrap_err(), TrayError::IconLengthMismatch);
}

#[test]
fn nearest_neighbour_picks_expected_pixels() {
    // A 2 by 2 image with four distinct pixels; shrinking to 1 by 1 must
    // sample the top-left source pixel.
    let src = vec![
        10, 11, 12, 13, // (0,0)
        20, 21, 22, 23, // (1,0)
        30, 31, 32, 33, // (0,1)
        40, 41, 42, 43, // (1,1)
    ];
    let dst = resize_bgra32_nearest(&src, 2, 2, 1, 1).expect("valid resize");
    assert_eq!(dst, vec![10, 11, 12, 13]);
    // Growing to 4 by 4 replicates each source pixel into a 2 by 2 block.
    let grown = resize_bgra32_nearest(&src, 2, 2, 4, 4).expect("valid resize");
    assert_eq!(grown.len(), 64);
    assert_eq!(&grown[0..4], &[10, 11, 12, 13]);
    assert_eq!(&grown[8..12], &[20, 21, 22, 23]);
    assert_eq!(&grown[32..36], &[30, 31, 32, 33]);
    assert_eq!(&grown[40..44], &[40, 41, 42, 43]);
}

#[test]
fn resize_rejects_bad_inputs() {
    let src = vec![0u8; 16];
    assert_eq!(
        resize_bgra32_nearest(&src, 0, 2, 1, 1).unwrap_err(),
        TrayError::IconZeroSize
    );
    assert_eq!(
        resize_bgra32_nearest(&src, 2, 2, 0, 1).unwrap_err(),
        TrayError::IconZeroSize
    );
    assert_eq!(
        resize_bgra32_nearest(&src, 3, 2, 1, 1).unwrap_err(),
        TrayError::IconLengthMismatch
    );
}

#[test]
fn activation_whitelist_matches_case_insensitively() {
    for spelling in [
        "clicked", "CLICKED", "Clicked", "activate", "ACTIVATE", "activated", "Activated",
        "toggled", "TOGGLED", "tOgGlEd",
    ] {
        assert!(activation_event(spelling), "{spelling} should activate");
    }
}

#[test]
fn advisory_events_are_ignored() {
    for spelling in ["somethingelse", "about to show", "hover", "opened", "closed", "", "click"] {
        assert!(!activation_event(spelling), "{spelling} should not activate");
    }
}

#[test]
fn native_events_map_to_the_caller_vocabulary() {
    let ev = map_native_event(NativeEvent::Activate(10, 20));
    assert!(matches!(
        ev,
        TrayEvent::TrayClick { button: MouseButton::Left, position: Point { x: 10, y: 20 } }
    ));
    let ev = map_native_event(NativeEvent::SecondaryActivate(-3, 4));
    assert!(matches!(
        ev,
        TrayEvent::TrayClick { button: MouseButton::Middle, position: Point { x: -3, y: 4 } }
    ));
    let ev = map_native_event(NativeEvent::MenuClick("X".to_string()));
    assert!(matches!(ev, TrayEvent::MenuClick { id } if id == "X"));
}

#[test]
fn scroll_orientation_splits_the_delta() {
    let ev = map_native_event(NativeEvent::Scroll(5, "horizontal".to_string()));
    assert!(matches!(ev, TrayEvent::Scroll { scroll_detal: Point { x: 5, y: 0 } }));
    let ev = map_native_event(NativeEvent::Scroll(5, "HORIZONTAL-WHEEL".to_string()));
    assert!(matches!(ev, TrayEvent::Scroll { scroll_detal: Point { x: 5, y: 0 } }));
    let ev = map_native_event(NativeEvent::Scroll(-7, "vertical".to_string()));
    assert!(matches!(ev, TrayEvent::Scroll { scroll_detal: Point { x: 0, y: -7 } }));
    let ev = map_native_event(NativeEvent::Scroll(2, "".to_string()));
    assert!(matches!(ev, TrayEvent::Scroll { scroll_detal: Point { x: 0, y: 2 } }));
}

#[test]
fn error_descriptions_are_nonempty() {
    for e in [
        TrayError::AlreadyInitialized,
        TrayError::IconZeroSize,
        TrayError::IconOversize,
        TrayError::IconLengthMismatch,
    ] {
        assert!(!e.describe().is_empty());
    }
}
