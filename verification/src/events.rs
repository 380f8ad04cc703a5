//! Event fan-in: the two bus objects produce raw native events in
//! different shapes; this module reduces them to the single caller-facing
//! vocabulary.  Menu activation is decided by a fixed whitelist of event
//! spellings used by competing host shells, matched without regard to
//! ASCII case; every other event id is advisory and is ignored.

use vstd::prelude::*;
use crate::menu::{MenuShape, user_id_of};
use crate::text::{contains_ci, lower_codes, str_contains_ci, str_eq_ci};
use crate::tray::{MouseButton, Point, TrayEvent};

verus! {

/// A raw event as the bus objects receive it, before normalization.
#[derive(Debug)]
pub enum NativeEvent {
    /// Primary activation of the tray icon at a screen position.
    Activate(i32, i32),
    /// Secondary (middle-click) activation at a screen position.
    SecondaryActivate(i32, i32),
    /// A scroll with a signed delta and an orientation string.
    Scroll(i32, String),
    /// A click on the menu node carrying this caller id.
    MenuClick(String),
}

/// The activation whitelist: these event-id spellings (in any letter
/// case) mean a menu activation; anything else does not.
pub open spec fn is_activation(ev: Seq<char>) -> bool {
    ||| lower_codes(ev) == lower_codes("clicked"@)
    ||| lower_codes(ev) == lower_codes("activate"@)
    ||| lower_codes(ev) == lower_codes("activated"@)
    ||| lower_codes(ev) == lower_codes("toggled"@)
}

/// Decides whether a host event id spells an activation.
pub fn activation_event(event_id: &str) -> (r: bool)
    ensures
        r == is_activation(event_id@),
{
    str_eq_ci(event_id, "clicked") || str_eq_ci(event_id, "activate") || str_eq_ci(
        event_id,
        "activated",
    ) || str_eq_ci(event_id, "toggled")
}

/// Law: activation is decided without regard to ASCII case — two event
/// ids with the same lowercase folding are treated alike.
pub proof fn lemma_activation_case_insensitive(a: Seq<char>, b: Seq<char>)
    requires
        lower_codes(a) == lower_codes(b),
    ensures
        is_activation(a) == is_activation(b),
{
}

/// The caller id a menu event dispatches, if any: only a whitelisted
/// activation spelling aimed at a node that carries a caller id does.
pub open spec fn menu_click_of(m: MenuShape, id: int, event_id: Seq<char>) -> Option<Seq<char>> {
    if is_activation(event_id) {
        user_id_of(m, id)
    } else {
        None
    }
}

/// Whether a scroll orientation string asks for horizontal scrolling.
pub open spec fn is_horizontal(orientation: Seq<char>) -> bool {
    contains_ci(orientation, "horizontal"@)
}

/// What a native event becomes in the caller-facing vocabulary.
pub open spec fn mapped_event(ev: NativeEvent) -> TrayEvent {
    match ev {
        NativeEvent::Activate(x, y) => TrayEvent::TrayClick {
            button: MouseButton::Left,
            position: Point { x, y },
        },
        NativeEvent::SecondaryActivate(x, y) => TrayEvent::TrayClick {
            button: MouseButton::Middle,
            position: Point { x, y },
        },
        NativeEvent::Scroll(delta, orientation) => TrayEvent::Scroll {
            scroll_detal: if is_horizontal(orientation@) {
                Point { x: delta, y: 0 }
            } else {
                Point { x: 0, y: delta }
            },
        },
        NativeEvent::MenuClick(id) => TrayEvent::MenuClick { id },
    }
}

/// Normalizes one native event into the caller-facing vocabulary.
pub fn map_native_event(ev: NativeEvent) -> (r: TrayEvent)
    ensures
        r == mapped_event(ev),
{
    match ev {
        NativeEvent::Activate(x, y) => TrayEvent::TrayClick {
            button: MouseButton::Left,
            position: Point { x, y },
        },
        NativeEvent::SecondaryActivate(x, y) => TrayEvent::TrayClick {
            button: MouseButton::Middle,
            position: Point { x, y },
        },
        NativeEvent::Scroll(delta, orientation) => {
            let horizontal = str_contains_ci(orientation.as_str(), "horizontal");
            TrayEvent::Scroll {
                scroll_detal: if horizontal {
                    Point { x: delta, y: 0 }
                } else {
                    Point { x: 0, y: delta }
                },
            }
        },
        NativeEvent::MenuClick(id) => TrayEvent::MenuClick { id },
    }
}

} // verus!
