//! A tray menu protocol engine: a platform-neutral menu tree with stable
//! caller-assigned ids, serialized on demand into the StatusNotifierItem /
//! DBusMenu wire vocabulary, together with the state machine that publishes
//! snapshots of it and maps host-shell events back to the owning application.

pub mod error;
pub mod events;
pub mod icon;
pub mod layout;
pub mod menu;
pub mod service;
pub mod text;
pub mod tray;
pub mod wf;
