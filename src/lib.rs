//! Per-seat protocol state for a Wayland compositor: the data device
//! (selection and drag-and-drop) and the keyboard (focus, modifiers, grabs).
//!
//! Protocol objects are held as numeric handles in a [`registry::Registry`];
//! everything that a client would see on the wire is produced as plain event
//! values, which the embedder writes out.

pub mod data_device;
pub mod dnd;
pub mod keyboard;
pub mod registry;
