//! Core logic of a per-monitor wallpaper manager.
//!
//! The crate owns the pieces of the application that are worth reasoning
//! about precisely:
//!
//! * an observable publish/subscribe primitive ([`event`]);
//! * the canonical application model, an ordered list of monitors and an
//!   ordered, user-reorderable list of wallpapers ([`model`]);
//! * the monitor layout normalization that maps arbitrary monitor
//!   rectangles into a square preview space ([`layout`]);
//! * the presentation caches derived from the model ([`viewmodel`]);
//! * the thumbnail pipeline and its keyed cache reconciliation
//!   ([`thumbnail`]).
//!
//! Window-system chrome, GPU rendering, tray icons and file dialogs are
//! external collaborators; they live outside this crate and talk to it
//! through plain values.

pub mod com;
pub mod event;
pub mod geometry;
pub mod icon;
pub mod layout;
pub mod model;
pub mod thumbnail;
pub mod viewmodel;
