//! JacqueWM: keyboard-first workspace management on native virtual
//! desktops. This crate holds the platform-neutral logic: workspace
//! indices, the window registry, the tiling tree and its layout, the
//! application rules, hotkey dispatch, the launcher's fuzzy matcher,
//! configuration handling and the small state machines around them.

pub mod apps;
pub mod error;
pub mod floatbits;
pub mod seqs;
pub mod text;
pub mod workspace;
pub mod wm;
pub mod tiling;
pub mod launcher;
pub mod config;
pub mod notifications;
pub mod isolation;
pub mod hotkeys;
pub mod plugins;
pub mod focus;
pub mod startup;
pub mod tray;
pub mod panel;
pub mod theme;
pub mod settings;
pub mod debug;
pub mod installer;
pub mod virtual_desktop;
pub mod workspaces;
pub mod windows;
pub mod metrics;
pub mod logging;
