//! Per-virtual-desktop labels: the configuration document, its migration,
//! hotkey validation and the local query protocol.
pub mod desktop_key;
pub mod config;
pub mod hotkeys;
pub mod ipc;
