//! Verified core of a tray utility that switches the default audio output
//! device, with global keyboard shortcuts and an on-screen notification.
pub mod text;
pub mod assoc;
pub mod settings;
pub mod hotkey;
pub mod audio;
pub mod toast;
pub mod tray;
pub mod settings_window;
pub mod screen;
