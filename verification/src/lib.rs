//! Verified core of a small control panel for volume, brightness, Wi-Fi and
//! Bluetooth: it reads what the system tools print, decides what to show and
//! builds the shell commands that the panel runs.

pub mod text;
pub mod wifi;
pub mod bluetooth;
pub mod controls;
pub mod panel;
