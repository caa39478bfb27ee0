//! Verified core of a desktop device-lab: parsers for device-tool output,
//! validators for user input, and builders for the fixed commands sent to
//! Android and iOS devices.

pub mod android_apps;
pub mod devices;
pub mod encoding;
pub mod error;
pub mod files;
pub mod frida;
pub mod ios_apps;
pub mod ios_diagnostics;
pub mod ios_frida;
pub mod ios_host_tools;
pub mod ios_native;
pub mod ios_ports;
pub mod ios_ssh;
pub mod ip;
pub mod listing;
pub mod media;
pub mod models;
pub mod network;
pub mod package_analysis;
pub mod packages;
pub mod paths;
pub mod ports;
pub mod runner;
pub mod scrcpy;
pub mod text;
pub mod toolchain;
pub mod tools;
pub mod validation;
