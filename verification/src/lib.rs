//! Decision logic of a USB Android software KVM: edge switching, pointer
//! geometry, scrcpy UHID control messages, adb and scrcpy command lines, and
//! configuration checks. The caller performs the I/O that these decide on.

pub mod android;
pub mod command;
pub mod config;
pub mod edge;
pub mod runtime;
pub mod scrcpy;
pub mod scrcpy_control;
pub mod text;
