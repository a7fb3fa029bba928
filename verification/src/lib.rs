//! CyberDesk host logic: hardening configuration, update awareness, slot-free
//! shell decisions and history gating, with their contracts.

pub mod text;
pub mod json;
pub mod harden;
pub mod version;
pub mod updates;
pub mod update_state;
pub mod memory;
pub mod logging;
pub mod shell;
