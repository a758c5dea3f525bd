//! Verified core logic of the Heddle terminal.
//!
//! Each module holds one area of the application's decision logic, stated over
//! mathematical models and proved with Verus.

pub mod text;
pub mod settings_value;
pub mod version;
pub mod version_order;
pub mod update_guard;
pub mod sharing;
pub mod update_consent;
pub mod tips;
pub mod footer;
pub mod handoff;
pub mod keymap;
pub mod keyboard;
pub mod routing;
pub mod tools;
pub mod harness;
pub mod repos;
pub mod drive;
pub mod signing;
pub mod harness_support;
pub mod launch;
pub mod local_harness_setup;
pub mod rtc_origin;
pub mod tab_settings;
pub mod release_manifest;
pub mod key_migration;
pub mod settings_file;
