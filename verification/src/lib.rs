//! Disk sanitization: overwrite schemes, firmware purge commands, and the
//! safety ceremony that stands between an operator and a wiped disk.
//!
//! The library is UI-free and does no I/O. Everything destructive funnels
//! through [`engine::spawn_wipe`] / [`engine::spawn_firmware`], which cannot be
//! called without an [`safety::ArmToken`], and a token can only be minted by
//! walking the full [`safety::SafetyGate`] state machine (typed confirmation
//! phrase + abortable countdown).
//!
//! Two sanitization families live here:
//! * [`algorithm`] + [`engine`] + [`job`]: software overwrite schemes (NIST
//!   Clear, DoD, Gutmann, …) driven pass-by-pass over the block device.
//! * [`firmware`] + [`erase`]: drive-internal purge commands (ATA Secure Erase,
//!   NVMe Format / Sanitize, TCG Revert) for media that overwriting cannot fully
//!   reach.

use vstd::prelude::*;

pub mod algorithm;
pub mod app;
pub mod app_laws;
pub mod app_model;
pub mod ata;
pub mod binary64;
pub mod bytes;
pub mod choice_laws;
pub mod demo;
pub mod device;
pub mod discovery_laws;
pub mod drive_laws;
pub mod engine;
pub mod erase;
pub mod erase_laws;
pub mod error;
pub mod firmware;
pub mod job;
pub mod linux;
pub mod nvme;
pub mod prng;
pub mod report;
pub mod safety;
pub mod scan;
pub mod screen_laws;
pub mod session_laws;
pub mod signing;
pub mod speed;
pub mod sysinfo;
pub mod tcg;
pub mod text;
pub mod theme;
pub mod transport;
pub mod ui;
pub mod wipe_laws;

pub use error::CoreError;

verus! {

/// Library version, surfaced in the UI and in erasure reports.
pub const VERSION: &'static str = "0.1.0";

} // verus!
