//! Cold-tier checkpoint and restore for a virtual machine monitor.
//!
//! The crate holds the decisions and data formats of a cold snapshot: the
//! interrupt-controller blob, the device-state aggregate, the guest-memory
//! image and the disk-image options.

pub mod block;
pub mod gic;
pub mod guest_ram;
pub mod kvmgicv2;
pub mod memory_laws;
pub mod memory_runs;
pub mod persist;
pub mod snapshot;
pub mod targets;
pub mod text;
pub mod vgic_blob;
pub mod vgic_order;
pub mod vgic_regs;
pub mod vgic_runs;
