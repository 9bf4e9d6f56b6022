//! A software-emulated Linux input device: capability declaration, the
//! device-setup record, event batches and the discovery of the companion event
//! node, each stated and proved as plain data. Handles and system calls stay with
//! the caller.

pub mod capability;
pub mod event;
pub mod builder;
pub mod sysfs;

pub use builder::{BuildError, Command, DeviceSetup, InputId, SetupRecord, VirtualDeviceBuilder};
pub use capability::{CapabilitySet, Category};
pub use event::InputEvent;
pub use sysfs::ResolveError;
