//! Snapshot files: the state envelope, dirty-page tracking and memory images.

pub mod atomic;
pub mod dirty;
pub mod envelope;
pub mod error;
pub mod load;
pub mod memory;
pub mod save;
pub mod state;
pub mod vcpu_save;
pub mod version;
