//! Verified core of a microVM monitor: snapshot formats, the metadata service's
//! network stack, the kernel loader, device models and the host-side glue rules.

pub mod arch;
pub mod bitset;
pub mod clock;
pub mod facade;
pub mod gic;
pub mod host;
pub mod hv;
pub mod legacy;
pub mod loader;
pub mod maps;
pub mod mmds;
pub mod net;
pub mod paths;
pub mod snapshot;
pub mod text;
pub mod vsock_client;
pub mod vsock_muxer;
pub mod wire;
