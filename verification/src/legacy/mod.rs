//! Devices of the platform that are not virtio devices.

pub mod pl011;
