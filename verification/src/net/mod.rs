//! Host-side networking: operating modes, interfaces, and the frames that pass them.

pub mod backend;
pub mod gvproxy;
pub mod iface;
pub mod mode;
pub mod sys;
