//! Services of the host: memory that is filled in as a restored guest touches it.

pub mod pager;
