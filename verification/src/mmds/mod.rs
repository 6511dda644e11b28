//! The metadata service: a link-local endpoint inside the guest's network that answers
//! ARP and serves HTTP over its own small TCP.

pub mod data_store;
pub mod http;
pub mod interceptor;
pub mod json;
pub mod pdu;
pub mod tcp;
pub mod token;
