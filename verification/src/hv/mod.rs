//! The hypervisor side: interrupt shadows, the vCPU exit dispatcher, and what is read,
//! written and mapped for a guest.

pub mod hotplug;
pub mod irq;
pub mod run_loop;
pub mod vcpu;
pub mod vcpu_save;
pub mod vmm;
