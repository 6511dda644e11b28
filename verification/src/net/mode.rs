//! The ways in which a guest is attached to the network.

use vstd::prelude::*;

verus! {

/// How an interface of the framework operates.
#[derive(Clone, Copy, Debug, PartialEq, Eq, Structural)]
#[non_exhaustive]
pub enum VmnetMode {
    /// Behind address translation on the host.
    Shared,
    /// With the host alone.
    Host,
    /// On an interface of the host.
    Bridged,
}

/// The number by which the framework knows a mode.
pub open spec fn xpc_value(mode: VmnetMode) -> u64 {
    match mode {
        VmnetMode::Host => 1000,
        VmnetMode::Shared => 1001,
        VmnetMode::Bridged => 1002,
    }
}

impl VmnetMode {
    /// The number by which the framework knows the mode.
    pub fn as_xpc_value(self) -> (v: u64)
        ensures
            v == xpc_value(self),
    {
        match self {
            VmnetMode::Host => 1000,
            VmnetMode::Shared => 1001,
            VmnetMode::Bridged => 1002,
        }
    }
}

/// How a guest is attached to the network.
#[derive(Clone, Copy, Debug, PartialEq, Eq, Structural)]
#[non_exhaustive]
pub enum NetMode {
    /// Through the framework.
    Vmnet(VmnetMode),
    /// Through a helper process.
    Userspace,
}

impl NetMode {
    /// Whether the mode needs the restricted entitlement: only bridging does.
    pub fn needs_restricted_entitlement(self) -> (b: bool)
        ensures
            b == (self == NetMode::Vmnet(VmnetMode::Bridged)),
    {
        match self {
            NetMode::Vmnet(VmnetMode::Bridged) => true,
            _ => false,
        }
    }
}

/// The framework's numbers of its modes: the host alone, then shared, then bridged.
pub proof fn modes_by_number(mode: VmnetMode)
    ensures
        xpc_value(mode) == 1000 <==> mode == VmnetMode::Host,
        xpc_value(mode) == 1001 <==> mode == VmnetMode::Shared,
        xpc_value(mode) == 1002 <==> mode == VmnetMode::Bridged,
{
}

} // verus!
