//! The interrupt controller as devices see it.

use vstd::prelude::*;
use vstd::string::*;

use crate::arch::IntId;

verus! {

/// What can go wrong with the interrupt controller.
#[derive(Clone, Debug, PartialEq, Eq)]
pub enum GicError {
    /// The hypervisor reported an error.
    Hvf(String),
    /// The host has no Hypervisor.framework.
    UnsupportedHost,
}

/// The message of an error.
pub open spec fn gic_message(e: GicError) -> Seq<char> {
    match e {
        GicError::Hvf(why) => "HVF GIC error: "@ + why@,
        GicError::UnsupportedHost => "squib-gic requires macOS; this build target lacks HVF"@,
    }
}

impl GicError {
    /// The message of the error.
    pub fn message(&self) -> (s: String)
        ensures
            s@ == gic_message(*self),
    {
        match self {
            GicError::Hvf(why) => {
                let mut s = String::from_str("HVF GIC error: ");
                s.append(why.as_str());
                s
            },
            GicError::UnsupportedHost => String::from_str(
                "squib-gic requires macOS; this build target lacks HVF",
            ),
        }
    }
}

/// How large the parts of the interrupt controller are on this host.
#[derive(Clone, Copy, Debug, PartialEq, Eq, Structural)]
pub struct GicSizes {
    pub distributor: u64,
    pub redistributor_per_vcpu: u64,
}

impl GicSizes {
    /// The sizes that the host reports for the distributor and for one redistributor;
    /// `None` stands for a host that cannot be asked.
    pub fn query(reported: Option<(usize, usize)>) -> (r: Result<Self, GicError>)
        ensures
            match reported {
                Some((d, p)) => r == Ok::<GicSizes, GicError>(
                    (GicSizes { distributor: d as u64, redistributor_per_vcpu: p as u64 }),
                ),
                None => r == Err::<GicSizes, GicError>(GicError::UnsupportedHost),
            },
    {
        match reported {
            Some((distributor, per_vcpu)) => Ok(
                GicSizes {
                    distributor: distributor as u64,
                    redistributor_per_vcpu: per_vcpu as u64,
                },
            ),
            None => Err(GicError::UnsupportedHost),
        }
    }
}

/// The interrupt controller.
pub trait Gic {
    /// Raises a line and drops it at once.
    fn pulse_spi(&self, intid: IntId) -> Result<(), GicError>;

    /// Sets the level of a line.
    fn set_spi_level(&self, intid: IntId, level: bool) -> Result<(), GicError>;

    /// Its state, as opaque bytes.
    fn save_state(&self) -> Result<Vec<u8>, GicError>;

    /// Puts back its state, before any vCPU runs.
    fn restore_state(&self, data: &[u8]) -> Result<(), GicError>;
}

/// The levels of a line, in order, of a pulse: up, then down.
pub fn pulse_levels() -> (l: [bool; 2])
    ensures
        l@ == seq![true, false],
{
    let l: [bool; 2] = [true, false];
    assert(l@ =~= seq![true, false]);
    l
}

/// The interrupt controller on a host without Hypervisor.framework: it refuses everything.
#[derive(Debug)]
pub struct HvfGic {}

impl HvfGic {
    /// The one that refuses everything.
    pub fn new_stub() -> (g: Self)
        ensures
            g == (HvfGic {  }),
    {
        HvfGic {  }
    }
}

impl Gic for HvfGic {
    fn pulse_spi(&self, intid: IntId) -> (r: Result<(), GicError>)
        ensures
            r == Err::<(), GicError>(GicError::UnsupportedHost),
    {
        Err(GicError::UnsupportedHost)
    }

    fn set_spi_level(&self, intid: IntId, level: bool) -> (r: Result<(), GicError>)
        ensures
            r == Err::<(), GicError>(GicError::UnsupportedHost),
    {
        Err(GicError::UnsupportedHost)
    }

    fn save_state(&self) -> (r: Result<Vec<u8>, GicError>)
        ensures
            r == Err::<Vec<u8>, GicError>(GicError::UnsupportedHost),
    {
        Err(GicError::UnsupportedHost)
    }

    fn restore_state(&self, data: &[u8]) -> (r: Result<(), GicError>)
        ensures
            r == Err::<(), GicError>(GicError::UnsupportedHost),
    {
        Err(GicError::UnsupportedHost)
    }
}

} // verus!
