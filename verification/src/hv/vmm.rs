//! Rules of the virtual machine: where its interrupt controller may lie, which interrupts
//! are kept for messages, and which writes stay inside a mapped region.

use vstd::prelude::*;
use vstd::string::*;

use crate::text::{self, push_decimal, push_hex_prefixed};

verus! {

/// Interrupts at the top of the shared range that are kept for messages. They can be
/// raised by a message alone, so they lie above those that devices raise by line.
pub const MSI_INTID_RESERVE: u32 = 64;

/// What can go wrong while a virtual machine is made.
#[derive(Clone, Debug, PartialEq, Eq)]
pub enum InitError {
    /// The hypervisor reported an error, or a request does not fit a region.
    Hvf(String),
    /// The redistributors of all vCPUs would reach into the device window.
    LayoutOverlap { vcpu_count: u32, live_gicr_end: u64, boundary: u64 },
    /// The host has no Hypervisor.framework.
    UnsupportedHost,
}

/// The message of an error.
pub open spec fn init_message(e: InitError) -> Seq<char> {
    match e {
        InitError::Hvf(why) => "HVF init error: "@ + why@,
        InitError::LayoutOverlap { vcpu_count, live_gicr_end, boundary } => {
            "GIC layout overlap: vcpu_count="@ + text::decimal(vcpu_count as nat)
                + ", live_gicr_end="@ + text::hex_prefixed(live_gicr_end as nat)
                + " crosses PL011 base "@ + text::hex_prefixed(boundary as nat)
        },
        InitError::UnsupportedHost => {
            "squib-hv requires macOS; compile target is not Apple Silicon"@
        },
    }
}

impl InitError {
    /// The message of the error.
    pub fn message(&self) -> (s: String)
        ensures
            s@ == init_message(*self),
    {
        match self {
            InitError::Hvf(why) => {
                let mut s = String::from_str("HVF init error: ");
                s.append(why.as_str());
                assert(s@ =~= init_message(*self));
                s
            },
            InitError::LayoutOverlap { vcpu_count, live_gicr_end, boundary } => {
                let mut s = String::from_str("GIC layout overlap: vcpu_count=");
                push_decimal(&mut s, *vcpu_count as u64);
                s.append(", live_gicr_end=");
                push_hex_prefixed(&mut s, *live_gicr_end);
                s.append(" crosses PL011 base ");
                push_hex_prefixed(&mut s, *boundary);
                assert(s@ =~= init_message(*self));
                s
            },
            InitError::UnsupportedHost => String::from_str(
                "squib-hv requires macOS; compile target is not Apple Silicon",
            ),
        }
    }
}

/// Where the parts of the interrupt controller lie in the guest's address space, and
/// where its devices begin.
#[derive(Clone, Copy, Debug, PartialEq, Eq, Structural)]
pub struct GicLayout {
    pub distributor_base: u64,
    pub redistributor_base: u64,
    pub msi_region_base: u64,
    /// The first device; the redistributors must end at or below it.
    pub device_base: u64,
}

/// What the interrupt controller is made with.
#[derive(Clone, Copy, Debug, PartialEq, Eq, Structural)]
pub struct GicPlan {
    pub distributor_base: u64,
    pub redistributor_base: u64,
    pub msi_region_base: u64,
    pub msi_base: u32,
    pub msi_count: u32,
}

/// The first address past the redistributors of `vcpu_count` vCPUs.
pub open spec fn gicr_end(layout: GicLayout, vcpu_count: u32, redistributor_size: u64) -> int {
    layout.redistributor_base + vcpu_count * redistributor_size
}

/// The same as an address; the last address if it lies past all of them.
pub open spec fn gicr_end_address(
    layout: GicLayout,
    vcpu_count: u32,
    redistributor_size: u64,
) -> u64 {
    if gicr_end(layout, vcpu_count, redistributor_size) > u64::MAX {
        u64::MAX
    } else {
        gicr_end(layout, vcpu_count, redistributor_size) as u64
    }
}

/// Refuses a layout in which the redistributors would reach past the device base.
pub fn check_layout(layout: &GicLayout, vcpu_count: u32, redistributor_size: u64) -> (r: Result<
    (),
    InitError,
>)
    ensures
        match r {
            Ok(()) => gicr_end(*layout, vcpu_count, redistributor_size) <= layout.device_base,
            Err(e) => gicr_end(*layout, vcpu_count, redistributor_size) > layout.device_base && e
                == (InitError::LayoutOverlap {
                vcpu_count,
                live_gicr_end: gicr_end_address(*layout, vcpu_count, redistributor_size),
                boundary: layout.device_base,
            }),
        },
{
    assert(0 <= vcpu_count * redistributor_size) by (nonlinear_arith);
    let end: Option<u64> = match (vcpu_count as u64).checked_mul(redistributor_size) {
        Some(size) => layout.redistributor_base.checked_add(size),
        None => None,
    };
    let live_gicr_end: u64 = match end {
        Some(end) => end,
        None => u64::MAX,
    };
    if end.is_none() || live_gicr_end > layout.device_base {
        return Err(
            InitError::LayoutOverlap { vcpu_count, live_gicr_end, boundary: layout.device_base },
        );
    }
    Ok(())
}

/// The message interrupts within a shared range: its topmost ones, at most the reserve.
pub fn msi_range(spi_base: u32, spi_count: u32) -> (r: (u32, u32))
    requires
        spi_base + spi_count <= u32::MAX,
    ensures
        r.1 == if spi_count < MSI_INTID_RESERVE {
            spi_count
        } else {
            MSI_INTID_RESERVE
        },
        r.0 + r.1 == spi_base + spi_count,
        spi_count >= 64 ==> r.1 == 64,
{
    let msi_count: u32 = if spi_count < MSI_INTID_RESERVE {
        spi_count
    } else {
        MSI_INTID_RESERVE
    };
    (spi_base + spi_count - msi_count, msi_count)
}

/// Interrupts below the message range stay free for devices, and those in it lie inside
/// the shared range.
pub proof fn message_interrupts_are_on_top(spi_base: u32, spi_count: u32, msi: (u32, u32), id: int)
    requires
        msi.1 <= spi_count,
        msi.0 + msi.1 == spi_base + spi_count,
        spi_base <= id < spi_base + spi_count,
    ensures
        spi_base <= msi.0,
        id < msi.0 || msi.0 <= id < msi.0 + msi.1,
{
}

/// The entry point to the hypervisor. It holds nothing.
#[derive(Debug)]
pub struct HvfHypervisor {}

impl HvfHypervisor {
    /// The entry point.
    pub fn new() -> (h: Self)
        ensures
            h == (HvfHypervisor {  }),
    {
        HvfHypervisor {  }
    }

    /// Settles how the interrupt controller of a virtual machine is made, from what the
    /// host says of its redistributors and of its shared interrupts. `None` stands for a
    /// host without the framework.
    pub fn init_vm(
        &self,
        layout: &GicLayout,
        vcpu_count: u32,
        redistributor_size_per_vcpu: u64,
        spi_range: Option<(u32, u32)>,
    ) -> (r: Result<(GicPlan, HvfVm), InitError>)
        requires
            gicr_end(*layout, vcpu_count, redistributor_size_per_vcpu) <= layout.device_base ==> (
            spi_range matches Some((base, count)) ==> base + count <= u32::MAX),
        ensures
            match r {
                Ok((plan, vm)) => {
                    &&& spi_range matches Some((base, count)) && plan.msi_base + plan.msi_count
                        == base + count && plan.msi_count == (if count < MSI_INTID_RESERVE {
                        count
                    } else {
                        MSI_INTID_RESERVE
                    })
                    &&& gicr_end(*layout, vcpu_count, redistributor_size_per_vcpu)
                        <= layout.device_base
                    &&& plan.distributor_base == layout.distributor_base
                    &&& plan.redistributor_base == layout.redistributor_base
                    &&& plan.msi_region_base == layout.msi_region_base
                    &&& vm.count() == vcpu_count
                    &&& vm.regions() == Seq::<MappedRegion>::empty()
                },
                Err(InitError::UnsupportedHost) => spi_range is None,
                Err(InitError::LayoutOverlap { vcpu_count: n, live_gicr_end, boundary }) => {
                    &&& spi_range is Some
                    &&& n == vcpu_count
                    &&& live_gicr_end == gicr_end_address(
                        *layout,
                        vcpu_count,
                        redistributor_size_per_vcpu,
                    )
                    &&& boundary == layout.device_base
                    &&& gicr_end(*layout, vcpu_count, redistributor_size_per_vcpu) > boundary
                },
                Err(InitError::Hvf(_)) => false,
            },
    {
        match spi_range {
            None => Err(InitError::UnsupportedHost),
            Some((spi_base, spi_count)) => {
                match check_layout(layout, vcpu_count, redistributor_size_per_vcpu) {
                    Err(e) => return Err(e),
                    Ok(()) => {},
                }
                let msi: (u32, u32) = msi_range(spi_base, spi_count);
                let plan = GicPlan {
                    distributor_base: layout.distributor_base,
                    redistributor_base: layout.redistributor_base,
                    msi_region_base: layout.msi_region_base,
                    msi_base: msi.0,
                    msi_count: msi.1,
                };
                Ok((plan, HvfVm { regions: Vec::new(), vcpu_count }))
            },
        }
    }
}

impl Default for HvfHypervisor {
    fn default() -> (h: Self)
        ensures
            h == (HvfHypervisor {  }),
    {
        HvfHypervisor::new()
    }
}

/// A region of guest memory that was mapped.
#[derive(Clone, Copy, Debug, PartialEq, Eq, Structural)]
pub struct MappedRegion {
    /// Its first guest address.
    pub guest_base: u64,
    /// Its length in bytes.
    pub size: usize,
    /// Which of the mapped regions it is.
    pub slot_index: usize,
}

impl MappedRegion {
    /// Which of the mapped regions it is.
    pub open spec fn slot(self) -> int {
        self.slot_index as int
    }
}

/// A virtual machine: its vCPUs and the regions that were mapped into it.
#[derive(Debug)]
pub struct HvfVm {
    regions: Vec<MappedRegion>,
    vcpu_count: u32,
}

/// A write to guest memory: which mapped region, and at which guest address.
#[derive(Clone, Copy, Debug, PartialEq, Eq, Structural)]
pub struct GuestWrite {
    pub slot: usize,
    pub guest_addr: u64,
}

/// What is said of a region that was never mapped.
pub open spec fn no_region_text(slot: int) -> Seq<char> {
    "no mapped region #"@ + text::decimal(slot as nat)
}

/// What is said of a write past the end of its region.
pub open spec fn escape_text(len: int, offset: int, size: int) -> Seq<char> {
    "write "@ + text::decimal(len as nat) + " bytes at offset "@ + text::decimal(offset as nat)
        + " escapes region of size "@ + text::decimal(size as nat)
}

impl HvfVm {
    /// How many vCPUs it has.
    pub closed spec fn count(&self) -> u32 {
        self.vcpu_count
    }

    /// The regions that were mapped, in order.
    pub closed spec fn regions(&self) -> Seq<MappedRegion> {
        self.regions@
    }

    /// How many vCPUs the machine was made with.
    pub fn vcpu_count(&self) -> (n: u32)
        ensures
            n == self.count(),
    {
        self.vcpu_count
    }

    /// Enters a region of `size_bytes` that was mapped at `guest_addr`.
    pub fn map_memory(&mut self, guest_addr: u64, size_bytes: usize) -> (r: MappedRegion)
        ensures
            r.guest_base == guest_addr,
            r.size == size_bytes,
            r.slot() == old(self).regions().len(),
            final(self).regions() == old(self).regions().push(r),
            final(self).count() == old(self).count(),
    {
        let region = MappedRegion {
            guest_base: guest_addr,
            size: size_bytes,
            slot_index: self.regions.len(),
        };
        self.regions.push(region);
        region
    }

    /// Where a write of `len` bytes at `region_offset` within a region goes.
    pub fn write_to_region(&self, region: &MappedRegion, region_offset: usize, len: usize) -> (r:
        Result<GuestWrite, InitError>)
        requires
            region.slot() < self.regions().len() && region_offset + len <= region.size
                ==> region.guest_base + region_offset <= u64::MAX,
        ensures
            match r {
                Ok(w) => region.slot() < self.regions().len() && region_offset + len <= region.size
                    && w.slot == region.slot() && w.guest_addr == region.guest_base + region_offset,
                Err(InitError::Hvf(why)) => if region.slot() >= self.regions().len() {
                    why@ == no_region_text(region.slot())
                } else {
                    region_offset + len > region.size && why@ == escape_text(
                        len as int,
                        region_offset as int,
                        region.size as int,
                    )
                },
                Err(_) => false,
            },
    {
        if region.slot_index >= self.regions.len() {
            let mut why = String::from_str("no mapped region #");
            push_decimal(&mut why, region.slot_index as u64);
            return Err(InitError::Hvf(why));
        }
        if len > region.size || region_offset > region.size - len {
            let mut why = String::from_str("write ");
            push_decimal(&mut why, len as u64);
            why.append(" bytes at offset ");
            push_decimal(&mut why, region_offset as u64);
            why.append(" escapes region of size ");
            push_decimal(&mut why, region.size as u64);
            assert(why@ =~= escape_text(len as int, region_offset as int, region.size as int));
            return Err(InitError::Hvf(why));
        }
        Ok(
            GuestWrite {
                slot: region.slot_index,
                guest_addr: region.guest_base + region_offset as u64,
            },
        )
    }

    /// Where a write at `region_offset` within the first region goes, which lies at
    /// `dram_base`.
    pub fn write_to_first_region(&self, dram_base: u64, region_offset: usize) -> (r: Result<
        GuestWrite,
        InitError,
    >)
        requires
            self.regions().len() > 0 ==> dram_base + region_offset <= u64::MAX,
        ensures
            match r {
                Ok(w) => self.regions().len() > 0 && w.slot == 0 && w.guest_addr == dram_base
                    + region_offset,
                Err(InitError::Hvf(why)) => self.regions().len() == 0 && why@
                    == "no regions mapped"@,
                Err(_) => false,
            },
    {
        if self.regions.len() == 0 {
            return Err(InitError::Hvf(String::from_str("no regions mapped")));
        }
        Ok(GuestWrite { slot: 0, guest_addr: dram_base + region_offset as u64 })
    }
}

/// A region stays valid for the machine that mapped it, whatever is mapped later.
pub proof fn mapped_region_stays(before: Seq<MappedRegion>, region: MappedRegion, later: Seq<
    MappedRegion,
>)
    requires
        region.slot() == before.len(),
        before.push(region).is_prefix_of(later),
    ensures
        0 <= region.slot() < later.len(),
        later[region.slot()] == region,
{
    assert(later[before.len() as int] == before.push(region)[before.len() as int]);
}

/// Each vCPU has a redistributor of its own: one more vCPU puts the end of them one size
/// further, and without vCPUs they end where they begin. Where that is no address, the last
/// one stands for it.
pub proof fn redistributors_add_up(layout: GicLayout, vcpu_count: u32, size: u64)
    requires
        vcpu_count < u32::MAX,
    ensures
        gicr_end(layout, 0, size) == layout.redistributor_base,
        gicr_end(layout, (vcpu_count + 1) as u32, size) == gicr_end(layout, vcpu_count, size)
            + size,
        gicr_end(layout, vcpu_count, size) <= u64::MAX ==> gicr_end_address(
            layout,
            vcpu_count,
            size,
        ) == gicr_end(layout, vcpu_count, size),
        gicr_end(layout, vcpu_count, size) > u64::MAX ==> gicr_end_address(
            layout,
            vcpu_count,
            size,
        ) == 0xFFFF_FFFF_FFFF_FFFF,
{
    assert((vcpu_count + 1) * size == vcpu_count * size + size) by (nonlinear_arith);
    assert(0 <= vcpu_count * size) by (nonlinear_arith);
    assert(0 * size == 0) by (nonlinear_arith);
}

} // verus!
