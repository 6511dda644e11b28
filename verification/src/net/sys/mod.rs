//! What the framework answers.

use vstd::prelude::*;

pub mod iface_impl;

verus! {

/// An answer of the framework.
#[derive(Clone, Copy, Debug, PartialEq, Eq, Structural)]
#[non_exhaustive]
pub enum VmnetReturn {
    Success,
    Failure,
    MemFailure,
    InvalidArgument,
    SetupIncomplete,
    InvalidAccess,
    PacketTooBig,
    BufferExhausted,
    TooManyPackets,
    SharingServiceBusy,
    /// Any other number.
    Unknown,
}

/// The number that stands for success.
pub const VMNET_SUCCESS: u32 = 1000;

/// The number of an answer, for those that have one.
pub open spec fn raw_code(r: VmnetReturn) -> Option<u32> {
    match r {
        VmnetReturn::Success => Some(1000u32),
        VmnetReturn::Failure => Some(1001u32),
        VmnetReturn::MemFailure => Some(1002u32),
        VmnetReturn::InvalidArgument => Some(1003u32),
        VmnetReturn::SetupIncomplete => Some(1004u32),
        VmnetReturn::InvalidAccess => Some(1005u32),
        VmnetReturn::PacketTooBig => Some(1006u32),
        VmnetReturn::BufferExhausted => Some(1007u32),
        VmnetReturn::TooManyPackets => Some(1008u32),
        VmnetReturn::SharingServiceBusy => Some(1009u32),
        VmnetReturn::Unknown => None,
    }
}

/// The answer that a number stands for.
pub open spec fn answer_of(raw: u32) -> VmnetReturn {
    if 1000 <= raw <= 1009 {
        choose|r: VmnetReturn| #[trigger] raw_code(r) == Some(raw)
    } else {
        VmnetReturn::Unknown
    }
}

impl VmnetReturn {
    /// The answer that a number stands for.
    pub fn from_raw(raw: u32) -> (r: Self)
        ensures
            r == answer_of(raw),
            1000 <= raw <= 1009 ==> raw_code(r) == Some(raw),
    {
        let r: VmnetReturn = match raw {
            1000 => VmnetReturn::Success,
            1001 => VmnetReturn::Failure,
            1002 => VmnetReturn::MemFailure,
            1003 => VmnetReturn::InvalidArgument,
            1004 => VmnetReturn::SetupIncomplete,
            1005 => VmnetReturn::InvalidAccess,
            1006 => VmnetReturn::PacketTooBig,
            1007 => VmnetReturn::BufferExhausted,
            1008 => VmnetReturn::TooManyPackets,
            1009 => VmnetReturn::SharingServiceBusy,
            _ => VmnetReturn::Unknown,
        };
        proof {
            if 1000 <= raw <= 1009 {
                assert(raw_code(r) == Some(raw));
                codes_are_distinct(r, answer_of(raw));
            }
        }
        r
    }

    /// The name of the answer.
    pub fn name(&self) -> (s: &'static str)
        ensures
            s@ == name_of(*self),
    {
        match self {
            VmnetReturn::Success => "Success",
            VmnetReturn::Failure => "Failure",
            VmnetReturn::MemFailure => "MemFailure",
            VmnetReturn::InvalidArgument => "InvalidArgument",
            VmnetReturn::SetupIncomplete => "SetupIncomplete",
            VmnetReturn::InvalidAccess => "InvalidAccess",
            VmnetReturn::PacketTooBig => "PacketTooBig",
            VmnetReturn::BufferExhausted => "BufferExhausted",
            VmnetReturn::TooManyPackets => "TooManyPackets",
            VmnetReturn::SharingServiceBusy => "SharingServiceBusy",
            VmnetReturn::Unknown => "Unknown",
        }
    }
}

/// The name of an answer.
pub open spec fn name_of(r: VmnetReturn) -> Seq<char> {
    match r {
        VmnetReturn::Success => "Success"@,
        VmnetReturn::Failure => "Failure"@,
        VmnetReturn::MemFailure => "MemFailure"@,
        VmnetReturn::InvalidArgument => "InvalidArgument"@,
        VmnetReturn::SetupIncomplete => "SetupIncomplete"@,
        VmnetReturn::InvalidAccess => "InvalidAccess"@,
        VmnetReturn::PacketTooBig => "PacketTooBig"@,
        VmnetReturn::BufferExhausted => "BufferExhausted"@,
        VmnetReturn::TooManyPackets => "TooManyPackets"@,
        VmnetReturn::SharingServiceBusy => "SharingServiceBusy"@,
        VmnetReturn::Unknown => "Unknown"@,
    }
}

/// Different answers have different numbers.
pub proof fn codes_are_distinct(a: VmnetReturn, b: VmnetReturn)
    requires
        raw_code(a) is Some,
        raw_code(a) == raw_code(b),
    ensures
        a == b,
{
}

/// The numbers of the framework's answers, from 1000 on; any other number is unknown.
pub proof fn answers_by_number(raw: u32)
    ensures
        raw == 1000 <==> answer_of(raw) == VmnetReturn::Success,
        raw == 1001 <==> answer_of(raw) == VmnetReturn::Failure,
        raw == 1002 <==> answer_of(raw) == VmnetReturn::MemFailure,
        raw == 1003 <==> answer_of(raw) == VmnetReturn::InvalidArgument,
        raw == 1004 <==> answer_of(raw) == VmnetReturn::SetupIncomplete,
        raw == 1005 <==> answer_of(raw) == VmnetReturn::InvalidAccess,
        raw == 1006 <==> answer_of(raw) == VmnetReturn::PacketTooBig,
        raw == 1007 <==> answer_of(raw) == VmnetReturn::BufferExhausted,
        raw == 1008 <==> answer_of(raw) == VmnetReturn::TooManyPackets,
        raw == 1009 <==> answer_of(raw) == VmnetReturn::SharingServiceBusy,
        raw < 1000 || raw > 1009 <==> answer_of(raw) == VmnetReturn::Unknown,
{
    assert(raw_code(VmnetReturn::Success) == Some(1000u32));
    assert(raw_code(VmnetReturn::Failure) == Some(1001u32));
    assert(raw_code(VmnetReturn::MemFailure) == Some(1002u32));
    assert(raw_code(VmnetReturn::InvalidArgument) == Some(1003u32));
    assert(raw_code(VmnetReturn::SetupIncomplete) == Some(1004u32));
    assert(raw_code(VmnetReturn::InvalidAccess) == Some(1005u32));
    assert(raw_code(VmnetReturn::PacketTooBig) == Some(1006u32));
    assert(raw_code(VmnetReturn::BufferExhausted) == Some(1007u32));
    assert(raw_code(VmnetReturn::TooManyPackets) == Some(1008u32));
    assert(raw_code(VmnetReturn::SharingServiceBusy) == Some(1009u32));
}

/// An answer is called as its kind is.
pub proof fn answers_by_name(r: VmnetReturn)
    ensures
        r == VmnetReturn::Success ==> name_of(r) == "Success"@,
        r == VmnetReturn::Failure ==> name_of(r) == "Failure"@,
        r == VmnetReturn::MemFailure ==> name_of(r) == "MemFailure"@,
        r == VmnetReturn::InvalidArgument ==> name_of(r) == "InvalidArgument"@,
        r == VmnetReturn::SetupIncomplete ==> name_of(r) == "SetupIncomplete"@,
        r == VmnetReturn::InvalidAccess ==> name_of(r) == "InvalidAccess"@,
        r == VmnetReturn::PacketTooBig ==> name_of(r) == "PacketTooBig"@,
        r == VmnetReturn::BufferExhausted ==> name_of(r) == "BufferExhausted"@,
        r == VmnetReturn::TooManyPackets ==> name_of(r) == "TooManyPackets"@,
        r == VmnetReturn::SharingServiceBusy ==> name_of(r) == "SharingServiceBusy"@,
        r == VmnetReturn::Unknown ==> name_of(r) == "Unknown"@,
{
}

} // verus!
