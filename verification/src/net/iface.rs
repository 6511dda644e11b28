//! A network interface of the host, on hosts that have the framework and on others.

use vstd::prelude::*;
use vstd::string::*;

use crate::net::mode::{self, VmnetMode};
use crate::net::sys::iface_impl::{self, IfaceStats, Inner, InnerError, StartOutcome, StartParams};

verus! {

/// How long the start of an interface is waited for, unless set otherwise, in
/// milliseconds.
pub const DEFAULT_START_TIMEOUT_MS: u64 = 5000;

/// What can go wrong with an interface.
#[derive(Debug)]
#[non_exhaustive]
pub enum IfaceError {
    /// The host has no such framework.
    NotSupported,
    /// The framework reported an error.
    Inner(InnerError),
}

/// The message of an error, with `detail` for the text of the operating-system error that
/// it carries.
pub open spec fn iface_message(e: IfaceError, detail: Seq<char>) -> Seq<char> {
    match e {
        IfaceError::NotSupported => "vmnet not supported on this platform"@,
        IfaceError::Inner(inner) => iface_impl::inner_message(inner, detail),
    }
}

impl IfaceError {
    /// The message of the error, with `detail` for the text of the operating-system error
    /// that it carries.
    pub fn message_with(&self, detail: &str) -> (s: String)
        ensures
            s@ == iface_message(*self, detail@),
    {
        match self {
            IfaceError::NotSupported => String::from_str("vmnet not supported on this platform"),
            IfaceError::Inner(inner) => inner.message_with(detail),
        }
    }
}

/// How an interface is asked for.
#[derive(Clone, Debug)]
pub struct InterfaceParams {
    pub iface_id: String,
    pub mode: VmnetMode,
    /// The interface of the host; counts for bridging only.
    pub bridged_iface_name: Option<String>,
    /// The frame size; the framework's own if none is given.
    pub mtu: Option<u32>,
    pub start_timeout_ms: u64,
    /// Whether guests are kept apart.
    pub enable_isolation: bool,
}

impl InterfaceParams {
    /// An interface with the usual settings.
    pub fn new(iface_id: String, mode: VmnetMode) -> (p: Self)
        ensures
            p.iface_id == iface_id,
            p.mode == mode,
            p.bridged_iface_name is None,
            p.mtu is None,
            p.start_timeout_ms == DEFAULT_START_TIMEOUT_MS,
            p.start_timeout_ms == 5000,
            p.enable_isolation,
    {
        InterfaceParams {
            iface_id,
            mode,
            bridged_iface_name: None,
            mtu: None,
            start_timeout_ms: DEFAULT_START_TIMEOUT_MS,
            enable_isolation: true,
        }
    }

    /// The same for the framework. The interface of the host goes along for bridging only.
    pub fn start_params(&self) -> (p: StartParams)
        ensures
            p.iface_id@ == self.iface_id@,
            p.mode == mode::xpc_value(self.mode),
            match self.bridged_iface_name {
                Some(name) => if self.mode == VmnetMode::Bridged {
                    p.bridged_iface_name matches Some(n) && n@ == name@
                } else {
                    p.bridged_iface_name is None
                },
                None => p.bridged_iface_name is None,
            },
            p.mtu == self.mtu,
            p.start_timeout_ms == self.start_timeout_ms,
            p.enable_isolation == self.enable_isolation,
    {
        StartParams {
            iface_id: self.iface_id.clone(),
            mode: self.mode.as_xpc_value(),
            bridged_iface_name: match (&self.bridged_iface_name, self.mode) {
                (Some(name), VmnetMode::Bridged) => Some(name.clone()),
                _ => None,
            },
            mtu: self.mtu,
            start_timeout_ms: self.start_timeout_ms,
            enable_isolation: self.enable_isolation,
        }
    }
}

/// An interface.
#[derive(Debug)]
pub struct VmnetIface {
    iface_id: String,
    inner: Option<Inner>,
}

impl VmnetIface {
    /// Its name.
    pub closed spec fn name(&self) -> Seq<char> {
        self.iface_id@
    }

    /// Its state, until it is stopped.
    pub closed spec fn state(&self) -> Option<iface_impl::InnerState> {
        match self.inner {
            Some(i) => Some(i@),
            None => None,
        }
    }

    /// Makes an interface of what became of asking for it. `None` stands for a host
    /// without the framework.
    pub fn start(params: InterfaceParams, outcome: Option<StartOutcome>) -> (r: Result<
        Self,
        IfaceError,
    >)
        ensures
            match r {
                Ok(i) => {
                    &&& outcome matches Some(o) && iface_impl::start_fault(
                        o,
                        params.start_timeout_ms,
                    ) is None
                    &&& outcome matches Some(StartOutcome::Answered { reply: Some(reply), .. }) && {
                        &&& i.state() matches Some(s) && {
                            &&& s.live
                            &&& s.mtu == iface_impl::frame_size(reply.mtu)
                            &&& s.max_packet_size == iface_impl::size_or(
                                reply.max_packet_size,
                                iface_impl::DEFAULT_MAX_PACKET_SIZE,
                            )
                            &&& reply.mac matches Some(mac) && iface_impl::mac_of(mac@) == Some(
                                s.mac,
                            )
                            &&& s.stats == (IfaceStats {
                                rx_bytes: 0,
                                tx_bytes: 0,
                                rx_frames: 0,
                                tx_frames: 0,
                            })
                        }
                    }
                    &&& i.name() == params.iface_id@
                },
                Err(IfaceError::NotSupported) => outcome is None,
                Err(IfaceError::Inner(e)) => outcome matches Some(o) && iface_impl::start_fault(
                    o,
                    params.start_timeout_ms,
                ) == Some(e),
            },
    {
        match outcome {
            None => Err(IfaceError::NotSupported),
            Some(outcome) => {
                let start_params: StartParams = params.start_params();
                match Inner::start(&start_params, outcome) {
                    Ok(inner) => Ok(VmnetIface { iface_id: params.iface_id, inner: Some(inner) }),
                    Err(e) => Err(IfaceError::Inner(e)),
                }
            },
        }
    }

    /// Its name.
    pub fn iface_id(&self) -> (s: &str)
        ensures
            s@ == self.name(),
    {
        self.iface_id.as_str()
    }

    /// Its frame size; the usual one once it was stopped.
    pub fn mtu(&self) -> (n: u32)
        ensures
            n == match self.state() {
                Some(s) => s.mtu,
                None => iface_impl::DEFAULT_MTU,
            },
    {
        match &self.inner {
            Some(inner) => inner.mtu(),
            None => iface_impl::DEFAULT_MTU,
        }
    }

    /// Its address on the host's side; zero once it was stopped.
    pub fn host_mac(&self) -> (m: [u8; 6])
        ensures
            m@ == match self.state() {
                Some(s) => s.mac,
                None => Seq::new(6, |i: int| 0u8),
            },
    {
        match &self.inner {
            Some(inner) => inner.host_mac(),
            None => {
                let m: [u8; 6] = [0u8; 6];
                assert(m@ =~= Seq::new(6, |i: int| 0u8));
                m
            },
        }
    }

    /// The part of it that reads, writes and stops; none once it was stopped.
    pub fn inner_mut(&mut self) -> (r: Result<&mut Inner, IfaceError>)
        ensures
            final(self).name() == old(self).name(),
            match r {
                Ok(i) => old(self).state() == Some(i@) && final(self).state() == Some(final(i)@),
                Err(IfaceError::NotSupported) => old(self).state() is None
                    && final(self).state() is None,
                Err(_) => false,
            },
    {
        match &mut self.inner {
            Some(inner) => Ok(inner),
            None => Err(IfaceError::NotSupported),
        }
    }

    /// What passed it so far; nothing once it was stopped.
    pub fn stats(&self) -> (s: IfaceStats)
        ensures
            s == match self.state() {
                Some(state) => state.stats,
                None => IfaceStats { rx_bytes: 0, tx_bytes: 0, rx_frames: 0, tx_frames: 0 },
            },
    {
        match &self.inner {
            Some(inner) => inner.stats_snapshot(),
            None => IfaceStats::default(),
        }
    }

    /// Stops it, with the framework's answer to that. Stopping it again does nothing.
    pub fn stop(&mut self, rc: u32) -> (r: Result<(), IfaceError>)
        ensures
            final(self).state() is None,
            final(self).name() == old(self).name(),
            match r {
                Ok(()) => old(self).state() matches Some(s) ==> !s.live || rc
                    == crate::net::sys::VMNET_SUCCESS,
                Err(e) => old(self).state() matches Some(s) && s.live && rc
                    != crate::net::sys::VMNET_SUCCESS && e == IfaceError::Inner(
                    InnerError::StopFailed { code: crate::net::sys::answer_of(rc) },
                ),
            },
    {
        match self.inner.take() {
            None => Ok(()),
            Some(inner) => {
                let mut inner = inner;
                match inner.stop(rc) {
                    Ok(()) => Ok(()),
                    Err(e) => Err(IfaceError::Inner(e)),
                }
            },
        }
    }
}

} // verus!
