//! The runtime as an embedding program sees it: how it is set up, in which order it is
//! started and ended, and what it answers on hosts that cannot run a guest.

use vstd::prelude::*;
use vstd::string::*;

use crate::net::mode::{NetMode, VmnetMode};

verus! {

/// How many actions may wait for the monitor, unless set otherwise.
pub const DEFAULT_VMM_CHANNEL_CAPACITY: usize = 1024;

/// Most bytes of metadata, unless set otherwise.
pub const DEFAULT_MMDS_SIZE_LIMIT: usize = 8192;

/// Longest time that a guest runs, unless set otherwise, in milliseconds: five minutes.
pub const DEFAULT_RUN_BUDGET_MS: u64 = 300_000;

/// The version that is reported unless set otherwise.
pub fn firecracker_compat_version() -> (s: &'static str)
    ensures
        s@ == "1.16.0"@,
{
    "1.16.0"
}

/// How a runtime is set up. `T` is the table of timeouts.
#[derive(Debug)]
pub struct SquibBuilder<T> {
    pub instance_id: String,
    /// Path of a configuration to replay, as bytes.
    pub config_file: Option<Vec<u8>>,
    /// Whether replaying it starts the guest.
    pub start_microvm: bool,
    /// Path of the socket of the interface, as bytes.
    pub api_socket: Option<Vec<u8>>,
    pub http_api_max_payload_size: usize,
    pub timeouts: T,
    pub channel_capacity: usize,
    pub network_mode: NetMode,
    /// Path of the helper for networking in user space, as bytes.
    pub gvproxy_path: Option<Vec<u8>>,
    pub bridged_iface: Option<String>,
    pub run_budget_ms: u64,
    pub mmds_size_limit: usize,
    pub firecracker_version: String,
}

impl<T> SquibBuilder<T> {
    /// The usual settings, with the given limit of payloads and timeouts.
    pub fn new(http_api_max_payload_size: usize, timeouts: T) -> (b: Self)
        ensures
            b.instance_id@ == "anonymous"@,
            b.config_file is None,
            b.start_microvm,
            b.api_socket is None,
            b.http_api_max_payload_size == http_api_max_payload_size,
            b.timeouts == timeouts,
            b.channel_capacity == DEFAULT_VMM_CHANNEL_CAPACITY,
            b.network_mode == NetMode::Vmnet(VmnetMode::Shared),
            b.gvproxy_path is None,
            b.bridged_iface is None,
            b.run_budget_ms == DEFAULT_RUN_BUDGET_MS,
            b.mmds_size_limit == DEFAULT_MMDS_SIZE_LIMIT,
            b.firecracker_version@ == "1.16.0"@,
            b.channel_capacity == 1024 && b.mmds_size_limit == 8192 && b.run_budget_ms == 300_000,
    {
        SquibBuilder {
            instance_id: String::from_str("anonymous"),
            config_file: None,
            start_microvm: true,
            api_socket: None,
            http_api_max_payload_size,
            timeouts,
            channel_capacity: DEFAULT_VMM_CHANNEL_CAPACITY,
            network_mode: NetMode::Vmnet(VmnetMode::Shared),
            gvproxy_path: None,
            bridged_iface: None,
            run_budget_ms: DEFAULT_RUN_BUDGET_MS,
            mmds_size_limit: DEFAULT_MMDS_SIZE_LIMIT,
            firecracker_version: String::from_str(firecracker_compat_version()),
        }
    }

    /// Sets the name of the guest, which was validated.
    pub fn instance_id(self, instance_id: String) -> (b: Self)
        ensures
            b == (SquibBuilder { instance_id, ..self }),
    {
        let mut b = self;
        b.instance_id = instance_id;
        b
    }

    /// Sets the name of the guest to the outcome of validating it.
    pub fn try_instance_id(self, validated: Result<String, String>) -> (r: Result<Self, SquibError>)
        ensures
            match validated {
                Ok(id) => r == Ok::<Self, SquibError>((SquibBuilder { instance_id: id, ..self })),
                Err(why) => r == Err::<Self, SquibError>(SquibError::InvalidInstanceId(why)),
            },
    {
        match validated {
            Ok(id) => Ok(self.instance_id(id)),
            Err(why) => Err(SquibError::InvalidInstanceId(why)),
        }
    }

    /// Replays the configuration at `path`.
    pub fn config_file(self, path: Vec<u8>) -> (b: Self)
        ensures
            b == (SquibBuilder { config_file: Some(path), ..self }),
    {
        let mut b = self;
        b.config_file = Some(path);
        b
    }

    /// Sets whether replaying a configuration starts the guest.
    pub fn start_microvm(self, start_microvm: bool) -> (b: Self)
        ensures
            b == (SquibBuilder { start_microvm, ..self }),
    {
        let mut b = self;
        b.start_microvm = start_microvm;
        b
    }

    /// Serves the interface at `path`.
    pub fn api_socket(self, path: Vec<u8>) -> (b: Self)
        ensures
            b == (SquibBuilder { api_socket: Some(path), ..self }),
    {
        let mut b = self;
        b.api_socket = Some(path);
        b
    }

    /// Does not serve the interface.
    pub fn without_api_socket(self) -> (b: Self)
        ensures
            b == (SquibBuilder { api_socket: None, ..self }),
    {
        let mut b = self;
        b.api_socket = None;
        b
    }

    /// Sets the limit of payloads.
    pub fn http_api_max_payload_size(self, bytes: usize) -> (b: Self)
        ensures
            b == (SquibBuilder { http_api_max_payload_size: bytes, ..self }),
    {
        let mut b = self;
        b.http_api_max_payload_size = bytes;
        b
    }

    /// Sets the timeouts.
    pub fn timeouts(self, timeouts: T) -> (b: Self)
        ensures
            b == (SquibBuilder { timeouts, ..self }),
    {
        let mut b = self;
        b.timeouts = timeouts;
        b
    }

    /// Sets how many actions may wait for the monitor.
    pub fn channel_capacity(self, capacity: usize) -> (b: Self)
        ensures
            b == (SquibBuilder { channel_capacity: capacity, ..self }),
    {
        let mut b = self;
        b.channel_capacity = capacity;
        b
    }

    /// Sets how the guest is attached to the network.
    pub fn network_mode(self, mode: NetMode) -> (b: Self)
        ensures
            b == (SquibBuilder { network_mode: mode, ..self }),
    {
        let mut b = self;
        b.network_mode = mode;
        b
    }

    /// Sets the path of the helper for networking in user space.
    pub fn gvproxy_path(self, path: Vec<u8>) -> (b: Self)
        ensures
            b == (SquibBuilder { gvproxy_path: Some(path), ..self }),
    {
        let mut b = self;
        b.gvproxy_path = Some(path);
        b
    }

    /// Sets the interface of the host to bridge to.
    pub fn bridged_iface(self, iface: String) -> (b: Self)
        ensures
            b == (SquibBuilder { bridged_iface: Some(iface), ..self }),
    {
        let mut b = self;
        b.bridged_iface = Some(iface);
        b
    }

    /// Sets the longest time that the guest runs.
    pub fn run_budget(self, budget_ms: u64) -> (b: Self)
        ensures
            b == (SquibBuilder { run_budget_ms: budget_ms, ..self }),
    {
        let mut b = self;
        b.run_budget_ms = budget_ms;
        b
    }

    /// Sets the limit of metadata.
    pub fn mmds_size_limit(self, bytes: usize) -> (b: Self)
        ensures
            b == (SquibBuilder { mmds_size_limit: bytes, ..self }),
    {
        let mut b = self;
        b.mmds_size_limit = bytes;
        b
    }

    /// Sets the version that is reported.
    pub fn firecracker_version(self, version: String) -> (b: Self)
        ensures
            b == (SquibBuilder { firecracker_version: version, ..self }),
    {
        let mut b = self;
        b.firecracker_version = version;
        b
    }

    /// The line that names the version of the build.
    pub fn build_line(&self, crate_version: &str) -> (s: String)
        ensures
            s@ == self.firecracker_version@ + " (squib "@ + crate_version@ + ")"@,
    {
        let mut s = String::new();
        s.append(self.firecracker_version.as_str());
        s.append(" (squib ");
        s.append(crate_version);
        s.append(")");
        assert(s@ =~= self.firecracker_version@ + " (squib "@ + crate_version@ + ")"@);
        s
    }

    /// What starting the runtime does, in order. The first step that fails ends it.
    pub fn startup_steps(&self) -> (v: Vec<StartupStep>)
        ensures
            v@ == startup_of(
                self.config_file is Some,
                self.start_microvm,
                self.api_socket is Some,
                self.http_api_max_payload_size,
            ),
    {
        let mut v: Vec<StartupStep> = Vec::new();
        v.push(StartupStep::StartMonitor);
        if self.config_file.is_some() {
            v.push(StartupStep::ReplayConfig { start_microvm: self.start_microvm });
        }
        if self.api_socket.is_some() {
            v.push(StartupStep::ServeApi { max_payload_size: self.http_api_max_payload_size });
        }
        assert(v@ =~= startup_of(
            self.config_file is Some,
            self.start_microvm,
            self.api_socket is Some,
            self.http_api_max_payload_size,
        ));
        v
    }
}

/// A step of starting the runtime.
#[derive(Clone, Copy, Debug, PartialEq, Eq, Structural)]
pub enum StartupStep {
    StartMonitor,
    ReplayConfig { start_microvm: bool },
    ServeApi { max_payload_size: usize },
}

/// What starting the runtime does, in order: the monitor comes first, and the interface is
/// served only after a configuration was replayed.
pub open spec fn startup_of(
    has_config: bool,
    start_microvm: bool,
    has_socket: bool,
    max_payload_size: usize,
) -> Seq<StartupStep> {
    seq![StartupStep::StartMonitor] + (if has_config {
        seq![StartupStep::ReplayConfig { start_microvm }]
    } else {
        Seq::empty()
    }) + (if has_socket {
        seq![StartupStep::ServeApi { max_payload_size }]
    } else {
        Seq::empty()
    })
}

/// What can go wrong with a runtime. Errors of other parts are held as text.
#[derive(Clone, Debug, PartialEq, Eq)]
pub enum SquibError {
    InvalidInstanceId(String),
    Config(String),
    Api(String),
    Io(String),
    Join(String),
}

/// The message of an error.
pub open spec fn squib_message(e: SquibError) -> Seq<char> {
    match e {
        SquibError::InvalidInstanceId(why) => "invalid instance id: "@ + why@,
        SquibError::Config(why) => "config file: "@ + why@,
        SquibError::Api(why) => "api action: "@ + why@,
        SquibError::Io(why) => "api server io: "@ + why@,
        SquibError::Join(why) => "runtime task join: "@ + why@,
    }
}

impl SquibError {
    /// The message of the error.
    pub fn message(&self) -> (s: String)
        ensures
            s@ == squib_message(*self),
    {
        let mut s = String::new();
        match self {
            SquibError::InvalidInstanceId(why) => {
                s.append("invalid instance id: ");
                s.append(why.as_str());
            },
            SquibError::Config(why) => {
                s.append("config file: ");
                s.append(why.as_str());
            },
            SquibError::Api(why) => {
                s.append("api action: ");
                s.append(why.as_str());
            },
            SquibError::Io(why) => {
                s.append("api server io: ");
                s.append(why.as_str());
            },
            SquibError::Join(why) => {
                s.append("runtime task join: ");
                s.append(why.as_str());
            },
        }
        assert(s@ =~= squib_message(*self));
        s
    }
}

/// A step of ending the runtime.
#[derive(Clone, Copy, Debug, PartialEq, Eq, Structural)]
pub enum ShutdownStep {
    /// Tell the monitor to end.
    SendShutdown,
    /// Stop serving the interface.
    StopApi,
    /// Wait for the monitor.
    JoinMonitor,
    /// Nothing is left to do.
    Done,
}

/// How far a runtime is from its end.
#[derive(Clone, Copy, Debug, PartialEq, Eq, Structural)]
pub struct Squib {
    /// Whether the monitor was told to end.
    pub shutdown_sent: bool,
    /// Whether the interface is served.
    pub api_running: bool,
    /// Whether the monitor was not yet waited for.
    pub monitor_running: bool,
}

/// The next step of ending a runtime.
pub open spec fn next_step(s: Squib) -> ShutdownStep {
    if !s.shutdown_sent {
        ShutdownStep::SendShutdown
    } else if s.api_running {
        ShutdownStep::StopApi
    } else if s.monitor_running {
        ShutdownStep::JoinMonitor
    } else {
        ShutdownStep::Done
    }
}

/// A runtime once its next step was taken up.
pub open spec fn after_step(s: Squib) -> Squib {
    match next_step(s) {
        ShutdownStep::SendShutdown => Squib { shutdown_sent: true, ..s },
        ShutdownStep::StopApi => Squib { api_running: false, ..s },
        ShutdownStep::JoinMonitor => Squib { monitor_running: false, ..s },
        ShutdownStep::Done => s,
    }
}

/// What came of telling the monitor to end.
#[derive(Debug)]
pub enum DispatchOutcome {
    Accepted,
    /// An internal fault of the controller.
    Internal(String),
    /// Another error, as text.
    Failed(String),
}

/// What came of stopping the interface.
#[derive(Debug)]
pub enum ApiEnd {
    Finished,
    Interrupted,
    Cancelled,
    Failed(String),
    /// Its task could not be waited for.
    Lost(String),
}

impl Squib {
    /// A runtime that was started.
    pub fn started(serves_api: bool) -> (s: Self)
        ensures
            s == (Squib { shutdown_sent: false, api_running: serves_api, monitor_running: true }),
    {
        Squib { shutdown_sent: false, api_running: serves_api, monitor_running: true }
    }

    /// Takes up the next step of ending. Each is taken up once, whatever comes of it.
    pub fn shutdown(&mut self) -> (step: ShutdownStep)
        ensures
            step == next_step(*old(self)),
            *final(self) == after_step(*old(self)),
    {
        if !self.shutdown_sent {
            self.shutdown_sent = true;
            ShutdownStep::SendShutdown
        } else if self.api_running {
            self.api_running = false;
            ShutdownStep::StopApi
        } else if self.monitor_running {
            self.monitor_running = false;
            ShutdownStep::JoinMonitor
        } else {
            ShutdownStep::Done
        }
    }

    /// Whether ending goes on after the monitor was told to end: a monitor that is gone
    /// already has ended.
    pub fn after_dispatch(outcome: DispatchOutcome) -> (r: Result<(), SquibError>)
        ensures
            r == match outcome {
                DispatchOutcome::Accepted => Ok::<(), SquibError>(()),
                DispatchOutcome::Internal(m) => if m@ == "VMM event loop is gone"@ {
                    Ok::<(), SquibError>(())
                } else {
                    Err::<(), SquibError>(SquibError::Api(m))
                },
                DispatchOutcome::Failed(m) => Err::<(), SquibError>(SquibError::Api(m)),
            },
    {
        match outcome {
            DispatchOutcome::Accepted => Ok(()),
            DispatchOutcome::Internal(m) => if m == String::from_str(
                "VMM event loop is gone",
            ) {
                Ok(())
            } else {
                Err(SquibError::Api(m))
            },
            DispatchOutcome::Failed(m) => Err(SquibError::Api(m)),
        }
    }

    /// Whether ending goes on after the interface was stopped: being cut off is no fault.
    pub fn after_api_end(end: ApiEnd) -> (r: Result<(), SquibError>)
        ensures
            r == match end {
                ApiEnd::Failed(m) => Err::<(), SquibError>(SquibError::Io(m)),
                ApiEnd::Lost(m) => Err::<(), SquibError>(SquibError::Join(m)),
                _ => Ok::<(), SquibError>(()),
            },
    {
        match end {
            ApiEnd::Failed(m) => Err(SquibError::Io(m)),
            ApiEnd::Lost(m) => Err(SquibError::Join(m)),
            _ => Ok(()),
        }
    }

    /// What is left to do when the runtime is dropped: whether the monitor is to be told
    /// to end, and whether the interface is to be stopped.
    pub fn abandon(&mut self) -> (r: (bool, bool))
        ensures
            r == (!old(self).shutdown_sent, old(self).api_running),
            *final(self) == (Squib {
                shutdown_sent: true,
                api_running: false,
                monitor_running: old(self).monitor_running,
            }),
    {
        let send: bool = !self.shutdown_sent;
        let stop: bool = self.api_running;
        self.shutdown_sent = true;
        self.api_running = false;
        (send, stop)
    }
}

/// A runtime after `n` steps of ending.
pub open spec fn after_steps(s: Squib, n: nat) -> Squib
    decreases n,
{
    if n == 0 {
        s
    } else {
        after_step(after_steps(s, (n - 1) as nat))
    }
}

/// Ending a runtime takes three steps at most, and ending it again does nothing.
pub proof fn shutdown_is_idempotent(s: Squib, n: nat)
    requires
        n >= 3,
    ensures
        next_step(after_steps(s, n)) == ShutdownStep::Done,
        after_step(after_steps(s, n)) == after_steps(s, n),
    decreases n,
{
    if n == 3 {
        reveal_with_fuel(after_steps, 4);
    } else {
        shutdown_is_idempotent(s, (n - 1) as nat);
    }
}

/// An action as a host without a hypervisor sees it.
#[derive(Clone, Copy, Debug, PartialEq, Eq, Structural)]
pub enum StubAction {
    InstanceStart,
    PatchVm,
    SnapshotCreate,
    SnapshotLoad,
    Shutdown,
    /// Anything else.
    Other,
}

/// An answer to an action.
#[derive(Debug)]
pub enum StubResponse {
    NoContent,
    Fault { status: u16, fault_message: &'static str },
}

/// Answers an action on a host without a hypervisor: what needs a running guest is
/// refused, everything else is accepted. Gives whether to go on.
pub fn stub_response(action: StubAction) -> (r: (StubResponse, bool))
    ensures
        r.1 == (action != StubAction::Shutdown),
        match action {
            StubAction::InstanceStart => r.0 matches StubResponse::Fault { status, fault_message }
                && status == 400 && fault_message@
                == "InstanceStart failed: VMM backend is only available on macOS"@,
            StubAction::PatchVm => r.0 matches StubResponse::Fault { status, fault_message }
                && status == 400 && fault_message@
                == "VM state changes require a running macOS HVF backend"@,
            StubAction::SnapshotCreate | StubAction::SnapshotLoad => r.0
                matches StubResponse::Fault { status, fault_message } && status == 400
                && fault_message@ == "Snapshot actions require a running macOS HVF backend"@,
            _ => r.0 is NoContent,
        },
{
    match action {
        StubAction::InstanceStart => (
            StubResponse::Fault {
                status: 400,
                fault_message: "InstanceStart failed: VMM backend is only available on macOS",
            },
            true,
        ),
        StubAction::PatchVm => (
            StubResponse::Fault {
                status: 400,
                fault_message: "VM state changes require a running macOS HVF backend",
            },
            true,
        ),
        StubAction::SnapshotCreate | StubAction::SnapshotLoad => (
            StubResponse::Fault {
                status: 400,
                fault_message: "Snapshot actions require a running macOS HVF backend",
            },
            true,
        ),
        StubAction::Shutdown => (StubResponse::NoContent, false),
        StubAction::Other => (StubResponse::NoContent, true),
    }
}

/// A runtime starts its monitor first, replays the configuration before it serves the
/// interface, and does only what it was set up for.
pub proof fn startup_is_in_order(has_config: bool, start: bool, has_socket: bool, max: usize)
    ensures
        ({
            let steps = startup_of(has_config, start, has_socket, max);
            let replay = StartupStep::ReplayConfig { start_microvm: start };
            let serve = StartupStep::ServeApi { max_payload_size: max };
            &&& steps[0] == StartupStep::StartMonitor
            &&& !has_config && !has_socket ==> steps.len() == 1
            &&& has_config && !has_socket ==> steps.len() == 2 && steps[1] == replay
            &&& !has_config && has_socket ==> steps.len() == 2 && steps[1] == serve
            &&& has_config && has_socket ==> steps.len() == 3 && steps[1] == replay && steps[2]
                == serve
        }),
{
}

/// A runtime is ended in this order: the monitor is told, the interface is stopped, the
/// monitor is waited for. What is done already is left out, and each step is taken once.
pub proof fn shutdown_is_in_order(s: Squib)
    ensures
        !s.shutdown_sent <==> next_step(s) == ShutdownStep::SendShutdown,
        s.shutdown_sent && s.api_running <==> next_step(s) == ShutdownStep::StopApi,
        s.shutdown_sent && !s.api_running && s.monitor_running <==> next_step(s)
            == ShutdownStep::JoinMonitor,
        s.shutdown_sent && !s.api_running && !s.monitor_running <==> next_step(s)
            == ShutdownStep::Done,
        next_step(s) == ShutdownStep::SendShutdown ==> after_step(s) == (Squib {
            shutdown_sent: true,
            api_running: s.api_running,
            monitor_running: s.monitor_running,
        }),
        next_step(s) == ShutdownStep::StopApi ==> after_step(s) == (Squib {
            shutdown_sent: s.shutdown_sent,
            api_running: false,
            monitor_running: s.monitor_running,
        }),
        next_step(s) == ShutdownStep::JoinMonitor ==> after_step(s) == (Squib {
            shutdown_sent: s.shutdown_sent,
            api_running: s.api_running,
            monitor_running: false,
        }),
        next_step(s) == ShutdownStep::Done ==> after_step(s) == s,
{
}

} // verus!
