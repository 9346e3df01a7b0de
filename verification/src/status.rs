use vstd::prelude::*;

verus! {

/// The lifecycle phase of a scan.
#[derive(Clone, Copy, Debug, PartialEq, Eq, Structural)]
pub enum Phase {
    /// The scan has been stored but not started yet.
    Stored,
    /// The scan has been requested, but has not started yet.
    Requested,
    /// The scan is currently running.
    Running,
    /// The scan has been stopped by a client.
    Stopped,
    /// The scan could not finish due to an error while scanning.
    Failed,
    /// The scan has finished successfully.
    Succeeded,
}

impl Phase {
    /// Rank of the phase in the lifecycle order; the three terminal phases
    /// share the top rank.
    pub open spec fn rank(self) -> int {
        match self {
            Phase::Stored => 0,
            Phase::Requested => 1,
            Phase::Running => 2,
            Phase::Stopped => 3,
            Phase::Failed => 3,
            Phase::Succeeded => 3,
        }
    }

    /// The partial order of the lifecycle: Stored < Requested < Running < each
    /// terminal phase; distinct terminal phases are incomparable.
    pub open spec fn le(self, other: Phase) -> bool {
        self == other || self.rank() < other.rank()
    }

    /// A phase is terminal when no transition may ever leave it again.
    pub open spec fn is_terminal(self) -> bool {
        self.rank() == 3
    }

    /// The live phases are the two in which the scanner is still owed work.
    pub fn is_running(&self) -> (r: bool)
        ensures
            r == (*self == Phase::Requested || *self == Phase::Running),
    {
        matches!(self, Phase::Running | Phase::Requested)
    }

    /// The lifecycle order, decided executably.
    pub fn le_exec(&self, other: Phase) -> (r: bool)
        ensures
            r == self.le(other),
    {
        let a: u8 = match self {
            Phase::Stored => 0,
            Phase::Requested => 1,
            Phase::Running => 2,
            Phase::Stopped => 3,
            Phase::Failed => 3,
            Phase::Succeeded => 3,
        };
        let b: u8 = match other {
            Phase::Stored => 0,
            Phase::Requested => 1,
            Phase::Running => 2,
            Phase::Stopped => 3,
            Phase::Failed => 3,
            Phase::Succeeded => 3,
        };
        *self == other || a < b
    }

    /// Whether the phase is terminal, decided executably.
    pub fn is_terminal_exec(&self) -> (r: bool)
        ensures
            r == self.is_terminal(),
    {
        matches!(self, Phase::Stopped | Phase::Failed | Phase::Succeeded)
    }

    /// The lower-case name of the phase, as it appears on the wire.
    pub fn as_str(&self) -> (r: &'static str)
        ensures
            *self == Phase::Stored ==> r@ == "stored"@,
            *self == Phase::Requested ==> r@ == "requested"@,
            *self == Phase::Running ==> r@ == "running"@,
            *self == Phase::Stopped ==> r@ == "stopped"@,
            *self == Phase::Failed ==> r@ == "failed"@,
            *self == Phase::Succeeded ==> r@ == "succeeded"@,
    {
        match self {
            Phase::Stored => "stored",
            Phase::Requested => "requested",
            Phase::Running => "running",
            Phase::Stopped => "stopped",
            Phase::Failed => "failed",
            Phase::Succeeded => "succeeded",
        }
    }
}

impl Default for Phase {
    fn default() -> (r: Self)
        ensures
            r == Phase::Stored,
    {
        Phase::Stored
    }
}

/// Host counts reported by the scanner for a running scan.
#[derive(Clone, Copy, Debug, PartialEq, Eq, Structural)]
pub struct HostInfo {
    pub all: u32,
    pub excluded: u32,
    pub dead: u32,
    pub alive: u32,
    pub queued: u32,
    pub finished: u32,
}

/// Status information about a scan.
#[derive(Clone, Copy, Debug)]
pub struct Status {
    /// Timestamp (seconds since the epoch) for the start of the scan.
    pub start_time: Option<u32>,
    /// Timestamp (seconds since the epoch) for the end of the scan.
    pub end_time: Option<u32>,
    /// The phase the scan is currently in.
    pub status: Phase,
    /// Information about the hosts of a running scan.
    pub host_info: Option<HostInfo>,
}

impl Status {
    pub fn is_running(&self) -> (r: bool)
        ensures
            r == (self.status == Phase::Requested || self.status == Phase::Running),
    {
        self.status.is_running()
    }

    pub fn is_done(&self) -> (r: bool)
        ensures
            r == !(self.status == Phase::Requested || self.status == Phase::Running),
    {
        !self.is_running()
    }
}

impl Default for Status {
    fn default() -> (r: Self)
        ensures
            r == (Status {
                start_time: None,
                end_time: None,
                status: Phase::Stored,
                host_info: None,
            }),
    {
        Status { start_time: None, end_time: None, status: Phase::Stored, host_info: None }
    }
}

} // verus!
