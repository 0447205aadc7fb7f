//! What the managers ask of the platform, and what the platform answers.
//!
//! The managers never touch the system.  An operation hands out one call at
//! a time; whoever drives it performs the call and resumes the operation
//! with the reply, until the operation is done.
use vstd::prelude::*;
use crate::error::Error;
use crate::policy::SchedPolicy;

verus! {

/// One process as a scan of the process table shows it.
#[derive(Clone, Copy, Debug, PartialEq, Eq, Structural)]
pub struct ProcessRecord {
    pub pid: u32,
    pub uid: u32,
    pub gid: u32,
    /// Start of the process, in seconds since the epoch.
    pub start_time: u64,
    /// Whether the process was still there when the scan ended.
    pub alive: bool,
}

/// A call to the platform.
#[derive(Debug, PartialEq, Eq)]
pub enum Call {
    CgroupExists { name: Vec<u8> },
    CreateCgroup { name: Vec<u8> },
    DeleteCgroup { name: Vec<u8> },
    GetRuntime { name: Vec<u8> },
    GetPeriod { name: Vec<u8> },
    SetRuntime { name: Vec<u8>, runtime_us: u64 },
    SetPeriod { name: Vec<u8>, period_us: u64 },
    CgroupPids { name: Vec<u8> },
    AssignPid { name: Vec<u8>, pid: u32 },
    GetPidCgroup { pid: u32 },
    GetPolicy { pid: u32 },
    SetPolicy { pid: u32, policy: SchedPolicy },
    KillPid { pid: u32 },
    Sleep { millis: u64 },
    Clock,
    ScanProcesses,
}

/// The view of `Call`: sequences in the place of vectors.
pub enum CallView {
    CgroupExists { name: Seq<u8> },
    CreateCgroup { name: Seq<u8> },
    DeleteCgroup { name: Seq<u8> },
    GetRuntime { name: Seq<u8> },
    GetPeriod { name: Seq<u8> },
    SetRuntime { name: Seq<u8>, runtime_us: u64 },
    SetPeriod { name: Seq<u8>, period_us: u64 },
    CgroupPids { name: Seq<u8> },
    AssignPid { name: Seq<u8>, pid: u32 },
    GetPidCgroup { pid: u32 },
    GetPolicy { pid: u32 },
    SetPolicy { pid: u32, policy: SchedPolicy },
    KillPid { pid: u32 },
    Sleep { millis: u64 },
    Clock,
    ScanProcesses,
}

impl View for Call {
    type V = CallView;

    open spec fn view(&self) -> CallView {
        match self {
            Call::CgroupExists { name } => CallView::CgroupExists { name: name@ },
            Call::CreateCgroup { name } => CallView::CreateCgroup { name: name@ },
            Call::DeleteCgroup { name } => CallView::DeleteCgroup { name: name@ },
            Call::GetRuntime { name } => CallView::GetRuntime { name: name@ },
            Call::GetPeriod { name } => CallView::GetPeriod { name: name@ },
            Call::SetRuntime { name, runtime_us } => CallView::SetRuntime {
                name: name@,
                runtime_us: *runtime_us,
            },
            Call::SetPeriod { name, period_us } => CallView::SetPeriod {
                name: name@,
                period_us: *period_us,
            },
            Call::CgroupPids { name } => CallView::CgroupPids { name: name@ },
            Call::AssignPid { name, pid } => CallView::AssignPid { name: name@, pid: *pid },
            Call::GetPidCgroup { pid } => CallView::GetPidCgroup { pid: *pid },
            Call::GetPolicy { pid } => CallView::GetPolicy { pid: *pid },
            Call::SetPolicy { pid, policy } => CallView::SetPolicy { pid: *pid, policy: *policy },
            Call::KillPid { pid } => CallView::KillPid { pid: *pid },
            Call::Sleep { millis } => CallView::Sleep { millis: *millis },
            Call::Clock => CallView::Clock,
            Call::ScanProcesses => CallView::ScanProcesses,
        }
    }
}

impl CallView {
    /// The call changes the scheduling policy of `pid` or the cgroup it is in.
    pub open spec fn moves(self, pid: u32) -> bool {
        match self {
            CallView::AssignPid { name, pid: p } => p == pid,
            CallView::SetPolicy { pid: p, policy } => p == pid,
            _ => false,
        }
    }

    /// The call changes nothing on the platform: it reads, or it waits.
    pub open spec fn reads_only(self) -> bool {
        match self {
            CallView::CgroupExists { .. } => true,
            CallView::GetRuntime { .. } => true,
            CallView::GetPeriod { .. } => true,
            CallView::CgroupPids { .. } => true,
            CallView::GetPidCgroup { .. } => true,
            CallView::GetPolicy { .. } => true,
            CallView::Sleep { .. } => true,
            CallView::Clock => true,
            CallView::ScanProcesses => true,
            _ => false,
        }
    }
}

/// The answer of the platform to a call.
#[derive(Debug, PartialEq, Eq)]
pub enum Reply {
    /// The call was carried out and has nothing to tell.
    Done,
    /// The platform reported an error.
    Failed,
    /// Whether the cgroup exists.
    Flag(bool),
    /// A runtime or a period in microseconds, or the clock in milliseconds.
    Number(u64),
    /// The processes in a cgroup.
    Pids(Vec<u32>),
    /// The cgroup that a process is in.
    Cgroup(Vec<u8>),
    /// The scheduling policy of a process.
    Policy(SchedPolicy),
    /// The process table.
    Processes(Vec<ProcessRecord>),
}

/// The view of `Reply`: sequences in the place of vectors.
pub enum ReplyView {
    Done,
    Failed,
    Flag(bool),
    Number(u64),
    Pids(Seq<u32>),
    Cgroup(Seq<u8>),
    Policy(SchedPolicy),
    Processes(Seq<ProcessRecord>),
}

impl View for Reply {
    type V = ReplyView;

    open spec fn view(&self) -> ReplyView {
        match self {
            Reply::Done => ReplyView::Done,
            Reply::Failed => ReplyView::Failed,
            Reply::Flag(b) => ReplyView::Flag(*b),
            Reply::Number(n) => ReplyView::Number(*n),
            Reply::Pids(pids) => ReplyView::Pids(pids@),
            Reply::Cgroup(name) => ReplyView::Cgroup(name@),
            Reply::Policy(policy) => ReplyView::Policy(*policy),
            Reply::Processes(records) => ReplyView::Processes(records@),
        }
    }
}

/// What an operation says when it is begun or resumed: the next call to
/// perform, or how it ended.
#[derive(Debug, PartialEq, Eq)]
pub enum Step {
    Call(Call),
    Done(Result<(), Error>),
}

/// The view of `Step`.
pub enum StepView {
    Call(CallView),
    Done(Result<(), Error>),
}

impl View for Step {
    type V = StepView;

    open spec fn view(&self) -> StepView {
        match self {
            Step::Call(call) => StepView::Call(call@),
            Step::Done(result) => StepView::Done(*result),
        }
    }
}

} // verus!
