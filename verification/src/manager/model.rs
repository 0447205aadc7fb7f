//! The reservation manager as a state machine over views.
//!
//! An operation is a small machine.  Beginning it, or resuming it with the
//! reply to its last call, yields the next call to the platform or the end
//! of the operation.  `CgroupsView::next` is the transition table; the
//! executable manager follows it step by step.
use vstd::prelude::*;
use crate::error::Error;
use crate::parser::is_cgroup_name;
use crate::platform::{CallView, ReplyView, StepView};
use crate::reservation::{admissible, admissible_in_place, within_budget, Reservation};

verus! {

/// How long the processes of a cgroup are given to die before the cgroup
/// is deleted, in milliseconds.
pub const KILL_GRACE_MILLIS: u64 = 100;

#[derive(Clone, Copy, Debug, PartialEq, Eq, Structural)]
pub enum CreateStage {
    /// Reading what the managed cgroups hold.
    Reading,
    /// Creating the cgroup.
    Creating,
    SettingPeriod,
    SettingRuntime,
    /// Deleting what was created, after a failure.
    Aborting,
}

#[derive(Clone, Copy, Debug, PartialEq, Eq, Structural)]
pub enum UpdateStage {
    Reading,
    /// Setting the runtime to zero, so that any period can be set.
    Zeroing,
    SettingPeriod,
    SettingRuntime,
    /// Putting the old period back, after a failure.
    RestoringPeriod,
    /// Putting the old runtime back, after a failure.
    RestoringRuntime,
}

#[derive(Clone, Copy, Debug, PartialEq, Eq, Structural)]
pub enum DestroyStage {
    Zeroing,
    Deleting,
}

#[derive(Clone, Copy, Debug, PartialEq, Eq, Structural)]
pub enum TeardownStage {
    /// Asking for the processes of the last cgroup.
    Listing,
    Killing,
    Sleeping,
    Zeroing,
    Deleting,
}

/// The view of a managed cgroup.
pub struct CgroupEntry {
    pub name: Seq<u8>,
    pub reservation: Reservation,
}

/// The view of the operation in progress.
#[allow(inconsistent_fields)]
pub enum CgroupOpView {
    Idle,
    Create {
        stage: CreateStage,
        name: Seq<u8>,
        request: Reservation,
        /// What the cgroups read so far hold, in the order of the registry.
        readings: Seq<Reservation>,
        /// The runtime of the cgroup whose period is being read.
        runtime: Option<u64>,
    },
    Update {
        stage: UpdateStage,
        name: Seq<u8>,
        request: Reservation,
        readings: Seq<Reservation>,
        runtime: Option<u64>,
    },
    Destroy { stage: DestroyStage, name: Seq<u8> },
    Teardown {
        stage: TeardownStage,
        /// The processes of the cgroup being destroyed.
        pids: Seq<u32>,
        /// How many of them were sent a signal.
        next: int,
    },
}

/// The view of the manager: the registry, in the order in
/// which the cgroups were created, and the operation in progress.
pub struct CgroupsView {
    pub cgroups: Seq<CgroupEntry>,
    pub op: CgroupOpView,
}

/// A path without the slashes in front.  The platform reports the cgroup of
/// a process as a path from the root of the hierarchy; the registry holds
/// names, which never start with a slash.
pub open spec fn relative_name(path: Seq<u8>) -> Seq<u8>
    decreases path.len(),
{
    if path.len() > 0 && path[0] == 0x2F {
        relative_name(path.drop_first())
    } else {
        path
    }
}

impl CgroupsView {
    /// A cgroup of that name is in the registry.
    pub open spec fn manages(self, name: Seq<u8>) -> bool {
        exists|i: int| 0 <= i < self.cgroups.len() && (#[trigger] self.cgroups[i]).name == name
    }

    /// The cgroup at that path is in the registry.
    pub open spec fn manages_path(self, path: Seq<u8>) -> bool {
        self.manages(relative_name(path))
    }

    /// The place of the cgroup of that name in the registry.
    pub open spec fn index_of(self, name: Seq<u8>) -> int {
        choose|i: int| 0 <= i < self.cgroups.len() && (#[trigger] self.cgroups[i]).name == name
    }

    /// The reservations of the managed cgroups, in the order of the registry.
    pub open spec fn reservations(self) -> Seq<Reservation> {
        Seq::new(self.cgroups.len(), |i: int| self.cgroups[i].reservation)
    }

    /// No name stands twice in the registry, every name is a cgroup name
    /// and every reservation is one.
    pub open spec fn registry_wf(self) -> bool {
        &&& forall|i: int, j: int|
            0 <= i < j < self.cgroups.len() ==> (#[trigger] self.cgroups[i]).name != (
            #[trigger] self.cgroups[j]).name
        &&& forall|i: int|
            0 <= i < self.cgroups.len() ==> is_cgroup_name((#[trigger] self.cgroups[i]).name)
                && self.cgroups[i].reservation.valid()
    }

    /// What holds of the operation in progress at each of its stages.
    pub open spec fn op_wf(self) -> bool {
        match self.op {
            CgroupOpView::Idle => true,
            CgroupOpView::Create { stage, name, request, readings, runtime } => {
                &&& is_cgroup_name(name)
                &&& !self.manages(name)
                &&& match stage {
                    CreateStage::Reading => readings.len() < self.cgroups.len(),
                    CreateStage::Aborting => true,
                    _ => readings.len() == self.cgroups.len() && admissible(readings, request),
                }
            },
            CgroupOpView::Update { stage, name, request, readings, runtime } => {
                &&& self.manages(name)
                &&& match stage {
                    UpdateStage::Reading => readings.len() < self.cgroups.len(),
                    UpdateStage::RestoringPeriod => readings.len() == self.cgroups.len(),
                    UpdateStage::RestoringRuntime => readings.len() == self.cgroups.len(),
                    _ => readings.len() == self.cgroups.len() && admissible_in_place(
                        readings,
                        self.index_of(name),
                        request,
                    ),
                }
            },
            CgroupOpView::Destroy { stage, name } => self.manages(name),
            CgroupOpView::Teardown { stage, pids, next } => {
                &&& self.cgroups.len() > 0
                &&& stage == TeardownStage::Killing ==> 0 <= next < pids.len()
            },
        }
    }

    pub open spec fn wf(self) -> bool {
        self.registry_wf() && self.op_wf()
    }

    /// The reservations in the registry add up to at most 0.95.
    pub open spec fn in_budget(self) -> bool {
        within_budget(self.reservations())
    }

    /// What was read of the managed cgroups so far is what the registry
    /// holds of them.
    pub open spec fn readings_true(self) -> bool {
        match self.op {
            CgroupOpView::Create { readings, .. } => readings.len() <= self.cgroups.len()
                && readings == self.reservations().take(readings.len() as int),
            CgroupOpView::Update { readings, .. } => readings.len() <= self.cgroups.len()
                && readings == self.reservations().take(readings.len() as int),
            _ => true,
        }
    }

    /// Where `reply` completes the reading of a managed cgroup, it shows
    /// what the registry holds of that cgroup.
    pub open spec fn reply_true(self, reply: ReplyView) -> bool {
        match (self.op, reply) {
            (
                CgroupOpView::Create {
                    stage: CreateStage::Reading,
                    readings,
                    runtime: Some(runtime_us),
                    ..
                },
                ReplyView::Number(period_us),
            ) => self.cgroups[readings.len() as int].reservation == (Reservation {
                runtime_us,
                period_us,
            }),
            (
                CgroupOpView::Update {
                    stage: UpdateStage::Reading,
                    readings,
                    runtime: Some(runtime_us),
                    ..
                },
                ReplyView::Number(period_us),
            ) => self.cgroups[readings.len() as int].reservation == (Reservation {
                runtime_us,
                period_us,
            }),
            _ => true,
        }
    }

    /// The operation ends with `result`.
    pub open spec fn done(self, result: Result<(), Error>) -> (CgroupsView, StepView) {
        (CgroupsView { op: CgroupOpView::Idle, ..self }, StepView::Done(result))
    }

    /// The operation goes on as `op` and asks for `call`.
    pub open spec fn call(self, op: CgroupOpView, call: CallView) -> (CgroupsView, StepView) {
        (CgroupsView { op, ..self }, StepView::Call(call))
    }

    /// `create`, once `readings` are in: the next cgroup is read, or, when
    /// all are read, the admission test decides.
    pub open spec fn create_read_next(
        self,
        name: Seq<u8>,
        request: Reservation,
        readings: Seq<Reservation>,
    ) -> (CgroupsView, StepView) {
        if readings.len() < self.cgroups.len() {
            self.call(
                CgroupOpView::Create {
                    stage: CreateStage::Reading,
                    name,
                    request,
                    readings,
                    runtime: None,
                },
                CallView::GetRuntime { name: self.cgroups[readings.len() as int].name },
            )
        } else if admissible(readings, request) {
            self.call(
                CgroupOpView::Create {
                    stage: CreateStage::Creating,
                    name,
                    request,
                    readings,
                    runtime: None,
                },
                CallView::CreateCgroup { name },
            )
        } else {
            self.done(Err(Error::InsufficientBudget))
        }
    }

    /// `create` begins: the name must be a cgroup name that is not managed.
    pub open spec fn begin_create(self, name: Seq<u8>, request: Reservation) -> (
        CgroupsView,
        StepView,
    ) {
        if !is_cgroup_name(name) {
            self.done(Err(Error::ParseError))
        } else if self.manages(name) {
            self.done(Err(Error::AlreadyExists))
        } else {
            self.create_read_next(name, request, Seq::empty())
        }
    }

    /// `update`, once `readings` are in.  The admission test takes the
    /// request in the place of what the cgroup holds.
    pub open spec fn update_read_next(
        self,
        name: Seq<u8>,
        request: Reservation,
        readings: Seq<Reservation>,
    ) -> (CgroupsView, StepView) {
        if readings.len() < self.cgroups.len() {
            self.call(
                CgroupOpView::Update {
                    stage: UpdateStage::Reading,
                    name,
                    request,
                    readings,
                    runtime: None,
                },
                CallView::GetRuntime { name: self.cgroups[readings.len() as int].name },
            )
        } else if admissible_in_place(readings, self.index_of(name), request) {
            self.call(
                CgroupOpView::Update {
                    stage: UpdateStage::Zeroing,
                    name,
                    request,
                    readings,
                    runtime: None,
                },
                CallView::SetRuntime { name, runtime_us: 0 },
            )
        } else {
            self.done(Err(Error::InsufficientBudget))
        }
    }

    pub open spec fn begin_update(self, name: Seq<u8>, request: Reservation) -> (
        CgroupsView,
        StepView,
    ) {
        if !self.manages(name) {
            self.done(Err(Error::NotFound))
        } else {
            self.update_read_next(name, request, Seq::empty())
        }
    }

    pub open spec fn begin_destroy(self, name: Seq<u8>) -> (CgroupsView, StepView) {
        if !self.manages(name) {
            self.done(Err(Error::NotFound))
        } else {
            self.call(
                CgroupOpView::Destroy { stage: DestroyStage::Zeroing, name },
                CallView::SetRuntime { name, runtime_us: 0 },
            )
        }
    }

    /// The teardown turns to the last cgroup of the registry, or ends.
    pub open spec fn teardown_next(self) -> (CgroupsView, StepView) {
        if self.cgroups.len() > 0 {
            self.call(
                CgroupOpView::Teardown {
                    stage: TeardownStage::Listing,
                    pids: Seq::empty(),
                    next: 0,
                },
                CallView::CgroupPids { name: self.cgroups.last().name },
            )
        } else {
            self.done(Ok(()))
        }
    }

    /// The teardown is done with the last cgroup, whatever came of it.
    pub open spec fn teardown_drop(self) -> (CgroupsView, StepView) {
        (CgroupsView { cgroups: self.cgroups.drop_last(), ..self }).teardown_next()
    }

    /// The teardown kills the next process of the cgroup, or waits when
    /// there is none left.
    pub open spec fn kill_next(self, pids: Seq<u32>, next: int) -> (CgroupsView, StepView) {
        if 0 <= next < pids.len() {
            self.call(
                CgroupOpView::Teardown { stage: TeardownStage::Killing, pids, next },
                CallView::KillPid { pid: pids[next] },
            )
        } else {
            self.call(
                CgroupOpView::Teardown { stage: TeardownStage::Sleeping, pids, next },
                CallView::Sleep { millis: KILL_GRACE_MILLIS },
            )
        }
    }

    pub open spec fn next_create(
        self,
        stage: CreateStage,
        name: Seq<u8>,
        request: Reservation,
        readings: Seq<Reservation>,
        runtime: Option<u64>,
        reply: ReplyView,
    ) -> (CgroupsView, StepView) {
        match stage {
            CreateStage::Reading => match (runtime, reply) {
                (None, ReplyView::Number(runtime_us)) => self.call(
                    CgroupOpView::Create {
                        stage,
                        name,
                        request,
                        readings,
                        runtime: Some(runtime_us),
                    },
                    CallView::GetPeriod { name: self.cgroups[readings.len() as int].name },
                ),
                (Some(runtime_us), ReplyView::Number(period_us)) => self.create_read_next(
                    name,
                    request,
                    readings.push(Reservation { runtime_us, period_us }),
                ),
                _ => self.done(Err(Error::PlatformError)),
            },
            CreateStage::Creating => match reply {
                ReplyView::Done => self.call(
                    CgroupOpView::Create {
                        stage: CreateStage::SettingPeriod,
                        name,
                        request,
                        readings,
                        runtime,
                    },
                    CallView::SetPeriod { name, period_us: request.period_us },
                ),
                _ => self.done(Err(Error::PlatformError)),
            },
            CreateStage::SettingPeriod => match reply {
                ReplyView::Done => self.call(
                    CgroupOpView::Create {
                        stage: CreateStage::SettingRuntime,
                        name,
                        request,
                        readings,
                        runtime,
                    },
                    CallView::SetRuntime { name, runtime_us: request.runtime_us },
                ),
                _ => self.call(
                    CgroupOpView::Create {
                        stage: CreateStage::Aborting,
                        name,
                        request,
                        readings,
                        runtime,
                    },
                    CallView::DeleteCgroup { name },
                ),
            },
            CreateStage::SettingRuntime => match reply {
                ReplyView::Done => (
                    CgroupsView {
                        cgroups: self.cgroups.push(CgroupEntry { name, reservation: request }),
                        op: CgroupOpView::Idle,
                    },
                    StepView::Done(Ok(())),
                ),
                _ => self.call(
                    CgroupOpView::Create {
                        stage: CreateStage::Aborting,
                        name,
                        request,
                        readings,
                        runtime,
                    },
                    CallView::DeleteCgroup { name },
                ),
            },
            CreateStage::Aborting => self.done(Err(Error::PlatformError)),
        }
    }

    pub open spec fn next_update(
        self,
        stage: UpdateStage,
        name: Seq<u8>,
        request: Reservation,
        readings: Seq<Reservation>,
        runtime: Option<u64>,
        reply: ReplyView,
    ) -> (CgroupsView, StepView) {
        let before = readings[self.index_of(name)];
        match stage {
            UpdateStage::Reading => match (runtime, reply) {
                (None, ReplyView::Number(runtime_us)) => self.call(
                    CgroupOpView::Update {
                        stage,
                        name,
                        request,
                        readings,
                        runtime: Some(runtime_us),
                    },
                    CallView::GetPeriod { name: self.cgroups[readings.len() as int].name },
                ),
                (Some(runtime_us), ReplyView::Number(period_us)) => self.update_read_next(
                    name,
                    request,
                    readings.push(Reservation { runtime_us, period_us }),
                ),
                _ => self.done(Err(Error::PlatformError)),
            },
            UpdateStage::Zeroing => match reply {
                ReplyView::Done => self.call(
                    CgroupOpView::Update {
                        stage: UpdateStage::SettingPeriod,
                        name,
                        request,
                        readings,
                        runtime,
                    },
                    CallView::SetPeriod { name, period_us: request.period_us },
                ),
                _ => self.done(Err(Error::PlatformError)),
            },
            UpdateStage::SettingPeriod => match reply {
                ReplyView::Done => self.call(
                    CgroupOpView::Update {
                        stage: UpdateStage::SettingRuntime,
                        name,
                        request,
                        readings,
                        runtime,
                    },
                    CallView::SetRuntime { name, runtime_us: request.runtime_us },
                ),
                _ => self.call(
                    CgroupOpView::Update {
                        stage: UpdateStage::RestoringRuntime,
                        name,
                        request,
                        readings,
                        runtime,
                    },
                    CallView::SetRuntime { name, runtime_us: before.runtime_us },
                ),
            },
            UpdateStage::SettingRuntime => match reply {
                ReplyView::Done => (
                    CgroupsView {
                        cgroups: self.cgroups.update(
                            self.index_of(name),
                            CgroupEntry { name, reservation: request },
                        ),
                        op: CgroupOpView::Idle,
                    },
                    StepView::Done(Ok(())),
                ),
                _ => self.call(
                    CgroupOpView::Update {
                        stage: UpdateStage::RestoringPeriod,
                        name,
                        request,
                        readings,
                        runtime,
                    },
                    CallView::SetPeriod { name, period_us: before.period_us },
                ),
            },
            UpdateStage::RestoringPeriod => self.call(
                CgroupOpView::Update {
                    stage: UpdateStage::RestoringRuntime,
                    name,
                    request,
                    readings,
                    runtime,
                },
                CallView::SetRuntime { name, runtime_us: before.runtime_us },
            ),
            UpdateStage::RestoringRuntime => self.done(Err(Error::PlatformError)),
        }
    }

    pub open spec fn next_destroy(self, stage: DestroyStage, name: Seq<u8>, reply: ReplyView) -> (
        CgroupsView,
        StepView,
    ) {
        match (stage, reply) {
            (DestroyStage::Zeroing, ReplyView::Done) => self.call(
                CgroupOpView::Destroy { stage: DestroyStage::Deleting, name },
                CallView::DeleteCgroup { name },
            ),
            (DestroyStage::Deleting, ReplyView::Done) => (
                CgroupsView {
                    cgroups: self.cgroups.remove(self.index_of(name)),
                    op: CgroupOpView::Idle,
                },
                StepView::Done(Ok(())),
            ),
            _ => self.done(Err(Error::PlatformError)),
        }
    }

    pub open spec fn next_teardown(
        self,
        stage: TeardownStage,
        pids: Seq<u32>,
        next: int,
        reply: ReplyView,
    ) -> (CgroupsView, StepView) {
        let name = self.cgroups.last().name;
        match stage {
            TeardownStage::Listing => match reply {
                ReplyView::Pids(found) => self.kill_next(found, 0),
                _ => self.teardown_drop(),
            },
            TeardownStage::Killing => self.kill_next(pids, next + 1),
            TeardownStage::Sleeping => self.call(
                CgroupOpView::Teardown { stage: TeardownStage::Zeroing, pids, next },
                CallView::SetRuntime { name, runtime_us: 0 },
            ),
            TeardownStage::Zeroing => match reply {
                ReplyView::Done => self.call(
                    CgroupOpView::Teardown { stage: TeardownStage::Deleting, pids, next },
                    CallView::DeleteCgroup { name },
                ),
                _ => self.teardown_drop(),
            },
            TeardownStage::Deleting => self.teardown_drop(),
        }
    }

    /// The transition table: what the manager becomes, and what it says,
    /// when the operation in progress is resumed with `reply`.  With no
    /// operation in progress there is nothing to do.
    pub open spec fn next(self, reply: ReplyView) -> (CgroupsView, StepView) {
        match self.op {
            CgroupOpView::Idle => self.done(Ok(())),
            CgroupOpView::Create { stage, name, request, readings, runtime } => self.next_create(
                stage,
                name,
                request,
                readings,
                runtime,
                reply,
            ),
            CgroupOpView::Update { stage, name, request, readings, runtime } => self.next_update(
                stage,
                name,
                request,
                readings,
                runtime,
                reply,
            ),
            CgroupOpView::Destroy { stage, name } => self.next_destroy(stage, name, reply),
            CgroupOpView::Teardown { stage, pids, next } => self.next_teardown(
                stage,
                pids,
                next,
                reply,
            ),
        }
    }
}

} // verus!
