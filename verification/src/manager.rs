//! The reservation manager: the registry of the cgroups that this
//! controller created, and the operations that change it.
//!
//! The manager never touches the system.  An operation hands out one call
//! to the platform at a time and is resumed with the reply; what it does
//! then is laid down in `model`.
use vstd::prelude::*;
use vstd::slice::*;
use crate::error::Error;
use crate::parser::{is_cgroup_name, scan_name};
use crate::platform::{Call, CallView, Reply, Step, StepView};
use crate::reservation::{admissible, admits, admits_in_place, Reservation};
use crate::text::bytes_equal;
use crate::manager::model::{
    relative_name,
    CgroupEntry,
    CgroupOpView,
    CgroupsView,
    CreateStage,
    DestroyStage,
    TeardownStage,
    UpdateStage,
    KILL_GRACE_MILLIS,
};
use crate::manager::laws::lemma_next_wf;

pub mod facade;
pub mod laws;
pub mod model;
pub mod proc;

verus! {

/// A cgroup that this controller created, with the reservation it was last
/// given.
pub struct ManagedCgroup {
    name: Vec<u8>,
    reservation: Reservation,
}

impl View for ManagedCgroup {
    type V = CgroupEntry;

    closed spec fn view(&self) -> CgroupEntry {
        CgroupEntry { name: self.name@, reservation: self.reservation }
    }
}

/// The operation in progress.
#[allow(inconsistent_fields)]
enum CgroupOp {
    Idle,
    Create {
        stage: CreateStage,
        name: Vec<u8>,
        request: Reservation,
        readings: Vec<Reservation>,
        runtime: Option<u64>,
    },
    Update {
        stage: UpdateStage,
        name: Vec<u8>,
        request: Reservation,
        readings: Vec<Reservation>,
        runtime: Option<u64>,
    },
    Destroy { stage: DestroyStage, name: Vec<u8> },
    Teardown { stage: TeardownStage, pids: Vec<u32>, next: usize },
}

impl View for CgroupOp {
    type V = CgroupOpView;

    closed spec fn view(&self) -> CgroupOpView {
        match self {
            CgroupOp::Idle => CgroupOpView::Idle,
            CgroupOp::Create { stage, name, request, readings, runtime } => CgroupOpView::Create {
                stage: *stage,
                name: name@,
                request: *request,
                readings: readings@,
                runtime: *runtime,
            },
            CgroupOp::Update { stage, name, request, readings, runtime } => CgroupOpView::Update {
                stage: *stage,
                name: name@,
                request: *request,
                readings: readings@,
                runtime: *runtime,
            },
            CgroupOp::Destroy { stage, name } => CgroupOpView::Destroy {
                stage: *stage,
                name: name@,
            },
            CgroupOp::Teardown { stage, pids, next } => CgroupOpView::Teardown {
                stage: *stage,
                pids: pids@,
                next: *next as int,
            },
        }
    }
}

/// The registry of managed cgroups and the operation in progress on it.
pub struct CgroupManager {
    cgroups: Vec<ManagedCgroup>,
    op: CgroupOp,
}

impl View for CgroupManager {
    type V = CgroupsView;

    closed spec fn view(&self) -> CgroupsView {
        CgroupsView {
            cgroups: Seq::new(self.cgroups@.len(), |i: int| self.cgroups@[i]@),
            op: self.op@,
        }
    }
}

/// A copy of `bytes`.
pub fn copy_bytes(bytes: &[u8]) -> (copy: Vec<u8>)
    ensures
        copy@ == bytes@,
{
    slice_to_vec(bytes)
}

/// Whether the whole of `name` is one cgroup name.
pub fn valid_cgroup_name(name: &[u8]) -> (ok: bool)
    ensures
        ok == is_cgroup_name(name@),
        ok == crate::parser::laws::well_formed_name(name@),
{
    proof {
        crate::parser::laws::law_names_are_well_formed(name@);
    }
    name.len() > 0 && scan_name(name, 0) == name.len()
}

/// `path` without the slashes in front.
pub fn strip_slashes(path: &[u8]) -> (name: &[u8])
    ensures
        name@ == relative_name(path@),
{
    let mut i: usize = 0;
    assert(path@.skip(0) =~= path@);
    while i < path.len() && path[i] == 0x2F
        invariant
            i <= path@.len(),
            relative_name(path@) == relative_name(path@.skip(i as int)),
        decreases path@.len() - i,
    {
        assert(path@.skip(i as int).drop_first() =~= path@.skip(i + 1));
        i += 1;
    }
    let name = slice_subrange(path, i, path.len());
    assert(name@ =~= path@.skip(i as int));
    name
}

impl CgroupManager {
    /// A manager of no cgroups.
    pub fn new() -> (manager: CgroupManager)
        ensures
            manager@.cgroups.len() == 0,
            manager@.op is Idle,
            manager@.wf(),
            manager@.in_budget(),
    {
        let manager = CgroupManager { cgroups: Vec::new(), op: CgroupOp::Idle };
        proof {
            crate::manager::laws::law_budget_of_nothing(manager@);
        }
        manager
    }

    /// Whether no operation is in progress.
    pub fn is_idle(&self) -> (idle: bool)
        ensures
            idle == (self@.op is Idle),
    {
        match &self.op {
            CgroupOp::Idle => true,
            _ => false,
        }
    }

    /// How many cgroups are managed.
    pub fn len(&self) -> (n: usize)
        ensures
            n == self@.cgroups.len(),
    {
        self.cgroups.len()
    }

    /// The name of the cgroup at `index` of the registry.
    pub fn name_at(&self, index: usize) -> (name: &[u8])
        requires
            index < self@.cgroups.len(),
        ensures
            name@ == self@.cgroups[index as int].name,
    {
        self.cgroups[index].name.as_slice()
    }

    /// The reservation that the cgroup at `index` of the registry was last
    /// given.
    pub fn reservation_at(&self, index: usize) -> (reservation: Reservation)
        requires
            index < self@.cgroups.len(),
        ensures
            reservation == self@.cgroups[index as int].reservation,
    {
        self.cgroups[index].reservation
    }

    /// The place of the cgroup `name` in the registry.
    pub fn position(&self, name: &[u8]) -> (found: Option<usize>)
        ensures
            found is Some <==> self@.manages(name@),
            match found {
                Some(i) => i < self@.cgroups.len() && self@.cgroups[i as int].name == name@,
                None => true,
            },
            self@.registry_wf() && found is Some ==> found.unwrap() == self@.index_of(name@),
    {
        let mut i: usize = 0;
        while i < self.cgroups.len()
            invariant
                i <= self.cgroups@.len(),
                forall|j: int| 0 <= j < i ==> (#[trigger] self@.cgroups[j]).name != name@,
            decreases self.cgroups@.len() - i,
        {
            if bytes_equal(self.cgroups[i].name.as_slice(), name) {
                assert(self@.cgroups[i as int].name == name@);
                return Some(i);
            }
            i += 1;
        }
        None
    }

    /// Whether a cgroup of that name is managed.
    pub fn is_managed_cgroup(&self, name: &[u8]) -> (managed: bool)
        ensures
            managed == self@.manages(name@),
    {
        self.position(name).is_some()
    }

    /// Whether the cgroup at that path, as the platform reports it for a
    /// process, is managed.
    pub fn is_managed_path(&self, path: &[u8]) -> (managed: bool)
        ensures
            managed == self@.manages_path(path@),
    {
        self.is_managed_cgroup(strip_slashes(path))
    }

    /// Ends the operation with `result`.
    fn finish(&mut self, result: Result<(), Error>) -> (step: Step)
        ensures
            final(self)@ == old(self)@.done(result).0,
            step@ == old(self)@.done(result).1,
    {
        self.op = CgroupOp::Idle;
        assert(final(self)@.cgroups =~= old(self)@.cgroups);
        Step::Done(result)
    }

    /// Goes on as `op` and asks for `call`.
    fn ask(&mut self, op: CgroupOp, call: Call) -> (step: Step)
        ensures
            final(self)@ == old(self)@.call(op@, call@).0,
            step@ == old(self)@.call(op@, call@).1,
    {
        self.op = op;
        assert(final(self)@.cgroups =~= old(self)@.cgroups);
        Step::Call(call)
    }

    fn create_read_next(&mut self, name: Vec<u8>, request: Reservation, readings: Vec<
        Reservation,
    >) -> (step: Step)
        requires
            readings@.len() <= old(self)@.cgroups.len(),
        ensures
            final(self)@ == old(self)@.create_read_next(name@, request, readings@).0,
            step@ == old(self)@.create_read_next(name@, request, readings@).1,
    {
        if readings.len() < self.cgroups.len() {
            let call = Call::GetRuntime { name: copy_bytes(self.name_at(readings.len())) };
            self.ask(
                CgroupOp::Create {
                    stage: CreateStage::Reading,
                    name,
                    request,
                    readings,
                    runtime: None,
                },
                call,
            )
        } else if admits(&readings, &request) {
            let call = Call::CreateCgroup { name: copy_bytes(name.as_slice()) };
            self.ask(
                CgroupOp::Create {
                    stage: CreateStage::Creating,
                    name,
                    request,
                    readings,
                    runtime: None,
                },
                call,
            )
        } else {
            self.finish(Err(Error::InsufficientBudget))
        }
    }

    fn update_read_next(&mut self, name: Vec<u8>, request: Reservation, readings: Vec<
        Reservation,
    >) -> (step: Step)
        requires
            readings@.len() <= old(self)@.cgroups.len(),
            old(self)@.registry_wf(),
            old(self)@.manages(name@),
        ensures
            final(self)@ == old(self)@.update_read_next(name@, request, readings@).0,
            step@ == old(self)@.update_read_next(name@, request, readings@).1,
    {
        if readings.len() < self.cgroups.len() {
            let call = Call::GetRuntime { name: copy_bytes(self.name_at(readings.len())) };
            return self.ask(
                CgroupOp::Update {
                    stage: UpdateStage::Reading,
                    name,
                    request,
                    readings,
                    runtime: None,
                },
                call,
            );
        }
        let index = self.position(name.as_slice()).unwrap();
        if admits_in_place(&readings, index, &request) {
            let call = Call::SetRuntime { name: copy_bytes(name.as_slice()), runtime_us: 0 };
            self.ask(
                CgroupOp::Update {
                    stage: UpdateStage::Zeroing,
                    name,
                    request,
                    readings,
                    runtime: None,
                },
                call,
            )
        } else {
            self.finish(Err(Error::InsufficientBudget))
        }
    }

    /// Begins the creation of the cgroup `name` with the reservation
    /// `request`.
    pub fn create_cgroup(&mut self, name: &[u8], request: Reservation) -> (step: Step)
        requires
            old(self)@.wf(),
            old(self)@.op is Idle,
        ensures
            final(self)@ == old(self)@.begin_create(name@, request).0,
            step@ == old(self)@.begin_create(name@, request).1,
            final(self)@.wf(),
            final(self)@.cgroups == old(self)@.cgroups,
            step@ == StepView::Done(Err(Error::ParseError)) <==> !is_cgroup_name(name@),
            step@ == StepView::Done(Err(Error::AlreadyExists)) <==> is_cgroup_name(name@) && old(
                self,
            )@.manages(name@),
            step@ == StepView::Done(Err(Error::InsufficientBudget)) <==> is_cgroup_name(name@)
                && !old(self)@.manages(name@) && old(self)@.cgroups.len() == 0 && !admissible(
                Seq::empty(),
                request,
            ),
            step@ != StepView::Done(Ok(())),
            old(self)@.in_budget() ==> final(self)@.in_budget() && final(self)@.readings_true(),
    {
        proof {
            crate::manager::laws::lemma_begin_wf(self@, name@, request);
            crate::manager::laws::law_create_begins_reading(self@, name@, request);
            if self@.in_budget() {
                crate::manager::laws::law_budget_kept_at_start(self@, name@, request);
            }
        }
        if !valid_cgroup_name(name) {
            self.finish(Err(Error::ParseError))
        } else if self.is_managed_cgroup(name) {
            self.finish(Err(Error::AlreadyExists))
        } else {
            self.create_read_next(copy_bytes(name), request, Vec::new())
        }
    }

    /// Begins the change of the reservation of the cgroup `name` to
    /// `request`.
    pub fn update_cgroup(&mut self, name: &[u8], request: Reservation) -> (step: Step)
        requires
            old(self)@.wf(),
            old(self)@.op is Idle,
        ensures
            final(self)@ == old(self)@.begin_update(name@, request).0,
            step@ == old(self)@.begin_update(name@, request).1,
            final(self)@.wf(),
            final(self)@.cgroups == old(self)@.cgroups,
            step@ == StepView::Done(Err(Error::NotFound)) <==> !old(self)@.manages(name@),
            step@ is Call <==> old(self)@.manages(name@),
            old(self)@.in_budget() ==> final(self)@.in_budget() && final(self)@.readings_true(),
    {
        proof {
            crate::manager::laws::lemma_begin_wf(self@, name@, request);
            if self@.in_budget() {
                crate::manager::laws::law_budget_kept_at_start(self@, name@, request);
            }
        }
        if !self.is_managed_cgroup(name) {
            self.finish(Err(Error::NotFound))
        } else {
            self.update_read_next(copy_bytes(name), request, Vec::new())
        }
    }

    /// Begins the destruction of the cgroup `name`.
    pub fn destroy_cgroup(&mut self, name: &[u8]) -> (step: Step)
        requires
            old(self)@.wf(),
            old(self)@.op is Idle,
        ensures
            final(self)@ == old(self)@.begin_destroy(name@).0,
            step@ == old(self)@.begin_destroy(name@).1,
            final(self)@.wf(),
            final(self)@.cgroups == old(self)@.cgroups,
            step@ == StepView::Done(Err(Error::NotFound)) <==> !old(self)@.manages(name@),
            step@ == StepView::Call(CallView::SetRuntime { name: name@, runtime_us: 0 }) <==> old(
                self,
            )@.manages(name@),
            old(self)@.in_budget() ==> final(self)@.in_budget() && final(self)@.readings_true(),
    {
        proof {
            let nothing = Reservation { runtime_us: 0, period_us: 0 };
            crate::manager::laws::lemma_begin_wf(self@, name@, nothing);
            if self@.in_budget() {
                crate::manager::laws::law_budget_kept_at_start(self@, name@, nothing);
            }
        }
        if !self.is_managed_cgroup(name) {
            self.finish(Err(Error::NotFound))
        } else {
            let call = Call::SetRuntime { name: copy_bytes(name), runtime_us: 0 };
            self.ask(CgroupOp::Destroy { stage: DestroyStage::Zeroing, name: copy_bytes(name) }, call)
        }
    }

    fn teardown_next(&mut self) -> (step: Step)
        ensures
            final(self)@ == old(self)@.teardown_next().0,
            step@ == old(self)@.teardown_next().1,
    {
        if self.cgroups.len() > 0 {
            let call = Call::CgroupPids {
                name: copy_bytes(self.name_at(self.cgroups.len() - 1)),
            };
            self.ask(
                CgroupOp::Teardown { stage: TeardownStage::Listing, pids: Vec::new(), next: 0 },
                call,
            )
        } else {
            self.finish(Ok(()))
        }
    }

    fn teardown_drop(&mut self) -> (step: Step)
        requires
            old(self)@.cgroups.len() > 0,
        ensures
            final(self)@ == old(self)@.teardown_drop().0,
            step@ == old(self)@.teardown_drop().1,
    {
        self.cgroups.pop();
        assert(self@.cgroups =~= old(self)@.cgroups.drop_last());
        self.teardown_next()
    }

    fn kill_next(&mut self, pids: Vec<u32>, next: usize) -> (step: Step)
        ensures
            final(self)@ == old(self)@.kill_next(pids@, next as int).0,
            step@ == old(self)@.kill_next(pids@, next as int).1,
    {
        if next < pids.len() {
            let call = Call::KillPid { pid: pids[next] };
            self.ask(CgroupOp::Teardown { stage: TeardownStage::Killing, pids, next }, call)
        } else {
            let call = Call::Sleep { millis: KILL_GRACE_MILLIS };
            self.ask(CgroupOp::Teardown { stage: TeardownStage::Sleeping, pids, next }, call)
        }
    }

    /// Begins the teardown: every managed cgroup is emptied by force and
    /// destroyed, the last one created first.  A failure ends the work on
    /// one cgroup, not the teardown.
    pub fn shutdown(&mut self) -> (step: Step)
        requires
            old(self)@.wf(),
            old(self)@.op is Idle,
        ensures
            final(self)@ == old(self)@.teardown_next().0,
            step@ == old(self)@.teardown_next().1,
            final(self)@.wf(),
    {
        proof {
            crate::manager::laws::lemma_teardown_next_wf(self@);
        }
        self.teardown_next()
    }

    fn resume_create(
        &mut self,
        stage: CreateStage,
        name: Vec<u8>,
        request: Reservation,
        readings: Vec<Reservation>,
        runtime: Option<u64>,
        reply: Reply,
    ) -> (step: Step)
        requires
            (CgroupsView {
                op: CgroupOpView::Create {
                    stage,
                    name: name@,
                    request,
                    readings: readings@,
                    runtime,
                },
                ..old(self)@
            }).wf(),
        ensures
            final(self)@ == old(self)@.next_create(
                stage,
                name@,
                request,
                readings@,
                runtime,
                reply@,
            ).0,
            step@ == old(self)@.next_create(stage, name@, request, readings@, runtime, reply@).1,
    {
        match stage {
            CreateStage::Reading => match (runtime, reply) {
                (None, Reply::Number(runtime_us)) => {
                    let call = Call::GetPeriod { name: copy_bytes(self.name_at(readings.len())) };
                    self.ask(
                        CgroupOp::Create {
                            stage,
                            name,
                            request,
                            readings,
                            runtime: Some(runtime_us),
                        },
                        call,
                    )
                },
                (Some(runtime_us), Reply::Number(period_us)) => {
                    let mut readings = readings;
                    readings.push(Reservation { runtime_us, period_us });
                    self.create_read_next(name, request, readings)
                },
                _ => self.finish(Err(Error::PlatformError)),
            },
            CreateStage::Creating => match reply {
                Reply::Done => {
                    let call = Call::SetPeriod {
                        name: copy_bytes(name.as_slice()),
                        period_us: request.period_us,
                    };
                    self.ask(
                        CgroupOp::Create {
                            stage: CreateStage::SettingPeriod,
                            name,
                            request,
                            readings,
                            runtime,
                        },
                        call,
                    )
                },
                _ => self.finish(Err(Error::PlatformError)),
            },
            CreateStage::SettingPeriod => match reply {
                Reply::Done => {
                    let call = Call::SetRuntime {
                        name: copy_bytes(name.as_slice()),
                        runtime_us: request.runtime_us,
                    };
                    self.ask(
                        CgroupOp::Create {
                            stage: CreateStage::SettingRuntime,
                            name,
                            request,
                            readings,
                            runtime,
                        },
                        call,
                    )
                },
                _ => {
                    let call = Call::DeleteCgroup { name: copy_bytes(name.as_slice()) };
                    self.ask(
                        CgroupOp::Create {
                            stage: CreateStage::Aborting,
                            name,
                            request,
                            readings,
                            runtime,
                        },
                        call,
                    )
                },
            },
            CreateStage::SettingRuntime => match reply {
                Reply::Done => {
                    self.cgroups.push(ManagedCgroup { name, reservation: request });
                    self.op = CgroupOp::Idle;
                    assert(final(self)@.cgroups =~= old(self)@.cgroups.push(
                        CgroupEntry { name: name@, reservation: request },
                    ));
                    Step::Done(Ok(()))
                },
                _ => {
                    let call = Call::DeleteCgroup { name: copy_bytes(name.as_slice()) };
                    self.ask(
                        CgroupOp::Create {
                            stage: CreateStage::Aborting,
                            name,
                            request,
                            readings,
                            runtime,
                        },
                        call,
                    )
                },
            },
            CreateStage::Aborting => self.finish(Err(Error::PlatformError)),
        }
    }

    fn resume_update(
        &mut self,
        stage: UpdateStage,
        name: Vec<u8>,
        request: Reservation,
        readings: Vec<Reservation>,
        runtime: Option<u64>,
        reply: Reply,
    ) -> (step: Step)
        requires
            (CgroupsView {
                op: CgroupOpView::Update {
                    stage,
                    name: name@,
                    request,
                    readings: readings@,
                    runtime,
                },
                ..old(self)@
            }).wf(),
        ensures
            final(self)@ == old(self)@.next_update(
                stage,
                name@,
                request,
                readings@,
                runtime,
                reply@,
            ).0,
            step@ == old(self)@.next_update(stage, name@, request, readings@, runtime, reply@).1,
    {
        let index = self.position(name.as_slice()).unwrap();
        match stage {
            UpdateStage::Reading => match (runtime, reply) {
                (None, Reply::Number(runtime_us)) => {
                    let call = Call::GetPeriod { name: copy_bytes(self.name_at(readings.len())) };
                    self.ask(
                        CgroupOp::Update {
                            stage,
                            name,
                            request,
                            readings,
                            runtime: Some(runtime_us),
                        },
                        call,
                    )
                },
                (Some(runtime_us), Reply::Number(period_us)) => {
                    let mut readings = readings;
                    readings.push(Reservation { runtime_us, period_us });
                    self.update_read_next(name, request, readings)
                },
                _ => self.finish(Err(Error::PlatformError)),
            },
            UpdateStage::Zeroing => match reply {
                Reply::Done => {
                    let call = Call::SetPeriod {
                        name: copy_bytes(name.as_slice()),
                        period_us: request.period_us,
                    };
                    self.ask(
                        CgroupOp::Update {
                            stage: UpdateStage::SettingPeriod,
                            name,
                            request,
                            readings,
                            runtime,
                        },
                        call,
                    )
                },
                _ => self.finish(Err(Error::PlatformError)),
            },
            UpdateStage::SettingPeriod => match reply {
                Reply::Done => {
                    let call = Call::SetRuntime {
                        name: copy_bytes(name.as_slice()),
                        runtime_us: request.runtime_us,
                    };
                    self.ask(
                        CgroupOp::Update {
                            stage: UpdateStage::SettingRuntime,
                            name,
                            request,
                            readings,
                            runtime,
                        },
                        call,
                    )
                },
                _ => {
                    let call = Call::SetRuntime {
                        name: copy_bytes(name.as_slice()),
                        runtime_us: readings[index].runtime_us,
                    };
                    self.ask(
                        CgroupOp::Update {
                            stage: UpdateStage::RestoringRuntime,
                            name,
                            request,
                            readings,
                            runtime,
                        },
                        call,
                    )
                },
            },
            UpdateStage::SettingRuntime => match reply {
                Reply::Done => {
                    self.cgroups.set(index, ManagedCgroup { name, reservation: request });
                    self.op = CgroupOp::Idle;
                    assert(final(self)@.cgroups =~= old(self)@.cgroups.update(
                        index as int,
                        CgroupEntry { name: name@, reservation: request },
                    ));
                    Step::Done(Ok(()))
                },
                _ => {
                    let call = Call::SetPeriod {
                        name: copy_bytes(name.as_slice()),
                        period_us: readings[index].period_us,
                    };
                    self.ask(
                        CgroupOp::Update {
                            stage: UpdateStage::RestoringPeriod,
                            name,
                            request,
                            readings,
                            runtime,
                        },
                        call,
                    )
                },
            },
            UpdateStage::RestoringPeriod => {
                let call = Call::SetRuntime {
                    name: copy_bytes(name.as_slice()),
                    runtime_us: readings[index].runtime_us,
                };
                self.ask(
                    CgroupOp::Update {
                        stage: UpdateStage::RestoringRuntime,
                        name,
                        request,
                        readings,
                        runtime,
                    },
                    call,
                )
            },
            UpdateStage::RestoringRuntime => self.finish(Err(Error::PlatformError)),
        }
    }

    fn resume_destroy(&mut self, stage: DestroyStage, name: Vec<u8>, reply: Reply) -> (step: Step)
        requires
            (CgroupsView {
                op: CgroupOpView::Destroy { stage, name: name@ },
                ..old(self)@
            }).wf(),
        ensures
            final(self)@ == old(self)@.next_destroy(stage, name@, reply@).0,
            step@ == old(self)@.next_destroy(stage, name@, reply@).1,
    {
        match (stage, reply) {
            (DestroyStage::Zeroing, Reply::Done) => {
                let call = Call::DeleteCgroup { name: copy_bytes(name.as_slice()) };
                self.ask(CgroupOp::Destroy { stage: DestroyStage::Deleting, name }, call)
            },
            (DestroyStage::Deleting, Reply::Done) => {
                let index = self.position(name.as_slice()).unwrap();
                self.cgroups.remove(index);
                self.op = CgroupOp::Idle;
                assert(final(self)@.cgroups =~= old(self)@.cgroups.remove(index as int));
                Step::Done(Ok(()))
            },
            _ => self.finish(Err(Error::PlatformError)),
        }
    }

    fn resume_teardown(&mut self, stage: TeardownStage, pids: Vec<u32>, next: usize, reply: Reply)
        -> (step: Step)
        requires
            (CgroupsView {
                op: CgroupOpView::Teardown { stage, pids: pids@, next: next as int },
                ..old(self)@
            }).wf(),
        ensures
            final(self)@ == old(self)@.next_teardown(stage, pids@, next as int, reply@).0,
            step@ == old(self)@.next_teardown(stage, pids@, next as int, reply@).1,
    {
        match stage {
            TeardownStage::Listing => match reply {
                Reply::Pids(found) => self.kill_next(found, 0),
                _ => self.teardown_drop(),
            },
            TeardownStage::Killing => {
                let total = pids.len();
                assert(next < total);
                self.kill_next(pids, next + 1)
            },
            TeardownStage::Sleeping => {
                let call = Call::SetRuntime {
                    name: copy_bytes(self.name_at(self.cgroups.len() - 1)),
                    runtime_us: 0,
                };
                self.ask(CgroupOp::Teardown { stage: TeardownStage::Zeroing, pids, next }, call)
            },
            TeardownStage::Zeroing => match reply {
                Reply::Done => {
                    let call = Call::DeleteCgroup {
                        name: copy_bytes(self.name_at(self.cgroups.len() - 1)),
                    };
                    self.ask(
                        CgroupOp::Teardown { stage: TeardownStage::Deleting, pids, next },
                        call,
                    )
                },
                _ => self.teardown_drop(),
            },
            TeardownStage::Deleting => self.teardown_drop(),
        }
    }

    /// Resumes the operation in progress with the reply of the platform to
    /// the call that the operation last asked for.
    pub fn resume(&mut self, reply: Reply) -> (step: Step)
        requires
            old(self)@.wf(),
        ensures
            final(self)@ == old(self)@.next(reply@).0,
            step@ == old(self)@.next(reply@).1,
            final(self)@.wf(),
            old(self)@.in_budget() && old(self)@.readings_true() && old(self)@.reply_true(reply@)
                ==> final(self)@.in_budget() && final(self)@.readings_true(),
    {
        proof {
            lemma_next_wf(self@, reply@);
            if self@.in_budget() && self@.readings_true() && self@.reply_true(reply@) {
                crate::manager::laws::law_budget_kept(self@, reply@);
            }
        }
        let mut op = CgroupOp::Idle;
        core::mem::swap(&mut op, &mut self.op);
        assert(self@.cgroups =~= old(self)@.cgroups);
        match op {
            CgroupOp::Idle => self.finish(Ok(())),
            CgroupOp::Create { stage, name, request, readings, runtime } => self.resume_create(
                stage,
                name,
                request,
                readings,
                runtime,
                reply,
            ),
            CgroupOp::Update { stage, name, request, readings, runtime } => self.resume_update(
                stage,
                name,
                request,
                readings,
                runtime,
                reply,
            ),
            CgroupOp::Destroy { stage, name } => self.resume_destroy(stage, name, reply),
            CgroupOp::Teardown { stage, pids, next } => self.resume_teardown(
                stage,
                pids,
                next,
                reply,
            ),
        }
    }
}

} // verus!
