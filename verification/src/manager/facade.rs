//! The two managers behind one door.  Operations on processes are judged
//! against the registry of cgroups; at the end the processes are put back
//! first, while the cgroups they may have to leave still exist, and the
//! cgroups are destroyed after them.
use vstd::prelude::*;
use crate::manager::laws::{
    law_begins_registered_only,
    law_budget_kept,
    law_budget_kept_at_start,
    law_moves_registered_only,
};
use crate::manager::model::CgroupsView;
use crate::manager::proc::{ProcManager, ProcsView};
use crate::manager::CgroupManager;
use crate::platform::{CallView, Reply, ReplyView, Step, StepView};
use crate::policy::SchedPolicy;
use crate::reservation::Reservation;

verus! {

/// Which of the two managers has an operation in progress.
#[derive(Clone, Copy, Debug, PartialEq, Eq, Structural)]
pub enum Active {
    Nothing,
    Cgroups,
    Procs,
    /// The teardown, at the processes.
    StoppingProcs,
    /// The teardown, at the cgroups.
    StoppingCgroups,
}

/// The view of the two managers.
pub struct ManagerView {
    pub cgroups: CgroupsView,
    pub procs: ProcsView,
    pub active: Active,
}

impl ManagerView {
    /// Both managers are well formed, and only the active one has an
    /// operation in progress.
    pub open spec fn wf(self) -> bool {
        &&& self.cgroups.wf()
        &&& self.procs.wf()
        &&& match self.active {
            Active::Nothing => self.cgroups.op is Idle && self.procs.op is Idle,
            Active::Cgroups => self.procs.op is Idle,
            Active::StoppingCgroups => self.procs.op is Idle,
            Active::Procs => self.cgroups.op is Idle,
            Active::StoppingProcs => self.cgroups.op is Idle,
        }
    }

    /// Nothing is active once an operation is done.
    pub open spec fn settle(active: Active, step: StepView) -> Active {
        if step is Done {
            Active::Nothing
        } else {
            active
        }
    }

    pub open spec fn with_cgroups(self, active: Active, moved: (CgroupsView, StepView)) -> (
        ManagerView,
        StepView,
    ) {
        (
            ManagerView { cgroups: moved.0, active: Self::settle(active, moved.1), ..self },
            moved.1,
        )
    }

    pub open spec fn with_procs(self, active: Active, moved: (ProcsView, StepView)) -> (
        ManagerView,
        StepView,
    ) {
        (ManagerView { procs: moved.0, active: Self::settle(active, moved.1), ..self }, moved.1)
    }

    /// In the teardown the cgroups follow when the processes are done.
    pub open spec fn stopping(self, moved: (ProcsView, StepView)) -> (ManagerView, StepView) {
        if moved.1 is Done {
            (ManagerView { procs: moved.0, ..self }).with_cgroups(
                Active::StoppingCgroups,
                self.cgroups.teardown_next(),
            )
        } else {
            (ManagerView { procs: moved.0, active: Active::StoppingProcs, ..self }, moved.1)
        }
    }

    pub open spec fn begin_create(self, name: Seq<u8>, request: Reservation) -> (
        ManagerView,
        StepView,
    ) {
        self.with_cgroups(Active::Cgroups, self.cgroups.begin_create(name, request))
    }

    pub open spec fn begin_update(self, name: Seq<u8>, request: Reservation) -> (
        ManagerView,
        StepView,
    ) {
        self.with_cgroups(Active::Cgroups, self.cgroups.begin_update(name, request))
    }

    pub open spec fn begin_destroy(self, name: Seq<u8>) -> (ManagerView, StepView) {
        self.with_cgroups(Active::Cgroups, self.cgroups.begin_destroy(name))
    }

    pub open spec fn begin_assign(self, pid: u32, cgroup: Seq<u8>) -> (ManagerView, StepView) {
        self.with_procs(Active::Procs, self.procs.begin_assign(pid, cgroup))
    }

    pub open spec fn begin_policy(self, pid: u32, policy: SchedPolicy) -> (ManagerView, StepView) {
        self.with_procs(Active::Procs, self.procs.begin_policy(pid, policy))
    }

    pub open spec fn begin_shutdown(self) -> (ManagerView, StepView) {
        self.stopping(self.procs.begin_shutdown())
    }

    /// The transition table of the managers together.
    pub open spec fn next(self, reply: ReplyView) -> (ManagerView, StepView) {
        match self.active {
            Active::Nothing => (self, StepView::Done(Ok(()))),
            Active::Cgroups => self.with_cgroups(Active::Cgroups, self.cgroups.next(reply)),
            Active::StoppingCgroups => self.with_cgroups(
                Active::StoppingCgroups,
                self.cgroups.next(reply),
            ),
            Active::Procs => self.with_procs(Active::Procs, self.procs.next(self.cgroups, reply)),
            Active::StoppingProcs => self.stopping(self.procs.next(self.cgroups, reply)),
        }
    }
}

/// The reservation manager and the process manager together.
pub struct HCBSManager {
    cgroups: CgroupManager,
    procs: ProcManager,
    active: Active,
}

impl View for HCBSManager {
    type V = ManagerView;

    closed spec fn view(&self) -> ManagerView {
        ManagerView { cgroups: self.cgroups@, procs: self.procs@, active: self.active }
    }
}

fn settle(active: Active, step: &Step) -> (settled: Active)
    ensures
        settled == ManagerView::settle(active, step@),
{
    match step {
        Step::Done(_) => Active::Nothing,
        Step::Call(_) => active,
    }
}

/// A step that is the end of an operation leaves the manager idle.
proof fn lemma_cgroups_done_idle(m: CgroupsView, reply: ReplyView)
    ensures
        m.next(reply).1 is Done ==> m.next(reply).0.op is Idle,
        m.teardown_next().1 is Done ==> m.teardown_next().0.op is Idle,
        forall|name: Seq<u8>, request: Reservation|
            (#[trigger] m.begin_create(name, request)).1 is Done ==> m.begin_create(
                name,
                request,
            ).0.op is Idle,
        forall|name: Seq<u8>, request: Reservation|
            (#[trigger] m.begin_update(name, request)).1 is Done ==> m.begin_update(
                name,
                request,
            ).0.op is Idle,
        forall|name: Seq<u8>|
            (#[trigger] m.begin_destroy(name)).1 is Done ==> m.begin_destroy(name).0.op is Idle,
{
}

proof fn lemma_procs_done_idle(m: ProcsView, cgroups: CgroupsView, reply: ReplyView)
    ensures
        m.next(cgroups, reply).1 is Done ==> m.next(cgroups, reply).0.op is Idle,
        m.begin_shutdown().1 is Done ==> m.begin_shutdown().0.op is Idle,
        forall|pid: u32, policy: SchedPolicy|
            (#[trigger] m.begin_policy(pid, policy)).1 is Done ==> m.begin_policy(
                pid,
                policy,
            ).0.op is Idle,
{
}

impl HCBSManager {
    /// Managers of nothing.  With `keep_on_exit` the teardown puts every
    /// process that was touched back where it was.
    pub fn new(keep_on_exit: bool) -> (manager: HCBSManager)
        ensures
            manager@.wf(),
            manager@.active == Active::Nothing,
            manager@.cgroups.cgroups.len() == 0,
            manager@.procs.procs.len() == 0,
            manager@.procs.restore_on_exit == keep_on_exit,
    {
        HCBSManager {
            cgroups: CgroupManager::new(),
            procs: ProcManager::new(keep_on_exit),
            active: Active::Nothing,
        }
    }

    /// Whether no operation is in progress.
    pub fn is_idle(&self) -> (idle: bool)
        ensures
            idle == (self@.active == Active::Nothing),
    {
        match self.active {
            Active::Nothing => true,
            _ => false,
        }
    }

    /// The registry of cgroups.
    pub fn cgroup_manager(&self) -> (cgroups: &CgroupManager)
        ensures
            cgroups@ == self@.cgroups,
    {
        &self.cgroups
    }

    /// The registry of processes.
    pub fn proc_manager(&self) -> (procs: &ProcManager)
        ensures
            procs@ == self@.procs,
    {
        &self.procs
    }

    /// Whether a cgroup of that name is managed.
    pub fn is_managed_cgroup(&self, name: &[u8]) -> (managed: bool)
        ensures
            managed == self@.cgroups.manages(name@),
    {
        self.cgroups.is_managed_cgroup(name)
    }

    /// Begins the creation of the cgroup `name` with the reservation
    /// `request`.
    pub fn create_cgroup(&mut self, name: &[u8], request: Reservation) -> (step: Step)
        requires
            old(self)@.wf(),
            old(self)@.active == Active::Nothing,
        ensures
            final(self)@ == old(self)@.begin_create(name@, request).0,
            step@ == old(self)@.begin_create(name@, request).1,
            final(self)@.wf(),
    {
        proof {
            lemma_cgroups_done_idle(self@.cgroups, ReplyView::Done);
        }
        let step = self.cgroups.create_cgroup(name, request);
        self.active = settle(Active::Cgroups, &step);
        step
    }

    /// Begins the change of the reservation of the cgroup `name`.
    pub fn update_cgroup(&mut self, name: &[u8], request: Reservation) -> (step: Step)
        requires
            old(self)@.wf(),
            old(self)@.active == Active::Nothing,
        ensures
            final(self)@ == old(self)@.begin_update(name@, request).0,
            step@ == old(self)@.begin_update(name@, request).1,
            final(self)@.wf(),
    {
        proof {
            lemma_cgroups_done_idle(self@.cgroups, ReplyView::Done);
        }
        let step = self.cgroups.update_cgroup(name, request);
        self.active = settle(Active::Cgroups, &step);
        step
    }

    /// Begins the destruction of the cgroup `name`.
    pub fn destroy_cgroup(&mut self, name: &[u8]) -> (step: Step)
        requires
            old(self)@.wf(),
            old(self)@.active == Active::Nothing,
        ensures
            final(self)@ == old(self)@.begin_destroy(name@).0,
            step@ == old(self)@.begin_destroy(name@).1,
            final(self)@.wf(),
    {
        proof {
            lemma_cgroups_done_idle(self@.cgroups, ReplyView::Done);
        }
        let step = self.cgroups.destroy_cgroup(name);
        self.active = settle(Active::Cgroups, &step);
        step
    }

    /// Begins the move of `pid` into `cgroup`.
    pub fn assign_cgroup_to_process(&mut self, pid: u32, cgroup: &[u8]) -> (step: Step)
        requires
            old(self)@.wf(),
            old(self)@.active == Active::Nothing,
        ensures
            final(self)@ == old(self)@.begin_assign(pid, cgroup@).0,
            step@ == old(self)@.begin_assign(pid, cgroup@).1,
            final(self)@.wf(),
    {
        let step = self.procs.assign_cgroup_to_process(&self.cgroups, pid, cgroup);
        self.active = settle(Active::Procs, &step);
        step
    }

    /// Begins the change of the scheduling policy of `pid`.
    pub fn set_process_sched_policy(&mut self, pid: u32, policy: SchedPolicy) -> (step: Step)
        requires
            old(self)@.wf(),
            old(self)@.active == Active::Nothing,
        ensures
            final(self)@ == old(self)@.begin_policy(pid, policy).0,
            step@ == old(self)@.begin_policy(pid, policy).1,
            final(self)@.wf(),
    {
        proof {
            lemma_procs_done_idle(self@.procs, self@.cgroups, ReplyView::Done);
        }
        let step = self.procs.set_process_sched_policy(&self.cgroups, pid, policy);
        self.active = settle(Active::Procs, &step);
        step
    }

    /// Forgets the processes in `dead`, which are no more.
    pub fn update_managed_processes(&mut self, dead_procs: &Vec<u32>)
        requires
            old(self)@.wf(),
            old(self)@.active == Active::Nothing,
        ensures
            final(self)@ == (ManagerView {
                procs: old(self)@.procs.without(dead_procs@),
                ..old(self)@
            }),
            final(self)@.wf(),
    {
        self.procs.update_managed_processes(dead_procs);
    }

    fn stopping(&mut self, step: Step) -> (out: Step)
        requires
            old(self).cgroups@.wf(),
            old(self).cgroups@.op is Idle,
        ensures
            final(self)@ == (ManagerView { procs: old(self).procs@, ..old(self)@ }).stopping(
                (old(self).procs@, step@),
            ).0,
            out@ == (ManagerView { procs: old(self).procs@, ..old(self)@ }).stopping(
                (old(self).procs@, step@),
            ).1,
            final(self).cgroups@.wf(),
    {
        match step {
            Step::Done(_) => {
                let next = self.cgroups.shutdown();
                self.active = settle(Active::StoppingCgroups, &next);
                next
            },
            Step::Call(call) => {
                self.active = Active::StoppingProcs;
                Step::Call(call)
            },
        }
    }

    /// Begins the teardown: the processes first, then the cgroups.
    pub fn shutdown(&mut self) -> (step: Step)
        requires
            old(self)@.wf(),
            old(self)@.active == Active::Nothing,
        ensures
            final(self)@ == old(self)@.begin_shutdown().0,
            step@ == old(self)@.begin_shutdown().1,
            final(self)@.wf(),
    {
        proof {
            lemma_procs_done_idle(self@.procs, self@.cgroups, ReplyView::Done);
            lemma_cgroups_done_idle(self@.cgroups, ReplyView::Done);
        }
        let step = self.procs.shutdown();
        self.stopping(step)
    }

    /// Resumes the operation in progress with the reply of the platform to
    /// the call that the operation last asked for.
    pub fn resume(&mut self, reply: Reply) -> (step: Step)
        requires
            old(self)@.wf(),
        ensures
            final(self)@ == old(self)@.next(reply@).0,
            step@ == old(self)@.next(reply@).1,
            final(self)@.wf(),
    {
        proof {
            lemma_cgroups_done_idle(self@.cgroups, reply@);
            lemma_procs_done_idle(self@.procs, self@.cgroups, reply@);
        }
        match self.active {
            Active::Nothing => Step::Done(Ok(())),
            Active::Cgroups => {
                let step = self.cgroups.resume(reply);
                self.active = settle(Active::Cgroups, &step);
                step
            },
            Active::StoppingCgroups => {
                let step = self.cgroups.resume(reply);
                self.active = settle(Active::StoppingCgroups, &step);
                step
            },
            Active::Procs => {
                let step = self.procs.resume(&self.cgroups, reply);
                self.active = settle(Active::Procs, &step);
                step
            },
            Active::StoppingProcs => {
                let step = self.procs.resume(&self.cgroups, reply);
                self.stopping(step)
            },
        }
    }
}

impl ManagerView {
    /// The reply is one to the reservation manager, and shows of a managed
    /// cgroup what the registry holds of it.
    pub open spec fn reply_true(self, reply: ReplyView) -> bool {
        match self.active {
            Active::Cgroups => self.cgroups.reply_true(reply),
            Active::StoppingCgroups => self.cgroups.reply_true(reply),
            _ => true,
        }
    }
}

/// The budget is an invariant of the two managers together: as long as
/// the platform shows of every managed cgroup what the registry holds of
/// it, no step, of whichever manager, takes the reservations in the
/// registry beyond 0.95 of the processor.
pub proof fn law_managers_keep_budget(m: ManagerView, reply: ReplyView)
    requires
        m.wf(),
        m.cgroups.in_budget(),
        m.cgroups.readings_true(),
        m.reply_true(reply),
    ensures
        m.next(reply).0.cgroups.in_budget(),
        m.next(reply).0.cgroups.readings_true(),
{
    match m.active {
        Active::Cgroups => {
            law_budget_kept(m.cgroups, reply);
        },
        Active::StoppingCgroups => {
            law_budget_kept(m.cgroups, reply);
        },
        Active::StoppingProcs => {
            law_budget_kept_at_start(
                m.cgroups,
                Seq::empty(),
                Reservation { runtime_us: 0, period_us: 0 },
            );
        },
        _ => {},
    }
}

/// Beginning an operation does not touch the budget.
pub proof fn law_managers_begin_in_budget(
    m: ManagerView,
    name: Seq<u8>,
    request: Reservation,
    pid: u32,
    policy: SchedPolicy,
)
    requires
        m.wf(),
        m.active == Active::Nothing,
        m.cgroups.in_budget(),
    ensures
        m.begin_create(name, request).0.cgroups.in_budget(),
        m.begin_create(name, request).0.cgroups.readings_true(),
        m.begin_update(name, request).0.cgroups.in_budget(),
        m.begin_update(name, request).0.cgroups.readings_true(),
        m.begin_destroy(name).0.cgroups.in_budget(),
        m.begin_destroy(name).0.cgroups.readings_true(),
        m.begin_assign(pid, name).0.cgroups == m.cgroups,
        m.begin_policy(pid, policy).0.cgroups == m.cgroups,
        m.begin_shutdown().0.cgroups.in_budget(),
        m.begin_shutdown().0.cgroups.readings_true(),
{
    law_budget_kept_at_start(m.cgroups, name, request);
}

/// Whichever manager is at work, no process is moved that the process
/// manager has not registered: a step that asks the platform to change
/// the policy of a process or the cgroup it is in finds the process in
/// the registry.
pub proof fn law_managers_move_registered_only(m: ManagerView, reply: ReplyView)
    requires
        m.wf(),
    ensures
        forall|call: CallView, pid: u32|
            m.next(reply).1 == StepView::Call(call) && #[trigger] call.moves(pid) ==> m.next(
                reply,
            ).0.procs.registered(pid),
        forall|call: CallView, pid: u32|
            m.begin_shutdown().1 == StepView::Call(call) && #[trigger] call.moves(pid)
                ==> m.begin_shutdown().0.procs.registered(pid),
{
    law_moves_registered_only(m.procs, m.cgroups, reply);
    law_begins_registered_only(m.procs, 0, Seq::empty(), SchedPolicy::Other);
    match m.active {
        Active::Cgroups => {
            crate::manager::laws::law_cgroups_move_nothing(m.cgroups, reply);
        },
        Active::StoppingCgroups => {
            crate::manager::laws::law_cgroups_move_nothing(m.cgroups, reply);
        },
        _ => {},
    }
    crate::manager::laws::law_cgroups_move_nothing(m.cgroups, reply);
}

} // verus!
