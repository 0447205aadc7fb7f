//! The process manager: the registry of the processes that this controller
//! has touched, with the cgroup each was in before, and the operations that
//! move a process or change its scheduling policy.
use vstd::prelude::*;
use crate::error::Error;
use crate::manager::model::CgroupsView;
use crate::manager::{copy_bytes, CgroupManager};
use crate::platform::{Call, CallView, Reply, ReplyView, Step, StepView};
use crate::policy::SchedPolicy;

verus! {

#[derive(Clone, Copy, Debug, PartialEq, Eq, Structural)]
pub enum AssignStage {
    /// Asking whether the cgroup exists.
    CheckingExists,
    /// Asking for the policy of the process.
    CheckingPolicy,
    /// Asking for the cgroup that the process is in, to remember it.
    Registering,
    Assigning,
}

#[derive(Clone, Copy, Debug, PartialEq, Eq, Structural)]
pub enum PolicyStage {
    Registering,
    /// Asking for the cgroup that the process is in, which must be managed.
    CheckingCgroup,
    Applying,
}

#[derive(Clone, Copy, Debug, PartialEq, Eq, Structural)]
pub enum RestoreStage {
    RestoringPolicy,
    RestoringCgroup,
}

/// The view of a managed process.
pub struct ProcEntry {
    pub pid: u32,
    pub original_cgroup: Seq<u8>,
}

/// The view of the operation in progress.
#[allow(inconsistent_fields)]
pub enum ProcOpView {
    Idle,
    Assign { stage: AssignStage, pid: u32, cgroup: Seq<u8> },
    Policy { stage: PolicyStage, pid: u32, policy: SchedPolicy },
    Teardown { stage: RestoreStage },
}

/// The view of the process manager.
pub struct ProcsView {
    pub procs: Seq<ProcEntry>,
    pub restore_on_exit: bool,
    pub op: ProcOpView,
}

/// Whether an entry is of a process that is not in `dead`.
pub open spec fn survives(dead: Seq<u32>) -> spec_fn(ProcEntry) -> bool {
    |e: ProcEntry| !dead.contains(e.pid)
}

/// No process stands twice among `procs`.
pub open spec fn distinct_pids(procs: Seq<ProcEntry>) -> bool {
    forall|i: int, j: int|
        0 <= i < j < procs.len() ==> (#[trigger] procs[i]).pid != (#[trigger] procs[j]).pid
}

impl ProcsView {
    /// The process is in the registry.
    pub open spec fn registered(self, pid: u32) -> bool {
        exists|i: int| 0 <= i < self.procs.len() && (#[trigger] self.procs[i]).pid == pid
    }

    /// The place of the process in the registry.
    pub open spec fn index_of(self, pid: u32) -> int {
        choose|i: int| 0 <= i < self.procs.len() && (#[trigger] self.procs[i]).pid == pid
    }

    /// The cgroup that a registered process was in when it was first
    /// touched.
    pub open spec fn original_cgroup(self, pid: u32) -> Seq<u8> {
        self.procs[self.index_of(pid)].original_cgroup
    }

    /// No process stands twice in the registry.
    pub open spec fn registry_wf(self) -> bool {
        distinct_pids(self.procs)
    }

    pub open spec fn op_wf(self) -> bool {
        match self.op {
            ProcOpView::Idle => true,
            ProcOpView::Assign { stage, pid, cgroup } => match stage {
                AssignStage::Assigning => self.registered(pid),
                AssignStage::Registering => !self.registered(pid),
                _ => true,
            },
            ProcOpView::Policy { stage, pid, policy } => match stage {
                PolicyStage::Registering => !self.registered(pid),
                _ => self.registered(pid),
            },
            ProcOpView::Teardown { stage } => self.procs.len() > 0,
        }
    }

    pub open spec fn wf(self) -> bool {
        self.registry_wf() && self.op_wf()
    }

    pub open spec fn done(self, result: Result<(), Error>) -> (ProcsView, StepView) {
        (ProcsView { op: ProcOpView::Idle, ..self }, StepView::Done(result))
    }

    pub open spec fn call(self, op: ProcOpView, call: CallView) -> (ProcsView, StepView) {
        (ProcsView { op, ..self }, StepView::Call(call))
    }

    /// The registry with `pid` added, remembered as coming from `cgroup`.
    pub open spec fn with(self, pid: u32, cgroup: Seq<u8>) -> ProcsView {
        ProcsView { procs: self.procs.push(ProcEntry { pid, original_cgroup: cgroup }), ..self }
    }

    /// The registry without the processes in `dead`.
    pub open spec fn without(self, dead: Seq<u32>) -> ProcsView {
        ProcsView { procs: self.procs.filter(survives(dead)), ..self }
    }

    /// A move begins by asking whether the cgroup exists.
    pub open spec fn begin_assign(self, pid: u32, cgroup: Seq<u8>) -> (ProcsView, StepView) {
        self.call(
            ProcOpView::Assign { stage: AssignStage::CheckingExists, pid, cgroup },
            CallView::CgroupExists { name: cgroup },
        )
    }

    /// The rules on policies, for a process that is registered: the default
    /// policy can always be set, a real-time policy only in a managed
    /// cgroup, any other policy never.
    pub open spec fn policy_rules(self, pid: u32, policy: SchedPolicy) -> (ProcsView, StepView) {
        match policy {
            SchedPolicy::Other => self.call(
                ProcOpView::Policy { stage: PolicyStage::Applying, pid, policy },
                CallView::SetPolicy { pid, policy },
            ),
            SchedPolicy::Fifo(_) | SchedPolicy::Rr(_) => self.call(
                ProcOpView::Policy { stage: PolicyStage::CheckingCgroup, pid, policy },
                CallView::GetPidCgroup { pid },
            ),
            _ => self.done(Err(Error::Unsupported)),
        }
    }

    /// A change of policy begins by registering the process, if it is not
    /// registered yet.
    pub open spec fn begin_policy(self, pid: u32, policy: SchedPolicy) -> (ProcsView, StepView) {
        if self.registered(pid) {
            self.policy_rules(pid, policy)
        } else {
            self.call(
                ProcOpView::Policy { stage: PolicyStage::Registering, pid, policy },
                CallView::GetPidCgroup { pid },
            )
        }
    }

    /// The teardown turns to the last process of the registry, or ends.
    pub open spec fn restore_next(self) -> (ProcsView, StepView) {
        if self.procs.len() > 0 {
            self.call(
                ProcOpView::Teardown { stage: RestoreStage::RestoringPolicy },
                CallView::SetPolicy { pid: self.procs.last().pid, policy: SchedPolicy::Other },
            )
        } else {
            self.done(Ok(()))
        }
    }

    /// The teardown begins.  Unless the manager was made to restore what it
    /// touched, the registry is dropped and that is all.
    pub open spec fn begin_shutdown(self) -> (ProcsView, StepView) {
        if self.restore_on_exit {
            self.restore_next()
        } else {
            (ProcsView { procs: Seq::empty(), ..self }).done(Ok(()))
        }
    }

    pub open spec fn next_assign(
        self,
        cgroups: CgroupsView,
        stage: AssignStage,
        pid: u32,
        cgroup: Seq<u8>,
        reply: ReplyView,
    ) -> (ProcsView, StepView) {
        match (stage, reply) {
            (AssignStage::CheckingExists, ReplyView::Flag(exists)) => if !exists {
                self.done(Err(Error::NotFound))
            } else if !cgroups.manages(cgroup) {
                self.done(Err(Error::NotManaged))
            } else {
                self.call(
                    ProcOpView::Assign { stage: AssignStage::CheckingPolicy, pid, cgroup },
                    CallView::GetPolicy { pid },
                )
            },
            (AssignStage::CheckingPolicy, ReplyView::Policy(policy)) => if policy
                != SchedPolicy::Other {
                self.done(Err(Error::PolicyConflict))
            } else if self.registered(pid) {
                self.call(
                    ProcOpView::Assign { stage: AssignStage::Assigning, pid, cgroup },
                    CallView::AssignPid { name: cgroup, pid },
                )
            } else {
                self.call(
                    ProcOpView::Assign { stage: AssignStage::Registering, pid, cgroup },
                    CallView::GetPidCgroup { pid },
                )
            },
            (AssignStage::Registering, ReplyView::Cgroup(current)) => self.with(pid, current).call(
                ProcOpView::Assign { stage: AssignStage::Assigning, pid, cgroup },
                CallView::AssignPid { name: cgroup, pid },
            ),
            (AssignStage::Assigning, ReplyView::Done) => self.done(Ok(())),
            _ => self.done(Err(Error::PlatformError)),
        }
    }

    pub open spec fn next_policy(
        self,
        cgroups: CgroupsView,
        stage: PolicyStage,
        pid: u32,
        policy: SchedPolicy,
        reply: ReplyView,
    ) -> (ProcsView, StepView) {
        match (stage, reply) {
            (PolicyStage::Registering, ReplyView::Cgroup(current)) => self.with(
                pid,
                current,
            ).policy_rules(pid, policy),
            (PolicyStage::CheckingCgroup, ReplyView::Cgroup(current)) => if cgroups.manages_path(
                current,
            ) {
                self.call(
                    ProcOpView::Policy { stage: PolicyStage::Applying, pid, policy },
                    CallView::SetPolicy { pid, policy },
                )
            } else {
                self.done(Err(Error::PolicyConflict))
            },
            (PolicyStage::Applying, ReplyView::Done) => self.done(Ok(())),
            _ => self.done(Err(Error::PlatformError)),
        }
    }

    /// The teardown goes on whatever the platform answers.
    pub open spec fn next_teardown(self, stage: RestoreStage) -> (ProcsView, StepView) {
        match stage {
            RestoreStage::RestoringPolicy => self.call(
                ProcOpView::Teardown { stage: RestoreStage::RestoringCgroup },
                CallView::AssignPid {
                    name: self.procs.last().original_cgroup,
                    pid: self.procs.last().pid,
                },
            ),
            RestoreStage::RestoringCgroup => (ProcsView {
                procs: self.procs.drop_last(),
                ..self
            }).restore_next(),
        }
    }

    /// The transition table of the process manager.  The rules look at the
    /// registry of cgroups, which is handed in.
    pub open spec fn next(self, cgroups: CgroupsView, reply: ReplyView) -> (ProcsView, StepView) {
        match self.op {
            ProcOpView::Idle => self.done(Ok(())),
            ProcOpView::Assign { stage, pid, cgroup } => self.next_assign(
                cgroups,
                stage,
                pid,
                cgroup,
                reply,
            ),
            ProcOpView::Policy { stage, pid, policy } => self.next_policy(
                cgroups,
                stage,
                pid,
                policy,
                reply,
            ),
            ProcOpView::Teardown { stage } => self.next_teardown(stage),
        }
    }
}

/// What is remembered of a managed process.
#[derive(Debug)]
pub struct ProcData {
    original_cgroup: Vec<u8>,
}

impl ProcData {
    pub closed spec fn cgroup(&self) -> Seq<u8> {
        self.original_cgroup@
    }

    pub fn new(original_cgroup: Vec<u8>) -> (data: ProcData)
        ensures
            data.cgroup() == original_cgroup@,
    {
        ProcData { original_cgroup }
    }

    /// The cgroup that the process was in when this controller first
    /// touched it.
    pub fn original_cgroup(&self) -> (cgroup: &[u8])
        ensures
            cgroup@ == self.cgroup(),
    {
        self.original_cgroup.as_slice()
    }
}

struct ManagedProc {
    pid: u32,
    data: ProcData,
}

impl View for ManagedProc {
    type V = ProcEntry;

    closed spec fn view(&self) -> ProcEntry {
        ProcEntry { pid: self.pid, original_cgroup: self.data.cgroup() }
    }
}

#[allow(inconsistent_fields)]
enum ProcOp {
    Idle,
    Assign { stage: AssignStage, pid: u32, cgroup: Vec<u8> },
    Policy { stage: PolicyStage, pid: u32, policy: SchedPolicy },
    Teardown { stage: RestoreStage },
}

impl View for ProcOp {
    type V = ProcOpView;

    closed spec fn view(&self) -> ProcOpView {
        match self {
            ProcOp::Idle => ProcOpView::Idle,
            ProcOp::Assign { stage, pid, cgroup } => ProcOpView::Assign {
                stage: *stage,
                pid: *pid,
                cgroup: cgroup@,
            },
            ProcOp::Policy { stage, pid, policy } => ProcOpView::Policy {
                stage: *stage,
                pid: *pid,
                policy: *policy,
            },
            ProcOp::Teardown { stage } => ProcOpView::Teardown { stage: *stage },
        }
    }
}

/// The registry of managed processes and the operation in progress on it.
pub struct ProcManager {
    procs: Vec<ManagedProc>,
    keep_on_exit: bool,
    op: ProcOp,
}

impl View for ProcManager {
    type V = ProcsView;

    closed spec fn view(&self) -> ProcsView {
        ProcsView {
            procs: Seq::new(self.procs@.len(), |i: int| self.procs@[i]@),
            restore_on_exit: self.keep_on_exit,
            op: self.op@,
        }
    }
}

impl ProcManager {
    /// A manager of no processes.  With `keep_on_exit` the teardown puts
    /// every process it touched back where it was.
    pub fn new(keep_on_exit: bool) -> (manager: ProcManager)
        ensures
            manager@.procs.len() == 0,
            manager@.restore_on_exit == keep_on_exit,
            manager@.op is Idle,
            manager@.wf(),
    {
        ProcManager { procs: Vec::new(), keep_on_exit, op: ProcOp::Idle }
    }

    pub fn is_idle(&self) -> (idle: bool)
        ensures
            idle == (self@.op is Idle),
    {
        match &self.op {
            ProcOp::Idle => true,
            _ => false,
        }
    }

    /// How many processes are managed.
    pub fn len(&self) -> (n: usize)
        ensures
            n == self@.procs.len(),
    {
        self.procs.len()
    }

    /// The place of `pid` in the registry.
    pub fn position(&self, pid: u32) -> (found: Option<usize>)
        ensures
            found is Some <==> self@.registered(pid),
            match found {
                Some(i) => i < self@.procs.len() && self@.procs[i as int].pid == pid,
                None => true,
            },
    {
        let mut i: usize = 0;
        while i < self.procs.len()
            invariant
                i <= self.procs@.len(),
                forall|j: int| 0 <= j < i ==> (#[trigger] self@.procs[j]).pid != pid,
            decreases self.procs@.len() - i,
        {
            if self.procs[i].pid == pid {
                assert(self@.procs[i as int].pid == pid);
                return Some(i);
            }
            i += 1;
        }
        None
    }

    /// Whether `pid` is managed.
    pub fn is_managed(&self, pid: u32) -> (managed: bool)
        ensures
            managed == self@.registered(pid),
    {
        self.position(pid).is_some()
    }

    /// What is remembered of `pid`, if it is managed.
    pub fn get_managed_process(&self, pid: u32) -> (data: Option<&ProcData>)
        ensures
            data is Some <==> self@.registered(pid),
            self@.registry_wf() && data is Some ==> data.unwrap().cgroup() == self@.original_cgroup(
                pid,
            ),
    {
        match self.position(pid) {
            Some(i) => {
                proof {
                    if self@.registry_wf() {
                        lemma_proc_index(self@, pid);
                    }
                }
                Some(&self.procs[i].data)
            },
            None => None,
        }
    }

    fn finish(&mut self, result: Result<(), Error>) -> (step: Step)
        ensures
            final(self)@ == old(self)@.done(result).0,
            step@ == old(self)@.done(result).1,
    {
        self.op = ProcOp::Idle;
        assert(final(self)@.procs =~= old(self)@.procs);
        Step::Done(result)
    }

    fn ask(&mut self, op: ProcOp, call: Call) -> (step: Step)
        ensures
            final(self)@ == old(self)@.call(op@, call@).0,
            step@ == old(self)@.call(op@, call@).1,
    {
        self.op = op;
        assert(final(self)@.procs =~= old(self)@.procs);
        Step::Call(call)
    }

    fn register(&mut self, pid: u32, cgroup: Vec<u8>)
        ensures
            final(self)@ == old(self)@.with(pid, cgroup@),
    {
        self.procs.push(ManagedProc { pid, data: ProcData::new(cgroup) });
        assert(final(self)@.procs =~= old(self)@.with(pid, cgroup@).procs);
    }

    /// Forgets the processes in `dead`, which are no more.  Nothing is
    /// asked of the platform.
    pub fn update_managed_processes(&mut self, dead_procs: &Vec<u32>)
        requires
            old(self)@.wf(),
            old(self)@.op is Idle,
        ensures
            final(self)@ == old(self)@.without(dead_procs@),
            final(self)@.wf(),
            forall|pid: u32|
                final(self)@.registered(pid) <==> old(self)@.registered(pid)
                    && !dead_procs@.contains(pid),
            forall|pid: u32| #[trigger]
                final(self)@.registered(pid) ==> final(self)@.original_cgroup(pid) == old(
                    self,
                )@.original_cgroup(pid),
    {
        let ghost before = self@;
        let ghost keep = survives(dead_procs@);
        let mut kept: Vec<ManagedProc> = Vec::new();
        let mut rest: Vec<ManagedProc> = Vec::new();
        core::mem::swap(&mut rest, &mut self.procs);
        let total = rest.len();
        let ghost all = rest@;
        // The registry is walked from its end, so that entries can be moved
        // out of it; what is kept is turned round again below.
        let mut reversed: Vec<ManagedProc> = Vec::new();
        while rest.len() > 0
            invariant
                rest@ == all.take(rest@.len() as int),
                rest@.len() <= all.len(),
                reversed@.len() + rest@.len() == all.len(),
                forall|j: int|
                    0 <= j < reversed@.len() ==> reversed@[j] == all[all.len() - 1 - j],
            decreases rest@.len(),
        {
            let ghost n = rest@.len();
            let entry = rest.pop().unwrap();
            reversed.push(entry);
            assert(rest@ =~= all.take(n - 1));
        }
        let mut i: usize = 0;
        assert(all.take(0) =~= Seq::<ManagedProc>::empty());
        while reversed.len() > 0
            invariant
                all.len() == total,
                i + reversed@.len() == all.len(),
                forall|j: int|
                    0 <= j < reversed@.len() ==> reversed@[j] == all[all.len() - 1 - j],
                Seq::new(kept@.len(), |k: int| kept@[k]@) == Seq::new(
                    i as nat,
                    |k: int| all[k]@,
                ).filter(keep),
                keep == survives(dead_procs@),
            decreases reversed@.len(),
        {
            let ghost seen = Seq::new(i as nat, |k: int| all[k]@);
            let ghost seen_next = Seq::new((i + 1) as nat, |k: int| all[k]@);
            let ghost kept_before = Seq::new(kept@.len(), |k: int| kept@[k]@);
            let entry = reversed.pop().unwrap();
            assert(entry == all[i as int]);
            proof {
                assert(seen_next =~= seen.push(all[i as int]@));
                lemma_filter_push(seen, all[i as int]@, keep);
            }
            if !contains_pid(dead_procs, entry.pid) {
                kept.push(entry);
                assert(Seq::new(kept@.len(), |k: int| kept@[k]@) =~= kept_before.push(
                    all[i as int]@,
                ));
            }
            i += 1;
        }
        self.procs = kept;
        proof {
            assert(Seq::new(all.len(), |k: int| all[k]@) =~= before.procs);
            assert(self@.procs =~= before.without(dead_procs@).procs);
            lemma_without(before, dead_procs@);
        }
    }

    /// Begins the move of `pid` into `cgroup`.
    pub fn assign_cgroup_to_process(&mut self, cgroups: &CgroupManager, pid: u32, cgroup: &[u8])
        -> (step: Step)
        requires
            old(self)@.wf(),
            old(self)@.op is Idle,
        ensures
            final(self)@ == old(self)@.begin_assign(pid, cgroup@).0,
            step@ == old(self)@.begin_assign(pid, cgroup@).1,
            final(self)@.wf(),
            final(self)@.procs == old(self)@.procs,
            step@ == StepView::Call(CallView::CgroupExists { name: cgroup@ }),
    {
        let call = Call::CgroupExists { name: copy_bytes(cgroup) };
        let step = self.ask(
            ProcOp::Assign { stage: AssignStage::CheckingExists, pid, cgroup: copy_bytes(cgroup) },
            call,
        );
        proof {
            lemma_same_registry(old(self)@, self@);
        }
        step
    }

    fn policy_rules(&mut self, pid: u32, policy: SchedPolicy) -> (step: Step)
        ensures
            final(self)@ == old(self)@.policy_rules(pid, policy).0,
            step@ == old(self)@.policy_rules(pid, policy).1,
    {
        match policy {
            SchedPolicy::Other => self.ask(
                ProcOp::Policy { stage: PolicyStage::Applying, pid, policy },
                Call::SetPolicy { pid, policy },
            ),
            SchedPolicy::Fifo(_) | SchedPolicy::Rr(_) => self.ask(
                ProcOp::Policy { stage: PolicyStage::CheckingCgroup, pid, policy },
                Call::GetPidCgroup { pid },
            ),
            _ => self.finish(Err(Error::Unsupported)),
        }
    }

    /// Begins the change of the scheduling policy of `pid` to `policy`.
    pub fn set_process_sched_policy(
        &mut self,
        cgroups: &CgroupManager,
        pid: u32,
        policy: SchedPolicy,
    ) -> (step: Step)
        requires
            old(self)@.wf(),
            old(self)@.op is Idle,
        ensures
            final(self)@ == old(self)@.begin_policy(pid, policy).0,
            step@ == old(self)@.begin_policy(pid, policy).1,
            final(self)@.wf(),
            final(self)@.procs == old(self)@.procs,
            step@ == StepView::Done(Err(Error::Unsupported)) <==> old(self)@.registered(pid) && (
            policy is Batch || policy is Idle || policy is Deadline),
            step@ == StepView::Call(CallView::SetPolicy { pid, policy }) <==> old(
                self,
            )@.registered(pid) && policy is Other,
            step@ == StepView::Call(CallView::GetPidCgroup { pid }) <==> !old(self)@.registered(
                pid,
            ) || policy is Fifo || policy is Rr,
    {
        proof {
            lemma_begin_policy_wf(self@, pid, policy);
        }
        if self.is_managed(pid) {
            self.policy_rules(pid, policy)
        } else {
            self.ask(
                ProcOp::Policy { stage: PolicyStage::Registering, pid, policy },
                Call::GetPidCgroup { pid },
            )
        }
    }

    fn restore_next(&mut self) -> (step: Step)
        ensures
            final(self)@ == old(self)@.restore_next().0,
            step@ == old(self)@.restore_next().1,
    {
        if self.procs.len() > 0 {
            let pid = self.procs[self.procs.len() - 1].pid;
            self.ask(
                ProcOp::Teardown { stage: RestoreStage::RestoringPolicy },
                Call::SetPolicy { pid, policy: SchedPolicy::Other },
            )
        } else {
            self.finish(Ok(()))
        }
    }

    /// Begins the teardown: every managed process is given the default
    /// policy and put back into the cgroup it came from, the last one
    /// touched first, whatever the platform answers.
    pub fn shutdown(&mut self) -> (step: Step)
        requires
            old(self)@.wf(),
            old(self)@.op is Idle,
        ensures
            final(self)@ == old(self)@.begin_shutdown().0,
            step@ == old(self)@.begin_shutdown().1,
            final(self)@.wf(),
    {
        proof {
            lemma_shutdown_wf(self@);
        }
        if self.keep_on_exit {
            self.restore_next()
        } else {
            self.procs.clear();
            assert(self@.procs =~= Seq::<ProcEntry>::empty());
            self.finish(Ok(()))
        }
    }

    fn resume_assign(
        &mut self,
        cgroups: &CgroupManager,
        stage: AssignStage,
        pid: u32,
        cgroup: Vec<u8>,
        reply: Reply,
    ) -> (step: Step)
        ensures
            final(self)@ == old(self)@.next_assign(cgroups@, stage, pid, cgroup@, reply@).0,
            step@ == old(self)@.next_assign(cgroups@, stage, pid, cgroup@, reply@).1,
    {
        match (stage, reply) {
            (AssignStage::CheckingExists, Reply::Flag(exists)) => {
                if !exists {
                    self.finish(Err(Error::NotFound))
                } else if !cgroups.is_managed_cgroup(cgroup.as_slice()) {
                    self.finish(Err(Error::NotManaged))
                } else {
                    self.ask(
                        ProcOp::Assign { stage: AssignStage::CheckingPolicy, pid, cgroup },
                        Call::GetPolicy { pid },
                    )
                }
            },
            (AssignStage::CheckingPolicy, Reply::Policy(policy)) => {
                if !policy.is_other() {
                    self.finish(Err(Error::PolicyConflict))
                } else if self.is_managed(pid) {
                    let call = Call::AssignPid { name: copy_bytes(cgroup.as_slice()), pid };
                    self.ask(ProcOp::Assign { stage: AssignStage::Assigning, pid, cgroup }, call)
                } else {
                    self.ask(
                        ProcOp::Assign { stage: AssignStage::Registering, pid, cgroup },
                        Call::GetPidCgroup { pid },
                    )
                }
            },
            (AssignStage::Registering, Reply::Cgroup(current)) => {
                self.register(pid, current);
                let call = Call::AssignPid { name: copy_bytes(cgroup.as_slice()), pid };
                self.ask(ProcOp::Assign { stage: AssignStage::Assigning, pid, cgroup }, call)
            },
            (AssignStage::Assigning, Reply::Done) => self.finish(Ok(())),
            _ => self.finish(Err(Error::PlatformError)),
        }
    }

    fn resume_policy(
        &mut self,
        cgroups: &CgroupManager,
        stage: PolicyStage,
        pid: u32,
        policy: SchedPolicy,
        reply: Reply,
    ) -> (step: Step)
        ensures
            final(self)@ == old(self)@.next_policy(cgroups@, stage, pid, policy, reply@).0,
            step@ == old(self)@.next_policy(cgroups@, stage, pid, policy, reply@).1,
    {
        match (stage, reply) {
            (PolicyStage::Registering, Reply::Cgroup(current)) => {
                self.register(pid, current);
                self.policy_rules(pid, policy)
            },
            (PolicyStage::CheckingCgroup, Reply::Cgroup(current)) => {
                if cgroups.is_managed_path(current.as_slice()) {
                    self.ask(
                        ProcOp::Policy { stage: PolicyStage::Applying, pid, policy },
                        Call::SetPolicy { pid, policy },
                    )
                } else {
                    self.finish(Err(Error::PolicyConflict))
                }
            },
            (PolicyStage::Applying, Reply::Done) => self.finish(Ok(())),
            _ => self.finish(Err(Error::PlatformError)),
        }
    }

    fn resume_teardown(&mut self, stage: RestoreStage) -> (step: Step)
        requires
            old(self)@.procs.len() > 0,
        ensures
            final(self)@ == old(self)@.next_teardown(stage).0,
            step@ == old(self)@.next_teardown(stage).1,
    {
        match stage {
            RestoreStage::RestoringPolicy => {
                let last = self.procs.len() - 1;
                let pid = self.procs[last].pid;
                let call = Call::AssignPid {
                    name: copy_bytes(self.procs[last].data.original_cgroup()),
                    pid,
                };
                self.ask(ProcOp::Teardown { stage: RestoreStage::RestoringCgroup }, call)
            },
            RestoreStage::RestoringCgroup => {
                self.procs.pop();
                assert(self@.procs =~= old(self)@.procs.drop_last());
                self.restore_next()
            },
        }
    }

    /// Resumes the operation in progress with the reply of the platform to
    /// the call that the operation last asked for.
    pub fn resume(&mut self, cgroups: &CgroupManager, reply: Reply) -> (step: Step)
        requires
            old(self)@.wf(),
        ensures
            final(self)@ == old(self)@.next(cgroups@, reply@).0,
            step@ == old(self)@.next(cgroups@, reply@).1,
            final(self)@.wf(),
            forall|call: CallView, pid: u32|
                step@ == StepView::Call(call) && #[trigger] call.moves(pid)
                    ==> final(self)@.registered(pid),
    {
        proof {
            lemma_proc_next_wf(self@, cgroups@, reply@);
            crate::manager::laws::law_moves_registered_only(self@, cgroups@, reply@);
        }
        let mut op = ProcOp::Idle;
        core::mem::swap(&mut op, &mut self.op);
        assert(self@.procs =~= old(self)@.procs);
        match op {
            ProcOp::Idle => self.finish(Ok(())),
            ProcOp::Assign { stage, pid, cgroup } => self.resume_assign(
                cgroups,
                stage,
                pid,
                cgroup,
                reply,
            ),
            ProcOp::Policy { stage, pid, policy } => self.resume_policy(
                cgroups,
                stage,
                pid,
                policy,
                reply,
            ),
            ProcOp::Teardown { stage } => self.resume_teardown(stage),
        }
    }
}

/// Whether `pid` is among `pids`.
pub fn contains_pid(pids: &Vec<u32>, pid: u32) -> (found: bool)
    ensures
        found == pids@.contains(pid),
{
    let mut i: usize = 0;
    while i < pids.len()
        invariant
            i <= pids@.len(),
            forall|j: int| 0 <= j < i ==> pids@[j] != pid,
        decreases pids@.len() - i,
    {
        if pids[i] == pid {
            return true;
        }
        i += 1;
    }
    false
}

proof fn lemma_filter_push(s: Seq<ProcEntry>, e: ProcEntry, keep: spec_fn(ProcEntry) -> bool)
    ensures
        s.push(e).filter(keep) == if keep(e) {
            s.filter(keep).push(e)
        } else {
            s.filter(keep)
        },
{
    reveal(Seq::filter);
    assert(s.push(e).drop_last() =~= s);
}

/// The place of a registered process is a place of the registry, and the
/// only one with that process.
pub proof fn lemma_proc_index(m: ProcsView, pid: u32)
    requires
        m.registry_wf(),
        m.registered(pid),
    ensures
        0 <= m.index_of(pid) < m.procs.len(),
        m.procs[m.index_of(pid)].pid == pid,
        forall|i: int|
            0 <= i < m.procs.len() && (#[trigger] m.procs[i]).pid == pid ==> i == m.index_of(pid),
{
    let k = m.index_of(pid);
    assert forall|i: int| 0 <= i < m.procs.len() && (#[trigger] m.procs[i]).pid == pid implies i
        == k by {
        if i < k {
            assert(m.procs[i].pid != m.procs[k].pid);
        } else if k < i {
            assert(m.procs[k].pid != m.procs[i].pid);
        }
    }
}

proof fn lemma_same_registry(a: ProcsView, b: ProcsView)
    requires
        a.procs == b.procs,
    ensures
        a.registry_wf() == b.registry_wf(),
        forall|pid: u32| a.registered(pid) == b.registered(pid),
{
}

proof fn lemma_with_wf(m: ProcsView, pid: u32, cgroup: Seq<u8>)
    requires
        m.registry_wf(),
        !m.registered(pid),
    ensures
        m.with(pid, cgroup).registry_wf(),
        m.with(pid, cgroup).registered(pid),
        forall|other: u32| m.registered(other) ==> m.with(pid, cgroup).registered(other),
{
    let after = m.with(pid, cgroup);
    assert(after.procs[m.procs.len() as int].pid == pid);
    assert forall|i: int, j: int| 0 <= i < j < after.procs.len() implies (
    #[trigger] after.procs[i]).pid != (#[trigger] after.procs[j]).pid by {
        assert(after.procs[i] == m.procs[i]);
        if j < m.procs.len() {
            assert(after.procs[j] == m.procs[j]);
        }
    }
    assert forall|other: u32| m.registered(other) implies after.registered(other) by {
        let i = choose|i: int| 0 <= i < m.procs.len() && (#[trigger] m.procs[i]).pid == other;
        assert(after.procs[i] == m.procs[i]);
    }
}

proof fn lemma_drop_last_wf(m: ProcsView)
    requires
        m.registry_wf(),
        m.procs.len() > 0,
    ensures
        (ProcsView { procs: m.procs.drop_last(), ..m }).registry_wf(),
{
    let rest = ProcsView { procs: m.procs.drop_last(), ..m };
    assert forall|i: int, j: int| 0 <= i < j < rest.procs.len() implies (
    #[trigger] rest.procs[i]).pid != (#[trigger] rest.procs[j]).pid by {
        assert(rest.procs[i] == m.procs[i]);
        assert(rest.procs[j] == m.procs[j]);
    }
}

proof fn lemma_policy_rules_wf(m: ProcsView, pid: u32, policy: SchedPolicy)
    requires
        m.registry_wf(),
        m.registered(pid),
    ensures
        m.policy_rules(pid, policy).0.wf(),
{
    lemma_same_registry(m, m.policy_rules(pid, policy).0);
}

proof fn lemma_begin_policy_wf(m: ProcsView, pid: u32, policy: SchedPolicy)
    requires
        m.wf(),
    ensures
        m.begin_policy(pid, policy).0.wf(),
{
    if m.registered(pid) {
        lemma_policy_rules_wf(m, pid, policy);
    } else {
        lemma_same_registry(m, m.begin_policy(pid, policy).0);
    }
}

proof fn lemma_restore_next_wf(m: ProcsView)
    requires
        m.registry_wf(),
    ensures
        m.restore_next().0.wf(),
{
    lemma_same_registry(m, m.restore_next().0);
}

proof fn lemma_shutdown_wf(m: ProcsView)
    requires
        m.wf(),
    ensures
        m.begin_shutdown().0.wf(),
{
    if m.restore_on_exit {
        lemma_restore_next_wf(m);
    }
}

/// Every step of the process manager leaves it well formed.
pub proof fn lemma_proc_next_wf(m: ProcsView, cgroups: CgroupsView, reply: ReplyView)
    requires
        m.wf(),
    ensures
        m.next(cgroups, reply).0.wf(),
{
    let after = m.next(cgroups, reply).0;
    match m.op {
        ProcOpView::Idle => {},
        ProcOpView::Assign { stage, pid, cgroup } => {
            match (stage, reply) {
                (AssignStage::Registering, ReplyView::Cgroup(current)) => {
                    lemma_with_wf(m, pid, current);
                    lemma_same_registry(m.with(pid, current), after);
                },
                _ => {
                    lemma_same_registry(m, after);
                },
            }
        },
        ProcOpView::Policy { stage, pid, policy } => {
            match (stage, reply) {
                (PolicyStage::Registering, ReplyView::Cgroup(current)) => {
                    lemma_with_wf(m, pid, current);
                    lemma_policy_rules_wf(m.with(pid, current), pid, policy);
                },
                _ => {
                    lemma_same_registry(m, after);
                },
            }
        },
        ProcOpView::Teardown { stage } => {
            match stage {
                RestoreStage::RestoringPolicy => {
                    lemma_same_registry(m, after);
                },
                RestoreStage::RestoringCgroup => {
                    lemma_drop_last_wf(m);
                    lemma_restore_next_wf(ProcsView { procs: m.procs.drop_last(), ..m });
                },
            }
        },
    }
}

/// What is left of a registry when the entries of dead processes are taken
/// out: entries of the registry, each of a process that is not dead, and
/// all of those.
proof fn lemma_survivors(procs: Seq<ProcEntry>, dead: Seq<u32>)
    requires
        distinct_pids(procs),
    ensures
        distinct_pids(procs.filter(survives(dead))),
        forall|i: int|
            0 <= i < procs.filter(survives(dead)).len() ==> procs.contains(
                #[trigger] procs.filter(survives(dead))[i],
            ) && !dead.contains(procs.filter(survives(dead))[i].pid),
        forall|i: int|
            0 <= i < procs.len() && !dead.contains(procs[i].pid) ==> procs.filter(
                survives(dead),
            ).contains(#[trigger] procs[i]),
    decreases procs.len(),
{
    reveal(Seq::filter);
    let kept = procs.filter(survives(dead));
    if procs.len() > 0 {
        let init = procs.drop_last();
        let last = procs.last();
        let kept_init = init.filter(survives(dead));
        assert(distinct_pids(init)) by {
            assert forall|i: int, j: int| 0 <= i < j < init.len() implies (#[trigger] init[i]).pid
                != (#[trigger] init[j]).pid by {
                assert(init[i] == procs[i]);
                assert(init[j] == procs[j]);
            }
        }
        lemma_survivors(init, dead);
        assert forall|i: int| 0 <= i < kept_init.len() implies procs.contains(
            #[trigger] kept_init[i],
        ) && kept_init[i].pid != last.pid by {
            assert(init.contains(kept_init[i]));
            let k = choose|k: int| 0 <= k < init.len() && init[k] == kept_init[i];
            assert(procs[k] == init[k]);
            assert(procs[k].pid != procs[procs.len() - 1].pid);
        }
        assert forall|i: int| 0 <= i < kept.len() implies procs.contains(#[trigger] kept[i])
            && !dead.contains(kept[i].pid) by {
            if i < kept_init.len() {
                assert(kept[i] == kept_init[i]);
            } else {
                assert(kept[i] == last);
                assert(procs[procs.len() - 1] == last);
            }
        }
        assert forall|i: int, j: int| 0 <= i < j < kept.len() implies (#[trigger] kept[i]).pid != (
        #[trigger] kept[j]).pid by {
            assert(kept[i] == kept_init[i]);
            if j < kept_init.len() {
                assert(kept[j] == kept_init[j]);
            } else {
                assert(kept[j] == last);
            }
        }
        assert forall|i: int| 0 <= i < procs.len() && !dead.contains(
            procs[i].pid,
        ) implies kept.contains(#[trigger] procs[i]) by {
            if i < init.len() {
                assert(init[i] == procs[i]);
                assert(kept_init.contains(init[i]));
                let k = choose|k: int| 0 <= k < kept_init.len() && kept_init[k] == init[i];
                assert(kept[k] == kept_init[k]);
            } else {
                assert(kept[kept.len() - 1] == last);
            }
        }
    }
}

/// Forgetting dead processes leaves the registry well formed, with exactly
/// the processes that are not dead, each remembered as before.
pub proof fn lemma_without(m: ProcsView, dead: Seq<u32>)
    requires
        m.registry_wf(),
    ensures
        m.without(dead).registry_wf(),
        forall|pid: u32|
            m.without(dead).registered(pid) <==> m.registered(pid) && !dead.contains(pid),
        forall|pid: u32| #[trigger]
            m.without(dead).registered(pid) ==> m.without(dead).original_cgroup(pid)
                == m.original_cgroup(pid),
{
    let after = m.without(dead);
    lemma_survivors(m.procs, dead);
    assert forall|pid: u32| after.registered(pid) implies m.registered(pid) && !dead.contains(
        pid,
    ) && after.original_cgroup(pid) == m.original_cgroup(pid) by {
        lemma_proc_index(after, pid);
        let i = after.index_of(pid);
        assert(m.procs.contains(after.procs[i]));
        let k = choose|k: int| 0 <= k < m.procs.len() && m.procs[k] == after.procs[i];
        assert(m.procs[k].pid == pid);
        lemma_proc_index(m, pid);
    }
    assert forall|pid: u32| m.registered(pid) && !dead.contains(pid) implies after.registered(
        pid,
    ) by {
        let k = choose|k: int| 0 <= k < m.procs.len() && (#[trigger] m.procs[k]).pid == pid;
        assert(after.procs.contains(m.procs[k]));
        let i = choose|i: int| 0 <= i < after.procs.len() && after.procs[i] == m.procs[k];
        assert(after.procs[i].pid == pid);
    }
}

} // verus!
