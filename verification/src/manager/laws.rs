//! What holds of the reservation manager at every step.
use vstd::prelude::*;
use crate::error::Error;
use crate::manager::model::{
    CgroupEntry,
    CgroupOpView,
    CgroupsView,
    CreateStage,
    DestroyStage,
    UpdateStage,
};
use crate::manager::proc::{
    lemma_proc_next_wf,
    AssignStage,
    PolicyStage,
    ProcEntry,
    ProcOpView,
    ProcsView,
};
use crate::parser::is_cgroup_name;
use crate::policy::SchedPolicy;
use crate::platform::{CallView, ReplyView, StepView};
use crate::reservation::{admissible, admissible_in_place, lemma_budget_remove, Reservation};

verus! {

/// The place of a managed name is a place of the registry, and the only one
/// with that name.
pub proof fn lemma_index_of(m: CgroupsView, name: Seq<u8>)
    requires
        m.registry_wf(),
        m.manages(name),
    ensures
        0 <= m.index_of(name) < m.cgroups.len(),
        m.cgroups[m.index_of(name)].name == name,
        forall|i: int|
            0 <= i < m.cgroups.len() && (#[trigger] m.cgroups[i]).name == name ==> i == m.index_of(
                name,
            ),
{
    let k = m.index_of(name);
    assert forall|i: int| 0 <= i < m.cgroups.len() && (#[trigger] m.cgroups[i]).name
        == name implies i == k by {
        if i < k {
            assert(m.cgroups[i].name != m.cgroups[k].name);
        } else if k < i {
            assert(m.cgroups[k].name != m.cgroups[i].name);
        }
    }
}

/// Whatever the operation, `manages` looks at the registry alone.
pub proof fn lemma_manages_same(a: CgroupsView, b: CgroupsView, name: Seq<u8>)
    requires
        a.cgroups == b.cgroups,
    ensures
        a.manages(name) == b.manages(name),
        a.index_of(name) == b.index_of(name),
        a.registry_wf() == b.registry_wf(),
{
}

pub proof fn lemma_teardown_next_wf(m: CgroupsView)
    requires
        m.registry_wf(),
    ensures
        m.teardown_next().0.wf(),
{
}

proof fn lemma_teardown_drop_wf(m: CgroupsView)
    requires
        m.registry_wf(),
        m.cgroups.len() > 0,
    ensures
        m.teardown_drop().0.wf(),
{
    let rest = CgroupsView { cgroups: m.cgroups.drop_last(), ..m };
    assert(rest.registry_wf()) by {
        assert forall|i: int, j: int| 0 <= i < j < rest.cgroups.len() implies (
        #[trigger] rest.cgroups[i]).name != (#[trigger] rest.cgroups[j]).name by {
            assert(rest.cgroups[i] == m.cgroups[i]);
            assert(rest.cgroups[j] == m.cgroups[j]);
        }
        assert forall|i: int| 0 <= i < rest.cgroups.len() implies is_cgroup_name(
            (#[trigger] rest.cgroups[i]).name,
        ) && rest.cgroups[i].reservation.valid() by {
            assert(rest.cgroups[i] == m.cgroups[i]);
        }
    }
    lemma_teardown_next_wf(rest);
}

/// Each of the three operations begins in a state that is well formed.
pub proof fn lemma_begin_wf(m: CgroupsView, name: Seq<u8>, request: Reservation)
    requires
        m.wf(),
    ensures
        m.begin_create(name, request).0.wf(),
        m.begin_update(name, request).0.wf(),
        m.begin_destroy(name).0.wf(),
{
    lemma_read_next_wf(m, name, request, Seq::empty());
    lemma_manages_same(m, m.begin_destroy(name).0, name);
}

proof fn lemma_read_next_wf(
    m: CgroupsView,
    name: Seq<u8>,
    request: Reservation,
    readings: Seq<Reservation>,
)
    requires
        m.registry_wf(),
        readings.len() <= m.cgroups.len(),
    ensures
        is_cgroup_name(name) && !m.manages(name) ==> m.create_read_next(
            name,
            request,
            readings,
        ).0.wf(),
        m.manages(name) ==> m.update_read_next(name, request, readings).0.wf(),
{
    let c = m.create_read_next(name, request, readings).0;
    lemma_manages_same(m, c, name);
    let u = m.update_read_next(name, request, readings).0;
    lemma_manages_same(m, u, name);
}

proof fn lemma_registry_push(m: CgroupsView, name: Seq<u8>, request: Reservation)
    requires
        m.registry_wf(),
        is_cgroup_name(name),
        !m.manages(name),
        request.valid(),
    ensures
        (CgroupsView {
            cgroups: m.cgroups.push(CgroupEntry { name, reservation: request }),
            op: CgroupOpView::Idle,
        }).wf(),
{
    let after = CgroupsView {
        cgroups: m.cgroups.push(CgroupEntry { name, reservation: request }),
        op: CgroupOpView::Idle,
    };
    assert forall|i: int, j: int| 0 <= i < j < after.cgroups.len() implies (
    #[trigger] after.cgroups[i]).name != (#[trigger] after.cgroups[j]).name by {
        assert(after.cgroups[i] == m.cgroups[i]);
        if j < m.cgroups.len() {
            assert(after.cgroups[j] == m.cgroups[j]);
        }
    }
    assert forall|i: int| 0 <= i < after.cgroups.len() implies is_cgroup_name(
        (#[trigger] after.cgroups[i]).name,
    ) && after.cgroups[i].reservation.valid() by {
        if i < m.cgroups.len() {
            assert(after.cgroups[i] == m.cgroups[i]);
        }
    }
}

proof fn lemma_registry_update(m: CgroupsView, name: Seq<u8>, request: Reservation)
    requires
        m.registry_wf(),
        m.manages(name),
        request.valid(),
    ensures
        (CgroupsView {
            cgroups: m.cgroups.update(
                m.index_of(name),
                CgroupEntry { name, reservation: request },
            ),
            op: CgroupOpView::Idle,
        }).wf(),
{
    lemma_index_of(m, name);
    let k = m.index_of(name);
    let after = CgroupsView {
        cgroups: m.cgroups.update(k, CgroupEntry { name, reservation: request }),
        op: CgroupOpView::Idle,
    };
    assert forall|i: int, j: int| 0 <= i < j < after.cgroups.len() implies (
    #[trigger] after.cgroups[i]).name != (#[trigger] after.cgroups[j]).name by {
        assert(after.cgroups[i].name == m.cgroups[i].name);
        assert(after.cgroups[j].name == m.cgroups[j].name);
    }
    assert forall|i: int| 0 <= i < after.cgroups.len() implies is_cgroup_name(
        (#[trigger] after.cgroups[i]).name,
    ) && after.cgroups[i].reservation.valid() by {
        if i != k {
            assert(after.cgroups[i] == m.cgroups[i]);
        }
    }
}

proof fn lemma_registry_remove(m: CgroupsView, name: Seq<u8>)
    requires
        m.registry_wf(),
        m.manages(name),
    ensures
        (CgroupsView { cgroups: m.cgroups.remove(m.index_of(name)), op: CgroupOpView::Idle }).wf(),
        !(CgroupsView {
            cgroups: m.cgroups.remove(m.index_of(name)),
            op: CgroupOpView::Idle,
        }).manages(name),
{
    lemma_index_of(m, name);
    let k = m.index_of(name);
    let after = CgroupsView { cgroups: m.cgroups.remove(k), op: CgroupOpView::Idle };
    assert forall|i: int| 0 <= i < after.cgroups.len() implies (#[trigger] after.cgroups[i])
        == m.cgroups[if i < k {
        i
    } else {
        i + 1
    }] by {}
    assert forall|i: int, j: int| 0 <= i < j < after.cgroups.len() implies (
    #[trigger] after.cgroups[i]).name != (#[trigger] after.cgroups[j]).name by {
        let a = if i < k {
            i
        } else {
            i + 1
        };
        let b = if j < k {
            j
        } else {
            j + 1
        };
        assert(after.cgroups[i] == m.cgroups[a]);
        assert(after.cgroups[j] == m.cgroups[b]);
    }
    assert forall|i: int| 0 <= i < after.cgroups.len() implies is_cgroup_name(
        (#[trigger] after.cgroups[i]).name,
    ) && after.cgroups[i].reservation.valid() by {
        let a = if i < k {
            i
        } else {
            i + 1
        };
        assert(after.cgroups[i] == m.cgroups[a]);
    }
    assert(!after.manages(name)) by {
        if after.manages(name) {
            let i = choose|i: int|
                0 <= i < after.cgroups.len() && (#[trigger] after.cgroups[i]).name == name;
            let a = if i < k {
                i
            } else {
                i + 1
            };
            assert(after.cgroups[i] == m.cgroups[a]);
            assert(m.cgroups[a].name == name);
        }
    }
}

/// Every step of the manager leaves it well formed.
pub proof fn lemma_next_wf(m: CgroupsView, reply: ReplyView)
    requires
        m.wf(),
    ensures
        m.next(reply).0.wf(),
{
    let after = m.next(reply).0;
    match m.op {
        CgroupOpView::Idle => {},
        CgroupOpView::Create { stage, name, request, readings, runtime } => {
            match stage {
                CreateStage::Reading => {
                    match (runtime, reply) {
                        (Some(runtime_us), ReplyView::Number(period_us)) => {
                            lemma_read_next_wf(
                                m,
                                name,
                                request,
                                readings.push(Reservation { runtime_us, period_us }),
                            );
                        },
                        _ => {
                            lemma_manages_same(m, after, name);
                        },
                    }
                },
                CreateStage::SettingRuntime => {
                    if reply is Done {
                        lemma_registry_push(m, name, request);
                    } else {
                        lemma_manages_same(m, after, name);
                    }
                },
                _ => {
                    lemma_manages_same(m, after, name);
                },
            }
        },
        CgroupOpView::Update { stage, name, request, readings, runtime } => {
            match stage {
                UpdateStage::Reading => {
                    match (runtime, reply) {
                        (Some(runtime_us), ReplyView::Number(period_us)) => {
                            lemma_read_next_wf(
                                m,
                                name,
                                request,
                                readings.push(Reservation { runtime_us, period_us }),
                            );
                        },
                        _ => {
                            lemma_manages_same(m, after, name);
                        },
                    }
                },
                UpdateStage::SettingRuntime => {
                    if reply is Done {
                        lemma_registry_update(m, name, request);
                    } else {
                        lemma_manages_same(m, after, name);
                    }
                },
                _ => {
                    lemma_manages_same(m, after, name);
                },
            }
        },
        CgroupOpView::Destroy { stage, name } => {
            if stage == DestroyStage::Deleting && reply is Done {
                lemma_registry_remove(m, name);
            } else {
                lemma_manages_same(m, after, name);
            }
        },
        CgroupOpView::Teardown { stage, pids, next } => {
            lemma_teardown_drop_wf(m);
        },
    }
}

proof fn lemma_readings_extended(m: CgroupsView, readings: Seq<Reservation>, r: Reservation)
    requires
        readings.len() < m.cgroups.len(),
        readings == m.reservations().take(readings.len() as int),
        m.cgroups[readings.len() as int].reservation == r,
    ensures
        readings.push(r) == m.reservations().take(readings.len() as int + 1),
{
    assert(readings.push(r) =~= m.reservations().take(readings.len() as int + 1));
}

/// The budget is an invariant of the manager.  As long as the platform
/// shows for every managed cgroup the reservation that the registry holds,
/// no step takes the reservations in the registry beyond 0.95 of the
/// processor.
pub proof fn law_budget_kept(m: CgroupsView, reply: ReplyView)
    requires
        m.wf(),
        m.in_budget(),
        m.readings_true(),
        m.reply_true(reply),
    ensures
        m.next(reply).0.in_budget(),
        m.next(reply).0.readings_true(),
{
    let after = m.next(reply).0;
    match m.op {
        CgroupOpView::Idle => {
            assert(after.reservations() =~= m.reservations());
        },
        CgroupOpView::Create { stage, name, request, readings, runtime } => {
            if stage == CreateStage::SettingRuntime && reply is Done {
                assert(readings =~= m.reservations());
                assert(after.reservations() =~= readings.push(request));
            } else {
                assert(after.reservations() =~= m.reservations());
                if stage == CreateStage::Reading {
                    match (runtime, reply) {
                        (Some(runtime_us), ReplyView::Number(period_us)) => {
                            lemma_readings_extended(
                                m,
                                readings,
                                Reservation { runtime_us, period_us },
                            );
                        },
                        _ => {},
                    }
                }
            }
        },
        CgroupOpView::Update { stage, name, request, readings, runtime } => {
            if stage == UpdateStage::SettingRuntime && reply is Done {
                lemma_index_of(m, name);
                assert(readings =~= m.reservations());
                assert(after.reservations() =~= readings.update(m.index_of(name), request));
            } else {
                assert(after.reservations() =~= m.reservations());
                if stage == UpdateStage::Reading {
                    match (runtime, reply) {
                        (Some(runtime_us), ReplyView::Number(period_us)) => {
                            lemma_readings_extended(
                                m,
                                readings,
                                Reservation { runtime_us, period_us },
                            );
                        },
                        _ => {},
                    }
                }
            }
        },
        CgroupOpView::Destroy { stage, name } => {
            if stage == DestroyStage::Deleting && reply is Done {
                lemma_index_of(m, name);
                assert(after.reservations() =~= m.reservations().remove(m.index_of(name)));
                lemma_budget_remove(m.reservations(), m.index_of(name));
            } else {
                assert(after.reservations() =~= m.reservations());
            }
        },
        CgroupOpView::Teardown { stage, pids, next } => {
            let last = m.cgroups.len() - 1;
            if after.cgroups.len() == m.cgroups.len() {
                assert(after.reservations() =~= m.reservations());
            } else {
                assert(after.reservations() =~= m.reservations().remove(last));
                lemma_budget_remove(m.reservations(), last);
            }
        },
    }
}

/// The budget holds of a manager of no cgroups, and beginning an operation
/// does not touch it.
pub proof fn law_budget_kept_at_start(m: CgroupsView, name: Seq<u8>, request: Reservation)
    requires
        m.wf(),
        m.in_budget(),
    ensures
        m.begin_create(name, request).0.in_budget(),
        m.begin_create(name, request).0.readings_true(),
        m.begin_update(name, request).0.in_budget(),
        m.begin_update(name, request).0.readings_true(),
        m.begin_destroy(name).0.in_budget(),
        m.begin_destroy(name).0.readings_true(),
        m.teardown_next().0.in_budget(),
        m.teardown_next().0.readings_true(),
{
    let empty = Seq::<Reservation>::empty();
    assert(m.reservations().take(0) =~= empty);
    assert(m.begin_create(name, request).0.reservations() =~= m.reservations());
    assert(m.begin_update(name, request).0.reservations() =~= m.reservations());
    assert(m.begin_destroy(name).0.reservations() =~= m.reservations());
    assert(m.teardown_next().0.reservations() =~= m.reservations());
    if m.cgroups.len() == 0 {
        if is_cgroup_name(name) && !m.manages(name) && admissible(empty, request) {
            assert(m.begin_create(name, request).0.op matches CgroupOpView::Create {
                readings,
                ..
            } && readings == empty);
        }
    }
}

/// The registry of a manager of no cgroups is within the budget.
pub proof fn law_budget_of_nothing(m: CgroupsView)
    requires
        m.cgroups.len() == 0,
    ensures
        m.in_budget(),
{
    assert(m.reservations() =~= Seq::<Reservation>::empty());
}

/// A cgroup enters the registry only through the admission test: when
/// `create` ends well, the reservation it was asked for was admissible
/// beside what was read of the managed cgroups, and `update` likewise with
/// the reservation in the place of the one it changes.
pub proof fn law_admitted(m: CgroupsView, reply: ReplyView)
    requires
        m.wf(),
        m.next(reply).1 == StepView::Done(Ok(())),
    ensures
        match m.op {
            CgroupOpView::Create { name, request, readings, .. } => admissible(readings, request)
                && m.next(reply).0.cgroups == m.cgroups.push(
                CgroupEntry { name, reservation: request },
            ),
            CgroupOpView::Update { name, request, readings, .. } => admissible_in_place(
                readings,
                m.index_of(name),
                request,
            ) && m.next(reply).0.cgroups == m.cgroups.update(
                m.index_of(name),
                CgroupEntry { name, reservation: request },
            ),
            _ => true,
        },
{
}

/// `destroy` ends well exactly when the platform has deleted the cgroup,
/// and the cgroup is then no longer managed.  Until then the registry is
/// as it was.
pub proof fn law_destroy(m: CgroupsView, reply: ReplyView)
    requires
        m.wf(),
        m.op is Destroy,
    ensures
        m.next(reply).1 == StepView::Done(Ok(())) <==> m.op->Destroy_stage == DestroyStage::Deleting
            && reply is Done,
        m.next(reply).1 == StepView::Done(Ok(())) ==> !m.next(reply).0.manages(
            m.op->Destroy_name,
        ),
        m.next(reply).1 != StepView::Done(Ok(())) ==> m.next(reply).0.cgroups == m.cgroups,
        forall|call: CallView|
            m.next(reply).1 == StepView::Call(call) ==> call == (CallView::DeleteCgroup {
                name: m.op->Destroy_name,
            }),
{
    let name = m.op->Destroy_name;
    if m.op->Destroy_stage == DestroyStage::Deleting && reply is Done {
        lemma_registry_remove(m, name);
    }
}

/// Until `create` has passed the admission test it only reads: the
/// registry stays as it is, and the one call that is no reading is the
/// creation of the cgroup, asked for when the test has admitted the
/// request.  A request that the test refuses ends the operation there.
pub proof fn law_create_reads_first(m: CgroupsView, reply: ReplyView)
    requires
        m.wf(),
        m.op matches CgroupOpView::Create { stage: CreateStage::Reading, .. },
    ensures
        m.next(reply).0.cgroups == m.cgroups,
        forall|call: CallView|
            m.next(reply).1 == StepView::Call(call) ==> call.reads_only() || (call == (
            CallView::CreateCgroup { name: m.op->Create_name }) && m.next(reply).0.op is Create
                && admissible(
                m.next(reply).0.op->Create_readings,
                m.next(reply).0.op->Create_request,
            )),
        m.next(reply).1 == StepView::Done(Err(Error::InsufficientBudget)) ==> reply is Number
            && m.op->Create_runtime is Some && !admissible(
            m.op->Create_readings.push(
                Reservation {
                    runtime_us: m.op->Create_runtime.unwrap(),
                    period_us: reply->Number_0,
                },
            ),
            m.op->Create_request,
        ),
        m.next(reply).1 != StepView::Done(Ok(())),
{
}

/// The same of the beginning of `create`, where nothing was read yet.
pub proof fn law_create_begins_reading(m: CgroupsView, name: Seq<u8>, request: Reservation)
    requires
        m.wf(),
    ensures
        m.begin_create(name, request).0.cgroups == m.cgroups,
        forall|call: CallView|
            m.begin_create(name, request).1 == StepView::Call(call) ==> call.reads_only() || (call
                == (CallView::CreateCgroup { name }) && admissible(Seq::empty(), request)),
        m.begin_create(name, request).1 == StepView::Done(Err(Error::AlreadyExists))
            <==> is_cgroup_name(name) && m.manages(name),
        m.begin_create(name, request).1 == StepView::Done(Err(Error::ParseError))
            <==> !is_cgroup_name(name),
        m.begin_create(name, request).1 == StepView::Done(Err(Error::InsufficientBudget))
            <==> is_cgroup_name(name) && !m.manages(name) && m.cgroups.len() == 0 && !admissible(
            Seq::empty(),
            request,
        ),
{
}

/// An operation other than the teardown changes the registry only when it
/// ends well: one that fails, or is not done yet, leaves the registry as
/// it was.
pub proof fn law_registry_changes_on_success(m: CgroupsView, reply: ReplyView)
    requires
        m.wf(),
        !(m.op is Teardown),
    ensures
        m.next(reply).1 != StepView::Done(Ok(())) ==> m.next(reply).0.cgroups == m.cgroups,
{
}

/// The teardown ends with a manager of no cgroups, and it never fails.
pub proof fn law_teardown(m: CgroupsView, reply: ReplyView)
    requires
        m.wf(),
        m.op is Teardown,
    ensures
        m.next(reply).1 is Done ==> m.next(reply).1 == StepView::Done(Ok(()))
            && m.next(reply).0.cgroups.len() == 0,
        m.next(reply).1 is Call ==> m.next(reply).0.op is Teardown,
        m.next(reply).0.cgroups == m.cgroups || m.next(reply).0.cgroups == m.cgroups.drop_last(),
{
}

/// The process manager moves no process that it has not registered:
/// whenever a step asks the platform to change the policy of a process or
/// the cgroup it is in, the process is in the registry, with the cgroup it
/// came from.
pub proof fn law_moves_registered_only(m: ProcsView, cgroups: CgroupsView, reply: ReplyView)
    requires
        m.wf(),
    ensures
        forall|call: CallView, pid: u32|
            m.next(cgroups, reply).1 == StepView::Call(call) && #[trigger] call.moves(pid)
                ==> m.next(cgroups, reply).0.registered(pid),
{
    lemma_proc_next_wf(m, cgroups, reply);
    let after = m.next(cgroups, reply).0;
    match m.op {
        ProcOpView::Teardown { stage } => {
            assert(after.procs.len() > 0 ==> after.procs[after.procs.len() - 1]
                == after.procs.last());
        },
        _ => {},
    }
}

/// The same of the first step of each operation.
pub proof fn law_begins_registered_only(m: ProcsView, pid: u32, cgroup: Seq<u8>, policy: SchedPolicy)
    requires
        m.wf(),
    ensures
        forall|call: CallView, p: u32|
            m.begin_assign(pid, cgroup).1 == StepView::Call(call) ==> !#[trigger] call.moves(p),
        forall|call: CallView, p: u32|
            m.begin_policy(pid, policy).1 == StepView::Call(call) && #[trigger] call.moves(p)
                ==> m.begin_policy(pid, policy).0.registered(p),
        forall|call: CallView, p: u32|
            m.begin_shutdown().1 == StepView::Call(call) && #[trigger] call.moves(p)
                ==> m.begin_shutdown().0.registered(p),
{
    let after = m.begin_shutdown().0;
    assert(after.procs.len() > 0 ==> after.procs[after.procs.len() - 1] == after.procs.last());
    if m.registered(pid) {
        let begun = m.begin_policy(pid, policy).0;
        let i = m.index_of(pid);
        assert(begun.procs[i].pid == pid);
    }
}

/// A process is registered once, with the cgroup it was in when it was
/// first touched: a step adds at most the process that the operation is
/// about, and only if it was not registered; what is remembered of the
/// others stays.
pub proof fn law_registers_once(m: ProcsView, cgroups: CgroupsView, reply: ReplyView)
    requires
        m.wf(),
        m.op is Assign || m.op is Policy,
    ensures
        m.next(cgroups, reply).0.procs == m.procs || (reply is Cgroup && !m.registered(
            if m.op is Assign {
                m.op->Assign_pid
            } else {
                m.op->Policy_pid
            },
        ) && m.next(cgroups, reply).0.procs == m.procs.push(
            ProcEntry {
                pid: if m.op is Assign {
                    m.op->Assign_pid
                } else {
                    m.op->Policy_pid
                },
                original_cgroup: reply->Cgroup_0,
            },
        )),
{
}

/// What a change of policy asks of the platform is the policy that was
/// asked of it, for the process that it was asked for, and nothing else
/// that changes the system.  A real-time policy is set only when the
/// platform has shown the process to be in a managed cgroup.
pub proof fn law_policy_applied(m: ProcsView, cgroups: CgroupsView, reply: ReplyView)
    requires
        m.wf(),
        m.op is Policy,
    ensures
        forall|call: CallView|
            m.next(cgroups, reply).1 == StepView::Call(call) ==> call.reads_only() || call == (
            CallView::SetPolicy { pid: m.op->Policy_pid, policy: m.op->Policy_policy }),
        m.next(cgroups, reply).1 == StepView::Call(
            CallView::SetPolicy { pid: m.op->Policy_pid, policy: m.op->Policy_policy },
        ) ==> m.op->Policy_policy == SchedPolicy::Other || (reply is Cgroup && cgroups.manages_path(
            reply->Cgroup_0,
        )),
        m.next(cgroups, reply).1 == StepView::Done(Ok(())) <==> m.op->Policy_stage
            == PolicyStage::Applying && reply is Done,
{
}

/// Asking twice for the same policy is asking once: of a registered
/// process the second request changes nothing in the registry and hands
/// the platform the same calls as the first.
pub proof fn law_policy_repeated(m: ProcsView, pid: u32, policy: SchedPolicy)
    requires
        m.wf(),
        m.registered(pid),
    ensures
        m.begin_policy(pid, policy).0.procs == m.procs,
        m.begin_policy(pid, policy) == m.policy_rules(pid, policy),
        forall|cgroups: CgroupsView, reply: ReplyView|
            (#[trigger] m.begin_policy(pid, policy).0.next(cgroups, reply)).0.procs == m.procs,
{
}

/// A process is moved only into a cgroup that exists and is managed, and
/// only while its policy is the default one.
pub proof fn law_assign(m: ProcsView, cgroups: CgroupsView, reply: ReplyView)
    requires
        m.wf(),
        m.op is Assign,
    ensures
        forall|call: CallView|
            m.next(cgroups, reply).1 == StepView::Call(call) ==> call.reads_only() || call == (
            CallView::AssignPid { name: m.op->Assign_cgroup, pid: m.op->Assign_pid }),
        m.op->Assign_stage == AssignStage::CheckingExists ==> (m.next(cgroups, reply).1 is Call
            <==> reply == ReplyView::Flag(true) && cgroups.manages(m.op->Assign_cgroup)),
        m.op->Assign_stage == AssignStage::CheckingPolicy ==> (m.next(cgroups, reply).1 is Call
            <==> reply == ReplyView::Policy(SchedPolicy::Other)),
        m.next(cgroups, reply).1 == StepView::Done(Ok(())) <==> m.op->Assign_stage
            == AssignStage::Assigning && reply is Done,
{
}

/// The teardown of the process manager ends with a manager of no
/// processes, and it never fails.
pub proof fn law_restore(m: ProcsView, cgroups: CgroupsView, reply: ReplyView)
    requires
        m.wf(),
        m.op is Teardown,
    ensures
        m.next(cgroups, reply).1 is Done ==> m.next(cgroups, reply).1 == StepView::Done(Ok(()))
            && m.next(cgroups, reply).0.procs.len() == 0,
        m.begin_shutdown().1 is Done ==> m.begin_shutdown().0.procs.len() == 0,
{
}

/// `create` writes in order: once the platform has created the cgroup,
/// the period is set, then the runtime, and with the runtime in place the
/// cgroup is managed with the reservation that was asked for.
pub proof fn law_create_in_order(m: CgroupsView)
    requires
        m.wf(),
        m.op matches CgroupOpView::Create { stage: CreateStage::Creating, .. },
    ensures
        ({
            let name = m.op->Create_name;
            let request = m.op->Create_request;
            let first = m.next(ReplyView::Done);
            let second = first.0.next(ReplyView::Done);
            let third = second.0.next(ReplyView::Done);
            &&& first.1 == StepView::Call(
                CallView::SetPeriod { name, period_us: request.period_us },
            )
            &&& second.1 == StepView::Call(
                CallView::SetRuntime { name, runtime_us: request.runtime_us },
            )
            &&& third.1 == StepView::Done(Ok(()))
            &&& third.0.cgroups == m.cgroups.push(CgroupEntry { name, reservation: request })
            &&& third.0.manages(name)
            &&& third.0.op is Idle
        }),
{
    let name = m.op->Create_name;
    let request = m.op->Create_request;
    let third = m.next(ReplyView::Done).0.next(ReplyView::Done).0.next(ReplyView::Done);
    assert(third.0.cgroups[m.cgroups.len() as int].name == name);
}

/// A write of `create` that fails after the cgroup was created leads to
/// the deletion of the cgroup and then, however the deletion goes, to a
/// platform error; the registry is as it was.
pub proof fn law_create_rolls_back(m: CgroupsView, failure: ReplyView, last: ReplyView)
    requires
        m.wf(),
        m.op matches CgroupOpView::Create { stage: CreateStage::SettingPeriod, .. }
            || m.op matches CgroupOpView::Create { stage: CreateStage::SettingRuntime, .. },
        !(failure is Done),
    ensures
        m.next(failure).1 == StepView::Call(CallView::DeleteCgroup { name: m.op->Create_name }),
        m.next(failure).0.next(last).1 == StepView::Done(Err(Error::PlatformError)),
        m.next(failure).0.next(last).0.cgroups == m.cgroups,
        m.next(failure).0.next(last).0.op is Idle,
{
}

/// `update` writes in order: the runtime goes to zero, then the period is
/// set, then the runtime, and with the runtime in place the registry holds
/// the reservation that was asked for.
pub proof fn law_update_in_order(m: CgroupsView)
    requires
        m.wf(),
        m.op matches CgroupOpView::Update { stage: UpdateStage::Zeroing, .. },
    ensures
        ({
            let name = m.op->Update_name;
            let request = m.op->Update_request;
            let first = m.next(ReplyView::Done);
            let second = first.0.next(ReplyView::Done);
            let third = second.0.next(ReplyView::Done);
            &&& first.1 == StepView::Call(
                CallView::SetPeriod { name, period_us: request.period_us },
            )
            &&& second.1 == StepView::Call(
                CallView::SetRuntime { name, runtime_us: request.runtime_us },
            )
            &&& third.1 == StepView::Done(Ok(()))
            &&& third.0.cgroups == m.cgroups.update(
                m.index_of(name),
                CgroupEntry { name, reservation: request },
            )
            &&& third.0.op is Idle
        }),
{
}

/// A write of `update` that fails is undone: what went through is put
/// back to what was read of the cgroup before, the period before the
/// runtime, and the operation ends in a platform error with the registry
/// as it was.
pub proof fn law_update_rolls_back(m: CgroupsView, failure: ReplyView, a: ReplyView, b: ReplyView)
    requires
        m.wf(),
        m.op is Update,
        !(failure is Done),
    ensures
        ({
            let name = m.op->Update_name;
            let before = m.op->Update_readings[m.index_of(name)];
            let failed = m.next(failure);
            match m.op {
                CgroupOpView::Update { stage: UpdateStage::Zeroing, .. } => failed.1
                    == StepView::Done(Err(Error::PlatformError)),
                CgroupOpView::Update { stage: UpdateStage::SettingPeriod, .. } => {
                    &&& failed.1 == StepView::Call(
                        CallView::SetRuntime { name, runtime_us: before.runtime_us },
                    )
                    &&& failed.0.next(a).1 == StepView::Done(Err(Error::PlatformError))
                    &&& failed.0.next(a).0.cgroups == m.cgroups
                },
                CgroupOpView::Update { stage: UpdateStage::SettingRuntime, .. } => {
                    &&& failed.1 == StepView::Call(
                        CallView::SetPeriod { name, period_us: before.period_us },
                    )
                    &&& failed.0.next(a).1 == StepView::Call(
                        CallView::SetRuntime { name, runtime_us: before.runtime_us },
                    )
                    &&& failed.0.next(a).0.next(b).1 == StepView::Done(
                        Err(Error::PlatformError),
                    )
                    &&& failed.0.next(a).0.next(b).0.cgroups == m.cgroups
                },
                _ => true,
            }
        }),
{
    let name = m.op->Update_name;
    let failed = m.next(failure);
    lemma_manages_same(m, failed.0, name);
    lemma_manages_same(m, failed.0.next(a).0, name);
}

/// `destroy` writes in order: the runtime goes to zero, then the cgroup
/// is deleted.
pub proof fn law_destroy_in_order(m: CgroupsView, name: Seq<u8>)
    requires
        m.wf(),
        m.op is Idle,
        m.manages(name),
    ensures
        ({
            let first = m.begin_destroy(name);
            let second = first.0.next(ReplyView::Done);
            let third = second.0.next(ReplyView::Done);
            &&& first.1 == StepView::Call(CallView::SetRuntime { name, runtime_us: 0 })
            &&& second.1 == StepView::Call(CallView::DeleteCgroup { name })
            &&& third.1 == StepView::Done(Ok(()))
            &&& !third.0.manages(name)
            &&& third.0.cgroups == m.cgroups.remove(m.index_of(name))
        }),
{
    let first = m.begin_destroy(name);
    let second = first.0.next(ReplyView::Done);
    lemma_manages_same(m, first.0, name);
    lemma_manages_same(m, second.0, name);
    lemma_begin_wf(m, name, Reservation { runtime_us: 0, period_us: 0 });
    lemma_next_wf(first.0, ReplyView::Done);
    law_destroy(second.0, ReplyView::Done);
}

/// The reservation manager moves no process: it asks the platform to
/// change neither the policy of a process nor the cgroup it is in.
pub proof fn law_cgroups_move_nothing(m: CgroupsView, reply: ReplyView)
    ensures
        forall|call: CallView, pid: u32|
            m.next(reply).1 == StepView::Call(call) ==> !#[trigger] call.moves(pid),
        forall|call: CallView, pid: u32|
            m.teardown_next().1 == StepView::Call(call) ==> !#[trigger] call.moves(pid),
{
}

} // verus!
