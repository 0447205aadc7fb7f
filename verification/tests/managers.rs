use hcbs_manager::error::{Errno, Error};
use hcbs_manager::manager::facade::HCBSManager;
use hcbs_manager::manager::proc::ProcManager;
use hcbs_manager::manager::{strip_slashes, valid_cgroup_name, CgroupManager};
use hcbs_manager::platform::{Call, Reply, Step};
use hcbs_manager::policy::SchedPolicy;
use hcbs_manager::reservation::Reservation;

fn name(text: &str) -> Vec<u8> {
    text.as_bytes().to_vec()
}

fn r(runtime_us: u64, period_us: u64) -> Reservation {
    Reservation::new(runtime_us, period_us)
}

fn ask(call: Call) -> Step {
    Step::Call(call)
}

fn ok() -> Step {
    Step::Done(Ok(()))
}

fn fails(error: Error) -> Step {
    Step::Done(Err(error))
}

/// A manager of `g1` with half of the processor and `g2` with a tenth.
fn two_cgroups() -> CgroupManager {
    let mut cgroups = CgroupManager::new();
    assert_eq!(
        cgroups.create_cgroup(b"g1", r(50000, 100000)),
        ask(Call::CreateCgroup { name: name("g1") })
    );
    assert_eq!(
        cgroups.resume(Reply::Done),
        ask(Call::SetPeriod { name: name("g1"), period_us: 100000 })
    );
    assert_eq!(
        cgroups.resume(Reply::Done),
        ask(Call::SetRuntime { name: name("g1"), runtime_us: 50000 })
    );
    assert_eq!(cgroups.resume(Reply::Done), ok());
    assert_eq!(
        cgroups.create_cgroup(b"g2", r(10000, 100000)),
        ask(Call::GetRuntime { name: name("g1") })
    );
    assert_eq!(cgroups.resume(Reply::Number(50000)), ask(Call::GetPeriod { name: name("g1") }));
    assert_eq!(
        cgroups.resume(Reply::Number(100000)),
        ask(Call::CreateCgroup { name: name("g2") })
    );
    cgroups.resume(Reply::Done);
    cgroups.resume(Reply::Done);
    assert_eq!(cgroups.resume(Reply::Done), ok());
    assert!(cgroups.is_idle());
    cgroups
}

/// Answers the readings of the admission test as the registry has them.
fn read_all(cgroups: &mut CgroupManager, mut step: Step) -> Step {
    let mut index = 0;
    loop {
        match step {
            Step::Call(Call::GetRuntime { name }) => {
                assert_eq!(name, cgroups.name_at(index));
                step = cgroups.resume(Reply::Number(cgroups.reservation_at(index).runtime_us));
            }
            Step::Call(Call::GetPeriod { name }) => {
                assert_eq!(name, cgroups.name_at(index));
                step = cgroups.resume(Reply::Number(cgroups.reservation_at(index).period_us));
                index += 1;
            }
            other => return other,
        }
    }
}

#[test]
fn a_new_manager_manages_nothing() {
    let cgroups = CgroupManager::new();
    assert!(cgroups.is_idle());
    assert_eq!(cgroups.len(), 0);
    assert!(!cgroups.is_managed_cgroup(b"g1"));
    assert_eq!(cgroups.position(b"g1"), None);
}

#[test]
fn create_registers_when_the_last_write_went_through() {
    let cgroups = two_cgroups();
    assert_eq!(cgroups.len(), 2);
    assert_eq!(cgroups.name_at(0), b"g1");
    assert_eq!(cgroups.name_at(1), b"g2");
    assert_eq!(cgroups.reservation_at(0), r(50000, 100000));
    assert_eq!(cgroups.reservation_at(1), r(10000, 100000));
    assert_eq!(cgroups.position(b"g2"), Some(1));
    assert!(cgroups.is_managed_cgroup(b"g2"));
    assert!(!cgroups.is_managed_cgroup(b"g"));
    assert!(cgroups.is_managed_path(b"/g2"));
    assert!(cgroups.is_managed_path(b"//g2"));
    assert!(cgroups.is_managed_path(b"g2"));
    assert!(!cgroups.is_managed_path(b"/"));
    assert!(!cgroups.is_managed_path(b"/g2/"));
}

#[test]
fn create_refuses_names_outside_the_grammar() {
    let mut cgroups = CgroupManager::new();
    for bad in [&b""[..], b"/g1", b"g1/", b"g 1", b"9", b"a..b", "é".as_bytes()] {
        assert_eq!(cgroups.create_cgroup(bad, r(1, 100)), fails(Error::ParseError));
        assert!(cgroups.is_idle());
    }
    assert_eq!(cgroups.len(), 0);
    assert!(valid_cgroup_name(b"a/./b_1"));
    assert!(!valid_cgroup_name(b"a/"));
    assert_eq!(strip_slashes(b"///a/b"), b"a/b");
    assert_eq!(strip_slashes(b"a"), b"a");
    assert_eq!(strip_slashes(b"//"), b"");
}

#[test]
fn create_refuses_a_managed_name() {
    let mut cgroups = two_cgroups();
    assert_eq!(cgroups.create_cgroup(b"g1", r(1, 100)), fails(Error::AlreadyExists));
    assert!(cgroups.is_idle());
    assert_eq!(cgroups.len(), 2);
}

#[test]
fn create_refuses_what_the_budget_cannot_bear() {
    let mut cgroups = two_cgroups();
    let step = cgroups.create_cgroup(b"g3", r(35001, 100000));
    assert_eq!(read_all(&mut cgroups, step), fails(Error::InsufficientBudget));
    assert!(cgroups.is_idle());
    assert_eq!(cgroups.len(), 2);
    let step = cgroups.create_cgroup(b"g3", r(35000, 100000));
    assert_eq!(read_all(&mut cgroups, step), ask(Call::CreateCgroup { name: name("g3") }));
    // What is no reservation is never admitted.
    let mut empty = CgroupManager::new();
    assert_eq!(empty.create_cgroup(b"g", r(0, 100)), fails(Error::InsufficientBudget));
    assert_eq!(empty.create_cgroup(b"g", r(101, 100)), fails(Error::InsufficientBudget));
    assert_eq!(empty.create_cgroup(b"g", r(0, 0)), fails(Error::InsufficientBudget));
    assert_eq!(empty.create_cgroup(b"g", r(96, 100)), fails(Error::InsufficientBudget));
}

#[test]
fn create_fails_when_a_reading_fails() {
    let mut cgroups = two_cgroups();
    cgroups.create_cgroup(b"g3", r(1, 100));
    assert_eq!(cgroups.resume(Reply::Failed), fails(Error::PlatformError));
    assert!(cgroups.is_idle());
    cgroups.create_cgroup(b"g3", r(1, 100));
    cgroups.resume(Reply::Number(1));
    assert_eq!(cgroups.resume(Reply::Done), fails(Error::PlatformError));
    // A period of zero makes no sum.
    let step = cgroups.create_cgroup(b"g3", r(1, 100));
    assert_eq!(step, ask(Call::GetRuntime { name: name("g1") }));
    cgroups.resume(Reply::Number(0));
    cgroups.resume(Reply::Number(0));
    cgroups.resume(Reply::Number(1));
    assert_eq!(cgroups.resume(Reply::Number(100)), fails(Error::InsufficientBudget));
    assert_eq!(cgroups.len(), 2);
}

#[test]
fn create_deletes_what_it_created_when_a_write_fails() {
    let mut cgroups = CgroupManager::new();
    cgroups.create_cgroup(b"g1", r(1, 100));
    assert_eq!(cgroups.resume(Reply::Failed), fails(Error::PlatformError));
    cgroups.create_cgroup(b"g1", r(1, 100));
    cgroups.resume(Reply::Done);
    assert_eq!(cgroups.resume(Reply::Failed), ask(Call::DeleteCgroup { name: name("g1") }));
    assert_eq!(cgroups.resume(Reply::Done), fails(Error::PlatformError));
    cgroups.create_cgroup(b"g1", r(1, 100));
    cgroups.resume(Reply::Done);
    cgroups.resume(Reply::Done);
    assert_eq!(cgroups.resume(Reply::Failed), ask(Call::DeleteCgroup { name: name("g1") }));
    assert_eq!(cgroups.resume(Reply::Failed), fails(Error::PlatformError));
    assert_eq!(cgroups.len(), 0);
    assert!(cgroups.is_idle());
}

#[test]
fn update_writes_zero_then_period_then_runtime() {
    let mut cgroups = two_cgroups();
    let step = cgroups.update_cgroup(b"g2", r(45000, 200000));
    assert_eq!(
        read_all(&mut cgroups, step),
        ask(Call::SetRuntime { name: name("g2"), runtime_us: 0 })
    );
    assert_eq!(
        cgroups.resume(Reply::Done),
        ask(Call::SetPeriod { name: name("g2"), period_us: 200000 })
    );
    assert_eq!(
        cgroups.resume(Reply::Done),
        ask(Call::SetRuntime { name: name("g2"), runtime_us: 45000 })
    );
    assert_eq!(cgroups.reservation_at(1), r(10000, 100000));
    assert_eq!(cgroups.resume(Reply::Done), ok());
    assert_eq!(cgroups.reservation_at(1), r(45000, 200000));
    assert_eq!(cgroups.reservation_at(0), r(50000, 100000));
    assert_eq!(cgroups.name_at(1), b"g2");
}

#[test]
fn update_refuses_what_is_unknown_or_too_much() {
    let mut cgroups = two_cgroups();
    assert_eq!(cgroups.update_cgroup(b"g3", r(1, 100)), fails(Error::NotFound));
    let step = cgroups.update_cgroup(b"g2", r(45001, 100000));
    assert_eq!(read_all(&mut cgroups, step), fails(Error::InsufficientBudget));
    let step = cgroups.update_cgroup(b"g2", r(0, 100000));
    assert_eq!(read_all(&mut cgroups, step), fails(Error::InsufficientBudget));
    let step = cgroups.update_cgroup(b"g1", r(85000, 100000));
    assert_eq!(
        read_all(&mut cgroups, step),
        ask(Call::SetRuntime { name: name("g1"), runtime_us: 0 })
    );
    assert_eq!(cgroups.resume(Reply::Failed), fails(Error::PlatformError));
    assert_eq!(cgroups.reservation_at(0), r(50000, 100000));
}

#[test]
fn update_restores_what_it_had_read() {
    let mut cgroups = two_cgroups();
    // The period cannot be set: the runtime goes back.
    let step = cgroups.update_cgroup(b"g2", r(45000, 200000));
    read_all(&mut cgroups, step);
    cgroups.resume(Reply::Done);
    assert_eq!(
        cgroups.resume(Reply::Failed),
        ask(Call::SetRuntime { name: name("g2"), runtime_us: 10000 })
    );
    assert_eq!(cgroups.resume(Reply::Done), fails(Error::PlatformError));
    // The runtime cannot be set: the period goes back, then the runtime.
    let step = cgroups.update_cgroup(b"g2", r(45000, 200000));
    read_all(&mut cgroups, step);
    cgroups.resume(Reply::Done);
    cgroups.resume(Reply::Done);
    assert_eq!(
        cgroups.resume(Reply::Failed),
        ask(Call::SetPeriod { name: name("g2"), period_us: 100000 })
    );
    assert_eq!(
        cgroups.resume(Reply::Failed),
        ask(Call::SetRuntime { name: name("g2"), runtime_us: 10000 })
    );
    assert_eq!(cgroups.resume(Reply::Failed), fails(Error::PlatformError));
    assert_eq!(cgroups.reservation_at(1), r(10000, 100000));
    assert!(cgroups.is_idle());
}

#[test]
fn destroy_writes_zero_then_deletes() {
    let mut cgroups = two_cgroups();
    assert_eq!(cgroups.destroy_cgroup(b"g3"), fails(Error::NotFound));
    assert_eq!(
        cgroups.destroy_cgroup(b"g1"),
        ask(Call::SetRuntime { name: name("g1"), runtime_us: 0 })
    );
    assert_eq!(cgroups.resume(Reply::Failed), fails(Error::PlatformError));
    assert!(cgroups.is_managed_cgroup(b"g1"));
    cgroups.destroy_cgroup(b"g1");
    assert_eq!(cgroups.resume(Reply::Done), ask(Call::DeleteCgroup { name: name("g1") }));
    assert_eq!(cgroups.resume(Reply::Failed), fails(Error::PlatformError));
    assert!(cgroups.is_managed_cgroup(b"g1"));
    cgroups.destroy_cgroup(b"g1");
    cgroups.resume(Reply::Done);
    assert_eq!(cgroups.resume(Reply::Done), ok());
    assert!(!cgroups.is_managed_cgroup(b"g1"));
    assert_eq!(cgroups.len(), 1);
    assert_eq!(cgroups.name_at(0), b"g2");
    assert_eq!(cgroups.reservation_at(0), r(10000, 100000));
}

#[test]
fn the_teardown_of_the_cgroups_kills_waits_and_destroys() {
    let mut cgroups = two_cgroups();
    assert_eq!(cgroups.shutdown(), ask(Call::CgroupPids { name: name("g2") }));
    assert_eq!(cgroups.resume(Reply::Pids(vec![7, 8])), ask(Call::KillPid { pid: 7 }));
    assert_eq!(cgroups.resume(Reply::Done), ask(Call::KillPid { pid: 8 }));
    assert_eq!(cgroups.resume(Reply::Failed), ask(Call::Sleep { millis: 100 }));
    assert_eq!(
        cgroups.resume(Reply::Done),
        ask(Call::SetRuntime { name: name("g2"), runtime_us: 0 })
    );
    assert_eq!(cgroups.resume(Reply::Done), ask(Call::DeleteCgroup { name: name("g2") }));
    assert_eq!(cgroups.len(), 2);
    // The processes of g1 cannot be listed: the teardown is through.
    assert_eq!(cgroups.resume(Reply::Done), ask(Call::CgroupPids { name: name("g1") }));
    assert_eq!(cgroups.len(), 1);
    assert_eq!(cgroups.resume(Reply::Failed), ok());
    assert_eq!(cgroups.len(), 0);
    assert!(cgroups.is_idle());
    assert_eq!(cgroups.shutdown(), ok());
}

#[test]
fn nothing_is_resumed_where_nothing_was_begun() {
    let mut cgroups = two_cgroups();
    assert_eq!(cgroups.resume(Reply::Done), ok());
    assert_eq!(cgroups.len(), 2);
    let mut procs = ProcManager::new(true);
    assert_eq!(procs.resume(&cgroups, Reply::Done), ok());
    let mut both = HCBSManager::new(true);
    assert_eq!(both.resume(Reply::Failed), ok());
    assert!(both.is_idle());
}

#[test]
fn a_move_checks_cgroup_and_policy_before_it_registers() {
    let cgroups = two_cgroups();
    let mut procs = ProcManager::new(true);
    assert_eq!(
        procs.assign_cgroup_to_process(&cgroups, 42, b"g1"),
        ask(Call::CgroupExists { name: name("g1") })
    );
    assert_eq!(procs.resume(&cgroups, Reply::Flag(true)), ask(Call::GetPolicy { pid: 42 }));
    assert_eq!(
        procs.resume(&cgroups, Reply::Policy(SchedPolicy::Other)),
        ask(Call::GetPidCgroup { pid: 42 })
    );
    assert!(!procs.is_managed(42));
    assert_eq!(
        procs.resume(&cgroups, Reply::Cgroup(name("/user"))),
        ask(Call::AssignPid { name: name("g1"), pid: 42 })
    );
    assert!(procs.is_managed(42));
    assert_eq!(procs.resume(&cgroups, Reply::Done), ok());
    assert_eq!(procs.get_managed_process(42).unwrap().original_cgroup(), b"/user");
    // The second move does not ask where the process is.
    procs.assign_cgroup_to_process(&cgroups, 42, b"g2");
    procs.resume(&cgroups, Reply::Flag(true));
    assert_eq!(
        procs.resume(&cgroups, Reply::Policy(SchedPolicy::Other)),
        ask(Call::AssignPid { name: name("g2"), pid: 42 })
    );
    assert_eq!(procs.resume(&cgroups, Reply::Failed), fails(Error::PlatformError));
    assert_eq!(procs.get_managed_process(42).unwrap().original_cgroup(), b"/user");
    assert_eq!(procs.len(), 1);
}

#[test]
fn a_move_is_refused_for_each_of_its_reasons() {
    let cgroups = two_cgroups();
    let mut procs = ProcManager::new(true);
    procs.assign_cgroup_to_process(&cgroups, 42, b"g1");
    assert_eq!(procs.resume(&cgroups, Reply::Flag(false)), fails(Error::NotFound));
    procs.assign_cgroup_to_process(&cgroups, 42, b"g1");
    assert_eq!(procs.resume(&cgroups, Reply::Failed), fails(Error::PlatformError));
    procs.assign_cgroup_to_process(&cgroups, 42, b"other");
    assert_eq!(procs.resume(&cgroups, Reply::Flag(true)), fails(Error::NotManaged));
    for policy in [
        SchedPolicy::Fifo(1),
        SchedPolicy::Rr(1),
        SchedPolicy::Batch,
        SchedPolicy::Idle,
        SchedPolicy::Deadline,
    ] {
        procs.assign_cgroup_to_process(&cgroups, 42, b"g1");
        procs.resume(&cgroups, Reply::Flag(true));
        assert_eq!(procs.resume(&cgroups, Reply::Policy(policy)), fails(Error::PolicyConflict));
    }
    procs.assign_cgroup_to_process(&cgroups, 42, b"g1");
    procs.resume(&cgroups, Reply::Flag(true));
    procs.resume(&cgroups, Reply::Policy(SchedPolicy::Other));
    assert_eq!(procs.resume(&cgroups, Reply::Failed), fails(Error::PlatformError));
    assert!(!procs.is_managed(42));
    assert_eq!(procs.len(), 0);
    assert!(procs.is_idle());
}

#[test]
fn a_policy_is_set_by_the_rules() {
    let cgroups = two_cgroups();
    let mut procs = ProcManager::new(true);
    // The default policy: registered, then set.
    assert_eq!(
        procs.set_process_sched_policy(&cgroups, 42, SchedPolicy::Other),
        ask(Call::GetPidCgroup { pid: 42 })
    );
    assert_eq!(
        procs.resume(&cgroups, Reply::Cgroup(name("/"))),
        ask(Call::SetPolicy { pid: 42, policy: SchedPolicy::Other })
    );
    assert_eq!(procs.resume(&cgroups, Reply::Done), ok());
    assert_eq!(procs.get_managed_process(42).unwrap().original_cgroup(), b"/");
    // A real-time policy: only in a managed cgroup.
    assert_eq!(
        procs.set_process_sched_policy(&cgroups, 42, SchedPolicy::Fifo(10)),
        ask(Call::GetPidCgroup { pid: 42 })
    );
    assert_eq!(procs.resume(&cgroups, Reply::Cgroup(name("/"))), fails(Error::PolicyConflict));
    procs.set_process_sched_policy(&cgroups, 42, SchedPolicy::Rr(10));
    assert_eq!(
        procs.resume(&cgroups, Reply::Cgroup(name("/g2"))),
        ask(Call::SetPolicy { pid: 42, policy: SchedPolicy::Rr(10) })
    );
    assert_eq!(procs.resume(&cgroups, Reply::Failed), fails(Error::PlatformError));
    procs.set_process_sched_policy(&cgroups, 42, SchedPolicy::Fifo(10));
    assert_eq!(procs.resume(&cgroups, Reply::Failed), fails(Error::PlatformError));
    // The other policies: never, though the process is registered first.
    for policy in [SchedPolicy::Batch, SchedPolicy::Idle, SchedPolicy::Deadline] {
        assert_eq!(
            procs.set_process_sched_policy(&cgroups, 42, policy),
            fails(Error::Unsupported)
        );
        assert_eq!(
            procs.set_process_sched_policy(&cgroups, 43, policy),
            ask(Call::GetPidCgroup { pid: 43 })
        );
        assert_eq!(procs.resume(&cgroups, Reply::Failed), fails(Error::PlatformError));
    }
    assert_eq!(
        procs.set_process_sched_policy(&cgroups, 44, SchedPolicy::Idle),
        ask(Call::GetPidCgroup { pid: 44 })
    );
    assert_eq!(procs.resume(&cgroups, Reply::Cgroup(name("/g1"))), fails(Error::Unsupported));
    assert!(procs.is_managed(44));
    assert!(!procs.is_managed(43));
}

#[test]
fn the_dead_are_forgotten() {
    let cgroups = two_cgroups();
    let mut procs = ProcManager::new(true);
    for (pid, cgroup) in [(1u32, "/a"), (2, "/b"), (3, "/c"), (4, "/d")] {
        procs.set_process_sched_policy(&cgroups, pid, SchedPolicy::Other);
        procs.resume(&cgroups, Reply::Cgroup(name(cgroup)));
        procs.resume(&cgroups, Reply::Done);
    }
    procs.update_managed_processes(&vec![2, 9, 4, 2]);
    assert_eq!(procs.len(), 2);
    assert!(procs.is_managed(1));
    assert!(!procs.is_managed(2));
    assert!(procs.is_managed(3));
    assert!(!procs.is_managed(4));
    assert_eq!(procs.position(1), Some(0));
    assert_eq!(procs.position(3), Some(1));
    assert_eq!(procs.get_managed_process(3).unwrap().original_cgroup(), b"/c");
    assert!(procs.get_managed_process(4).is_none());
    procs.update_managed_processes(&vec![]);
    assert_eq!(procs.len(), 2);
}

#[test]
fn the_teardown_of_the_processes_restores_policy_then_cgroup() {
    let cgroups = two_cgroups();
    let mut procs = ProcManager::new(true);
    for (pid, cgroup) in [(1u32, "/a"), (2, "/b")] {
        procs.set_process_sched_policy(&cgroups, pid, SchedPolicy::Other);
        procs.resume(&cgroups, Reply::Cgroup(name(cgroup)));
        procs.resume(&cgroups, Reply::Done);
    }
    assert_eq!(procs.shutdown(), ask(Call::SetPolicy { pid: 2, policy: SchedPolicy::Other }));
    assert_eq!(
        procs.resume(&cgroups, Reply::Failed),
        ask(Call::AssignPid { name: name("/b"), pid: 2 })
    );
    assert_eq!(
        procs.resume(&cgroups, Reply::Failed),
        ask(Call::SetPolicy { pid: 1, policy: SchedPolicy::Other })
    );
    assert_eq!(procs.len(), 1);
    assert_eq!(
        procs.resume(&cgroups, Reply::Done),
        ask(Call::AssignPid { name: name("/a"), pid: 1 })
    );
    assert_eq!(procs.resume(&cgroups, Reply::Done), ok());
    assert_eq!(procs.len(), 0);
    // Without restoring the registry is dropped and that is all.
    let mut careless = ProcManager::new(false);
    careless.set_process_sched_policy(&cgroups, 1, SchedPolicy::Other);
    careless.resume(&cgroups, Reply::Cgroup(name("/a")));
    careless.resume(&cgroups, Reply::Done);
    assert_eq!(careless.shutdown(), ok());
    assert_eq!(careless.len(), 0);
}

#[test]
fn the_two_managers_are_torn_down_in_order() {
    let mut both = HCBSManager::new(true);
    assert_eq!(
        both.create_cgroup(b"g1", r(1, 2)),
        ask(Call::CreateCgroup { name: name("g1") })
    );
    assert!(!both.is_idle());
    both.resume(Reply::Done);
    both.resume(Reply::Done);
    assert_eq!(both.resume(Reply::Done), ok());
    assert!(both.is_idle());
    assert!(both.is_managed_cgroup(b"g1"));
    both.assign_cgroup_to_process(5, b"g1");
    both.resume(Reply::Flag(true));
    both.resume(Reply::Policy(SchedPolicy::Other));
    both.resume(Reply::Cgroup(name("/")));
    assert_eq!(both.resume(Reply::Done), ok());
    both.update_managed_processes(&vec![6]);
    assert!(both.proc_manager().is_managed(5));
    assert_eq!(
        both.set_process_sched_policy(5, SchedPolicy::Fifo(1)),
        ask(Call::GetPidCgroup { pid: 5 })
    );
    both.resume(Reply::Cgroup(name("/g1")));
    assert_eq!(both.resume(Reply::Done), ok());
    assert_eq!(both.update_cgroup(b"g2", r(1, 2)), fails(Error::NotFound));
    assert_eq!(both.destroy_cgroup(b"g2"), fails(Error::NotFound));
    assert!(both.is_idle());
    // The processes first, then the cgroups.
    assert_eq!(both.shutdown(), ask(Call::SetPolicy { pid: 5, policy: SchedPolicy::Other }));
    assert_eq!(both.resume(Reply::Done), ask(Call::AssignPid { name: name("/"), pid: 5 }));
    assert_eq!(both.cgroup_manager().len(), 1);
    assert_eq!(both.resume(Reply::Done), ask(Call::CgroupPids { name: name("g1") }));
    assert_eq!(both.resume(Reply::Pids(vec![])), ask(Call::Sleep { millis: 100 }));
    both.resume(Reply::Done);
    both.resume(Reply::Done);
    assert_eq!(both.resume(Reply::Done), ok());
    assert!(both.is_idle());
    assert_eq!(both.cgroup_manager().len(), 0);
    assert_eq!(both.proc_manager().len(), 0);
}

#[test]
fn errors_have_their_error_numbers() {
    for error in [
        Error::AlreadyExists,
        Error::NotFound,
        Error::NotManaged,
        Error::InsufficientBudget,
        Error::ParseError,
        Error::PolicyConflict,
        Error::Unsupported,
        Error::PlatformError,
        Error::NotReadable,
    ] {
        assert_eq!(error.errno_for_write(), Errno::EACCES);
    }
    assert_eq!(Error::IsDirectory.errno_for_write(), Errno::EISDIR);
    assert_eq!(Error::NotDirectory.errno_for_write(), Errno::ENOTDIR);
    assert_eq!(Error::NotFound.errno_for_read(), Errno::ENOENT);
    assert_eq!(Error::PlatformError.errno_for_read(), Errno::EIO);
    assert_eq!(Error::NotReadable.errno_for_read(), Errno::EIO);
    assert_eq!(Error::IsDirectory.errno_for_read(), Errno::EISDIR);
    assert_eq!(Error::NotDirectory.errno_for_read(), Errno::ENOTDIR);
}
