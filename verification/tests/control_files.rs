use hcbs_manager::controller::{Controller, FsReply, FsRequest, FsStep};
use hcbs_manager::error::Errno;
use hcbs_manager::filesystem::FileType;
use hcbs_manager::inode::{pid_to_dir_inode, CGROUP_DIR_INODE, PROC_DIR_INODE, ROOT_DIR_INODE};
use hcbs_manager::platform::{Call, ProcessRecord, Reply, Step};
use hcbs_manager::policy::SchedPolicy;

const CREATE: u64 = CGROUP_DIR_INODE + 1;
const DELETE: u64 = CGROUP_DIR_INODE + 2;
const UPDATE: u64 = CGROUP_DIR_INODE + 3;

struct Cgroup {
    name: Vec<u8>,
    runtime_us: u64,
    period_us: u64,
}

struct Process {
    pid: u32,
    cgroup: Vec<u8>,
    policy: SchedPolicy,
    alive: bool,
}

/// A kernel that lives in memory and does what the calls ask.
struct Kernel {
    cgroups: Vec<Cgroup>,
    processes: Vec<Process>,
    clock: u64,
    scans: usize,
    /// What was asked of the kernel that changes it.
    log: Vec<String>,
    /// The changing call, counted from one, that is to fail.
    fail_at: Option<usize>,
    changes: usize,
}

fn relative(path: &[u8]) -> Vec<u8> {
    let mut i = 0;
    while i < path.len() && path[i] == b'/' {
        i += 1;
    }
    path[i..].to_vec()
}

impl Kernel {
    fn new() -> Kernel {
        Kernel {
            cgroups: Vec::new(),
            processes: vec![
                Process { pid: 100, cgroup: b"/".to_vec(), policy: SchedPolicy::Other, alive: true },
                Process { pid: 200, cgroup: b"/".to_vec(), policy: SchedPolicy::Other, alive: true },
                Process { pid: 300, cgroup: b"/".to_vec(), policy: SchedPolicy::Fifo(50), alive: true },
            ],
            clock: 10_000,
            scans: 0,
            log: Vec::new(),
            fail_at: None,
            changes: 0,
        }
    }

    fn cgroup(&self, name: &[u8]) -> Option<&Cgroup> {
        let name = relative(name);
        self.cgroups.iter().find(|c| c.name == name)
    }

    fn cgroup_mut(&mut self, name: &[u8]) -> Option<&mut Cgroup> {
        let name = relative(name);
        self.cgroups.iter_mut().find(|c| c.name == name)
    }

    fn process(&self, pid: u32) -> &Process {
        self.processes.iter().find(|p| p.pid == pid).unwrap()
    }

    fn change(&mut self, call: &Call) -> bool {
        self.log.push(format!("{:?}", call));
        self.changes += 1;
        self.fail_at != Some(self.changes)
    }

    fn perform(&mut self, call: &Call) -> Reply {
        match call {
            Call::Clock => Reply::Number(self.clock),
            Call::ScanProcesses => {
                self.scans += 1;
                Reply::Processes(
                    self.processes
                        .iter()
                        .map(|p| ProcessRecord {
                            pid: p.pid,
                            uid: 1000,
                            gid: 1000,
                            start_time: 1_700_000_000,
                            alive: p.alive,
                        })
                        .collect(),
                )
            }
            Call::CgroupExists { name } => {
                Reply::Flag(relative(name).is_empty() || self.cgroup(name).is_some())
            }
            Call::GetRuntime { name } => match self.cgroup(name) {
                Some(c) => Reply::Number(c.runtime_us),
                None => Reply::Failed,
            },
            Call::GetPeriod { name } => match self.cgroup(name) {
                Some(c) => Reply::Number(c.period_us),
                None => Reply::Failed,
            },
            Call::CgroupPids { name } => match self.cgroup(name) {
                Some(c) => {
                    let path = [b"/".to_vec(), c.name.clone()].concat();
                    Reply::Pids(
                        self.processes
                            .iter()
                            .filter(|p| p.alive && p.cgroup == path)
                            .map(|p| p.pid)
                            .collect(),
                    )
                }
                None => Reply::Failed,
            },
            Call::GetPidCgroup { pid } => match self.processes.iter().find(|p| p.pid == *pid) {
                Some(p) if p.alive => Reply::Cgroup(p.cgroup.clone()),
                _ => Reply::Failed,
            },
            Call::GetPolicy { pid } => match self.processes.iter().find(|p| p.pid == *pid) {
                Some(p) if p.alive => Reply::Policy(p.policy),
                _ => Reply::Failed,
            },
            Call::Sleep { .. } => Reply::Done,
            Call::CreateCgroup { name } => {
                if !self.change(call) || self.cgroup(name).is_some() {
                    return Reply::Failed;
                }
                self.cgroups.push(Cgroup { name: relative(name), runtime_us: 0, period_us: 1_000_000 });
                Reply::Done
            }
            Call::DeleteCgroup { name } => {
                if !self.change(call) || self.cgroup(name).is_none() {
                    return Reply::Failed;
                }
                let name = relative(name);
                self.cgroups.retain(|c| c.name != name);
                Reply::Done
            }
            Call::SetRuntime { name, runtime_us } => {
                if !self.change(call) {
                    return Reply::Failed;
                }
                match self.cgroup_mut(name) {
                    Some(c) if *runtime_us <= c.period_us => {
                        c.runtime_us = *runtime_us;
                        Reply::Done
                    }
                    _ => Reply::Failed,
                }
            }
            Call::SetPeriod { name, period_us } => {
                if !self.change(call) {
                    return Reply::Failed;
                }
                match self.cgroup_mut(name) {
                    Some(c) if *period_us >= c.runtime_us && *period_us > 0 => {
                        c.period_us = *period_us;
                        Reply::Done
                    }
                    _ => Reply::Failed,
                }
            }
            Call::AssignPid { name, pid } => {
                if !self.change(call) {
                    return Reply::Failed;
                }
                let known = relative(name).is_empty() || self.cgroup(name).is_some();
                match self.processes.iter_mut().find(|p| p.pid == *pid) {
                    Some(p) if p.alive && known => {
                        p.cgroup = [b"/".to_vec(), relative(name)].concat();
                        Reply::Done
                    }
                    _ => Reply::Failed,
                }
            }
            Call::SetPolicy { pid, policy } => {
                if !self.change(call) {
                    return Reply::Failed;
                }
                match self.processes.iter_mut().find(|p| p.pid == *pid) {
                    Some(p) if p.alive => {
                        p.policy = *policy;
                        Reply::Done
                    }
                    _ => Reply::Failed,
                }
            }
            Call::KillPid { pid } => {
                self.change(call);
                if let Some(p) = self.processes.iter_mut().find(|p| p.pid == *pid) {
                    p.alive = false;
                }
                Reply::Done
            }
        }
    }
}

/// Serves one request of the kernel to its end.
fn serve(controller: &mut Controller, kernel: &mut Kernel, request: FsRequest) -> FsReply {
    assert!(controller.is_idle());
    let mut step = controller.begin(request);
    loop {
        match step {
            FsStep::Reply(reply) => {
                assert!(controller.is_idle());
                return reply;
            }
            FsStep::Call(call) => {
                let reply = kernel.perform(&call);
                step = controller.resume(reply);
            }
        }
    }
}

fn write(controller: &mut Controller, kernel: &mut Kernel, ino: u64, data: &[u8]) -> FsReply {
    kernel.clock += 2000;
    serve(controller, kernel, FsRequest::Write { ino, offset: 0, data: data.to_vec() })
}

fn read(controller: &mut Controller, kernel: &mut Kernel, ino: u64) -> FsReply {
    kernel.clock += 2000;
    serve(controller, kernel, FsRequest::Read { ino, offset: 0, size: 4096 })
}

fn shutdown(controller: &mut Controller, kernel: &mut Kernel) {
    let mut step = controller.shutdown();
    loop {
        match step {
            Step::Done(result) => {
                assert_eq!(result, Ok(()));
                assert!(controller.is_idle());
                return;
            }
            Step::Call(call) => {
                let reply = kernel.perform(&call);
                step = controller.resume_shutdown(reply);
            }
        }
    }
}

fn cgroup_file(pid: u32) -> u64 {
    pid_to_dir_inode(pid) + 2
}

fn policy_file(pid: u32) -> u64 {
    pid_to_dir_inode(pid) + 3
}

/// A controller and a kernel where `g1` holds half of the processor.
fn with_g1() -> (Controller, Kernel) {
    let mut controller = Controller::new(true);
    let mut kernel = Kernel::new();
    assert_eq!(
        write(&mut controller, &mut kernel, CREATE, b"g1 50000 100000"),
        FsReply::Written(15)
    );
    (controller, kernel)
}

#[test]
fn create_reserves_the_bandwidth() {
    let (controller, kernel) = with_g1();
    let g1 = kernel.cgroup(b"g1").unwrap();
    assert_eq!(g1.runtime_us, 50000);
    assert_eq!(g1.period_us, 100000);
    assert!(controller.manager().is_managed_cgroup(b"g1"));
    assert_eq!(controller.manager().cgroup_manager().len(), 1);
    assert_eq!(
        controller.manager().cgroup_manager().reservation_at(0).runtime_us,
        50000
    );
    // The cgroup is created, then given its period, then its runtime.
    assert_eq!(
        kernel.log,
        vec![
            format!("{:?}", Call::CreateCgroup { name: b"g1".to_vec() }),
            format!("{:?}", Call::SetPeriod { name: b"g1".to_vec(), period_us: 100000 }),
            format!("{:?}", Call::SetRuntime { name: b"g1".to_vec(), runtime_us: 50000 }),
        ]
    );
}

#[test]
fn every_byte_written_counts() {
    let mut controller = Controller::new(false);
    let mut kernel = Kernel::new();
    assert_eq!(
        write(&mut controller, &mut kernel, CREATE, b"g1 50000 100000\n"),
        FsReply::Written(16)
    );
    assert_eq!(
        write(&mut controller, &mut kernel, CREATE, b"  g2   1000\t100000 \n\n"),
        FsReply::Written(21)
    );
    assert_eq!(kernel.cgroup(b"g2").unwrap().runtime_us, 1000);
}

#[test]
fn admission_refuses_what_goes_beyond_the_budget() {
    let (mut controller, mut kernel) = with_g1();
    let before = kernel.log.len();
    assert_eq!(
        write(&mut controller, &mut kernel, CREATE, b"g2 50000 100000"),
        FsReply::Error(Errno::EACCES)
    );
    assert!(!controller.manager().is_managed_cgroup(b"g2"));
    assert!(controller.manager().is_managed_cgroup(b"g1"));
    assert_eq!(controller.manager().cgroup_manager().len(), 1);
    assert!(kernel.cgroup(b"g2").is_none());
    // Nothing was asked of the kernel that changes it.
    assert_eq!(kernel.log.len(), before);
    // What fits is still granted.
    assert_eq!(
        write(&mut controller, &mut kernel, CREATE, b"g2 45000 100000"),
        FsReply::Written(15)
    );
    assert!(controller.manager().is_managed_cgroup(b"g2"));
}

#[test]
fn a_process_moves_into_a_managed_cgroup() {
    let (mut controller, mut kernel) = with_g1();
    assert_eq!(write(&mut controller, &mut kernel, cgroup_file(100), b"g1"), FsReply::Written(2));
    assert_eq!(kernel.process(100).cgroup, b"/g1".to_vec());
    assert_eq!(
        read(&mut controller, &mut kernel, cgroup_file(100)),
        FsReply::Data(b"/g1\n".to_vec())
    );
    assert!(controller.manager().proc_manager().is_managed(100));
    assert_eq!(
        controller
            .manager()
            .proc_manager()
            .get_managed_process(100)
            .unwrap()
            .original_cgroup(),
        b"/"
    );
}

#[test]
fn a_real_time_policy_is_set_in_a_managed_cgroup() {
    let (mut controller, mut kernel) = with_g1();
    write(&mut controller, &mut kernel, cgroup_file(100), b"g1");
    assert_eq!(
        write(&mut controller, &mut kernel, policy_file(100), b"SCHED_FIFO(10)"),
        FsReply::Written(14)
    );
    assert_eq!(kernel.process(100).policy, SchedPolicy::Fifo(10));
    assert_eq!(
        read(&mut controller, &mut kernel, policy_file(100)),
        FsReply::Data(b"SCHED_FIFO(10)\n".to_vec())
    );
}

#[test]
fn a_real_time_policy_is_refused_outside_managed_cgroups() {
    let (mut controller, mut kernel) = with_g1();
    write(&mut controller, &mut kernel, cgroup_file(100), b"g1");
    write(&mut controller, &mut kernel, policy_file(100), b"SCHED_FIFO(10)");
    let before = kernel.log.len();
    assert_eq!(
        write(&mut controller, &mut kernel, policy_file(200), b"SCHED_FIFO(10)"),
        FsReply::Error(Errno::EACCES)
    );
    assert_eq!(kernel.process(200).policy, SchedPolicy::Other);
    assert_eq!(kernel.log.len(), before);
    assert_eq!(
        write(&mut controller, &mut kernel, policy_file(200), b"SCHED_RR(1)"),
        FsReply::Error(Errno::EACCES)
    );
    // The default policy can be asked for anywhere.
    assert_eq!(
        write(&mut controller, &mut kernel, policy_file(200), b"SCHED_OTHER"),
        FsReply::Written(11)
    );
}

#[test]
fn the_teardown_puts_the_processes_back() {
    let (mut controller, mut kernel) = with_g1();
    write(&mut controller, &mut kernel, cgroup_file(100), b"g1");
    write(&mut controller, &mut kernel, policy_file(100), b"SCHED_FIFO(10)");
    write(&mut controller, &mut kernel, policy_file(200), b"SCHED_OTHER");
    shutdown(&mut controller, &mut kernel);
    assert_eq!(kernel.process(100).policy, SchedPolicy::Other);
    assert_eq!(kernel.process(100).cgroup, b"/".to_vec());
    assert!(kernel.process(100).alive);
    assert_eq!(kernel.process(200).policy, SchedPolicy::Other);
    assert_eq!(kernel.process(200).cgroup, b"/".to_vec());
    // The process that was never touched is as it was.
    assert_eq!(kernel.process(300).policy, SchedPolicy::Fifo(50));
    // The cgroups are gone, from the kernel and from the registry.
    assert!(kernel.cgroups.is_empty());
    assert_eq!(controller.manager().cgroup_manager().len(), 0);
    assert_eq!(controller.manager().proc_manager().len(), 0);
}

#[test]
fn the_teardown_without_restoring_leaves_the_processes_and_kills_what_is_inside() {
    let mut controller = Controller::new(false);
    let mut kernel = Kernel::new();
    write(&mut controller, &mut kernel, CREATE, b"g1 50000 100000");
    write(&mut controller, &mut kernel, CREATE, b"g2 10000 100000");
    write(&mut controller, &mut kernel, cgroup_file(100), b"g1");
    write(&mut controller, &mut kernel, policy_file(100), b"SCHED_RR(5)");
    let before = kernel.log.len();
    shutdown(&mut controller, &mut kernel);
    // The process stayed in the cgroup, so it dies with it.
    assert!(!kernel.process(100).alive);
    assert!(kernel.process(200).alive);
    assert!(kernel.cgroups.is_empty());
    assert_eq!(controller.manager().cgroup_manager().len(), 0);
    assert_eq!(controller.manager().proc_manager().len(), 0);
    // The last cgroup created is destroyed first: runtime to zero, then
    // deleted; only the cgroup with a process in it sees a kill.
    assert_eq!(
        kernel.log[before..],
        [
            format!("{:?}", Call::SetRuntime { name: b"g2".to_vec(), runtime_us: 0 }),
            format!("{:?}", Call::DeleteCgroup { name: b"g2".to_vec() }),
            format!("{:?}", Call::KillPid { pid: 100 }),
            format!("{:?}", Call::SetRuntime { name: b"g1".to_vec(), runtime_us: 0 }),
            format!("{:?}", Call::DeleteCgroup { name: b"g1".to_vec() }),
        ]
    );
}

#[test]
fn the_teardown_goes_on_when_a_cgroup_cannot_be_destroyed() {
    let mut controller = Controller::new(false);
    let mut kernel = Kernel::new();
    write(&mut controller, &mut kernel, CREATE, b"g1 50000 100000");
    write(&mut controller, &mut kernel, CREATE, b"g2 10000 100000");
    // The first change of the teardown, the runtime of g2, fails.
    kernel.fail_at = Some(kernel.changes + 1);
    shutdown(&mut controller, &mut kernel);
    assert!(kernel.cgroup(b"g2").is_some());
    assert!(kernel.cgroup(b"g1").is_none());
    assert_eq!(controller.manager().cgroup_manager().len(), 0);
}

#[test]
fn writing_the_policy_in_effect_changes_nothing() {
    let (mut controller, mut kernel) = with_g1();
    write(&mut controller, &mut kernel, cgroup_file(100), b"g1");
    write(&mut controller, &mut kernel, policy_file(100), b"SCHED_FIFO(10)");
    for pid in [100u32, 200] {
        let shown = match read(&mut controller, &mut kernel, policy_file(pid)) {
            FsReply::Data(data) => data,
            other => panic!("no data: {:?}", other),
        };
        let policy = kernel.process(pid).policy;
        let cgroup = kernel.process(pid).cgroup.clone();
        for _ in 0..2 {
            assert_eq!(
                write(&mut controller, &mut kernel, policy_file(pid), &shown),
                FsReply::Written(shown.len() as u64)
            );
            assert_eq!(kernel.process(pid).policy, policy);
            assert_eq!(kernel.process(pid).cgroup, cgroup);
            assert_eq!(
                read(&mut controller, &mut kernel, policy_file(pid)),
                FsReply::Data(shown.clone())
            );
        }
        assert_eq!(kernel.cgroups.len(), 1);
        assert_eq!(controller.manager().cgroup_manager().len(), 1);
    }
    assert_eq!(controller.manager().proc_manager().len(), 2);
}

#[test]
fn destroy_takes_the_cgroup_out_of_registry_and_kernel() {
    let (mut controller, mut kernel) = with_g1();
    let before = kernel.log.len();
    assert_eq!(write(&mut controller, &mut kernel, DELETE, b"g1\n"), FsReply::Written(3));
    assert!(!controller.manager().is_managed_cgroup(b"g1"));
    assert!(kernel.cgroup(b"g1").is_none());
    assert_eq!(
        kernel.log[before..],
        [
            format!("{:?}", Call::SetRuntime { name: b"g1".to_vec(), runtime_us: 0 }),
            format!("{:?}", Call::DeleteCgroup { name: b"g1".to_vec() }),
        ]
    );
    // What is gone cannot be destroyed again, and can be created again.
    assert_eq!(
        write(&mut controller, &mut kernel, DELETE, b"g1"),
        FsReply::Error(Errno::EACCES)
    );
    assert_eq!(
        write(&mut controller, &mut kernel, CREATE, b"g1 95 100"),
        FsReply::Written(9)
    );
}

#[test]
fn destroy_that_fails_keeps_the_cgroup_managed() {
    let (mut controller, mut kernel) = with_g1();
    kernel.fail_at = Some(kernel.changes + 2);
    assert_eq!(
        write(&mut controller, &mut kernel, DELETE, b"g1"),
        FsReply::Error(Errno::EACCES)
    );
    assert!(controller.manager().is_managed_cgroup(b"g1"));
    assert!(kernel.cgroup(b"g1").is_some());
}

#[test]
fn create_refuses_a_name_that_is_managed() {
    let (mut controller, mut kernel) = with_g1();
    let before = kernel.log.len();
    assert_eq!(
        write(&mut controller, &mut kernel, CREATE, b"g1 1 100000"),
        FsReply::Error(Errno::EACCES)
    );
    assert_eq!(kernel.log.len(), before);
    assert_eq!(kernel.cgroup(b"g1").unwrap().runtime_us, 50000);
}

#[test]
fn create_that_fails_half_way_deletes_what_it_created() {
    for failing in 1..=3usize {
        let mut controller = Controller::new(false);
        let mut kernel = Kernel::new();
        kernel.fail_at = Some(failing);
        assert_eq!(
            write(&mut controller, &mut kernel, CREATE, b"g1 50000 100000"),
            FsReply::Error(Errno::EACCES)
        );
        assert!(!controller.manager().is_managed_cgroup(b"g1"));
        assert!(kernel.cgroup(b"g1").is_none());
        let deleted = format!("{:?}", Call::DeleteCgroup { name: b"g1".to_vec() });
        assert_eq!(kernel.log.last() == Some(&deleted), failing > 1);
    }
}

#[test]
fn update_changes_the_reservation() {
    let (mut controller, mut kernel) = with_g1();
    let before = kernel.log.len();
    assert_eq!(
        write(&mut controller, &mut kernel, UPDATE, b"g1 90000 200000"),
        FsReply::Written(15)
    );
    let g1 = kernel.cgroup(b"g1").unwrap();
    assert_eq!((g1.runtime_us, g1.period_us), (90000, 200000));
    assert_eq!(controller.manager().cgroup_manager().reservation_at(0).period_us, 200000);
    // The runtime goes to zero first, so that any period can be set.
    assert_eq!(
        kernel.log[before..],
        [
            format!("{:?}", Call::SetRuntime { name: b"g1".to_vec(), runtime_us: 0 }),
            format!("{:?}", Call::SetPeriod { name: b"g1".to_vec(), period_us: 200000 }),
            format!("{:?}", Call::SetRuntime { name: b"g1".to_vec(), runtime_us: 90000 }),
        ]
    );
}

#[test]
fn update_is_admitted_in_the_place_of_what_it_changes() {
    let (mut controller, mut kernel) = with_g1();
    write(&mut controller, &mut kernel, CREATE, b"g2 40000 100000");
    // 0.5 + 0.45 fits, though 0.5 + 0.4 + 0.45 would not.
    assert_eq!(
        write(&mut controller, &mut kernel, UPDATE, b"g2 45000 100000"),
        FsReply::Written(15)
    );
    // Shrinking is never refused.
    assert_eq!(
        write(&mut controller, &mut kernel, UPDATE, b"g1 10000 100000"),
        FsReply::Written(15)
    );
    assert_eq!(
        write(&mut controller, &mut kernel, UPDATE, b"g1 50001 100000"),
        FsReply::Error(Errno::EACCES)
    );
    assert_eq!(kernel.cgroup(b"g1").unwrap().runtime_us, 10000);
    assert_eq!(
        write(&mut controller, &mut kernel, UPDATE, b"g3 1 100000"),
        FsReply::Error(Errno::EACCES)
    );
}

#[test]
fn update_that_fails_puts_back_what_was_there() {
    for failing in 1..=3usize {
        let (mut controller, mut kernel) = with_g1();
        kernel.fail_at = Some(kernel.changes + failing);
        assert_eq!(
            write(&mut controller, &mut kernel, UPDATE, b"g1 90000 200000"),
            FsReply::Error(Errno::EACCES)
        );
        let g1 = kernel.cgroup(b"g1").unwrap();
        assert_eq!((g1.runtime_us, g1.period_us), (50000, 100000));
        assert_eq!(controller.manager().cgroup_manager().reservation_at(0).runtime_us, 50000);
        assert_eq!(controller.manager().cgroup_manager().reservation_at(0).period_us, 100000);
    }
}

#[test]
fn admission_goes_by_what_the_kernel_holds() {
    let (mut controller, mut kernel) = with_g1();
    // Somebody else raised the runtime of g1 behind the back of the
    // controller: the next admission sees it.
    kernel.cgroup_mut(b"g1").unwrap().runtime_us = 90000;
    assert_eq!(
        write(&mut controller, &mut kernel, CREATE, b"g2 10000 100000"),
        FsReply::Error(Errno::EACCES)
    );
    kernel.cgroup_mut(b"g1").unwrap().runtime_us = 50000;
    assert_eq!(
        write(&mut controller, &mut kernel, CREATE, b"g2 10000 100000"),
        FsReply::Written(15)
    );
}

#[test]
fn a_move_needs_an_existing_managed_cgroup_and_the_default_policy() {
    let (mut controller, mut kernel) = with_g1();
    // No such cgroup.
    assert_eq!(
        write(&mut controller, &mut kernel, cgroup_file(100), b"nowhere"),
        FsReply::Error(Errno::EACCES)
    );
    // A cgroup that exists but is not managed.
    kernel.cgroups.push(Cgroup { name: b"foreign".to_vec(), runtime_us: 0, period_us: 100 });
    assert_eq!(
        write(&mut controller, &mut kernel, cgroup_file(100), b"foreign"),
        FsReply::Error(Errno::EACCES)
    );
    // A process that is not under the default policy.
    assert_eq!(
        write(&mut controller, &mut kernel, cgroup_file(300), b"g1"),
        FsReply::Error(Errno::EACCES)
    );
    assert_eq!(kernel.process(100).cgroup, b"/".to_vec());
    assert_eq!(kernel.process(300).cgroup, b"/".to_vec());
    // None of the three was touched, so none is remembered.
    assert_eq!(controller.manager().proc_manager().len(), 0);
    assert!(kernel.log.iter().all(|c| !c.starts_with("AssignPid")));
}

#[test]
fn no_process_is_moved_that_is_not_registered() {
    let (mut controller, mut kernel) = with_g1();
    write(&mut controller, &mut kernel, cgroup_file(100), b"g1");
    write(&mut controller, &mut kernel, policy_file(100), b"SCHED_RR(3)");
    write(&mut controller, &mut kernel, policy_file(200), b"SCHED_FIFO(3)");
    write(&mut controller, &mut kernel, cgroup_file(300), b"g1");
    write(&mut controller, &mut kernel, policy_file(300), b"SCHED_BATCH");
    for call in &kernel.log {
        if call.starts_with("AssignPid") || call.starts_with("SetPolicy") {
            assert!(call.contains("pid: 100"), "{}", call);
        }
    }
    assert!(controller.manager().proc_manager().is_managed(100));
    // 200 was registered when it asked for a policy, and then refused.
    assert!(controller.manager().proc_manager().is_managed(200));
    assert!(!controller.manager().proc_manager().is_managed(300));
}

#[test]
fn a_process_that_died_is_forgotten() {
    let (mut controller, mut kernel) = with_g1();
    write(&mut controller, &mut kernel, cgroup_file(100), b"g1");
    assert!(controller.manager().proc_manager().is_managed(100));
    kernel.processes[0].alive = false;
    kernel.clock += 5000;
    assert_eq!(
        serve(&mut controller, &mut kernel, FsRequest::Getattr { ino: pid_to_dir_inode(100) }),
        FsReply::Error(Errno::ENOENT)
    );
    assert!(!controller.manager().proc_manager().is_managed(100));
    assert_eq!(
        write(&mut controller, &mut kernel, policy_file(100), b"SCHED_OTHER"),
        FsReply::Error(Errno::ENOENT)
    );
    // The teardown has nothing to put back.
    let before = kernel.log.len();
    shutdown(&mut controller, &mut kernel);
    assert!(kernel.log[before..].iter().all(|c| !c.contains("pid: 100")));
}

#[test]
fn the_process_table_is_scanned_at_most_once_a_second() {
    let mut controller = Controller::new(false);
    let mut kernel = Kernel::new();
    for ino in [ROOT_DIR_INODE, PROC_DIR_INODE, CGROUP_DIR_INODE] {
        serve(&mut controller, &mut kernel, FsRequest::Getattr { ino });
    }
    assert_eq!(kernel.scans, 1);
    kernel.clock += 1000;
    serve(&mut controller, &mut kernel, FsRequest::Getattr { ino: ROOT_DIR_INODE });
    assert_eq!(kernel.scans, 1);
    kernel.clock += 1;
    serve(&mut controller, &mut kernel, FsRequest::Getattr { ino: ROOT_DIR_INODE });
    assert_eq!(kernel.scans, 2);
}

#[test]
fn writes_are_refused_before_they_reach_the_managers() {
    let (mut controller, mut kernel) = with_g1();
    let before = kernel.log.len();
    let mut ask = |request: FsRequest| {
        kernel.clock += 2000;
        serve(&mut controller, &mut kernel, request)
    };
    // A directory.
    for ino in [ROOT_DIR_INODE, PROC_DIR_INODE, CGROUP_DIR_INODE, pid_to_dir_inode(100)] {
        assert_eq!(
            ask(FsRequest::Write { ino, offset: 0, data: b"g1".to_vec() }),
            FsReply::Error(Errno::EISDIR)
        );
    }
    // Not at the start of the file.
    assert_eq!(
        ask(FsRequest::Write { ino: DELETE, offset: 1, data: b"g1".to_vec() }),
        FsReply::Error(Errno::EINVAL)
    );
    // Not UTF-8.
    assert_eq!(
        ask(FsRequest::Write { ino: DELETE, offset: 0, data: vec![0x67, 0x31, 0xFF] }),
        FsReply::Error(Errno::EIO)
    );
    // Not in the grammar.
    for (ino, data) in [
        (CREATE, &b"g1"[..]),
        (CREATE, &b"g1 1 2 3"[..]),
        (UPDATE, &b"g1 -1 2"[..]),
        (DELETE, &b"g1 g2"[..]),
        (DELETE, &b""[..]),
        (cgroup_file(100), &b"/g1"[..]),
        (policy_file(100), &b"SCHED_DEADLINE"[..]),
        (policy_file(100), &b"SCHED_FIFO (10)"[..]),
    ] {
        assert_eq!(
            ask(FsRequest::Write { ino, offset: 0, data: data.to_vec() }),
            FsReply::Error(Errno::EACCES)
        );
    }
    // No such file.
    assert_eq!(
        ask(FsRequest::Write { ino: CGROUP_DIR_INODE + 4, offset: 0, data: b"g1".to_vec() }),
        FsReply::Error(Errno::ENOENT)
    );
    assert_eq!(kernel.log.len(), before);
    assert!(controller.manager().is_managed_cgroup(b"g1"));
}

#[test]
fn reads_show_what_the_files_hold() {
    let (mut controller, mut kernel) = with_g1();
    assert_eq!(
        read(&mut controller, &mut kernel, cgroup_file(200)),
        FsReply::Data(b"/\n".to_vec())
    );
    assert_eq!(
        read(&mut controller, &mut kernel, policy_file(200)),
        FsReply::Data(b"SCHED_OTHER\n".to_vec())
    );
    assert_eq!(
        read(&mut controller, &mut kernel, policy_file(300)),
        FsReply::Data(b"SCHED_FIFO(50)\n".to_vec())
    );
    assert_eq!(
        serve(
            &mut controller,
            &mut kernel,
            FsRequest::Read { ino: policy_file(300), offset: 6, size: 4 }
        ),
        FsReply::Data(b"FIFO".to_vec())
    );
    assert_eq!(
        serve(
            &mut controller,
            &mut kernel,
            FsRequest::Read { ino: policy_file(300), offset: 15, size: 4 }
        ),
        FsReply::Data(vec![])
    );
    for ino in [CREATE, DELETE, UPDATE] {
        assert_eq!(read(&mut controller, &mut kernel, ino), FsReply::Error(Errno::EIO));
    }
    for ino in [ROOT_DIR_INODE, PROC_DIR_INODE, CGROUP_DIR_INODE, pid_to_dir_inode(100)] {
        assert_eq!(read(&mut controller, &mut kernel, ino), FsReply::Error(Errno::EISDIR));
    }
    assert_eq!(read(&mut controller, &mut kernel, 0), FsReply::Error(Errno::ENOENT));
    assert_eq!(
        read(&mut controller, &mut kernel, policy_file(999)),
        FsReply::Error(Errno::ENOENT)
    );
}

#[test]
fn attributes_carry_the_length_of_what_is_shown() {
    let (mut controller, mut kernel) = with_g1();
    write(&mut controller, &mut kernel, cgroup_file(100), b"g1");
    let attr = match serve(&mut controller, &mut kernel, FsRequest::Getattr { ino: cgroup_file(100) }) {
        FsReply::Attr { attr, ttl_millis: 1 } => attr,
        other => panic!("no attributes: {:?}", other),
    };
    assert_eq!(attr.ino, cgroup_file(100));
    assert_eq!(attr.size, 4);
    assert_eq!(attr.blocks, 1);
    assert_eq!(attr.perm, 0o664);
    assert_eq!(attr.kind, FileType::RegularFile);
    let attr = match serve(&mut controller, &mut kernel, FsRequest::Setattr { ino: policy_file(100) }) {
        FsReply::Attr { attr, ttl_millis: 1 } => attr,
        other => panic!("no attributes: {:?}", other),
    };
    assert_eq!(attr.size, 12);
    let entry = match serve(
        &mut controller,
        &mut kernel,
        FsRequest::Lookup { parent: pid_to_dir_inode(300), name: b"sched_policy".to_vec() },
    ) {
        FsReply::Entry { attr, ttl_millis: 1 } => attr,
        other => panic!("no entry: {:?}", other),
    };
    assert_eq!(entry.ino, policy_file(300));
    assert_eq!(entry.size, 15);
    let command = match serve(&mut controller, &mut kernel, FsRequest::Setattr { ino: CREATE }) {
        FsReply::Attr { attr, ttl_millis: 1 } => attr,
        other => panic!("no attributes: {:?}", other),
    };
    assert_eq!((command.size, command.perm), (0, 0o666));
    for ino in [ROOT_DIR_INODE, PROC_DIR_INODE, CGROUP_DIR_INODE, pid_to_dir_inode(100)] {
        assert_eq!(
            serve(&mut controller, &mut kernel, FsRequest::Setattr { ino }),
            FsReply::Error(Errno::ENOSYS)
        );
    }
    assert_eq!(
        serve(&mut controller, &mut kernel, FsRequest::Setattr { ino: 0 }),
        FsReply::Error(Errno::ENOENT)
    );
}

#[test]
fn lookups_and_listings_go_through_the_controller() {
    let mut controller = Controller::new(false);
    let mut kernel = Kernel::new();
    let entry = match serve(
        &mut controller,
        &mut kernel,
        FsRequest::Lookup { parent: ROOT_DIR_INODE, name: b"proc".to_vec() },
    ) {
        FsReply::Entry { attr, ttl_millis: 1 } => attr,
        other => panic!("no entry: {:?}", other),
    };
    assert_eq!(entry.ino, PROC_DIR_INODE);
    assert_eq!(entry.kind, FileType::Directory);
    let entry = match serve(
        &mut controller,
        &mut kernel,
        FsRequest::Lookup { parent: PROC_DIR_INODE, name: b"200".to_vec() },
    ) {
        FsReply::Entry { attr, ttl_millis: 1 } => attr,
        other => panic!("no entry: {:?}", other),
    };
    assert_eq!(entry.ino, pid_to_dir_inode(200));
    assert_eq!((entry.uid, entry.gid, entry.crtime), (1000, 1000, 1_700_000_000));
    for (parent, name) in [
        (ROOT_DIR_INODE, &b".."[..]),
        (ROOT_DIR_INODE, &b"nothing"[..]),
        (PROC_DIR_INODE, &b"999"[..]),
        (CREATE, &b"."[..]),
        (12345, &b"."[..]),
    ] {
        assert_eq!(
            serve(&mut controller, &mut kernel, FsRequest::Lookup { parent, name: name.to_vec() }),
            FsReply::Error(Errno::ENOENT)
        );
    }
    let listed = match serve(
        &mut controller,
        &mut kernel,
        FsRequest::Readdir { ino: PROC_DIR_INODE, offset: 2 },
    ) {
        FsReply::Directory(entries) => entries,
        other => panic!("no listing: {:?}", other),
    };
    let names: Vec<&[u8]> = listed.iter().map(|e| &e.name[..]).collect();
    assert_eq!(names, vec![&b"100"[..], &b"200"[..], &b"300"[..]]);
    let offsets: Vec<u64> = listed.iter().map(|e| e.offset).collect();
    assert_eq!(offsets, vec![3, 4, 5]);
    assert_eq!(
        serve(&mut controller, &mut kernel, FsRequest::Readdir { ino: CREATE, offset: 0 }),
        FsReply::Error(Errno::ENOTDIR)
    );
    assert_eq!(
        serve(&mut controller, &mut kernel, FsRequest::Readdir { ino: 0, offset: 0 }),
        FsReply::Error(Errno::ENOENT)
    );
}

#[test]
fn resuming_without_a_request_is_an_error() {
    let mut controller = Controller::new(false);
    assert_eq!(controller.resume(Reply::Done), FsStep::Reply(FsReply::Error(Errno::EINVAL)));
    assert!(controller.is_idle());
}

#[test]
fn a_new_controller_scans_at_its_first_request() {
    let mut controller = Controller::new(false);
    let mut kernel = Kernel::new();
    assert!(controller.process_info().refresh_due(0));
    assert!(controller.process_info().refresh_due(u64::MAX));
    assert_eq!(controller.process_info().len(), 0);
    kernel.clock = 0;
    assert_eq!(
        serve(&mut controller, &mut kernel, FsRequest::Readdir { ino: PROC_DIR_INODE, offset: 5 }),
        FsReply::Directory(vec![])
    );
    assert_eq!(kernel.scans, 1);
    assert_eq!(controller.process_info().len(), 3);
}

#[test]
fn the_controller_takes_in_a_scan_only_where_one_is_due() {
    let mut controller = Controller::new(true);
    let mut kernel = Kernel::new();
    write(&mut controller, &mut kernel, CREATE, b"g1 50000 100000");
    write(&mut controller, &mut kernel, cgroup_file(100), b"g1");
    assert!(controller.manager().proc_manager().is_managed(100));
    let last = kernel.clock;
    let gone = vec![ProcessRecord { pid: 100, uid: 0, gid: 0, start_time: 0, alive: false }];
    // Within the second the scan is not taken in and nobody is forgotten.
    controller.update(last + 1000, &gone);
    assert!(controller.manager().proc_manager().is_managed(100));
    assert_eq!(controller.process_info().len(), 3);
    assert!(controller.process_info().refresh_due(last + 1001));
    // After it the scan is taken in and the dead are forgotten.
    controller.update(last + 1001, &gone);
    assert!(!controller.manager().proc_manager().is_managed(100));
    assert_eq!(controller.process_info().len(), 0);
    assert!(!controller.process_info().refresh_due(last + 2001));
    assert!(controller.is_idle());
}
