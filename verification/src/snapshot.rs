//! The processes that are alive, as the last scan of the process table
//! showed them.  The table is scanned at most once in `UPDATE_DELTA_MILLIS`.
use vstd::prelude::*;
use crate::platform::ProcessRecord;

verus! {

/// The shortest time between two scans of the process table, in
/// milliseconds.
pub const UPDATE_DELTA_MILLIS: u64 = 1000;

/// What the file system shows of a process: its owner and when it started,
/// in seconds since the epoch.
#[derive(Clone, Copy, Debug, PartialEq, Eq, Structural)]
pub struct ProcessStats {
    pub uid: u32,
    pub gid: u32,
    pub crtime: u64,
}

/// A process of the snapshot.
#[derive(Clone, Copy, Debug, PartialEq, Eq, Structural)]
pub struct ProcessEntry {
    pub pid: u32,
    pub stats: ProcessStats,
}

/// The view of the snapshot.
pub struct SnapshotView {
    pub procs: Seq<ProcessEntry>,
    /// When the table was last scanned, on the clock of the platform.
    pub last_update: Option<u64>,
}

/// What a record of a scan says of its process.
pub open spec fn entry_of(record: ProcessRecord) -> ProcessEntry {
    ProcessEntry {
        pid: record.pid,
        stats: ProcessStats { uid: record.uid, gid: record.gid, crtime: record.start_time },
    }
}

/// Whether `pid` is among `procs`.
pub open spec fn has_pid(procs: Seq<ProcessEntry>, pid: u32) -> bool {
    exists|i: int| 0 <= i < procs.len() && (#[trigger] procs[i]).pid == pid
}

/// The processes that a scan shows alive, in the order of the scan, each
/// once.  PID 0 is no process: its directory would have the inode of the
/// directory of all processes.
pub open spec fn alive_in(records: Seq<ProcessRecord>) -> Seq<ProcessEntry>
    decreases records.len(),
{
    if records.len() == 0 {
        Seq::empty()
    } else {
        let before = alive_in(records.drop_last());
        let last = records.last();
        if last.alive && last.pid != 0 && !has_pid(before, last.pid) {
            before.push(entry_of(last))
        } else {
            before
        }
    }
}

/// The processes that a scan shows dead, in the order of the scan.
pub open spec fn dead_in(records: Seq<ProcessRecord>) -> Seq<u32>
    decreases records.len(),
{
    if records.len() == 0 {
        Seq::empty()
    } else {
        let before = dead_in(records.drop_last());
        if records.last().alive {
            before
        } else {
            before.push(records.last().pid)
        }
    }
}

/// No process stands twice among `procs`, and PID 0 does not stand there.
pub open spec fn distinct_processes(procs: Seq<ProcessEntry>) -> bool {
    &&& forall|i: int, j: int|
        0 <= i < j < procs.len() ==> (#[trigger] procs[i]).pid != (#[trigger] procs[j]).pid
    &&& forall|i: int| 0 <= i < procs.len() ==> (#[trigger] procs[i]).pid != 0
}

impl SnapshotView {
    pub open spec fn wf(self) -> bool {
        distinct_processes(self.procs)
    }

    /// `pid` was alive at the last scan.
    pub open spec fn has(self, pid: u32) -> bool {
        has_pid(self.procs, pid)
    }

    /// The place of `pid` in the snapshot.
    pub open spec fn index_of(self, pid: u32) -> int {
        choose|i: int| 0 <= i < self.procs.len() && (#[trigger] self.procs[i]).pid == pid
    }

    /// What the snapshot shows of `pid`.
    pub open spec fn stats_of(self, pid: u32) -> ProcessStats {
        self.procs[self.index_of(pid)].stats
    }

    /// A scan is due at `now`: there was none yet, or the last one is more
    /// than `UPDATE_DELTA_MILLIS` ago.
    pub open spec fn due(self, now: u64) -> bool {
        match self.last_update {
            None => true,
            Some(last) => now - last > UPDATE_DELTA_MILLIS,
        }
    }

    /// The snapshot once a scan made at `now`, which showed `records`, is
    /// taken in.
    pub open spec fn refreshed(self, now: u64, records: Seq<ProcessRecord>) -> SnapshotView {
        SnapshotView { procs: alive_in(records), last_update: Some(now) }
    }

    /// The snapshot after an update at `now` with `records`: the scan is
    /// taken in where one is due, and within `UPDATE_DELTA_MILLIS` of the
    /// last one the snapshot stays as it is.
    pub open spec fn updated(self, now: u64, records: Seq<ProcessRecord>) -> SnapshotView {
        if self.due(now) {
            self.refreshed(now, records)
        } else {
            self
        }
    }

    /// The processes that an update at `now` with `records` reports dead:
    /// those of the scan where one is due, none within
    /// `UPDATE_DELTA_MILLIS` of the last one.
    pub open spec fn reported_dead(self, now: u64, records: Seq<ProcessRecord>) -> Seq<u32> {
        if self.due(now) {
            dead_in(records)
        } else {
            Seq::empty()
        }
    }
}

/// What a scan shows alive is a snapshot: each process once, none of PID 0,
/// and exactly the processes of the records that say alive.
pub proof fn lemma_alive_in(records: Seq<ProcessRecord>)
    ensures
        distinct_processes(alive_in(records)),
        forall|pid: u32|
            has_pid(alive_in(records), pid) <==> pid != 0 && exists|i: int|
                0 <= i < records.len() && (#[trigger] records[i]).pid == pid && records[i].alive,
    decreases records.len(),
{
    if records.len() > 0 {
        let init = records.drop_last();
        let last = records.last();
        let before = alive_in(init);
        let now = alive_in(records);
        lemma_alive_in(init);
        assert forall|i: int, j: int| 0 <= i < j < now.len() implies (#[trigger] now[i]).pid != (
        #[trigger] now[j]).pid by {
            assert(now[i] == before[i]);
            if j < before.len() {
                assert(now[j] == before[j]);
            }
        }
        assert forall|i: int| 0 <= i < now.len() implies (#[trigger] now[i]).pid != 0 by {
            if i < before.len() {
                assert(now[i] == before[i]);
            }
        }
        assert forall|pid: u32| has_pid(now, pid) implies pid != 0 && exists|i: int|
            0 <= i < records.len() && (#[trigger] records[i]).pid == pid && records[i].alive by {
            let k = choose|k: int| 0 <= k < now.len() && (#[trigger] now[k]).pid == pid;
            if k < before.len() {
                assert(now[k] == before[k]);
                assert(has_pid(before, pid));
                let i = choose|i: int|
                    0 <= i < init.len() && (#[trigger] init[i]).pid == pid && init[i].alive;
                assert(records[i] == init[i]);
            } else {
                assert(records[records.len() - 1] == last);
            }
        }
        assert forall|pid: u32|
            pid != 0 && (exists|i: int|
                0 <= i < records.len() && (#[trigger] records[i]).pid == pid
                    && records[i].alive) implies has_pid(now, pid) by {
            let i = choose|i: int|
                0 <= i < records.len() && (#[trigger] records[i]).pid == pid && records[i].alive;
            if i < init.len() {
                assert(init[i] == records[i]);
                assert(has_pid(before, pid));
                let k = choose|k: int| 0 <= k < before.len() && (#[trigger] before[k]).pid == pid;
                assert(now[k] == before[k]);
            } else {
                if has_pid(before, pid) {
                    let k = choose|k: int|
                        0 <= k < before.len() && (#[trigger] before[k]).pid == pid;
                    assert(now[k] == before[k]);
                } else {
                    assert(now[now.len() - 1].pid == pid);
                }
            }
        }
    }
}

/// The processes alive at the last scan of the process table.
pub struct ProcessInfo {
    active_procs: Vec<ProcessEntry>,
    last_update: Option<u64>,
}

impl View for ProcessInfo {
    type V = SnapshotView;

    closed spec fn view(&self) -> SnapshotView {
        SnapshotView { procs: self.active_procs@, last_update: self.last_update }
    }
}

impl ProcessInfo {
    /// A snapshot of no processes, for which a scan is due.
    pub fn new() -> (info: ProcessInfo)
        ensures
            info@.procs.len() == 0,
            info@.last_update is None,
            info@.wf(),
    {
        ProcessInfo { active_procs: Vec::new(), last_update: None }
    }

    /// Whether the process table is to be scanned at `now`, a time in
    /// milliseconds on a clock that does not go back.
    pub fn refresh_due(&self, now: u64) -> (due: bool)
        ensures
            due == self@.due(now),
    {
        match self.last_update {
            None => true,
            Some(last) => now > last && now - last > UPDATE_DELTA_MILLIS,
        }
    }

    /// Takes in a scan of the process table made at `now`, where one is
    /// due: the processes that it shows alive are the snapshot from now on,
    /// those that it shows dead are handed back.  Within
    /// `UPDATE_DELTA_MILLIS` of the last scan nothing is taken in: the
    /// snapshot stays as it is and no process is reported dead.
    pub fn update_active_processes(&mut self, now: u64, records: &Vec<ProcessRecord>) -> (dead:
        Vec<u32>)
        ensures
            final(self)@ == if old(self)@.due(now) {
                old(self)@.refreshed(now, records@)
            } else {
                old(self)@
            },
            dead@ == if old(self)@.due(now) {
                dead_in(records@)
            } else {
                Seq::empty()
            },
            final(self)@ == old(self)@.updated(now, records@),
            dead@ == old(self)@.reported_dead(now, records@),
            old(self)@.due(now) ==> final(self)@.wf(),
            old(self)@.wf() ==> final(self)@.wf(),
    {
        let mut dead: Vec<u32> = Vec::new();
        if !self.refresh_due(now) {
            return dead;
        }
        let mut alive: Vec<ProcessEntry> = Vec::new();
        let mut i: usize = 0;
        assert(records@.take(0) =~= Seq::<ProcessRecord>::empty());
        while i < records.len()
            invariant
                i <= records@.len(),
                alive@ == alive_in(records@.take(i as int)),
                dead@ == dead_in(records@.take(i as int)),
            decreases records@.len() - i,
        {
            let record = records[i];
            proof {
                assert(records@.take(i + 1).drop_last() =~= records@.take(i as int));
                assert(records@.take(i + 1).last() == record);
            }
            if !record.alive {
                dead.push(record.pid);
            } else if record.pid != 0 && find_pid(&alive, record.pid).is_none() {
                alive.push(
                    ProcessEntry {
                        pid: record.pid,
                        stats: ProcessStats {
                            uid: record.uid,
                            gid: record.gid,
                            crtime: record.start_time,
                        },
                    },
                );
            }
            i += 1;
        }
        proof {
            assert(records@.take(records@.len() as int) =~= records@);
            lemma_alive_in(records@);
        }
        self.active_procs = alive;
        self.last_update = Some(now);
        dead
    }

    /// How many processes the snapshot has.
    pub fn len(&self) -> (n: usize)
        ensures
            n == self@.procs.len(),
    {
        self.active_procs.len()
    }

    /// The process at `index` of the snapshot.
    pub fn entry_at(&self, index: usize) -> (entry: ProcessEntry)
        requires
            index < self@.procs.len(),
        ensures
            entry == self@.procs[index as int],
    {
        self.active_procs[index]
    }

    /// What the snapshot shows of `pid`, if the process was alive at the
    /// last scan.
    pub fn process_from_pid(&self, pid: u32) -> (stats: Option<ProcessStats>)
        ensures
            stats is Some <==> self@.has(pid),
            self@.wf() && stats is Some ==> stats.unwrap() == self@.stats_of(pid),
    {
        match find_pid(&self.active_procs, pid) {
            Some(i) => {
                proof {
                    if self@.wf() {
                        lemma_snapshot_index(self@, pid);
                    }
                }
                Some(self.active_procs[i].stats)
            },
            None => None,
        }
    }
}

/// The place of `pid` among `procs`.
pub fn find_pid(procs: &Vec<ProcessEntry>, pid: u32) -> (found: Option<usize>)
    ensures
        found is Some <==> has_pid(procs@, pid),
        match found {
            Some(i) => i < procs@.len() && procs@[i as int].pid == pid,
            None => true,
        },
{
    let mut i: usize = 0;
    while i < procs.len()
        invariant
            i <= procs@.len(),
            forall|j: int| 0 <= j < i ==> (#[trigger] procs@[j]).pid != pid,
        decreases procs@.len() - i,
    {
        if procs[i].pid == pid {
            return Some(i);
        }
        i += 1;
    }
    None
}

/// The place of a process of the snapshot is a place of the snapshot, and
/// the only one with that process.
pub proof fn lemma_snapshot_index(s: SnapshotView, pid: u32)
    requires
        s.wf(),
        s.has(pid),
    ensures
        0 <= s.index_of(pid) < s.procs.len(),
        s.procs[s.index_of(pid)].pid == pid,
        forall|i: int|
            0 <= i < s.procs.len() && (#[trigger] s.procs[i]).pid == pid ==> i == s.index_of(pid),
{
    let k = s.index_of(pid);
    assert forall|i: int| 0 <= i < s.procs.len() && (#[trigger] s.procs[i]).pid == pid implies i
        == k by {
        if i < k {
            assert(s.procs[i].pid != s.procs[k].pid);
        } else if k < i {
            assert(s.procs[k].pid != s.procs[i].pid);
        }
    }
}

} // verus!
