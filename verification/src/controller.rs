//! The controller: what the file system answers to the kernel.
//!
//! A request of the kernel is served in steps, as the operations of the
//! managers are.  Every request begins with a look at the clock, and with a
//! scan of the process table where one is due; then the node is found, and
//! the request either is answered at once or turns into calls to the
//! platform whose replies lead to the answer.
use vstd::prelude::*;
use crate::error::{Errno, Error};
use crate::filesystem::laws::law_node_has_inode;
use crate::filesystem::{
    cgroup_line,
    cgroup_payload,
    child_of,
    entries_from,
    entries_view,
    lookup,
    node_from_inode,
    node_of,
    read_data,
    read_window,
    readdir,
    DirEntry,
    DirEntryView,
    FileAttr,
    Node,
    DEFAULT_TTL_MILLIS,
};
use crate::manager::facade::{Active, HCBSManager, ManagerView};
use crate::parser::{
    delete_request,
    parse_delete_request,
    parse_policy_request,
    parse_reservation_request,
    policy_request,
    reservation_request,
};
use crate::platform::{Call, CallView, Reply, ReplyView, Step, StepView};
use crate::snapshot::{dead_in, ProcessInfo, SnapshotView};
use crate::text::{body_text, written_text};

pub mod laws;

verus! {

/// What the attributes of a node, or what it holds, are wanted for.
#[derive(Clone, Copy, Debug, PartialEq, Eq, Structural)]
pub enum Purpose {
    /// The answer to a lookup.
    Entry,
    /// The answer to a request for attributes.
    Attr,
    /// The answer to a read.
    Read { offset: i64, size: u32 },
}

/// A request of the kernel.
#[derive(Debug, PartialEq, Eq)]
pub enum FsRequest {
    Lookup { parent: u64, name: Vec<u8> },
    Getattr { ino: u64 },
    Setattr { ino: u64 },
    Read { ino: u64, offset: i64, size: u32 },
    Write { ino: u64, offset: i64, data: Vec<u8> },
    Readdir { ino: u64, offset: i64 },
}

/// The view of `FsRequest`: sequences in the place of vectors.
pub enum FsRequestView {
    Lookup { parent: u64, name: Seq<u8> },
    Getattr { ino: u64 },
    Setattr { ino: u64 },
    Read { ino: u64, offset: i64, size: u32 },
    Write { ino: u64, offset: i64, data: Seq<u8> },
    Readdir { ino: u64, offset: i64 },
}

impl View for FsRequest {
    type V = FsRequestView;

    open spec fn view(&self) -> FsRequestView {
        match self {
            FsRequest::Lookup { parent, name } => FsRequestView::Lookup {
                parent: *parent,
                name: name@,
            },
            FsRequest::Getattr { ino } => FsRequestView::Getattr { ino: *ino },
            FsRequest::Setattr { ino } => FsRequestView::Setattr { ino: *ino },
            FsRequest::Read { ino, offset, size } => FsRequestView::Read {
                ino: *ino,
                offset: *offset,
                size: *size,
            },
            FsRequest::Write { ino, offset, data } => FsRequestView::Write {
                ino: *ino,
                offset: *offset,
                data: data@,
            },
            FsRequest::Readdir { ino, offset } => FsRequestView::Readdir {
                ino: *ino,
                offset: *offset,
            },
        }
    }
}

/// An answer to the kernel.  Attributes come with the time, in
/// milliseconds, for which the kernel may keep them.
#[derive(Debug, PartialEq, Eq)]
pub enum FsReply {
    Entry { attr: FileAttr, ttl_millis: u64 },
    Attr { attr: FileAttr, ttl_millis: u64 },
    Data(Vec<u8>),
    /// How many bytes of a write were taken.
    Written(u64),
    Directory(Vec<DirEntry>),
    Error(Errno),
}

/// The view of `FsReply`: sequences in the place of vectors.
pub enum FsReplyView {
    Entry { attr: FileAttr, ttl_millis: u64 },
    Attr { attr: FileAttr, ttl_millis: u64 },
    Data(Seq<u8>),
    Written(u64),
    Directory(Seq<DirEntryView>),
    Error(Errno),
}

impl View for FsReply {
    type V = FsReplyView;

    open spec fn view(&self) -> FsReplyView {
        match self {
            FsReply::Entry { attr, ttl_millis } => FsReplyView::Entry {
                attr: *attr,
                ttl_millis: *ttl_millis,
            },
            FsReply::Attr { attr, ttl_millis } => FsReplyView::Attr {
                attr: *attr,
                ttl_millis: *ttl_millis,
            },
            FsReply::Data(data) => FsReplyView::Data(data@),
            FsReply::Written(n) => FsReplyView::Written(*n),
            FsReply::Directory(entries) => FsReplyView::Directory(entries_view(entries@)),
            FsReply::Error(errno) => FsReplyView::Error(*errno),
        }
    }
}

/// What the controller says when a request is begun or resumed: the next
/// call to perform, or the answer to the kernel.
#[derive(Debug, PartialEq, Eq)]
pub enum FsStep {
    Call(Call),
    Reply(FsReply),
}

/// The view of `FsStep`.
pub enum FsStepView {
    Call(CallView),
    Reply(FsReplyView),
}

impl View for FsStep {
    type V = FsStepView;

    open spec fn view(&self) -> FsStepView {
        match self {
            FsStep::Call(call) => FsStepView::Call(call@),
            FsStep::Reply(reply) => FsStepView::Reply(reply@),
        }
    }
}

/// How far the request in progress is: the view of the stage.
pub enum StageView {
    Idle,
    /// Waiting for the clock.
    Clock(FsRequestView),
    /// Waiting for the scan of the process table made at the given time.
    Scan(FsRequestView, u64),
    /// Waiting for what the file `node` holds.
    Payload { purpose: Purpose, node: Node },
    /// Waiting for an operation of the managers, begun by a write of so
    /// many bytes.
    Writing { written: u64 },
    /// Waiting for the teardown of the managers.
    Stopping,
}

/// The view of the controller.
pub struct ControllerView {
    pub manager: ManagerView,
    pub snapshot: SnapshotView,
    pub stage: StageView,
}

/// The call that fetches what the file `node` holds, for the two files
/// that show something.
pub open spec fn payload_call(node: Node) -> Option<CallView> {
    match node {
        Node::CgroupFile { pid } => Some(CallView::GetPidCgroup { pid }),
        Node::SchedPolicyFile { pid } => Some(CallView::GetPolicy { pid }),
        _ => None,
    }
}

/// What the file `node` holds when the platform answers `reply`.
pub open spec fn payload_of(node: Node, reply: ReplyView) -> Option<Seq<u8>> {
    match (node, reply) {
        (Node::CgroupFile { .. }, ReplyView::Cgroup(path)) => Some(cgroup_line(path)),
        (Node::SchedPolicyFile { .. }, ReplyView::Policy(policy)) => Some(policy.line()),
        _ => None,
    }
}

/// The answer that carries `attr`, which the kernel may keep for a
/// millisecond and no longer.
pub open spec fn attr_reply(purpose: Purpose, attr: FileAttr) -> FsReplyView {
    match purpose {
        Purpose::Entry => FsReplyView::Entry { attr, ttl_millis: DEFAULT_TTL_MILLIS },
        _ => FsReplyView::Attr { attr, ttl_millis: DEFAULT_TTL_MILLIS },
    }
}

impl ControllerView {
    pub open spec fn wf(self) -> bool {
        &&& self.manager.wf()
        &&& self.snapshot.wf()
        &&& match self.stage {
            StageView::Writing { .. } => true,
            StageView::Stopping => true,
            // A scan is asked for only where one is due.
            StageView::Scan(_, now) => self.manager.active == Active::Nothing
                && self.snapshot.due(now),
            _ => self.manager.active == Active::Nothing,
        }
    }

    /// The request is answered.
    pub open spec fn reply(self, reply: FsReplyView) -> (ControllerView, FsStepView) {
        (ControllerView { stage: StageView::Idle, ..self }, FsStepView::Reply(reply))
    }

    /// The request goes on at `stage` and asks for `call`.
    pub open spec fn ask(self, stage: StageView, call: CallView) -> (ControllerView, FsStepView) {
        (ControllerView { stage, ..self }, FsStepView::Call(call))
    }

    /// Every request begins with a look at the clock.
    pub open spec fn begin(self, request: FsRequestView) -> (ControllerView, FsStepView) {
        self.ask(StageView::Clock(request), CallView::Clock)
    }

    /// The controller after an update at `now` with a scan that showed
    /// `records`.  Where a scan is due, the snapshot is what the scan shows
    /// alive, and the processes that it shows dead are forgotten; within
    /// `UPDATE_DELTA_MILLIS` of the last scan nothing changes.
    pub open spec fn refreshed(self, now: u64, records: Seq<crate::platform::ProcessRecord>)
        -> ControllerView {
        if self.snapshot.due(now) {
            ControllerView {
                snapshot: self.snapshot.refreshed(now, records),
                manager: ManagerView {
                    procs: self.manager.procs.without(dead_in(records)),
                    ..self.manager
                },
                ..self
            }
        } else {
            self
        }
    }

    /// The attributes of `node` are wanted: for the two files that show
    /// something their length is part of them, and what they show is
    /// fetched first.
    pub open spec fn with_attr(self, purpose: Purpose, node: Node) -> (
        ControllerView,
        FsStepView,
    ) {
        match payload_call(node) {
            Some(call) => self.ask(StageView::Payload { purpose, node }, call),
            None => self.reply(attr_reply(purpose, node.attr_of(0))),
        }
    }

    /// An operation of the managers was begun or resumed for a write of
    /// `written` bytes: it goes on, or the write is answered.
    pub open spec fn settle_write(self, moved: (ManagerView, StepView), written: u64) -> (
        ControllerView,
        FsStepView,
    ) {
        let after = ControllerView { manager: moved.0, ..self };
        match moved.1 {
            StepView::Call(call) => after.ask(StageView::Writing { written }, call),
            StepView::Done(Ok(_)) => after.reply(FsReplyView::Written(written)),
            StepView::Done(Err(error)) => after.reply(FsReplyView::Error(error.write_errno())),
        }
    }

    /// A write of `data` at `offset` to `node`.  Only whole commands are
    /// taken, so a write must start at the beginning of the file.
    #[verifier::opaque]
    pub open spec fn route_write(self, node: Node, offset: i64, data: Seq<u8>) -> (
        ControllerView,
        FsStepView,
    ) {
        let written = data.len() as u64;
        if node.is_directory() {
            self.reply(FsReplyView::Error(Errno::EISDIR))
        } else if offset != 0 {
            self.reply(FsReplyView::Error(Errno::EINVAL))
        } else {
            match written_text(data) {
                None => self.reply(FsReplyView::Error(Errno::EIO)),
                Some(text) => match node {
                    Node::CreateCgroupFile => match reservation_request(text) {
                        Some((name, request)) => self.settle_write(
                            self.manager.begin_create(name, request),
                            written,
                        ),
                        None => self.reply(FsReplyView::Error(Error::ParseError.write_errno())),
                    },
                    Node::UpdateCgroupFile => match reservation_request(text) {
                        Some((name, request)) => self.settle_write(
                            self.manager.begin_update(name, request),
                            written,
                        ),
                        None => self.reply(FsReplyView::Error(Error::ParseError.write_errno())),
                    },
                    Node::DeleteCgroupFile => match delete_request(text) {
                        Some(name) => self.settle_write(self.manager.begin_destroy(name), written),
                        None => self.reply(FsReplyView::Error(Error::ParseError.write_errno())),
                    },
                    Node::CgroupFile { pid } => match delete_request(text) {
                        Some(name) => self.settle_write(
                            self.manager.begin_assign(pid, name),
                            written,
                        ),
                        None => self.reply(FsReplyView::Error(Error::ParseError.write_errno())),
                    },
                    Node::SchedPolicyFile { pid } => match policy_request(text) {
                        Some(policy) => self.settle_write(
                            self.manager.begin_policy(pid, policy),
                            written,
                        ),
                        None => self.reply(FsReplyView::Error(Error::ParseError.write_errno())),
                    },
                    _ => self.reply(FsReplyView::Error(Errno::EISDIR)),
                },
            }
        }
    }

    /// The request is routed to its node.
    #[verifier::opaque]
    pub open spec fn route(self, request: FsRequestView) -> (ControllerView, FsStepView) {
        let missing = self.reply(FsReplyView::Error(Errno::ENOENT));
        match request {
            FsRequestView::Lookup { parent, name } => match node_of(self.snapshot, parent) {
                Some(dir) => match child_of(self.snapshot, dir, name) {
                    Some(child) => self.with_attr(Purpose::Entry, child),
                    None => missing,
                },
                None => missing,
            },
            FsRequestView::Getattr { ino } => match node_of(self.snapshot, ino) {
                Some(node) => self.with_attr(Purpose::Attr, node),
                None => missing,
            },
            FsRequestView::Setattr { ino } => match node_of(self.snapshot, ino) {
                Some(node) => if node.is_directory() {
                    self.reply(FsReplyView::Error(Errno::ENOSYS))
                } else {
                    self.with_attr(Purpose::Attr, node)
                },
                None => missing,
            },
            FsRequestView::Read { ino, offset, size } => match node_of(self.snapshot, ino) {
                Some(node) => if node.is_directory() {
                    self.reply(FsReplyView::Error(Error::IsDirectory.read_errno()))
                } else {
                    match payload_call(node) {
                        Some(call) => self.ask(
                            StageView::Payload { purpose: Purpose::Read { offset, size }, node },
                            call,
                        ),
                        None => self.reply(FsReplyView::Error(Error::NotReadable.read_errno())),
                    }
                },
                None => missing,
            },
            FsRequestView::Write { ino, offset, data } => match node_of(self.snapshot, ino) {
                Some(node) => self.route_write(node, offset, data),
                None => missing,
            },
            FsRequestView::Readdir { ino, offset } => match node_of(self.snapshot, ino) {
                Some(node) => if node.is_directory() {
                    self.reply(FsReplyView::Directory(entries_from(self.snapshot, node, offset)))
                } else {
                    self.reply(FsReplyView::Error(Error::NotDirectory.read_errno()))
                },
                None => missing,
            },
        }
    }

    /// What the file `node` holds has come, or has failed to come.
    pub open spec fn with_payload(self, purpose: Purpose, node: Node, reply: ReplyView) -> (
        ControllerView,
        FsStepView,
    ) {
        match (purpose, payload_of(node, reply)) {
            (Purpose::Read { offset, size }, Some(payload)) => self.reply(
                FsReplyView::Data(read_window(payload, offset, size)),
            ),
            (Purpose::Read { .. }, None) => self.reply(
                FsReplyView::Error(Error::PlatformError.read_errno()),
            ),
            (_, Some(payload)) => self.reply(
                attr_reply(purpose, node.attr_of(payload.len() as u64)),
            ),
            (_, None) => self.reply(attr_reply(purpose, node.attr_of(0))),
        }
    }

    /// The teardown of the managers was begun or resumed.
    pub open spec fn settle_stop(self, moved: (ManagerView, StepView)) -> (
        ControllerView,
        StepView,
    ) {
        (
            ControllerView {
                manager: moved.0,
                stage: if moved.1 is Done {
                    StageView::Idle
                } else {
                    StageView::Stopping
                },
                ..self
            },
            moved.1,
        )
    }

    /// The clock has answered: the process table is scanned if a scan is
    /// due, else the request is routed.
    pub open spec fn after_clock(self, request: FsRequestView, reply: ReplyView) -> (
        ControllerView,
        FsStepView,
    ) {
        match reply {
            ReplyView::Number(now) => if self.snapshot.due(now) {
                self.ask(StageView::Scan(request, now), CallView::ScanProcesses)
            } else {
                self.route(request)
            },
            _ => self.route(request),
        }
    }

    /// The scan has answered: it is taken in, and the request is routed.
    /// Where the scan failed the request is routed against the snapshot
    /// that there is.
    pub open spec fn after_scan(self, request: FsRequestView, now: u64, reply: ReplyView) -> (
        ControllerView,
        FsStepView,
    ) {
        match reply {
            ReplyView::Processes(records) => self.refreshed(now, records).route(request),
            _ => self.route(request),
        }
    }

    /// The transition table of the controller.  Outside a request there
    /// is nothing to resume.
    pub open spec fn next(self, reply: ReplyView) -> (ControllerView, FsStepView) {
        match self.stage {
            StageView::Idle => self.reply(FsReplyView::Error(Errno::EINVAL)),
            StageView::Stopping => (self, FsStepView::Reply(FsReplyView::Error(Errno::EINVAL))),
            StageView::Clock(request) => self.after_clock(request, reply),
            StageView::Scan(request, now) => self.after_scan(request, now, reply),
            StageView::Payload { purpose, node } => self.with_payload(purpose, node, reply),
            StageView::Writing { written } => self.settle_write(
                self.manager.next(reply),
                written,
            ),
        }
    }
}

/// What a request leads to does not depend on the stage that the
/// controller was at before.
proof fn lemma_stage_blind(
    c: ControllerView,
    stage: StageView,
    request: FsRequestView,
    now: u64,
    purpose: Purpose,
    node: Node,
    written: u64,
    reply: ReplyView,
)
    ensures
        (ControllerView { stage, ..c }).route(request) == c.route(request),
        (ControllerView { stage, ..c }).after_clock(request, reply) == c.after_clock(
            request,
            reply,
        ),
        (ControllerView { stage, ..c }).after_scan(request, now, reply) == c.after_scan(
            request,
            now,
            reply,
        ),
        (ControllerView { stage, ..c }).with_payload(purpose, node, reply) == c.with_payload(
            purpose,
            node,
            reply,
        ),
        (ControllerView { stage, ..c }).settle_write(c.manager.next(reply), written)
            == c.settle_write(c.manager.next(reply), written),
{
    reveal(ControllerView::route);
    reveal(ControllerView::route_write);
    let d = ControllerView { stage, ..c };
    assert(d.route(request) == c.route(request));
    match reply {
        ReplyView::Processes(records) => {
            let dr = d.refreshed(now, records);
            let cr = c.refreshed(now, records);
            assert(dr == (ControllerView { stage, ..cr }));
            assert(dr.route(request) == cr.route(request));
        },
        _ => {},
    }
}

/// How far the request in progress is.
enum Stage {
    Idle,
    Clock(FsRequest),
    Scan(FsRequest, u64),
    Payload { purpose: Purpose, node: Node },
    Writing { written: u64 },
    Stopping,
}

impl View for Stage {
    type V = StageView;

    closed spec fn view(&self) -> StageView {
        match self {
            Stage::Idle => StageView::Idle,
            Stage::Clock(request) => StageView::Clock(request@),
            Stage::Scan(request, now) => StageView::Scan(request@, *now),
            Stage::Payload { purpose, node } => StageView::Payload {
                purpose: *purpose,
                node: *node,
            },
            Stage::Writing { written } => StageView::Writing { written: *written },
            Stage::Stopping => StageView::Stopping,
        }
    }
}

/// The file system: the managers, the snapshot of the processes and the
/// request in progress.
pub struct Controller {
    manager: HCBSManager,
    process_info: ProcessInfo,
    stage: Stage,
}

impl View for Controller {
    type V = ControllerView;

    closed spec fn view(&self) -> ControllerView {
        ControllerView {
            manager: self.manager@,
            snapshot: self.process_info@,
            stage: self.stage@,
        }
    }
}

fn attr_answer(purpose: Purpose, attr: FileAttr) -> (reply: FsReply)
    ensures
        reply@ == attr_reply(purpose, attr),
{
    match purpose {
        Purpose::Entry => FsReply::Entry { attr, ttl_millis: DEFAULT_TTL_MILLIS },
        _ => FsReply::Attr { attr, ttl_millis: DEFAULT_TTL_MILLIS },
    }
}

fn payload_request(node: Node) -> (call: Option<Call>)
    ensures
        match call {
            Some(c) => payload_call(node) == Some(c@),
            None => payload_call(node) is None,
        },
{
    match node {
        Node::CgroupFile { pid } => Some(Call::GetPidCgroup { pid }),
        Node::SchedPolicyFile { pid } => Some(Call::GetPolicy { pid }),
        _ => None,
    }
}

fn payload(node: Node, reply: Reply) -> (held: Option<Vec<u8>>)
    ensures
        match held {
            Some(bytes) => payload_of(node, reply@) == Some(bytes@),
            None => payload_of(node, reply@) is None,
        },
{
    match (node, reply) {
        (Node::CgroupFile { .. }, Reply::Cgroup(path)) => Some(cgroup_payload(path.as_slice())),
        (Node::SchedPolicyFile { .. }, Reply::Policy(policy)) => Some(policy.render()),
        _ => None,
    }
}

impl Controller {
    /// A controller that manages nothing yet.  With `keep_on_exit` the
    /// teardown puts every process that was touched back where it was.
    pub fn new(keep_on_exit: bool) -> (controller: Controller)
        ensures
            controller@.wf(),
            controller@.stage is Idle,
            controller@.manager.active == Active::Nothing,
            controller@.manager.cgroups.cgroups.len() == 0,
            controller@.manager.procs.procs.len() == 0,
            controller@.manager.procs.restore_on_exit == keep_on_exit,
            controller@.snapshot.procs.len() == 0,
            controller@.snapshot.last_update is None,
    {
        Controller {
            manager: HCBSManager::new(keep_on_exit),
            process_info: ProcessInfo::new(),
            stage: Stage::Idle,
        }
    }

    /// Whether no request is in progress.
    pub fn is_idle(&self) -> (idle: bool)
        ensures
            idle == (self@.stage is Idle),
    {
        match &self.stage {
            Stage::Idle => true,
            _ => false,
        }
    }

    /// The managers.
    pub fn manager(&self) -> (manager: &HCBSManager)
        ensures
            manager@ == self@.manager,
    {
        &self.manager
    }

    /// The snapshot of the processes alive.
    pub fn process_info(&self) -> (info: &ProcessInfo)
        ensures
            info@ == self@.snapshot,
    {
        &self.process_info
    }

    fn answer(&mut self, reply: FsReply) -> (step: FsStep)
        ensures
            final(self)@ == old(self)@.reply(reply@).0,
            step@ == old(self)@.reply(reply@).1,
            old(self)@.manager.wf() && old(self)@.snapshot.wf() && old(self)@.manager.active
                == Active::Nothing ==> final(self)@.wf(),
    {
        self.stage = Stage::Idle;
        FsStep::Reply(reply)
    }

    fn ask(&mut self, stage: Stage, call: Call) -> (step: FsStep)
        ensures
            final(self)@ == old(self)@.ask(stage@, call@).0,
            step@ == old(self)@.ask(stage@, call@).1,
            old(self)@.manager.wf() && old(self)@.snapshot.wf() && (old(self)@.manager.active
                == Active::Nothing || stage@ is Writing) && (stage@ is Scan ==> old(
                self,
            )@.snapshot.due(stage@->Scan_1)) ==> final(self)@.wf(),
    {
        self.stage = stage;
        FsStep::Call(call)
    }

    /// Begins to serve `request`.
    pub fn begin(&mut self, request: FsRequest) -> (step: FsStep)
        requires
            old(self)@.wf(),
            old(self)@.stage is Idle,
        ensures
            final(self)@ == old(self)@.begin(request@).0,
            step@ == old(self)@.begin(request@).1,
            final(self)@.wf(),
    {
        self.ask(Stage::Clock(request), Call::Clock)
    }

    /// Takes in a scan of the process table made at `now`, where one is
    /// due, and lets the process manager forget the processes that it
    /// shows dead.  Within `UPDATE_DELTA_MILLIS` of the last scan nothing
    /// is taken in and nothing is forgotten.
    pub fn update(&mut self, now: u64, records: &Vec<crate::platform::ProcessRecord>)
        requires
            old(self)@.wf(),
            old(self)@.stage is Idle,
        ensures
            final(self)@ == old(self)@.refreshed(now, records@),
            final(self)@ == if old(self)@.snapshot.due(now) {
                ControllerView {
                    snapshot: old(self)@.snapshot.refreshed(now, records@),
                    manager: ManagerView {
                        procs: old(self)@.manager.procs.without(dead_in(records@)),
                        ..old(self)@.manager
                    },
                    ..old(self)@
                }
            } else {
                old(self)@
            },
            final(self)@.wf(),
    {
        if !self.process_info.refresh_due(now) {
            return ;
        }
        let dead = self.process_info.update_active_processes(now, records);
        self.manager.update_managed_processes(&dead);
    }

    fn with_attr(&mut self, purpose: Purpose, node: Node) -> (step: FsStep)
        ensures
            final(self)@ == old(self)@.with_attr(purpose, node).0,
            step@ == old(self)@.with_attr(purpose, node).1,
            old(self)@.manager.wf() && old(self)@.snapshot.wf() && old(self)@.manager.active
                == Active::Nothing ==> final(self)@.wf(),
    {
        match payload_request(node) {
            Some(call) => self.ask(Stage::Payload { purpose, node }, call),
            None => self.answer(attr_answer(purpose, node.attr(0))),
        }
    }

    fn settle_write(&mut self, moved: Step, written: u64) -> (step: FsStep)
        ensures
            final(self)@ == old(self)@.settle_write((old(self)@.manager, moved@), written).0,
            step@ == old(self)@.settle_write((old(self)@.manager, moved@), written).1,
            old(self)@.manager.wf() && old(self)@.snapshot.wf() && (moved@ is Done ==> old(
                self,
            )@.manager.active == Active::Nothing) ==> final(self)@.wf(),
    {
        match moved {
            Step::Call(call) => self.ask(Stage::Writing { written }, call),
            Step::Done(Ok(_)) => self.answer(FsReply::Written(written)),
            Step::Done(Err(error)) => self.answer(FsReply::Error(error.errno_for_write())),
        }
    }

    fn route_write(&mut self, node: Node, offset: i64, data: Vec<u8>) -> (step: FsStep)
        requires
            old(self)@.wf(),
            old(self)@.manager.active == Active::Nothing,
        ensures
            final(self)@ == old(self)@.route_write(node, offset, data@).0,
            step@ == old(self)@.route_write(node, offset, data@).1,
            final(self)@.wf(),
    {
        reveal(ControllerView::route_write);
        let written: u64 = data.len() as u64;
        if node.is_dir() {
            return self.answer(FsReply::Error(Errno::EISDIR));
        }
        if offset != 0 {
            return self.answer(FsReply::Error(Errno::EINVAL));
        }
        let text = match body_text(data.as_slice()) {
            Some(text) => text,
            None => {
                return self.answer(FsReply::Error(Errno::EIO));
            },
        };
        let refused = Error::ParseError.errno_for_write();
        match node {
            Node::CreateCgroupFile => match parse_reservation_request(text) {
                Some((name, request)) => {
                    let moved = self.manager.create_cgroup(name.as_slice(), request);
                    self.settle_write(moved, written)
                },
                None => self.answer(FsReply::Error(refused)),
            },
            Node::UpdateCgroupFile => match parse_reservation_request(text) {
                Some((name, request)) => {
                    let moved = self.manager.update_cgroup(name.as_slice(), request);
                    self.settle_write(moved, written)
                },
                None => self.answer(FsReply::Error(refused)),
            },
            Node::DeleteCgroupFile => match parse_delete_request(text) {
                Some(name) => {
                    let moved = self.manager.destroy_cgroup(name.as_slice());
                    self.settle_write(moved, written)
                },
                None => self.answer(FsReply::Error(refused)),
            },
            Node::CgroupFile { pid } => match parse_delete_request(text) {
                Some(name) => {
                    let moved = self.manager.assign_cgroup_to_process(pid, name.as_slice());
                    self.settle_write(moved, written)
                },
                None => self.answer(FsReply::Error(refused)),
            },
            Node::SchedPolicyFile { pid } => match parse_policy_request(text) {
                Some(policy) => {
                    let moved = self.manager.set_process_sched_policy(pid, policy);
                    self.settle_write(moved, written)
                },
                None => self.answer(FsReply::Error(refused)),
            },
            _ => self.answer(FsReply::Error(Errno::EISDIR)),
        }
    }

    fn route(&mut self, request: FsRequest) -> (step: FsStep)
        requires
            old(self)@.wf(),
            old(self)@.manager.active == Active::Nothing,
        ensures
            final(self)@ == old(self)@.route(request@).0,
            step@ == old(self)@.route(request@).1,
            final(self)@.wf(),
    {
        reveal(ControllerView::route);
        match request {
            FsRequest::Lookup { parent, name } => {
                match node_from_inode(&self.process_info, parent) {
                    Some(dir) => {
                        proof {
                            law_node_has_inode(self@.snapshot, parent);
                        }
                        match lookup(&self.process_info, dir, name.as_slice()) {
                            Some(child) => self.with_attr(Purpose::Entry, child),
                            None => self.answer(FsReply::Error(Errno::ENOENT)),
                        }
                    },
                    None => self.answer(FsReply::Error(Errno::ENOENT)),
                }
            },
            FsRequest::Getattr { ino } => match node_from_inode(&self.process_info, ino) {
                Some(node) => self.with_attr(Purpose::Attr, node),
                None => self.answer(FsReply::Error(Errno::ENOENT)),
            },
            FsRequest::Setattr { ino } => match node_from_inode(&self.process_info, ino) {
                Some(node) => {
                    if node.is_dir() {
                        self.answer(FsReply::Error(Errno::ENOSYS))
                    } else {
                        self.with_attr(Purpose::Attr, node)
                    }
                },
                None => self.answer(FsReply::Error(Errno::ENOENT)),
            },
            FsRequest::Read { ino, offset, size } => {
                match node_from_inode(&self.process_info, ino) {
                    Some(node) => {
                        if node.is_dir() {
                            self.answer(FsReply::Error(Error::IsDirectory.errno_for_read()))
                        } else {
                            match payload_request(node) {
                                Some(call) => self.ask(
                                    Stage::Payload {
                                        purpose: Purpose::Read { offset, size },
                                        node,
                                    },
                                    call,
                                ),
                                None => self.answer(
                                    FsReply::Error(Error::NotReadable.errno_for_read()),
                                ),
                            }
                        }
                    },
                    None => self.answer(FsReply::Error(Errno::ENOENT)),
                }
            },
            FsRequest::Write { ino, offset, data } => {
                match node_from_inode(&self.process_info, ino) {
                    Some(node) => self.route_write(node, offset, data),
                    None => self.answer(FsReply::Error(Errno::ENOENT)),
                }
            },
            FsRequest::Readdir { ino, offset } => {
                match node_from_inode(&self.process_info, ino) {
                    Some(node) => {
                        proof {
                            law_node_has_inode(self@.snapshot, ino);
                        }
                        match readdir(&self.process_info, node, offset) {
                            Ok(entries) => self.answer(FsReply::Directory(entries)),
                            Err(_) => self.answer(
                                FsReply::Error(Error::NotDirectory.errno_for_read()),
                            ),
                        }
                    },
                    None => self.answer(FsReply::Error(Errno::ENOENT)),
                }
            },
        }
    }

    fn with_payload(&mut self, purpose: Purpose, node: Node, reply: Reply) -> (step: FsStep)
        ensures
            final(self)@ == old(self)@.with_payload(purpose, node, reply@).0,
            step@ == old(self)@.with_payload(purpose, node, reply@).1,
            old(self)@.manager.wf() && old(self)@.snapshot.wf() && old(self)@.manager.active
                == Active::Nothing ==> final(self)@.wf(),
    {
        match (purpose, payload(node, reply)) {
            (Purpose::Read { offset, size }, Some(held)) => self.answer(
                FsReply::Data(read_data(held.as_slice(), offset, size)),
            ),
            (Purpose::Read { .. }, None) => self.answer(
                FsReply::Error(Error::PlatformError.errno_for_read()),
            ),
            (_, Some(held)) => self.answer(attr_answer(purpose, node.attr(held.len() as u64))),
            (_, None) => self.answer(attr_answer(purpose, node.attr(0))),
        }
    }

    /// Resumes the request in progress with the reply of the platform to
    /// the call that was last asked for.
    pub fn resume(&mut self, reply: Reply) -> (step: FsStep)
        requires
            old(self)@.wf(),
        ensures
            final(self)@ == old(self)@.next(reply@).0,
            step@ == old(self)@.next(reply@).1,
            final(self)@.wf(),
    {
        let mut stage = Stage::Idle;
        core::mem::swap(&mut stage, &mut self.stage);
        proof {
            let ghost request = match old(self)@.stage {
                StageView::Clock(request) => request,
                StageView::Scan(request, _) => request,
                _ => FsRequestView::Getattr { ino: 0 },
            };
            let ghost now = match old(self)@.stage {
                StageView::Scan(_, now) => now,
                _ => 0,
            };
            let ghost purpose = match old(self)@.stage {
                StageView::Payload { purpose, .. } => purpose,
                _ => Purpose::Attr,
            };
            let ghost node = match old(self)@.stage {
                StageView::Payload { node, .. } => node,
                _ => Node::RootDir,
            };
            let ghost written = match old(self)@.stage {
                StageView::Writing { written } => written,
                _ => 0,
            };
            lemma_stage_blind(
                old(self)@,
                StageView::Idle,
                request,
                now,
                purpose,
                node,
                written,
                reply@,
            );
            assert(self@ == (ControllerView { stage: StageView::Idle, ..old(self)@ }));
        }
        match stage {
            Stage::Idle => self.answer(FsReply::Error(Errno::EINVAL)),
            Stage::Stopping => {
                self.stage = Stage::Stopping;
                FsStep::Reply(FsReply::Error(Errno::EINVAL))
            },
            Stage::Clock(request) => self.after_clock(request, reply),
            Stage::Scan(request, now) => self.after_scan(request, now, reply),
            Stage::Payload { purpose, node } => self.with_payload(purpose, node, reply),
            Stage::Writing { written } => self.after_manager(written, reply),
        }
    }

    fn after_manager(&mut self, written: u64, reply: Reply) -> (step: FsStep)
        requires
            old(self)@.manager.wf(),
            old(self)@.snapshot.wf(),
        ensures
            final(self)@ == old(self)@.settle_write(old(self)@.manager.next(reply@), written).0,
            step@ == old(self)@.settle_write(old(self)@.manager.next(reply@), written).1,
            final(self)@.wf(),
    {
        let moved = self.manager.resume(reply);
        self.settle_write(moved, written)
    }

    fn after_clock(&mut self, request: FsRequest, reply: Reply) -> (step: FsStep)
        requires
            old(self)@.manager.wf(),
            old(self)@.snapshot.wf(),
            old(self)@.manager.active == Active::Nothing,
            old(self)@.stage is Idle,
        ensures
            final(self)@ == old(self)@.after_clock(request@, reply@).0,
            step@ == old(self)@.after_clock(request@, reply@).1,
            final(self)@.wf(),
    {
        match reply {
            Reply::Number(now) => {
                if self.process_info.refresh_due(now) {
                    self.ask(Stage::Scan(request, now), Call::ScanProcesses)
                } else {
                    self.route(request)
                }
            },
            _ => self.route(request),
        }
    }

    fn after_scan(&mut self, request: FsRequest, now: u64, reply: Reply) -> (step: FsStep)
        requires
            old(self)@.manager.wf(),
            old(self)@.snapshot.wf(),
            old(self)@.manager.active == Active::Nothing,
            old(self)@.stage is Idle,
        ensures
            final(self)@ == old(self)@.after_scan(request@, now, reply@).0,
            step@ == old(self)@.after_scan(request@, now, reply@).1,
            final(self)@.wf(),
    {
        match reply {
            Reply::Processes(records) => {
                self.update(now, &records);
                self.route(request)
            },
            _ => self.route(request),
        }
    }

    fn settle_stop(&mut self, moved: Step) -> (step: Step)
        ensures
            final(self)@ == old(self)@.settle_stop((old(self)@.manager, moved@)).0,
            step@ == old(self)@.settle_stop((old(self)@.manager, moved@)).1,
    {
        match moved {
            Step::Done(result) => {
                self.stage = Stage::Idle;
                Step::Done(result)
            },
            Step::Call(call) => {
                self.stage = Stage::Stopping;
                Step::Call(call)
            },
        }
    }

    /// Begins the teardown of the managers: the processes are put back,
    /// then the cgroups are destroyed.
    pub fn shutdown(&mut self) -> (step: Step)
        requires
            old(self)@.wf(),
            old(self)@.stage is Idle,
        ensures
            final(self)@ == old(self)@.settle_stop(old(self)@.manager.begin_shutdown()).0,
            step@ == old(self)@.settle_stop(old(self)@.manager.begin_shutdown()).1,
            final(self)@.wf(),
    {
        let moved = self.manager.shutdown();
        self.settle_stop(moved)
    }

    /// Resumes the teardown with the reply of the platform to the call
    /// that was last asked for.
    pub fn resume_shutdown(&mut self, reply: Reply) -> (step: Step)
        requires
            old(self)@.wf(),
            old(self)@.stage is Stopping,
        ensures
            final(self)@ == old(self)@.settle_stop(old(self)@.manager.next(reply@)).0,
            step@ == old(self)@.settle_stop(old(self)@.manager.next(reply@)).1,
            final(self)@.wf(),
    {
        let moved = self.manager.resume(reply);
        self.settle_stop(moved)
    }
}

} // verus!
