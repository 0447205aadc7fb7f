//! What holds of the controller.
use vstd::prelude::*;
use crate::controller::{ControllerView, FsReplyView, FsRequestView, FsStepView, StageView};
use crate::error::Errno;
use crate::filesystem::Node;
use crate::parser::{delete_request, law_policy_written_back, policy_request, reservation_request};

use crate::manager::facade::ManagerView;
use crate::platform::{CallView, ProcessRecord, ReplyView};
use crate::policy::SchedPolicy;
use crate::snapshot::{dead_in, UPDATE_DELTA_MILLIS};
use crate::text::written_text;

verus! {

/// What `text` asks of the file `node`, if it is in the grammar of the file.
pub open spec fn is_command(node: Node, text: Seq<u8>) -> bool {
    match node {
        Node::CreateCgroupFile => reservation_request(text) is Some,
        Node::UpdateCgroupFile => reservation_request(text) is Some,
        Node::DeleteCgroupFile => delete_request(text) is Some,
        Node::CgroupFile { .. } => delete_request(text) is Some,
        Node::SchedPolicyFile { .. } => policy_request(text) is Some,
        _ => false,
    }
}

/// A write reaches the managers only as a whole command: one to a
/// directory, one that does not start at the beginning of the file, one
/// that is not UTF-8 and one that is not in the grammar of the file are
/// answered with their error, the managers stay as they were and nothing
/// is asked of the platform.
pub proof fn law_write_refused(c: ControllerView, node: Node, offset: i64, data: Seq<u8>)
    requires
        node.is_directory() || offset != 0 || written_text(data) is None || !is_command(
            node,
            written_text(data).unwrap(),
        ),
    ensures
        c.route_write(node, offset, data).0.manager == c.manager,
        c.route_write(node, offset, data).0.snapshot == c.snapshot,
        c.route_write(node, offset, data).1 == FsStepView::Reply(
            FsReplyView::Error(
                if node.is_directory() {
                    Errno::EISDIR
                } else if offset != 0 {
                    Errno::EINVAL
                } else if written_text(data) is None {
                    Errno::EIO
                } else {
                    Errno::EACCES
                },
            ),
        ),
{
    reveal(ControllerView::route_write);
}

/// A write that is taken is answered with the number of bytes of its
/// body, white space and all, and an operation that fails with the error
/// number of the failure.
pub proof fn law_write_settled(c: ControllerView, node: Node, data: Seq<u8>)
    requires
        !node.is_directory(),
        written_text(data) is Some,
        is_command(node, written_text(data).unwrap()),
    ensures
        match c.route_write(node, 0, data).1 {
            FsStepView::Reply(reply) => reply == FsReplyView::Written(data.len() as u64) || reply
                == FsReplyView::Error(Errno::EACCES),
            FsStepView::Call(_) => c.route_write(node, 0, data).0.stage == (StageView::Writing {
                written: data.len() as u64,
            }),
        },
{
    reveal(ControllerView::route_write);
}

/// Writing back what a policy file shows asks for the policy that is in
/// effect: the line that shows the default policy or a real-time policy,
/// written to the file of a process, begins the change to that very
/// policy, so that the one thing it can ask the platform to change is
/// what is the case already.
pub proof fn law_policy_written_back_asks_for_it(c: ControllerView, pid: u32, policy: SchedPolicy)
    requires
        policy is Other || policy is Fifo || policy is Rr,
    ensures
        c.route_write(Node::SchedPolicyFile { pid }, 0, policy.line()) == c.settle_write(
            c.manager.begin_policy(pid, policy),
            policy.line().len() as u64,
        ),
{
    reveal(ControllerView::route_write);
    law_policy_written_back(policy);
}

/// The process table is scanned at most once in `UPDATE_DELTA_MILLIS`.
/// When the clock has answered, a scan is asked for exactly where the
/// last one is longer ago than that, or there was none; within that time
/// the request is routed against the snapshot that there is, and nothing
/// is asked of the process table.
pub proof fn law_scan_debounced(
    c: ControllerView,
    request: FsRequestView,
    now: u64,
)
    ensures
        c.snapshot.due(now) <==> c.snapshot.last_update is None || now
            - c.snapshot.last_update.unwrap() > UPDATE_DELTA_MILLIS,
        c.snapshot.due(now) ==> c.after_clock(request, ReplyView::Number(now)) == c.ask(
            StageView::Scan(request, now),
            CallView::ScanProcesses,
        ),
        !c.snapshot.due(now) ==> c.after_clock(request, ReplyView::Number(now)) == c.route(
            request,
        ),
{
}

/// A scan that was asked for is taken in: when its records come, the
/// snapshot is what they show alive, the time of the scan is remembered,
/// and the processes that they show dead are forgotten, before the
/// request is routed.
pub proof fn law_scan_taken_in(
    c: ControllerView,
    request: FsRequestView,
    now: u64,
    records: Seq<ProcessRecord>,
)
    requires
        c.wf(),
        c.stage == StageView::Scan(request, now),
    ensures
        c.refreshed(now, records).snapshot.procs == crate::snapshot::alive_in(records),
        c.refreshed(now, records).snapshot.last_update == Some(now),
        c.refreshed(now, records).manager == (ManagerView {
            procs: c.manager.procs.without(dead_in(records)),
            ..c.manager
        }),
        c.next(ReplyView::Processes(records)) == c.refreshed(now, records).route(request),
        !c.refreshed(now, records).snapshot.due(now),
{
}

/// An update within `UPDATE_DELTA_MILLIS` of the last scan changes
/// nothing, whatever the records say.
pub proof fn law_update_debounced(c: ControllerView, now: u64, records: Seq<ProcessRecord>)
    requires
        !c.snapshot.due(now),
    ensures
        c.refreshed(now, records) == c,
{
}

} // verus!
