//! What holds of the tree.
use vstd::prelude::*;
use crate::filesystem::{
    child_of,
    children_of,
    entries_from,
    lemma_child_listed,
    lemma_first_of_name,
    lemma_listing_shape,
    lemma_names,
    lemma_none_of_name,
    listing_of,
    name_cgroup,
    name_create,
    name_delete,
    name_proc,
    name_sched_policy,
    name_update,
    name_parent,
    name_self,
    node_of,
    Node,
};
use crate::inode::lemma_pid_of_file_inode;
use crate::snapshot::{lemma_snapshot_index, SnapshotView};
use crate::text::{decimal_text, is_digit, lemma_decimal_text};

verus! {

/// Every node of the tree is found again from its inode.
pub proof fn law_inode_finds_node(s: SnapshotView, node: Node)
    requires
        s.wf(),
        node.valid_in(s),
    ensures
        node_of(s, node.ino()) == Some(node),
{
    match node {
        Node::PidDir { pid, .. } => {
            lemma_snapshot_index(s, pid);
            lemma_pid_of_file_inode(pid, 0);
        },
        Node::CgroupFile { pid } => {
            lemma_snapshot_index(s, pid);
            lemma_pid_of_file_inode(pid, 2);
        },
        Node::SchedPolicyFile { pid } => {
            lemma_snapshot_index(s, pid);
            lemma_pid_of_file_inode(pid, 3);
        },
        _ => {},
    }
}

/// The node found from an inode has that inode, and is of the tree.
pub proof fn law_node_has_inode(s: SnapshotView, ino: u64)
    requires
        s.wf(),
        node_of(s, ino) is Some,
    ensures
        node_of(s, ino).unwrap().ino() == ino,
        node_of(s, ino).unwrap().valid_in(s),
        ino != 0,
{
}

/// Two numbers with the same digits are the same number.
pub proof fn lemma_decimal_text_differs(a: nat, b: nat)
    requires
        a != b,
    ensures
        decimal_text(a) != decimal_text(b),
{
    lemma_decimal_text(a);
    lemma_decimal_text(b);
}

/// The names of the children of a directory are not `.` nor `..`, and no
/// two children have the same name.
proof fn lemma_children_names(s: SnapshotView, dir: Node)
    requires
        s.wf(),
    ensures
        forall|i: int|
            0 <= i < children_of(s, dir).len() ==> (#[trigger] children_of(s, dir)[i]).name
                != name_self() && children_of(s, dir)[i].name != name_parent(),
        forall|i: int, j: int|
            0 <= i < j < children_of(s, dir).len() ==> (#[trigger] children_of(s, dir)[i]).name != (
            #[trigger] children_of(s, dir)[j]).name,
{
    lemma_names();
    let kids = children_of(s, dir);
    match dir {
        Node::ProcDir => {
            assert forall|i: int| 0 <= i < kids.len() implies (#[trigger] kids[i]).name
                != name_self() && kids[i].name != name_parent() by {
                lemma_decimal_text(s.procs[i].pid as nat);
                assert(is_digit(kids[i].name[0]));
            }
            assert forall|i: int, j: int| 0 <= i < j < kids.len() implies (#[trigger] kids[i]).name
                != (#[trigger] kids[j]).name by {
                lemma_decimal_text_differs(s.procs[i].pid as nat, s.procs[j].pid as nat);
            }
        },
        Node::RootDir => {
            assert(kids[0].name[0] == 0x70);
            assert(kids[1].name[0] == 0x63);
        },
        Node::PidDir { .. } => {
            assert(kids[0].name[0] == 0x63);
            assert(kids[1].name[0] == 0x73);
        },
        Node::CgroupDir => {
            assert(kids[0].name[0] == 0x63);
            assert(kids[1].name[0] == 0x64);
            assert(kids[2].name[0] == 0x75);
        },
        _ => {},
    }
}

/// No name stands twice in the listing of a directory.
pub proof fn lemma_listing_names(s: SnapshotView, dir: Node)
    requires
        s.wf(),
    ensures
        forall|i: int, j: int|
            0 <= i < j < listing_of(s, dir).len() ==> (#[trigger] listing_of(s, dir)[i]).name != (
            #[trigger] listing_of(s, dir)[j]).name,
{
    lemma_names();
    lemma_listing_shape(s, dir);
    lemma_children_names(s, dir);
    let listing = listing_of(s, dir);
    let kids = children_of(s, dir);
    let dots: int = if dir.parent_in(s) is Some {
        2
    } else {
        1
    };
    assert(name_self().len() == 1 && name_parent().len() == 2);
    assert forall|i: int, j: int| 0 <= i < j < listing.len() implies (#[trigger] listing[i]).name
        != (#[trigger] listing[j]).name by {
        if j >= dots {
            assert(listing[j] == kids[j - dots]);
            if i >= dots {
                assert(listing[i] == kids[i - dots]);
            }
        }
    }
}

/// A lookup finds what a listing shows, under the name that the listing
/// shows it under.
pub proof fn law_lookup_finds_listed(s: SnapshotView, dir: Node, index: int)
    requires
        s.wf(),
        dir.is_directory(),
        0 <= index < listing_of(s, dir).len(),
    ensures
        child_of(s, dir, listing_of(s, dir)[index].name) == Some(listing_of(s, dir)[index].node),
{
    lemma_listing_names(s, dir);
    lemma_first_of_name(s, dir, listing_of(s, dir)[index].name, index);
}

/// A lookup finds nothing but what a listing shows, and nothing in a file.
pub proof fn law_lookup_finds_only_listed(s: SnapshotView, dir: Node, name: Seq<u8>)
    requires
        child_of(s, dir, name) is Some,
    ensures
        dir.is_directory(),
        exists|i: int|
            0 <= i < listing_of(s, dir).len() && (#[trigger] listing_of(s, dir)[i]).name == name
                && listing_of(s, dir)[i].node == child_of(s, dir, name).unwrap(),
{
    lemma_child_listed(s, dir, name);
    let place = crate::filesystem::position_of(listing_of(s, dir), name, 0);
    assert(listing_of(s, dir)[place].name == name);
}

/// In every directory `.` is the directory itself and `..` the directory
/// it stands in; the root, which stands in none, has no `..`.
pub proof fn law_dots(s: SnapshotView, dir: Node)
    requires
        s.wf(),
        dir.is_directory(),
    ensures
        child_of(s, dir, name_self()) == Some(dir),
        child_of(s, dir, name_parent()) == dir.parent_in(s),
{
    lemma_names();
    lemma_listing_shape(s, dir);
    lemma_children_names(s, dir);
    let listing = listing_of(s, dir);
    let kids = children_of(s, dir);
    assert(name_self().len() == 1 && name_parent().len() == 2);
    lemma_first_of_name(s, dir, name_self(), 0);
    if dir.parent_in(s) is Some {
        assert(listing[0].name != name_parent());
        lemma_first_of_name(s, dir, name_parent(), 1);
    } else {
        assert forall|i: int| 0 <= i < listing.len() implies (#[trigger] listing[i]).name
            != name_parent() by {
            if i >= 1 {
                assert(listing[i] == kids[i - 1]);
            }
        }
        lemma_none_of_name(s, dir, name_parent());
    }
}

/// What stands in a directory of the tree is of the tree.
pub proof fn law_listed_is_valid(s: SnapshotView, dir: Node, index: int)
    requires
        s.wf(),
        dir.valid_in(s),
        0 <= index < listing_of(s, dir).len(),
    ensures
        listing_of(s, dir)[index].node.valid_in(s),
{
    let listing = listing_of(s, dir);
    let kids = children_of(s, dir);
    lemma_listing_shape(s, dir);
    match dir {
        Node::ProcDir => {
            if index >= 2 {
                assert(listing[index] == kids[index - 2]);
                let pid = s.procs[index - 2].pid;
                assert(s.has(pid));
                lemma_snapshot_index(s, pid);
            }
        },
        Node::PidDir { pid, .. } => {},
        Node::CgroupFile { pid } => {
            lemma_snapshot_index(s, pid);
        },
        Node::SchedPolicyFile { pid } => {
            lemma_snapshot_index(s, pid);
        },
        _ => {},
    }
}

/// A listing can be taken up where an entry says: the place that an entry
/// names leads to the entries after it.
pub proof fn law_listing_resumes(s: SnapshotView, dir: Node, offset: i64, index: int)
    requires
        0 <= index < entries_from(s, dir, offset).len(),
        listing_of(s, dir).len() < i64::MAX,
    ensures
        entries_from(s, dir, entries_from(s, dir, offset)[index].offset as i64) == entries_from(
            s,
            dir,
            offset,
        ).skip(index + 1),
        entries_from(s, dir, 0).len() == listing_of(s, dir).len(),
{
    let listing = listing_of(s, dir);
    let cursor = entries_from(s, dir, offset)[index].offset;
    assert(cursor == offset + index + 1);
    assert(entries_from(s, dir, cursor as i64) =~= entries_from(s, dir, offset).skip(index + 1));
}

/// The root holds the directory of the processes and the directory of the
/// cgroups, under their names.
pub proof fn law_root_children(s: SnapshotView)
    requires
        s.wf(),
    ensures
        child_of(s, Node::RootDir, name_proc()) == Some(Node::ProcDir),
        child_of(s, Node::RootDir, name_cgroup()) == Some(Node::CgroupDir),
{
    lemma_listing_shape(s, Node::RootDir);
    let listing = listing_of(s, Node::RootDir);
    let kids = children_of(s, Node::RootDir);
    assert(listing[1] == kids[0]);
    assert(listing[2] == kids[1]);
    law_lookup_finds_listed(s, Node::RootDir, 1);
    law_lookup_finds_listed(s, Node::RootDir, 2);
}

/// The directory of the processes holds one directory for each process
/// alive, under the number of the process written in base ten, and under
/// the names of these numbers nothing else.
pub proof fn law_proc_children(s: SnapshotView, pid: u32)
    requires
        s.wf(),
    ensures
        s.has(pid) ==> child_of(s, Node::ProcDir, decimal_text(pid as nat)) == Some(
            Node::pid_dir(s, pid),
        ),
        !s.has(pid) ==> child_of(s, Node::ProcDir, decimal_text(pid as nat)) is None,
{
    lemma_names();
    lemma_listing_shape(s, Node::ProcDir);
    let listing = listing_of(s, Node::ProcDir);
    let kids = children_of(s, Node::ProcDir);
    let name = decimal_text(pid as nat);
    lemma_decimal_text(pid as nat);
    assert(is_digit(name[0]));
    if s.has(pid) {
        lemma_snapshot_index(s, pid);
        let i = s.index_of(pid);
        assert(listing[i + 2] == kids[i]);
        law_lookup_finds_listed(s, Node::ProcDir, i + 2);
    } else {
        assert forall|j: int| 0 <= j < listing.len() implies (#[trigger] listing[j]).name
            != name by {
            if j >= 2 {
                assert(listing[j] == kids[j - 2]);
                assert(s.procs[j - 2].pid != pid);
                lemma_decimal_text_differs(s.procs[j - 2].pid as nat, pid as nat);
            }
        }
        lemma_none_of_name(s, Node::ProcDir, name);
    }
}

/// The directory of a process holds its two files, under their names.
pub proof fn law_pid_children(s: SnapshotView, dir: Node)
    requires
        s.wf(),
        dir is PidDir,
    ensures
        child_of(s, dir, name_cgroup()) == Some(Node::CgroupFile { pid: dir->PidDir_pid }),
        child_of(s, dir, name_sched_policy()) == Some(Node::SchedPolicyFile { pid: dir->PidDir_pid }),
{
    lemma_listing_shape(s, dir);
    let listing = listing_of(s, dir);
    let kids = children_of(s, dir);
    assert(listing[2] == kids[0]);
    assert(listing[3] == kids[1]);
    law_lookup_finds_listed(s, dir, 2);
    law_lookup_finds_listed(s, dir, 3);
}

/// The directory of the cgroups holds the three command files, under
/// their names.
pub proof fn law_cgroup_children(s: SnapshotView)
    requires
        s.wf(),
    ensures
        child_of(s, Node::CgroupDir, name_create()) == Some(Node::CreateCgroupFile),
        child_of(s, Node::CgroupDir, name_delete()) == Some(Node::DeleteCgroupFile),
        child_of(s, Node::CgroupDir, name_update()) == Some(Node::UpdateCgroupFile),
{
    lemma_listing_shape(s, Node::CgroupDir);
    let listing = listing_of(s, Node::CgroupDir);
    let kids = children_of(s, Node::CgroupDir);
    assert(listing[2] == kids[0]);
    assert(listing[3] == kids[1]);
    assert(listing[4] == kids[2]);
    law_lookup_finds_listed(s, Node::CgroupDir, 2);
    law_lookup_finds_listed(s, Node::CgroupDir, 3);
    law_lookup_finds_listed(s, Node::CgroupDir, 4);
}

} // verus!
