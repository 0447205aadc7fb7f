//! The tree of the virtual file system.
//!
//! ```text
//! /                      RootDir
//! /proc                  ProcDir, one directory for each process alive
//! /proc/<pid>            PidDir
//! /proc/<pid>/cgroup
//! /proc/<pid>/sched_policy
//! /cgroup                CgroupDir
//! /cgroup/create
//! /cgroup/delete
//! /cgroup/update
//! ```
//!
//! Nothing of the tree is stored.  A node is found from its inode, or from
//! the inode of its directory and its name, against the snapshot of the
//! processes alive.
use vstd::prelude::*;
use vstd::string::*;
use crate::error::Errno;
use crate::inode::{
    inode_to_pid_dir,
    pid_dir_inode,
    pid_of_inode,
    pid_to_dir_inode,
    CGROUP_DIR_INODE,
    PROC_DIR_INODE,
    ROOT_DIR_INODE,
};
use crate::policy::append;
use crate::snapshot::{ProcessInfo, SnapshotView};
use crate::text::{bytes_equal, decimal_text, render_decimal};

pub mod laws;

verus! {

/// For how long the kernel may keep an attribute or an entry, in
/// milliseconds: so short that it always sees what is there.
pub const DEFAULT_TTL_MILLIS: u64 = 1;

pub const ROOT_UID: u32 = 0;

pub const ROOT_GID: u32 = 0;

/// The epoch, where no time is known.
pub const UNKNOWN_TIME: u64 = 0;

pub const BLOCK_SIZE: u32 = 512;

pub const DIR_PERM: u16 = 0o775;

pub const FILE_PERM: u16 = 0o664;

pub const COMMAND_FILE_PERM: u16 = 0o666;

/// Where the files of a process directory stand after its inode.
pub const CGROUP_FILE_OFFSET: u64 = 2;

pub const SCHED_POLICY_FILE_OFFSET: u64 = 3;

/// Where the command files stand after the inode of their directory.
pub const CREATE_FILE_OFFSET: u64 = 1;

pub const DELETE_FILE_OFFSET: u64 = 2;

pub const UPDATE_FILE_OFFSET: u64 = 3;

#[derive(Clone, Copy, Debug, PartialEq, Eq, Structural)]
pub enum FileType {
    Directory,
    RegularFile,
}

/// The attributes of a node.  Times are in seconds since the epoch.
#[derive(Clone, Copy, Debug, PartialEq, Eq, Structural)]
pub struct FileAttr {
    pub ino: u64,
    pub size: u64,
    pub blocks: u64,
    pub atime: u64,
    pub mtime: u64,
    pub ctime: u64,
    pub crtime: u64,
    pub kind: FileType,
    pub perm: u16,
    pub nlink: u32,
    pub uid: u32,
    pub gid: u32,
    pub rdev: u32,
    pub blksize: u32,
    pub flags: u32,
}

/// A node of the tree.
#[derive(Clone, Copy, Debug, PartialEq, Eq, Structural)]
pub enum Node {
    RootDir,
    ProcDir,
    PidDir { pid: u32, uid: u32, gid: u32, crtime: u64 },
    /// The file `cgroup` of a process.
    CgroupFile { pid: u32 },
    /// The file `sched_policy` of a process.
    SchedPolicyFile { pid: u32 },
    CgroupDir,
    CreateCgroupFile,
    DeleteCgroupFile,
    UpdateCgroupFile,
}

pub open spec fn name_self() -> Seq<u8> {
    ".".spec_bytes()
}

pub open spec fn name_parent() -> Seq<u8> {
    "..".spec_bytes()
}

pub open spec fn name_proc() -> Seq<u8> {
    "proc".spec_bytes()
}

pub open spec fn name_cgroup() -> Seq<u8> {
    "cgroup".spec_bytes()
}

pub open spec fn name_sched_policy() -> Seq<u8> {
    "sched_policy".spec_bytes()
}

pub open spec fn name_create() -> Seq<u8> {
    "create".spec_bytes()
}

pub open spec fn name_delete() -> Seq<u8> {
    "delete".spec_bytes()
}

pub open spec fn name_update() -> Seq<u8> {
    "update".spec_bytes()
}

/// How the names begin and how long they are: enough to tell them apart.
pub proof fn lemma_names()
    ensures
        name_self() == seq![0x2Eu8],
        name_parent() == seq![0x2Eu8, 0x2E],
        name_proc().len() == 4 && name_proc()[0] == 0x70,
        name_cgroup().len() == 6 && name_cgroup()[0] == 0x63,
        name_sched_policy().len() == 12 && name_sched_policy()[0] == 0x73,
        name_create().len() == 6 && name_create()[0] == 0x63 && name_create()[1] == 0x72,
        name_delete().len() == 6 && name_delete()[0] == 0x64,
        name_update().len() == 6 && name_update()[0] == 0x75,
        name_cgroup()[1] == 0x67,
{
    broadcast use vstd::string::group_string_axioms;

    reveal_strlit(".");
    reveal_strlit("..");
    reveal_strlit("proc");
    reveal_strlit("cgroup");
    reveal_strlit("sched_policy");
    reveal_strlit("create");
    reveal_strlit("delete");
    reveal_strlit("update");
    assert(".".is_ascii());
    assert("..".is_ascii());
    assert("proc".is_ascii());
    assert("cgroup".is_ascii());
    assert("sched_policy".is_ascii());
    assert("create".is_ascii());
    assert("delete".is_ascii());
    assert("update".is_ascii());
    assert(name_self() =~= seq![0x2Eu8]);
    assert(name_parent() =~= seq![0x2Eu8, 0x2E]);
}

impl Node {
    /// The inode of the node.
    pub open spec fn ino(self) -> u64 {
        match self {
            Node::RootDir => ROOT_DIR_INODE,
            Node::ProcDir => PROC_DIR_INODE,
            Node::PidDir { pid, .. } => pid_dir_inode(pid),
            Node::CgroupFile { pid } => (pid_dir_inode(pid) + CGROUP_FILE_OFFSET) as u64,
            Node::SchedPolicyFile { pid } => (pid_dir_inode(pid) + SCHED_POLICY_FILE_OFFSET) as u64,
            Node::CgroupDir => CGROUP_DIR_INODE,
            Node::CreateCgroupFile => (CGROUP_DIR_INODE + CREATE_FILE_OFFSET) as u64,
            Node::DeleteCgroupFile => (CGROUP_DIR_INODE + DELETE_FILE_OFFSET) as u64,
            Node::UpdateCgroupFile => (CGROUP_DIR_INODE + UPDATE_FILE_OFFSET) as u64,
        }
    }

    pub open spec fn is_directory(self) -> bool {
        self is RootDir || self is ProcDir || self is PidDir || self is CgroupDir
    }

    pub open spec fn file_type(self) -> FileType {
        if self.is_directory() {
            FileType::Directory
        } else {
            FileType::RegularFile
        }
    }

    /// The name of the node in its directory.
    pub open spec fn file_name(self) -> Seq<u8> {
        match self {
            Node::RootDir => name_self(),
            Node::ProcDir => name_proc(),
            Node::PidDir { pid, .. } => decimal_text(pid as nat),
            Node::CgroupFile { .. } => name_cgroup(),
            Node::SchedPolicyFile { .. } => name_sched_policy(),
            Node::CgroupDir => name_cgroup(),
            Node::CreateCgroupFile => name_create(),
            Node::DeleteCgroupFile => name_delete(),
            Node::UpdateCgroupFile => name_update(),
        }
    }

    /// The node is of the tree as the snapshot `s` shows it: the process
    /// it belongs to, if any, is alive, with these attributes.
    pub open spec fn valid_in(self, s: SnapshotView) -> bool {
        match self {
            Node::PidDir { pid, uid, gid, crtime } => s.has(pid) && s.stats_of(pid).uid == uid
                && s.stats_of(pid).gid == gid && s.stats_of(pid).crtime == crtime,
            Node::CgroupFile { pid } => s.has(pid),
            Node::SchedPolicyFile { pid } => s.has(pid),
            _ => true,
        }
    }

    /// The directory of a process of the snapshot.
    pub open spec fn pid_dir(s: SnapshotView, pid: u32) -> Node {
        Node::PidDir {
            pid,
            uid: s.stats_of(pid).uid,
            gid: s.stats_of(pid).gid,
            crtime: s.stats_of(pid).crtime,
        }
    }

    /// The directory that the node stands in.  The root stands in none.
    pub open spec fn parent_in(self, s: SnapshotView) -> Option<Node> {
        match self {
            Node::RootDir => None,
            Node::ProcDir => Some(Node::RootDir),
            Node::CgroupDir => Some(Node::RootDir),
            Node::PidDir { .. } => Some(Node::ProcDir),
            Node::CgroupFile { pid } => Some(Node::pid_dir(s, pid)),
            Node::SchedPolicyFile { pid } => Some(Node::pid_dir(s, pid)),
            Node::CreateCgroupFile => Some(Node::CgroupDir),
            Node::DeleteCgroupFile => Some(Node::CgroupDir),
            Node::UpdateCgroupFile => Some(Node::CgroupDir),
        }
    }

    /// The attributes of the node, `size` being the length of what a read
    /// of it shows.  A directory is owned by root and has no times but for
    /// the directory of a process, which is owned by the owner of the
    /// process and as old as the process.
    pub open spec fn attr_of(self, size: u64) -> FileAttr {
        let size = if self.is_directory() {
            0
        } else {
            size
        };
        let time = match self {
            Node::PidDir { crtime, .. } => crtime,
            _ => UNKNOWN_TIME,
        };
        FileAttr {
            ino: self.ino(),
            size,
            blocks: ((size + 511) / 512) as u64,
            atime: time,
            mtime: time,
            ctime: time,
            crtime: time,
            kind: self.file_type(),
            perm: match self {
                Node::CreateCgroupFile => COMMAND_FILE_PERM,
                Node::DeleteCgroupFile => COMMAND_FILE_PERM,
                Node::UpdateCgroupFile => COMMAND_FILE_PERM,
                Node::CgroupFile { .. } => FILE_PERM,
                Node::SchedPolicyFile { .. } => FILE_PERM,
                _ => DIR_PERM,
            },
            nlink: 1,
            uid: match self {
                Node::PidDir { uid, .. } => uid,
                _ => ROOT_UID,
            },
            gid: match self {
                Node::PidDir { gid, .. } => gid,
                _ => ROOT_GID,
            },
            rdev: 0,
            blksize: BLOCK_SIZE,
            flags: 0,
        }
    }

    pub fn inode(&self) -> (ino: u64)
        ensures
            ino == self.ino(),
    {
        match self {
            Node::RootDir => ROOT_DIR_INODE,
            Node::ProcDir => PROC_DIR_INODE,
            Node::PidDir { pid, .. } => pid_to_dir_inode(*pid),
            Node::CgroupFile { pid } => pid_to_dir_inode(*pid) + CGROUP_FILE_OFFSET,
            Node::SchedPolicyFile { pid } => pid_to_dir_inode(*pid) + SCHED_POLICY_FILE_OFFSET,
            Node::CgroupDir => CGROUP_DIR_INODE,
            Node::CreateCgroupFile => CGROUP_DIR_INODE + CREATE_FILE_OFFSET,
            Node::DeleteCgroupFile => CGROUP_DIR_INODE + DELETE_FILE_OFFSET,
            Node::UpdateCgroupFile => CGROUP_DIR_INODE + UPDATE_FILE_OFFSET,
        }
    }

    pub fn is_dir(&self) -> (dir: bool)
        ensures
            dir == self.is_directory(),
    {
        match self {
            Node::RootDir => true,
            Node::ProcDir => true,
            Node::PidDir { .. } => true,
            Node::CgroupDir => true,
            _ => false,
        }
    }

    pub fn kind(&self) -> (kind: FileType)
        ensures
            kind == self.file_type(),
    {
        if self.is_dir() {
            FileType::Directory
        } else {
            FileType::RegularFile
        }
    }

    /// The name of the node in its directory.
    pub fn name(&self) -> (name: Vec<u8>)
        ensures
            name@ == self.file_name(),
    {
        let mut out: Vec<u8> = Vec::new();
        match self {
            Node::RootDir => append(&mut out, ".".as_bytes()),
            Node::ProcDir => append(&mut out, "proc".as_bytes()),
            Node::PidDir { pid, .. } => {
                return render_decimal(*pid as u64);
            },
            Node::CgroupFile { .. } => append(&mut out, "cgroup".as_bytes()),
            Node::SchedPolicyFile { .. } => append(&mut out, "sched_policy".as_bytes()),
            Node::CgroupDir => append(&mut out, "cgroup".as_bytes()),
            Node::CreateCgroupFile => append(&mut out, "create".as_bytes()),
            Node::DeleteCgroupFile => append(&mut out, "delete".as_bytes()),
            Node::UpdateCgroupFile => append(&mut out, "update".as_bytes()),
        }
        out
    }

    /// The attributes of the node, `size` being the length of what a read
    /// of it shows.
    pub fn attr(&self, size: u64) -> (attr: FileAttr)
        ensures
            attr == self.attr_of(size),
    {
        let size: u64 = if self.is_dir() {
            0
        } else {
            size
        };
        let time: u64 = match self {
            Node::PidDir { crtime, .. } => *crtime,
            _ => UNKNOWN_TIME,
        };
        let blocks: u64 = size / 512 + if size % 512 == 0 {
            0
        } else {
            1
        };
        FileAttr {
            ino: self.inode(),
            size,
            blocks,
            atime: time,
            mtime: time,
            ctime: time,
            crtime: time,
            kind: self.kind(),
            perm: match self {
                Node::CreateCgroupFile => COMMAND_FILE_PERM,
                Node::DeleteCgroupFile => COMMAND_FILE_PERM,
                Node::UpdateCgroupFile => COMMAND_FILE_PERM,
                Node::CgroupFile { .. } => FILE_PERM,
                Node::SchedPolicyFile { .. } => FILE_PERM,
                _ => DIR_PERM,
            },
            nlink: 1,
            uid: match self {
                Node::PidDir { uid, .. } => *uid,
                _ => ROOT_UID,
            },
            gid: match self {
                Node::PidDir { gid, .. } => *gid,
                _ => ROOT_GID,
            },
            rdev: 0,
            blksize: BLOCK_SIZE,
            flags: 0,
        }
    }
}

/// The node with the inode `ino`, in the tree as the snapshot `s` shows it.
pub open spec fn node_of(s: SnapshotView, ino: u64) -> Option<Node> {
    if ino == ROOT_DIR_INODE {
        Some(Node::RootDir)
    } else if ino == PROC_DIR_INODE {
        Some(Node::ProcDir)
    } else if ino == CGROUP_DIR_INODE {
        Some(Node::CgroupDir)
    } else if ino == CGROUP_DIR_INODE + CREATE_FILE_OFFSET {
        Some(Node::CreateCgroupFile)
    } else if ino == CGROUP_DIR_INODE + DELETE_FILE_OFFSET {
        Some(Node::DeleteCgroupFile)
    } else if ino == CGROUP_DIR_INODE + UPDATE_FILE_OFFSET {
        Some(Node::UpdateCgroupFile)
    } else {
        match pid_of_inode(ino) {
            Some(pid) => if !s.has(pid) {
                None
            } else if ino % 8 == 0 {
                Some(Node::pid_dir(s, pid))
            } else if ino % 8 == CGROUP_FILE_OFFSET {
                Some(Node::CgroupFile { pid })
            } else if ino % 8 == SCHED_POLICY_FILE_OFFSET {
                Some(Node::SchedPolicyFile { pid })
            } else {
                None
            },
            None => None,
        }
    }
}

/// The node with the inode `ino`.
pub fn node_from_inode(info: &ProcessInfo, ino: u64) -> (node: Option<Node>)
    requires
        info@.wf(),
    ensures
        node == node_of(info@, ino),
{
    if ino == ROOT_DIR_INODE {
        Some(Node::RootDir)
    } else if ino == PROC_DIR_INODE {
        Some(Node::ProcDir)
    } else if ino == CGROUP_DIR_INODE {
        Some(Node::CgroupDir)
    } else if ino == CGROUP_DIR_INODE + CREATE_FILE_OFFSET {
        Some(Node::CreateCgroupFile)
    } else if ino == CGROUP_DIR_INODE + DELETE_FILE_OFFSET {
        Some(Node::DeleteCgroupFile)
    } else if ino == CGROUP_DIR_INODE + UPDATE_FILE_OFFSET {
        Some(Node::UpdateCgroupFile)
    } else {
        match inode_to_pid_dir(ino) {
            Some(pid) => match info.process_from_pid(pid) {
                Some(stats) => {
                    let offset: u64 = ino % 8;
                    if offset == 0 {
                        Some(
                            Node::PidDir {
                                pid,
                                uid: stats.uid,
                                gid: stats.gid,
                                crtime: stats.crtime,
                            },
                        )
                    } else if offset == CGROUP_FILE_OFFSET {
                        Some(Node::CgroupFile { pid })
                    } else if offset == SCHED_POLICY_FILE_OFFSET {
                        Some(Node::SchedPolicyFile { pid })
                    } else {
                        None
                    }
                },
                None => None,
            },
            None => None,
        }
    }
}

/// A name in a directory and the node it names.
pub struct NamedNode {
    pub name: Seq<u8>,
    pub node: Node,
}

/// What stands in the directory `dir`, in the order in which it is listed,
/// without the entries `.` and `..`.  A file has no children.
pub open spec fn children_of(s: SnapshotView, dir: Node) -> Seq<NamedNode> {
    match dir {
        Node::RootDir => seq![
            NamedNode { name: name_proc(), node: Node::ProcDir },
            NamedNode { name: name_cgroup(), node: Node::CgroupDir },
        ],
        Node::ProcDir => Seq::new(
            s.procs.len(),
            |i: int|
                NamedNode {
                    name: decimal_text(s.procs[i].pid as nat),
                    node: Node::PidDir {
                        pid: s.procs[i].pid,
                        uid: s.procs[i].stats.uid,
                        gid: s.procs[i].stats.gid,
                        crtime: s.procs[i].stats.crtime,
                    },
                },
        ),
        Node::PidDir { pid, .. } => seq![
            NamedNode { name: name_cgroup(), node: Node::CgroupFile { pid } },
            NamedNode { name: name_sched_policy(), node: Node::SchedPolicyFile { pid } },
        ],
        Node::CgroupDir => seq![
            NamedNode { name: name_create(), node: Node::CreateCgroupFile },
            NamedNode { name: name_delete(), node: Node::DeleteCgroupFile },
            NamedNode { name: name_update(), node: Node::UpdateCgroupFile },
        ],
        _ => Seq::empty(),
    }
}

/// Everything that a listing of the directory `dir` shows: the directory
/// itself as `.`, the directory it stands in as `..` unless it is the
/// root, then its children.
pub open spec fn listing_of(s: SnapshotView, dir: Node) -> Seq<NamedNode> {
    let dots = match dir.parent_in(s) {
        Some(parent) => seq![
            NamedNode { name: name_self(), node: dir },
            NamedNode { name: name_parent(), node: parent },
        ],
        None => seq![NamedNode { name: name_self(), node: dir }],
    };
    dots + children_of(s, dir)
}

/// The place of the first entry of `listing` from `from` on that has the
/// name `name`; the length of the listing where there is none.
pub open spec fn position_of(listing: Seq<NamedNode>, name: Seq<u8>, from: int) -> int
    decreases listing.len() - from,
{
    if from < 0 || from >= listing.len() {
        listing.len() as int
    } else if listing[from].name == name {
        from
    } else {
        position_of(listing, name, from + 1)
    }
}

/// The node that `name` names in the directory `parent`: the first entry
/// of that name in the listing of the directory.
pub open spec fn child_of(s: SnapshotView, parent: Node, name: Seq<u8>) -> Option<Node> {
    let listing = listing_of(s, parent);
    let place = position_of(listing, name, 0);
    if parent.is_directory() && place < listing.len() {
        Some(listing[place].node)
    } else {
        None
    }
}

/// The first entry of a name has that name, and no entry before it has.
pub proof fn lemma_position_of(listing: Seq<NamedNode>, name: Seq<u8>, from: int)
    requires
        0 <= from <= listing.len(),
    ensures
        from <= position_of(listing, name, from) <= listing.len(),
        position_of(listing, name, from) < listing.len() ==> listing[position_of(
            listing,
            name,
            from,
        )].name == name,
        forall|j: int|
            from <= j < position_of(listing, name, from) ==> (#[trigger] listing[j]).name != name,
    decreases listing.len() - from,
{
    if from < listing.len() && listing[from].name != name {
        lemma_position_of(listing, name, from + 1);
    }
}

/// An entry of a listing.
#[derive(Debug, PartialEq, Eq)]
pub struct DirEntry {
    pub ino: u64,
    /// The place after this entry: a listing that starts there goes on
    /// with the next entry.
    pub offset: u64,
    pub kind: FileType,
    pub name: Vec<u8>,
}

/// The view of `DirEntry`.
pub struct DirEntryView {
    pub ino: u64,
    pub offset: u64,
    pub kind: FileType,
    pub name: Seq<u8>,
}

impl View for DirEntry {
    type V = DirEntryView;

    open spec fn view(&self) -> DirEntryView {
        DirEntryView { ino: self.ino, offset: self.offset, kind: self.kind, name: self.name@ }
    }
}

/// The entry that stands at `index` of `listing`.
pub open spec fn entry_at(listing: Seq<NamedNode>, index: int) -> DirEntryView {
    DirEntryView {
        ino: listing[index].node.ino(),
        offset: (index + 1) as u64,
        kind: listing[index].node.file_type(),
        name: listing[index].name,
    }
}

/// What a listing of `dir` from `offset` on shows.  A listing can be taken
/// up at the start, at any place that an entry named, and nowhere else.
pub open spec fn entries_from(s: SnapshotView, dir: Node, offset: i64) -> Seq<DirEntryView> {
    let listing = listing_of(s, dir);
    if 0 <= offset <= listing.len() {
        Seq::new((listing.len() - offset) as nat, |i: int| entry_at(listing, offset + i))
    } else {
        Seq::empty()
    }
}

/// What a read of `size` bytes at `offset` shows of a file that holds
/// `payload`.
pub open spec fn read_window(payload: Seq<u8>, offset: i64, size: u32) -> Seq<u8> {
    if 0 <= offset < payload.len() {
        payload.subrange(
            offset as int,
            if offset + size < payload.len() {
                offset + size
            } else {
                payload.len() as int
            },
        )
    } else {
        Seq::empty()
    }
}

/// What the file `cgroup` of a process shows when the platform reports the
/// process in the cgroup `path`: the path and a line feed.
pub open spec fn cgroup_line(path: Seq<u8>) -> Seq<u8> {
    path.push(0x0A)
}

/// A name and the node it names.
pub struct Named {
    pub name: Vec<u8>,
    pub node: Node,
}

impl View for Named {
    type V = NamedNode;

    open spec fn view(&self) -> NamedNode {
        NamedNode { name: self.name@, node: self.node }
    }
}

/// The views of the names in a vector.
pub open spec fn named_view(names: Seq<Named>) -> Seq<NamedNode> {
    Seq::new(names.len(), |i: int| names[i]@)
}

/// The views of the entries in a vector.
pub open spec fn entries_view(entries: Seq<DirEntry>) -> Seq<DirEntryView> {
    Seq::new(entries.len(), |i: int| entries[i]@)
}

fn named(name: &str, node: Node) -> (out: Named)
    ensures
        out@ == (NamedNode { name: name.spec_bytes(), node }),
{
    let mut bytes: Vec<u8> = Vec::new();
    append(&mut bytes, name.as_bytes());
    Named { name: bytes, node }
}

/// The directory that `node` stands in.
pub fn parent_of(info: &ProcessInfo, node: Node) -> (parent: Option<Node>)
    requires
        info@.wf(),
        node.valid_in(info@),
    ensures
        parent == node.parent_in(info@),
{
    match node {
        Node::RootDir => None,
        Node::ProcDir => Some(Node::RootDir),
        Node::CgroupDir => Some(Node::RootDir),
        Node::PidDir { .. } => Some(Node::ProcDir),
        Node::CgroupFile { pid } => {
            let stats = info.process_from_pid(pid).unwrap();
            Some(Node::PidDir { pid, uid: stats.uid, gid: stats.gid, crtime: stats.crtime })
        },
        Node::SchedPolicyFile { pid } => {
            let stats = info.process_from_pid(pid).unwrap();
            Some(Node::PidDir { pid, uid: stats.uid, gid: stats.gid, crtime: stats.crtime })
        },
        Node::CreateCgroupFile => Some(Node::CgroupDir),
        Node::DeleteCgroupFile => Some(Node::CgroupDir),
        Node::UpdateCgroupFile => Some(Node::CgroupDir),
    }
}

/// Everything that a listing of the directory `dir` shows.
pub fn listing(info: &ProcessInfo, dir: Node) -> (out: Vec<Named>)
    requires
        info@.wf(),
        dir.valid_in(info@),
    ensures
        named_view(out@) == listing_of(info@, dir),
{
    let mut out: Vec<Named> = Vec::new();
    out.push(named(".", dir));
    match parent_of(info, dir) {
        Some(parent) => {
            out.push(named("..", parent));
        },
        None => {},
    }
    let ghost dots = named_view(out@);
    match dir {
        Node::RootDir => {
            out.push(named("proc", Node::ProcDir));
            out.push(named("cgroup", Node::CgroupDir));
        },
        Node::ProcDir => {
            let mut i: usize = 0;
            while i < info.len()
                invariant
                    i <= info@.procs.len(),
                    out@.len() == 2 + i,
                    dots.len() == 2,
                    named_view(out@) == dots + children_of(info@, Node::ProcDir).take(i as int),
                decreases info@.procs.len() - i,
            {
                let entry = info.entry_at(i);
                let ghost prev = out@;
                let ghost kids = children_of(info@, Node::ProcDir);
                out.push(
                    Named {
                        name: render_decimal(entry.pid as u64),
                        node: Node::PidDir {
                            pid: entry.pid,
                            uid: entry.stats.uid,
                            gid: entry.stats.gid,
                            crtime: entry.stats.crtime,
                        },
                    },
                );
                assert(named_view(out@) =~= named_view(prev).push(kids[i as int]));
                assert(kids.take(i + 1) =~= kids.take(i as int).push(kids[i as int]));
                assert(named_view(out@) =~= dots + kids.take(i + 1));
                i += 1;
            }
            assert(children_of(info@, Node::ProcDir).take(i as int) =~= children_of(
                info@,
                Node::ProcDir,
            ));
        },
        Node::PidDir { pid, .. } => {
            out.push(named("cgroup", Node::CgroupFile { pid }));
            out.push(named("sched_policy", Node::SchedPolicyFile { pid }));
        },
        Node::CgroupDir => {
            out.push(named("create", Node::CreateCgroupFile));
            out.push(named("delete", Node::DeleteCgroupFile));
            out.push(named("update", Node::UpdateCgroupFile));
        },
        _ => {},
    }
    assert(named_view(out@) =~= listing_of(info@, dir));
    out
}

/// The node that `name` names in the directory `parent`.
pub fn lookup(info: &ProcessInfo, parent: Node, name: &[u8]) -> (child: Option<Node>)
    requires
        info@.wf(),
        parent.valid_in(info@),
    ensures
        child == child_of(info@, parent, name@),
{
    if !parent.is_dir() {
        proof {
            lemma_none_of_name(info@, parent, name@);
        }
        return None;
    }
    let all = listing(info, parent);
    let mut i: usize = 0;
    while i < all.len()
        invariant
            i <= all@.len(),
            named_view(all@) == listing_of(info@, parent),
            parent.is_directory(),
            forall|j: int| 0 <= j < i ==> (#[trigger] listing_of(info@, parent)[j]).name != name@,
        decreases all@.len() - i,
    {
        assert(named_view(all@)[i as int] == all@[i as int]@);
        if bytes_equal(all[i].name.as_slice(), name) {
            proof {
                lemma_first_of_name(info@, parent, name@, i as int);
            }
            return Some(all[i].node);
        }
        i += 1;
    }
    assert(named_view(all@).len() == all@.len());
    proof {
        lemma_none_of_name(info@, parent, name@);
    }
    None
}

/// The entry of a name that is the first of that name is what the name
/// names.
pub proof fn lemma_first_of_name(s: SnapshotView, parent: Node, name: Seq<u8>, k: int)
    requires
        parent.is_directory(),
        0 <= k < listing_of(s, parent).len(),
        listing_of(s, parent)[k].name == name,
        forall|j: int| 0 <= j < k ==> (#[trigger] listing_of(s, parent)[j]).name != name,
    ensures
        child_of(s, parent, name) == Some(listing_of(s, parent)[k].node),
{
    let listing = listing_of(s, parent);
    lemma_position_of(listing, name, 0);
    let place = position_of(listing, name, 0);
    if place < k {
        assert(listing[place].name != name);
    } else if k < place {
        assert(listing[k].name != name);
    }
}

/// A name that no entry has names nothing, and a file has no entries.
pub proof fn lemma_none_of_name(s: SnapshotView, parent: Node, name: Seq<u8>)
    requires
        !parent.is_directory() || forall|j: int|
            0 <= j < listing_of(s, parent).len() ==> (#[trigger] listing_of(s, parent)[j]).name
                != name,
    ensures
        child_of(s, parent, name) is None,
{
    let listing = listing_of(s, parent);
    lemma_position_of(listing, name, 0);
    let place = position_of(listing, name, 0);
    if parent.is_directory() && place < listing.len() {
        assert(listing[place].name != name);
    }
}

/// What a name names is an entry of the directory under that name.
pub proof fn lemma_child_listed(s: SnapshotView, parent: Node, name: Seq<u8>)
    requires
        child_of(s, parent, name) is Some,
    ensures
        parent.is_directory(),
        0 <= position_of(listing_of(s, parent), name, 0) < listing_of(s, parent).len(),
        listing_of(s, parent)[position_of(listing_of(s, parent), name, 0)] == (NamedNode {
            name,
            node: child_of(s, parent, name).unwrap(),
        }),
{
    lemma_position_of(listing_of(s, parent), name, 0);
}

/// The shape of a listing: `.`, then `..` unless the directory is the
/// root, then the children.
pub proof fn lemma_listing_shape(s: SnapshotView, dir: Node)
    ensures
        listing_of(s, dir)[0] == (NamedNode { name: name_self(), node: dir }),
        match dir.parent_in(s) {
            Some(parent) => listing_of(s, dir).len() == 2 + children_of(s, dir).len()
                && listing_of(s, dir)[1] == (NamedNode { name: name_parent(), node: parent })
                && forall|k: int|
                2 <= k < listing_of(s, dir).len() ==> #[trigger] listing_of(s, dir)[k]
                    == children_of(s, dir)[k - 2],
            None => listing_of(s, dir).len() == 1 + children_of(s, dir).len() && forall|k: int|
                1 <= k < listing_of(s, dir).len() ==> #[trigger] listing_of(s, dir)[k]
                    == children_of(s, dir)[k - 1],
        },
{
}

/// What a listing of `dir` from `offset` on shows.  Of a file there is no
/// listing.
pub fn readdir(info: &ProcessInfo, dir: Node, offset: i64) -> (listed: Result<
    Vec<DirEntry>,
    Errno,
>)
    requires
        info@.wf(),
        dir.valid_in(info@),
    ensures
        listed is Ok <==> dir.is_directory(),
        listed is Ok ==> entries_view(listed.unwrap()@) == entries_from(info@, dir, offset),
        listed is Err ==> listed.unwrap_err() == Errno::ENOTDIR,
{
    if !dir.is_dir() {
        return Err(Errno::ENOTDIR);
    }
    let all = listing(info, dir);
    let mut out: Vec<DirEntry> = Vec::new();
    if offset < 0 || offset as u64 > all.len() as u64 {
        assert(named_view(all@).len() == all@.len());
        assert(entries_view(out@) =~= entries_from(info@, dir, offset));
        return Ok(out);
    }
    let start: usize = offset as usize;
    let mut i: usize = start;
    while i < all.len()
        invariant
            start <= i <= all@.len(),
            start == offset,
            named_view(all@) == listing_of(info@, dir),
            out@.len() == i - start,
            forall|k: int|
                0 <= k < out@.len() ==> (#[trigger] out@[k])@ == entry_at(
                    listing_of(info@, dir),
                    start + k,
                ),
        decreases all@.len() - i,
    {
        assert(named_view(all@)[i as int] == all@[i as int]@);
        let name = crate::manager::copy_bytes(all[i].name.as_slice());
        out.push(
            DirEntry {
                ino: all[i].node.inode(),
                offset: (i + 1) as u64,
                kind: all[i].node.kind(),
                name,
            },
        );
        i += 1;
    }
    assert(named_view(all@).len() == all@.len());
    assert(entries_view(out@) =~= entries_from(info@, dir, offset));
    Ok(out)
}

/// What a read of `size` bytes at `offset` shows of a file that holds
/// `payload`.
pub fn read_data(payload: &[u8], offset: i64, size: u32) -> (data: Vec<u8>)
    ensures
        data@ == read_window(payload@, offset, size),
{
    let mut out: Vec<u8> = Vec::new();
    if offset < 0 || offset as u64 >= payload.len() as u64 {
        return out;
    }
    let start: usize = offset as usize;
    let room: usize = payload.len() - start;
    let end: usize = if (size as u64) < room as u64 {
        start + size as usize
    } else {
        payload.len()
    };
    let piece = vstd::slice::slice_subrange(payload, start, end);
    append(&mut out, piece);
    out
}

/// What the file `cgroup` of a process shows when the platform reports the
/// process in the cgroup `path`.
pub fn cgroup_payload(path: &[u8]) -> (line: Vec<u8>)
    ensures
        line@ == cgroup_line(path@),
{
    let mut out: Vec<u8> = Vec::new();
    append(&mut out, path);
    out.push(0x0A);
    out
}

} // verus!
