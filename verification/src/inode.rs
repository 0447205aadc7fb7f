//! Inode numbers.
//!
//! An inode is never allocated: it is computed from the place of a node in
//! the tree.  The 64 bits are split in three fields,
//!
//! ```text
//! bits 63..62  kind of the directory (0 root, 1 process, 2 cgroup)
//! bits 61..3   identifier of the directory (the PID for a process)
//! bits  2..0   offset of a file inside the directory (0: the directory)
//! ```
use vstd::prelude::*;

verus! {

pub const INODE_DIR_TYPE_SHIFT: u64 = 62;

pub const INODE_DIR_TYPE_MASK: u64 = 0xC000_0000_0000_0000;

pub const ROOT_INODE_DIR_TYPE: u64 = 0;

pub const PROC_INODE_DIR_TYPE: u64 = 0x4000_0000_0000_0000;

pub const CGROUP_INODE_DIR_TYPE: u64 = 0x8000_0000_0000_0000;

pub const INODE_DIR_ID_SHIFT: u64 = 3;

pub const INODE_DIR_ID_MASK: u64 = 0x3FFF_FFFF_FFFF_FFF8;

pub const INODE_DIR_FILE_MASK: u64 = 7;

pub const INODE_DIR_FILE_MAX: u64 = 8;

/// Number of identifiers a directory kind has room for: 2^59.
pub const INODE_DIR_ID_MAX: u64 = 0x0800_0000_0000_0000;

pub const ROOT_DIR_INODE: u64 = 1;

pub const PROC_DIR_INODE: u64 = 0x4000_0000_0000_0000;

pub const CGROUP_DIR_INODE: u64 = 0x8000_0000_0000_0000;

/// The kind of directory an inode lies in.
#[derive(Clone, Copy, Debug, PartialEq, Eq, Structural)]
pub enum DirKind {
    Root,
    Proc,
    Cgroup,
}

impl DirKind {
    /// The number the kind has in the two top bits of an inode.
    pub open spec fn index(self) -> int {
        match self {
            DirKind::Root => 0,
            DirKind::Proc => 1,
            DirKind::Cgroup => 2,
        }
    }
}

/// The three fields of an inode.
#[derive(Clone, Copy, Debug, PartialEq, Eq, Structural)]
pub struct InodeParts {
    pub kind: DirKind,
    pub id: u64,
    pub offset: u64,
}

impl InodeParts {
    /// Both numbers fit the field they are stored in.
    pub open spec fn in_range(self) -> bool {
        self.id < INODE_DIR_ID_MAX && self.offset < INODE_DIR_FILE_MAX
    }

    /// The inode as a number.
    pub open spec fn packed(self) -> int {
        self.kind.index() * 0x4000_0000_0000_0000 + self.id * 8 + self.offset
    }
}

/// The fields of `inode`, if its two top bits name a kind.
pub open spec fn inode_parts(inode: u64) -> Option<InodeParts> {
    let top = inode as int / 0x4000_0000_0000_0000;
    let id = ((inode as int % 0x4000_0000_0000_0000) / 8) as u64;
    let offset = (inode as int % 8) as u64;
    if top == 0 {
        Some(InodeParts { kind: DirKind::Root, id, offset })
    } else if top == 1 {
        Some(InodeParts { kind: DirKind::Proc, id, offset })
    } else if top == 2 {
        Some(InodeParts { kind: DirKind::Cgroup, id, offset })
    } else {
        None
    }
}

proof fn lemma_fields(inode: u64)
    ensures
        (inode >> 62) as int == inode as int / 0x4000_0000_0000_0000,
        ((inode & 0x3FFF_FFFF_FFFF_FFF8) >> 3) as int == (inode as int % 0x4000_0000_0000_0000) / 8,
        (inode & 7) as int == inode as int % 8,
        (inode >> 62) < 4,
        ((inode & 0x3FFF_FFFF_FFFF_FFF8) >> 3) < 0x0800_0000_0000_0000,
        (inode & 0xC000_0000_0000_0000) == 0x4000_0000_0000_0000 <==> (inode >> 62) == 1,
{
    assert((inode >> 62) == inode / 0x4000_0000_0000_0000) by (bit_vector);
    assert(((inode & 0x3FFF_FFFF_FFFF_FFF8) >> 3) == (inode % 0x4000_0000_0000_0000) / 8)
        by (bit_vector);
    assert((inode & 7) == inode % 8) by (bit_vector);
    assert((inode >> 62) < 4) by (bit_vector);
    assert(((inode & 0x3FFF_FFFF_FFFF_FFF8) >> 3) < 0x0800_0000_0000_0000) by (bit_vector);
    assert((inode & 0xC000_0000_0000_0000) == 0x4000_0000_0000_0000 <==> (inode >> 62) == 1)
        by (bit_vector);
}

/// Splits an inode into its fields.  Fails exactly on the inodes of the
/// reserved kind 3.
pub fn inode_decode(inode: u64) -> (parts: Option<InodeParts>)
    ensures
        parts == inode_parts(inode),
        parts is Some ==> parts.unwrap().in_range() && parts.unwrap().packed() == inode,
        parts is None <==> inode >= 0xC000_0000_0000_0000,
{
    proof {
        lemma_fields(inode);
    }
    let top: u64 = inode >> INODE_DIR_TYPE_SHIFT;
    let id: u64 = (inode & INODE_DIR_ID_MASK) >> INODE_DIR_ID_SHIFT;
    let offset: u64 = inode & INODE_DIR_FILE_MASK;
    if top == 0 {
        Some(InodeParts { kind: DirKind::Root, id, offset })
    } else if top == 1 {
        Some(InodeParts { kind: DirKind::Proc, id, offset })
    } else if top == 2 {
        Some(InodeParts { kind: DirKind::Cgroup, id, offset })
    } else {
        None
    }
}

/// Packs three fields into an inode.  Fails exactly when a number does not
/// fit its field.
pub fn inode_encode(parts: InodeParts) -> (inode: Option<u64>)
    ensures
        inode is Some <==> parts.in_range(),
        inode is Some ==> inode.unwrap() == parts.packed(),
        inode is Some ==> inode_parts(inode.unwrap()) == Some(parts),
{
    if parts.id >= INODE_DIR_ID_MAX || parts.offset >= INODE_DIR_FILE_MAX {
        return None;
    }
    let base: u64 = match parts.kind {
        DirKind::Root => ROOT_INODE_DIR_TYPE,
        DirKind::Proc => PROC_INODE_DIR_TYPE,
        DirKind::Cgroup => CGROUP_INODE_DIR_TYPE,
    };
    let inode: u64 = base + parts.id * INODE_DIR_FILE_MAX + parts.offset;
    proof {
        law_encode_then_decode(parts);
    }
    Some(inode)
}

/// Encoding three fields that are in range and decoding the inode gives the
/// three fields back.
pub proof fn law_encode_then_decode(parts: InodeParts)
    requires
        parts.in_range(),
    ensures
        0 <= parts.packed() < 0xC000_0000_0000_0000,
        inode_parts(parts.packed() as u64) == Some(parts),
{
}

/// Decoding an inode of one of the three kinds and encoding the fields gives
/// the inode back.
pub proof fn law_decode_then_encode(inode: u64)
    requires
        inode < 0xC000_0000_0000_0000,
    ensures
        inode_parts(inode) is Some,
        inode_parts(inode).unwrap().in_range(),
        inode_parts(inode).unwrap().packed() == inode,
{
}

/// Whether `inode` lies in the directory of a process.
pub open spec fn is_pid_inode(inode: u64) -> bool {
    inode as int / 0x4000_0000_0000_0000 == 1
}

/// The PID whose directory holds `inode`, where there is one: the inode is of
/// the process kind and its identifier is a 32-bit number.
pub open spec fn pid_of_inode(inode: u64) -> Option<u32> {
    let id = (inode as int % 0x4000_0000_0000_0000) / 8;
    if is_pid_inode(inode) && id <= u32::MAX {
        Some(id as u32)
    } else {
        None
    }
}

/// The inode of the directory of `pid`.
pub open spec fn pid_dir_inode(pid: u32) -> u64 {
    (0x4000_0000_0000_0000 + pid as int * 8) as u64
}

pub fn inode_is_pid(inode: u64) -> (b: bool)
    ensures
        b == is_pid_inode(inode),
{
    proof {
        lemma_fields(inode);
    }
    (inode & INODE_DIR_TYPE_MASK) == PROC_INODE_DIR_TYPE
}

pub fn inode_to_pid_dir(inode: u64) -> (pid: Option<u32>)
    ensures
        pid == pid_of_inode(inode),
{
    if !inode_is_pid(inode) {
        return None;
    }
    proof {
        lemma_fields(inode);
    }
    let id: u64 = (inode & INODE_DIR_ID_MASK) >> INODE_DIR_ID_SHIFT;
    if id <= 0xFFFF_FFFF {
        Some(id as u32)
    } else {
        None
    }
}

pub fn pid_to_dir_inode(pid: u32) -> (inode: u64)
    ensures
        inode == pid_dir_inode(pid),
        inode == (InodeParts { kind: DirKind::Proc, id: pid as u64, offset: 0 }).packed(),
        inode % 8 == 0,
        pid_of_inode(inode) == Some(pid),
{
    let id: u64 = pid as u64;
    assert((id << 3) | 0x4000_0000_0000_0000 == 0x4000_0000_0000_0000 + id * 8) by (bit_vector)
        requires
            id <= 0xFFFF_FFFF,
    ;
    (id << INODE_DIR_ID_SHIFT) | PROC_INODE_DIR_TYPE
}

/// The directory of a process is found again from the inode of each of its
/// files.
pub proof fn lemma_pid_of_file_inode(pid: u32, offset: u64)
    requires
        offset < INODE_DIR_FILE_MAX,
    ensures
        pid_dir_inode(pid) + offset <= u64::MAX,
        pid_of_inode((pid_dir_inode(pid) + offset) as u64) == Some(pid),
        (pid_dir_inode(pid) + offset) % 8 == offset as int,
{
}

} // verus!
