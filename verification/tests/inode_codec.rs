use hcbs_manager::inode::{
    inode_decode, inode_encode, inode_is_pid, inode_to_pid_dir, pid_to_dir_inode, DirKind,
    InodeParts, CGROUP_DIR_INODE, INODE_DIR_ID_MAX, PROC_DIR_INODE, ROOT_DIR_INODE,
};

fn parts(kind: DirKind, id: u64, offset: u64) -> InodeParts {
    InodeParts { kind, id, offset }
}

#[test]
fn reserved_inodes_have_their_fields() {
    assert_eq!(inode_encode(parts(DirKind::Root, 0, 1)), Some(ROOT_DIR_INODE));
    assert_eq!(inode_encode(parts(DirKind::Proc, 0, 0)), Some(PROC_DIR_INODE));
    assert_eq!(inode_encode(parts(DirKind::Cgroup, 0, 0)), Some(CGROUP_DIR_INODE));
    assert_eq!(ROOT_DIR_INODE, 1);
    assert_eq!(PROC_DIR_INODE, 1u64 << 62);
    assert_eq!(CGROUP_DIR_INODE, 2u64 << 62);
}

#[test]
fn encode_packs_the_three_fields() {
    assert_eq!(
        inode_encode(parts(DirKind::Proc, 1234, 3)),
        Some((1u64 << 62) | (1234 << 3) | 3)
    );
    assert_eq!(inode_encode(parts(DirKind::Cgroup, 1, 7)), Some((2u64 << 62) | 15));
    assert_eq!(inode_encode(parts(DirKind::Root, 0, 0)), Some(0));
}

#[test]
fn encode_refuses_what_does_not_fit() {
    assert_eq!(inode_encode(parts(DirKind::Proc, INODE_DIR_ID_MAX, 0)), None);
    assert_eq!(inode_encode(parts(DirKind::Proc, 0, 8)), None);
    assert_eq!(
        inode_encode(parts(DirKind::Cgroup, INODE_DIR_ID_MAX - 1, 7)),
        Some(0xBFFF_FFFF_FFFF_FFFF)
    );
}

#[test]
fn decode_then_encode_gives_the_inode_back() {
    let samples: [u64; 8] = [
        0,
        1,
        7,
        8,
        (1u64 << 62) | (4242 << 3) | 2,
        (2u64 << 62) | 3,
        0xBFFF_FFFF_FFFF_FFFF,
        0x3FFF_FFFF_FFFF_FFFF,
    ];
    for ino in samples {
        let fields = inode_decode(ino).unwrap();
        assert_eq!(inode_encode(fields), Some(ino));
    }
}

#[test]
fn encode_then_decode_gives_the_fields_back() {
    let kinds = [DirKind::Root, DirKind::Proc, DirKind::Cgroup];
    let ids: [u64; 5] = [0, 1, 99, u32::MAX as u64, INODE_DIR_ID_MAX - 1];
    for kind in kinds {
        for id in ids {
            for offset in 0..8u64 {
                let fields = parts(kind, id, offset);
                let ino = inode_encode(fields).unwrap();
                assert_eq!(inode_decode(ino), Some(fields));
            }
        }
    }
}

#[test]
fn decode_refuses_the_reserved_kind() {
    assert_eq!(inode_decode(3u64 << 62), None);
    assert_eq!(inode_decode(u64::MAX), None);
    assert_eq!(
        inode_decode((1u64 << 62) | (5 << 3) | 2),
        Some(parts(DirKind::Proc, 5, 2))
    );
}

#[test]
fn pid_directories_round_trip() {
    for pid in [1u32, 2, 4242, u32::MAX] {
        let ino = pid_to_dir_inode(pid);
        assert_eq!(ino, (1u64 << 62) | ((pid as u64) << 3));
        assert!(inode_is_pid(ino));
        assert_eq!(inode_to_pid_dir(ino), Some(pid));
        assert_eq!(inode_to_pid_dir(ino + 2), Some(pid));
        assert_eq!(inode_to_pid_dir(ino + 3), Some(pid));
    }
}

#[test]
fn only_process_inodes_have_a_pid() {
    assert!(!inode_is_pid(ROOT_DIR_INODE));
    assert!(!inode_is_pid(CGROUP_DIR_INODE + 1));
    assert!(inode_is_pid(PROC_DIR_INODE));
    assert_eq!(inode_to_pid_dir(ROOT_DIR_INODE), None);
    assert_eq!(inode_to_pid_dir(CGROUP_DIR_INODE), None);
    assert_eq!(inode_to_pid_dir(PROC_DIR_INODE), Some(0));
    // An identifier beyond 32 bits is no PID.
    assert_eq!(inode_to_pid_dir((1u64 << 62) | ((1u64 << 32) << 3)), None);
}
