//! The directory that the file system is mounted on.
use vstd::prelude::*;
use vstd::slice::*;

verus! {

/// A directory that lives as long as the mount: it is made where there is
/// none, and taken away when the file system was unmounted in good order.
pub struct TempDir {
    path: Vec<u8>,
}

impl TempDir {
    pub closed spec fn location(&self) -> Seq<u8> {
        self.path@
    }

    /// The directory at `path`.
    pub fn new(path: &[u8]) -> (dir: TempDir)
        ensures
            dir.location() == path@,
    {
        TempDir { path: slice_to_vec(path) }
    }

    /// Where the directory is.
    pub fn path(&self) -> (path: &[u8])
        ensures
            path@ == self.location(),
    {
        self.path.as_slice()
    }

    /// Whether the directory is to be made before the mount, given whether
    /// there is one already.
    pub fn must_create(&self, exists: bool) -> (create: bool)
        ensures
            create == !exists,
    {
        !exists
    }

    /// Whether the directory is to be taken away, given how the mount
    /// ended.
    pub fn must_remove(&self, clean_exit: bool) -> (remove: bool)
        ensures
            remove == clean_exit,
    {
        clean_exit
    }
}

} // verus!
