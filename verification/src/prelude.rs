//! What a program that mounts the file system needs.
pub use crate::controller::{Controller, FsReply, FsRequest, FsStep};
pub use crate::error::{Errno, Error};
pub use crate::platform::{Call, ProcessRecord, Reply, Step};
pub use crate::policy::SchedPolicy;
pub use crate::reservation::Reservation;
