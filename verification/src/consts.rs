//! Protocol constants of the FUSE ABI that filesystems may refer to.
use vstd::prelude::*;

verus! {

/// FUSE file locking flag: the lock is a `flock(2)` lock.
pub const FUSE_LK_FLOCK: u32 = 1;

/// The largest number of iovecs in a single ioctl request.
pub const FUSE_IOCTL_MAX_IOV: u32 = 256;

/// The smallest read buffer, in bytes, that the kernel guarantees.
pub const FUSE_MIN_READ_BUFFER: usize = 8192;

} // verus!
