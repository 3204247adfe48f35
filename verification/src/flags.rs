//! Bit-flag sets of the request and reply surface.
use vstd::prelude::*;

verus! {
/// Flags of an open file, chosen by the filesystem.
#[derive(Clone, Copy, Debug, PartialEq, Eq, Structural, Hash)]
pub struct FopenFlags {
    bits: u32,
}

impl FopenFlags {
    /// Every defined flag of this set.
    pub open spec fn spec_all_bits() -> u32 {
        0xc00000ff
    }

    pub closed spec fn spec_bits(self) -> u32 {
        self.bits
    }

    pub fn bits(&self) -> (r: u32)
        ensures
            r == self.spec_bits(),
    {
        self.bits
    }

    pub fn empty() -> (r: FopenFlags)
        ensures
            r.spec_bits() == 0,
    {
        FopenFlags { bits: 0 }
    }

    /// Every defined flag.
    pub fn all() -> (r: FopenFlags)
        ensures
            r.spec_bits() == Self::spec_all_bits(),
    {
        FopenFlags { bits: 0xc00000ff }
    }

    /// Exactly the given bits, defined or not.
    pub fn from_bits_retain(bits: u32) -> (r: FopenFlags)
        ensures
            r.spec_bits() == bits,
    {
        FopenFlags { bits }
    }

    /// The defined flags among the given bits.
    pub fn from_bits_truncate(bits: u32) -> (r: FopenFlags)
        ensures
            r.spec_bits() == bits & Self::spec_all_bits(),
    {
        FopenFlags { bits: bits & 0xc00000ff }
    }

    /// Whether every flag of `other` is set in `self`.
    pub fn contains(&self, other: FopenFlags) -> (r: bool)
        ensures
            r == (self.spec_bits() & other.spec_bits() == other.spec_bits()),
    {
        self.bits & other.bits == other.bits
    }

    #[allow(non_snake_case)]
    pub fn FOPEN_DIRECT_IO() -> (r: FopenFlags)
        ensures
            r.spec_bits() == 0x1,
    {
        FopenFlags { bits: 0x1 }
    }

    #[allow(non_snake_case)]
    pub fn FOPEN_KEEP_CACHE() -> (r: FopenFlags)
        ensures
            r.spec_bits() == 0x2,
    {
        FopenFlags { bits: 0x2 }
    }

    #[allow(non_snake_case)]
    pub fn FOPEN_NONSEEKABLE() -> (r: FopenFlags)
        ensures
            r.spec_bits() == 0x4,
    {
        FopenFlags { bits: 0x4 }
    }

    #[allow(non_snake_case)]
    pub fn FOPEN_CACHE_DIR() -> (r: FopenFlags)
        ensures
            r.spec_bits() == 0x8,
    {
        FopenFlags { bits: 0x8 }
    }

    #[allow(non_snake_case)]
    pub fn FOPEN_STREAM() -> (r: FopenFlags)
        ensures
            r.spec_bits() == 0x10,
    {
        FopenFlags { bits: 0x10 }
    }

    #[allow(non_snake_case)]
    pub fn FOPEN_NOFLUSH() -> (r: FopenFlags)
        ensures
            r.spec_bits() == 0x20,
    {
        FopenFlags { bits: 0x20 }
    }

    #[allow(non_snake_case)]
    pub fn FOPEN_PARALLEL_DIRECT_WRITES() -> (r: FopenFlags)
        ensures
            r.spec_bits() == 0x40,
    {
        FopenFlags { bits: 0x40 }
    }

    #[allow(non_snake_case)]
    pub fn FOPEN_PASSTHROUGH() -> (r: FopenFlags)
        ensures
            r.spec_bits() == 0x80,
    {
        FopenFlags { bits: 0x80 }
    }

    #[allow(non_snake_case)]
    pub fn FOPEN_PURGE_ATTR() -> (r: FopenFlags)
        ensures
            r.spec_bits() == 0x40000000,
    {
        FopenFlags { bits: 0x40000000 }
    }

    #[allow(non_snake_case)]
    pub fn FOPEN_PURGE_UBC() -> (r: FopenFlags)
        ensures
            r.spec_bits() == 0x80000000,
    {
        FopenFlags { bits: 0x80000000 }
    }
}

/// Flags of a write request.
#[derive(Clone, Copy, Debug, PartialEq, Eq, Structural, Hash)]
pub struct WriteFlags {
    bits: u32,
}

impl WriteFlags {
    /// Every defined flag of this set.
    pub open spec fn spec_all_bits() -> u32 {
        0x7
    }

    pub closed spec fn spec_bits(self) -> u32 {
        self.bits
    }

    pub fn bits(&self) -> (r: u32)
        ensures
            r == self.spec_bits(),
    {
        self.bits
    }

    pub fn empty() -> (r: WriteFlags)
        ensures
            r.spec_bits() == 0,
    {
        WriteFlags { bits: 0 }
    }

    /// Every defined flag.
    pub fn all() -> (r: WriteFlags)
        ensures
            r.spec_bits() == Self::spec_all_bits(),
    {
        WriteFlags { bits: 0x7 }
    }

    /// Exactly the given bits, defined or not.
    pub fn from_bits_retain(bits: u32) -> (r: WriteFlags)
        ensures
            r.spec_bits() == bits,
    {
        WriteFlags { bits }
    }

    /// The defined flags among the given bits.
    pub fn from_bits_truncate(bits: u32) -> (r: WriteFlags)
        ensures
            r.spec_bits() == bits & Self::spec_all_bits(),
    {
        WriteFlags { bits: bits & 0x7 }
    }

    /// Whether every flag of `other` is set in `self`.
    pub fn contains(&self, other: WriteFlags) -> (r: bool)
        ensures
            r == (self.spec_bits() & other.spec_bits() == other.spec_bits()),
    {
        self.bits & other.bits == other.bits
    }

    #[allow(non_snake_case)]
    pub fn FUSE_WRITE_CACHE() -> (r: WriteFlags)
        ensures
            r.spec_bits() == 0x1,
    {
        WriteFlags { bits: 0x1 }
    }

    #[allow(non_snake_case)]
    pub fn FUSE_WRITE_LOCKOWNER() -> (r: WriteFlags)
        ensures
            r.spec_bits() == 0x2,
    {
        WriteFlags { bits: 0x2 }
    }

    #[allow(non_snake_case)]
    pub fn FUSE_WRITE_KILL_SUIDGID() -> (r: WriteFlags)
        ensures
            r.spec_bits() == 0x4,
    {
        WriteFlags { bits: 0x4 }
    }
}

/// Flags of a rename request; this platform defines none.
#[derive(Clone, Copy, Debug, PartialEq, Eq, Structural, Hash)]
pub struct RenameFlags {
    bits: u32,
}

impl RenameFlags {
    /// Every defined flag of this set.
    pub open spec fn spec_all_bits() -> u32 {
        0x0
    }

    pub closed spec fn spec_bits(self) -> u32 {
        self.bits
    }

    pub fn bits(&self) -> (r: u32)
        ensures
            r == self.spec_bits(),
    {
        self.bits
    }

    pub fn empty() -> (r: RenameFlags)
        ensures
            r.spec_bits() == 0,
    {
        RenameFlags { bits: 0 }
    }

    /// Every defined flag.
    pub fn all() -> (r: RenameFlags)
        ensures
            r.spec_bits() == Self::spec_all_bits(),
    {
        RenameFlags { bits: 0x0 }
    }

    /// Exactly the given bits, defined or not.
    pub fn from_bits_retain(bits: u32) -> (r: RenameFlags)
        ensures
            r.spec_bits() == bits,
    {
        RenameFlags { bits }
    }

    /// The defined flags among the given bits.
    pub fn from_bits_truncate(bits: u32) -> (r: RenameFlags)
        ensures
            r.spec_bits() == bits & Self::spec_all_bits(),
    {
        RenameFlags { bits: bits & 0x0 }
    }

    /// Whether every flag of `other` is set in `self`.
    pub fn contains(&self, other: RenameFlags) -> (r: bool)
        ensures
            r == (self.spec_bits() & other.spec_bits() == other.spec_bits()),
    {
        self.bits & other.bits == other.bits
    }
}

/// The access modes an `access` request asks about.
#[derive(Clone, Copy, Debug, PartialEq, Eq, Structural, Hash)]
pub struct AccessFlags {
    bits: i32,
}

impl AccessFlags {
    /// Every defined flag of this set.
    pub open spec fn spec_all_bits() -> i32 {
        0x7
    }

    pub closed spec fn spec_bits(self) -> i32 {
        self.bits
    }

    pub fn bits(&self) -> (r: i32)
        ensures
            r == self.spec_bits(),
    {
        self.bits
    }

    pub fn empty() -> (r: AccessFlags)
        ensures
            r.spec_bits() == 0,
    {
        AccessFlags { bits: 0 }
    }

    /// Every defined flag.
    pub fn all() -> (r: AccessFlags)
        ensures
            r.spec_bits() == Self::spec_all_bits(),
    {
        AccessFlags { bits: 0x7 }
    }

    /// Exactly the given bits, defined or not.
    pub fn from_bits_retain(bits: i32) -> (r: AccessFlags)
        ensures
            r.spec_bits() == bits,
    {
        AccessFlags { bits }
    }

    /// The defined flags among the given bits.
    pub fn from_bits_truncate(bits: i32) -> (r: AccessFlags)
        ensures
            r.spec_bits() == bits & Self::spec_all_bits(),
    {
        AccessFlags { bits: bits & 0x7 }
    }

    /// Whether every flag of `other` is set in `self`.
    pub fn contains(&self, other: AccessFlags) -> (r: bool)
        ensures
            r == (self.spec_bits() & other.spec_bits() == other.spec_bits()),
    {
        self.bits & other.bits == other.bits
    }

    #[allow(non_snake_case)]
    pub fn F_OK() -> (r: AccessFlags)
        ensures
            r.spec_bits() == 0x0,
    {
        AccessFlags { bits: 0x0 }
    }

    #[allow(non_snake_case)]
    pub fn R_OK() -> (r: AccessFlags)
        ensures
            r.spec_bits() == 0x4,
    {
        AccessFlags { bits: 0x4 }
    }

    #[allow(non_snake_case)]
    pub fn W_OK() -> (r: AccessFlags)
        ensures
            r.spec_bits() == 0x2,
    {
        AccessFlags { bits: 0x2 }
    }

    #[allow(non_snake_case)]
    pub fn X_OK() -> (r: AccessFlags)
        ensures
            r.spec_bits() == 0x1,
    {
        AccessFlags { bits: 0x1 }
    }
}

/// Flags of an ioctl request.
#[derive(Clone, Copy, Debug, PartialEq, Eq, Structural, Hash)]
pub struct IoctlFlags {
    bits: u32,
}

impl IoctlFlags {
    /// Every defined flag of this set.
    pub open spec fn spec_all_bits() -> u32 {
        0x3f
    }

    pub closed spec fn spec_bits(self) -> u32 {
        self.bits
    }

    pub fn bits(&self) -> (r: u32)
        ensures
            r == self.spec_bits(),
    {
        self.bits
    }

    pub fn empty() -> (r: IoctlFlags)
        ensures
            r.spec_bits() == 0,
    {
        IoctlFlags { bits: 0 }
    }

    /// Every defined flag.
    pub fn all() -> (r: IoctlFlags)
        ensures
            r.spec_bits() == Self::spec_all_bits(),
    {
        IoctlFlags { bits: 0x3f }
    }

    /// Exactly the given bits, defined or not.
    pub fn from_bits_retain(bits: u32) -> (r: IoctlFlags)
        ensures
            r.spec_bits() == bits,
    {
        IoctlFlags { bits }
    }

    /// The defined flags among the given bits.
    pub fn from_bits_truncate(bits: u32) -> (r: IoctlFlags)
        ensures
            r.spec_bits() == bits & Self::spec_all_bits(),
    {
        IoctlFlags { bits: bits & 0x3f }
    }

    /// Whether every flag of `other` is set in `self`.
    pub fn contains(&self, other: IoctlFlags) -> (r: bool)
        ensures
            r == (self.spec_bits() & other.spec_bits() == other.spec_bits()),
    {
        self.bits & other.bits == other.bits
    }

    #[allow(non_snake_case)]
    pub fn FUSE_IOCTL_COMPAT() -> (r: IoctlFlags)
        ensures
            r.spec_bits() == 0x1,
    {
        IoctlFlags { bits: 0x1 }
    }

    #[allow(non_snake_case)]
    pub fn FUSE_IOCTL_UNRESTRICTED() -> (r: IoctlFlags)
        ensures
            r.spec_bits() == 0x2,
    {
        IoctlFlags { bits: 0x2 }
    }

    #[allow(non_snake_case)]
    pub fn FUSE_IOCTL_RETRY() -> (r: IoctlFlags)
        ensures
            r.spec_bits() == 0x4,
    {
        IoctlFlags { bits: 0x4 }
    }

    #[allow(non_snake_case)]
    pub fn FUSE_IOCTL_32BIT() -> (r: IoctlFlags)
        ensures
            r.spec_bits() == 0x8,
    {
        IoctlFlags { bits: 0x8 }
    }

    #[allow(non_snake_case)]
    pub fn FUSE_IOCTL_DIR() -> (r: IoctlFlags)
        ensures
            r.spec_bits() == 0x10,
    {
        IoctlFlags { bits: 0x10 }
    }

    #[allow(non_snake_case)]
    pub fn FUSE_IOCTL_COMPAT_X32() -> (r: IoctlFlags)
        ensures
            r.spec_bits() == 0x20,
    {
        IoctlFlags { bits: 0x20 }
    }
}

/// Flags of a poll request.
#[derive(Clone, Copy, Debug, PartialEq, Eq, Structural, Hash)]
pub struct PollFlags {
    bits: u32,
}

impl PollFlags {
    /// Every defined flag of this set.
    pub open spec fn spec_all_bits() -> u32 {
        0x1
    }

    pub closed spec fn spec_bits(self) -> u32 {
        self.bits
    }

    pub fn bits(&self) -> (r: u32)
        ensures
            r == self.spec_bits(),
    {
        self.bits
    }

    pub fn empty() -> (r: PollFlags)
        ensures
            r.spec_bits() == 0,
    {
        PollFlags { bits: 0 }
    }

    /// Every defined flag.
    pub fn all() -> (r: PollFlags)
        ensures
            r.spec_bits() == Self::spec_all_bits(),
    {
        PollFlags { bits: 0x1 }
    }

    /// Exactly the given bits, defined or not.
    pub fn from_bits_retain(bits: u32) -> (r: PollFlags)
        ensures
            r.spec_bits() == bits,
    {
        PollFlags { bits }
    }

    /// The defined flags among the given bits.
    pub fn from_bits_truncate(bits: u32) -> (r: PollFlags)
        ensures
            r.spec_bits() == bits & Self::spec_all_bits(),
    {
        PollFlags { bits: bits & 0x1 }
    }

    /// Whether every flag of `other` is set in `self`.
    pub fn contains(&self, other: PollFlags) -> (r: bool)
        ensures
            r == (self.spec_bits() & other.spec_bits() == other.spec_bits()),
    {
        self.bits & other.bits == other.bits
    }

    #[allow(non_snake_case)]
    pub fn FUSE_POLL_SCHEDULE_NOTIFY() -> (r: PollFlags)
        ensures
            r.spec_bits() == 0x1,
    {
        PollFlags { bits: 0x1 }
    }
}

/// The events a poll reply reports.
#[derive(Clone, Copy, Debug, PartialEq, Eq, Structural, Hash)]
pub struct PollEvents {
    bits: u32,
}

impl PollEvents {
    /// Every defined flag of this set.
    pub open spec fn spec_all_bits() -> u32 {
        0x3ff
    }

    pub closed spec fn spec_bits(self) -> u32 {
        self.bits
    }

    pub fn bits(&self) -> (r: u32)
        ensures
            r == self.spec_bits(),
    {
        self.bits
    }

    pub fn empty() -> (r: PollEvents)
        ensures
            r.spec_bits() == 0,
    {
        PollEvents { bits: 0 }
    }

    /// Every defined flag.
    pub fn all() -> (r: PollEvents)
        ensures
            r.spec_bits() == Self::spec_all_bits(),
    {
        PollEvents { bits: 0x3ff }
    }

    /// Exactly the given bits, defined or not.
    pub fn from_bits_retain(bits: u32) -> (r: PollEvents)
        ensures
            r.spec_bits() == bits,
    {
        PollEvents { bits }
    }

    /// The defined flags among the given bits.
    pub fn from_bits_truncate(bits: u32) -> (r: PollEvents)
        ensures
            r.spec_bits() == bits & Self::spec_all_bits(),
    {
        PollEvents { bits: bits & 0x3ff }
    }

    /// Whether every flag of `other` is set in `self`.
    pub fn contains(&self, other: PollEvents) -> (r: bool)
        ensures
            r == (self.spec_bits() & other.spec_bits() == other.spec_bits()),
    {
        self.bits & other.bits == other.bits
    }

    #[allow(non_snake_case)]
    pub fn POLLIN() -> (r: PollEvents)
        ensures
            r.spec_bits() == 0x1,
    {
        PollEvents { bits: 0x1 }
    }

    #[allow(non_snake_case)]
    pub fn POLLPRI() -> (r: PollEvents)
        ensures
            r.spec_bits() == 0x2,
    {
        PollEvents { bits: 0x2 }
    }

    #[allow(non_snake_case)]
    pub fn POLLOUT() -> (r: PollEvents)
        ensures
            r.spec_bits() == 0x4,
    {
        PollEvents { bits: 0x4 }
    }

    #[allow(non_snake_case)]
    pub fn POLLERR() -> (r: PollEvents)
        ensures
            r.spec_bits() == 0x8,
    {
        PollEvents { bits: 0x8 }
    }

    #[allow(non_snake_case)]
    pub fn POLLHUP() -> (r: PollEvents)
        ensures
            r.spec_bits() == 0x10,
    {
        PollEvents { bits: 0x10 }
    }

    #[allow(non_snake_case)]
    pub fn POLLNVAL() -> (r: PollEvents)
        ensures
            r.spec_bits() == 0x20,
    {
        PollEvents { bits: 0x20 }
    }

    #[allow(non_snake_case)]
    pub fn POLLRDNORM() -> (r: PollEvents)
        ensures
            r.spec_bits() == 0x40,
    {
        PollEvents { bits: 0x40 }
    }

    #[allow(non_snake_case)]
    pub fn POLLRDBAND() -> (r: PollEvents)
        ensures
            r.spec_bits() == 0x80,
    {
        PollEvents { bits: 0x80 }
    }

    #[allow(non_snake_case)]
    pub fn POLLWRNORM() -> (r: PollEvents)
        ensures
            r.spec_bits() == 0x100,
    {
        PollEvents { bits: 0x100 }
    }

    #[allow(non_snake_case)]
    pub fn POLLWRBAND() -> (r: PollEvents)
        ensures
            r.spec_bits() == 0x200,
    {
        PollEvents { bits: 0x200 }
    }
}

/// Flags of a copy_file_range request; none are defined.
#[derive(Clone, Copy, Debug, PartialEq, Eq, Structural, Hash)]
pub struct CopyFileRangeFlags {
    bits: u64,
}

impl CopyFileRangeFlags {
    /// Every defined flag of this set.
    pub open spec fn spec_all_bits() -> u64 {
        0x0
    }

    pub closed spec fn spec_bits(self) -> u64 {
        self.bits
    }

    pub fn bits(&self) -> (r: u64)
        ensures
            r == self.spec_bits(),
    {
        self.bits
    }

    pub fn empty() -> (r: CopyFileRangeFlags)
        ensures
            r.spec_bits() == 0,
    {
        CopyFileRangeFlags { bits: 0 }
    }

    /// Every defined flag.
    pub fn all() -> (r: CopyFileRangeFlags)
        ensures
            r.spec_bits() == Self::spec_all_bits(),
    {
        CopyFileRangeFlags { bits: 0x0 }
    }

    /// Exactly the given bits, defined or not.
    pub fn from_bits_retain(bits: u64) -> (r: CopyFileRangeFlags)
        ensures
            r.spec_bits() == bits,
    {
        CopyFileRangeFlags { bits }
    }

    /// The defined flags among the given bits.
    pub fn from_bits_truncate(bits: u64) -> (r: CopyFileRangeFlags)
        ensures
            r.spec_bits() == bits & Self::spec_all_bits(),
    {
        CopyFileRangeFlags { bits: bits & 0x0 }
    }

    /// Whether every flag of `other` is set in `self`.
    pub fn contains(&self, other: CopyFileRangeFlags) -> (r: bool)
        ensures
            r == (self.spec_bits() & other.spec_bits() == other.spec_bits()),
    {
        self.bits & other.bits == other.bits
    }
}

/// BSD file flags.
#[derive(Clone, Copy, Debug, PartialEq, Eq, Structural, Hash)]
pub struct BsdFileFlags {
    bits: u32,
}

impl BsdFileFlags {
    /// Every defined flag of this set.
    pub open spec fn spec_all_bits() -> u32 {
        0x7800f
    }

    pub closed spec fn spec_bits(self) -> u32 {
        self.bits
    }

    pub fn bits(&self) -> (r: u32)
        ensures
            r == self.spec_bits(),
    {
        self.bits
    }

    pub fn empty() -> (r: BsdFileFlags)
        ensures
            r.spec_bits() == 0,
    {
        BsdFileFlags { bits: 0 }
    }

    /// Every defined flag.
    pub fn all() -> (r: BsdFileFlags)
        ensures
            r.spec_bits() == Self::spec_all_bits(),
    {
        BsdFileFlags { bits: 0x7800f }
    }

    /// Exactly the given bits, defined or not.
    pub fn from_bits_retain(bits: u32) -> (r: BsdFileFlags)
        ensures
            r.spec_bits() == bits,
    {
        BsdFileFlags { bits }
    }

    /// The defined flags among the given bits.
    pub fn from_bits_truncate(bits: u32) -> (r: BsdFileFlags)
        ensures
            r.spec_bits() == bits & Self::spec_all_bits(),
    {
        BsdFileFlags { bits: bits & 0x7800f }
    }

    /// Whether every flag of `other` is set in `self`.
    pub fn contains(&self, other: BsdFileFlags) -> (r: bool)
        ensures
            r == (self.spec_bits() & other.spec_bits() == other.spec_bits()),
    {
        self.bits & other.bits == other.bits
    }

    #[allow(non_snake_case)]
    pub fn UF_NODUMP() -> (r: BsdFileFlags)
        ensures
            r.spec_bits() == 0x1,
    {
        BsdFileFlags { bits: 0x1 }
    }

    #[allow(non_snake_case)]
    pub fn UF_IMMUTABLE() -> (r: BsdFileFlags)
        ensures
            r.spec_bits() == 0x2,
    {
        BsdFileFlags { bits: 0x2 }
    }

    #[allow(non_snake_case)]
    pub fn UF_APPEND() -> (r: BsdFileFlags)
        ensures
            r.spec_bits() == 0x4,
    {
        BsdFileFlags { bits: 0x4 }
    }

    #[allow(non_snake_case)]
    pub fn UF_OPAQUE() -> (r: BsdFileFlags)
        ensures
            r.spec_bits() == 0x8,
    {
        BsdFileFlags { bits: 0x8 }
    }

    #[allow(non_snake_case)]
    pub fn UF_HIDDEN() -> (r: BsdFileFlags)
        ensures
            r.spec_bits() == 0x8000,
    {
        BsdFileFlags { bits: 0x8000 }
    }

    #[allow(non_snake_case)]
    pub fn SF_ARCHIVED() -> (r: BsdFileFlags)
        ensures
            r.spec_bits() == 0x10000,
    {
        BsdFileFlags { bits: 0x10000 }
    }

    #[allow(non_snake_case)]
    pub fn SF_IMMUTABLE() -> (r: BsdFileFlags)
        ensures
            r.spec_bits() == 0x20000,
    {
        BsdFileFlags { bits: 0x20000 }
    }

    #[allow(non_snake_case)]
    pub fn SF_APPEND() -> (r: BsdFileFlags)
        ensures
            r.spec_bits() == 0x40000,
    {
        BsdFileFlags { bits: 0x40000 }
    }
}

} // verus!
