//! Value types of the fuser-style public surface.
use vstd::prelude::*;

verus! {

/// An inode number.
#[derive(Clone, Copy, Debug, PartialEq, Eq, Structural, Hash, PartialOrd, Ord)]
pub struct INodeNo(pub u64);

/// The inode number of the filesystem root.
pub const ROOT_INODE: u64 = 1;

impl INodeNo {
    /// The root inode, `INodeNo(1)`.
    pub fn root() -> (r: INodeNo)
        ensures
            r.0 == ROOT_INODE,
    {
        INodeNo(ROOT_INODE)
    }
}

/// A file handle chosen by the filesystem when a file is opened.
#[derive(Clone, Copy, Debug, PartialEq, Eq, Structural, Hash, PartialOrd, Ord)]
pub struct FileHandle(pub u64);

/// The owner of a POSIX lock.
#[derive(Clone, Copy, Debug, PartialEq, Eq, Structural, PartialOrd, Ord)]
pub struct LockOwner(pub u64);

/// The generation of an inode number.
#[derive(Clone, Copy, Debug, PartialEq, Eq, Structural, PartialOrd, Ord)]
pub struct Generation(pub u64);

/// The identifier of a request.
#[derive(Clone, Copy, Debug, PartialEq, Eq, Structural, Hash)]
pub struct RequestId(pub u64);

/// A FUSE protocol version, `major.minor`.
#[derive(Clone, Copy, Debug, PartialEq, Eq, Structural, Hash, PartialOrd, Ord)]
pub struct Version(pub u32, pub u32);

/// Who may access a mounted filesystem.
#[derive(Clone, Copy, Debug, PartialEq, Eq, Structural)]
pub enum SessionACL {
    All,
    RootAndOwner,
    Owner,
}

impl SessionACL {
    /// The default access policy, `Owner`.
    pub fn default_acl() -> (r: SessionACL)
        ensures
            r == SessionACL::Owner,
    {
        SessionACL::Owner
    }
}

impl Default for SessionACL {
    /// The default access policy, `Owner`.
    fn default() -> (r: SessionACL)
        ensures
            r == SessionACL::Owner,
    {
        SessionACL::Owner
    }
}

/// The kind of a filesystem object.
#[derive(Clone, Copy, Debug, PartialEq, Eq, Structural, Hash)]
pub enum FileType {
    NamedPipe,
    CharDevice,
    BlockDevice,
    Directory,
    RegularFile,
    Symlink,
    Socket,
}

#[verifier::external_type_specification]
#[verifier::external_body]
pub struct ExSystemTime(std::time::SystemTime);

/// Attributes of a filesystem object.
#[derive(Clone, Copy, Debug, PartialEq, Eq)]
pub struct FileAttr {
    pub ino: INodeNo,
    pub size: u64,
    pub blocks: u64,
    pub atime: std::time::SystemTime,
    pub mtime: std::time::SystemTime,
    pub ctime: std::time::SystemTime,
    pub crtime: std::time::SystemTime,
    pub kind: FileType,
    pub perm: u16,
    pub nlink: u32,
    pub uid: u32,
    pub gid: u32,
    pub rdev: u32,
    pub blksize: u32,
    pub flags: u32,
}

/// Nanoseconds in one second.
pub const NANOS_PER_SEC: u32 = 1_000_000_000;

/// A span of time: whole seconds plus a sub-second number of nanoseconds.
#[derive(Clone, Copy, Debug, PartialEq, Eq, Structural, Hash, PartialOrd, Ord)]
pub struct TimeSpan {
    secs: u64,
    nanos: u32,
}

impl View for TimeSpan {
    type V = nat;

    /// The span in nanoseconds.
    open spec fn view(&self) -> nat {
        (self.spec_secs() * 1_000_000_000 + self.spec_subsec_nanos()) as nat
    }
}

impl TimeSpan {
    /// Whole seconds of the span.
    pub closed spec fn spec_secs(self) -> u64 {
        self.secs
    }

    /// Sub-second nanoseconds of the span.
    pub closed spec fn spec_subsec_nanos(self) -> u32 {
        self.nanos
    }

    /// The sub-second part of every span is below a second.
    #[verifier::type_invariant]
    spec fn wf(self) -> bool {
        self.nanos < NANOS_PER_SEC
    }

    /// `secs` seconds and `nanos` nanoseconds; `nanos` must be below one second.
    pub fn new(secs: u64, nanos: u32) -> (r: TimeSpan)
        requires
            nanos < NANOS_PER_SEC,
        ensures
            r.spec_secs() == secs,
            r.spec_subsec_nanos() == nanos,
    {
        TimeSpan { secs, nanos }
    }

    /// A span of whole seconds.
    pub fn from_secs(secs: u64) -> (r: TimeSpan)
        ensures
            r.spec_secs() == secs,
            r.spec_subsec_nanos() == 0,
    {
        TimeSpan { secs, nanos: 0 }
    }

    /// A span of whole milliseconds.
    pub fn from_millis(millis: u64) -> (r: TimeSpan)
        ensures
            r.spec_secs() == millis / 1000,
            r.spec_subsec_nanos() == (millis % 1000) * 1_000_000,
            r@ == millis * 1_000_000,
    {
        let r = TimeSpan { secs: millis / 1000, nanos: ((millis % 1000) as u32) * 1_000_000 };
        assert(r@ == millis * 1_000_000) by (nonlinear_arith)
            requires
                r.secs == millis / 1000,
                r.nanos == (millis % 1000) * 1_000_000,
        ;
        r
    }

    /// The empty span.
    pub fn zero() -> (r: TimeSpan)
        ensures
            r@ == 0,
            r.spec_secs() == 0,
            r.spec_subsec_nanos() == 0,
    {
        TimeSpan { secs: 0, nanos: 0 }
    }

    pub fn as_secs(&self) -> (r: u64)
        ensures
            r == self.spec_secs(),
    {
        self.secs
    }

    pub fn subsec_nanos(&self) -> (r: u32)
        ensures
            r == self.spec_subsec_nanos(),
            r < NANOS_PER_SEC,
    {
        proof {
            use_type_invariant(self);
        }
        self.nanos
    }

    /// Whether the span is empty.
    pub fn is_zero(&self) -> (r: bool)
        ensures
            r == (self@ == 0),
    {
        self.secs == 0 && self.nanos == 0
    }

    /// The span in nanoseconds, saturated at `u64::MAX`.
    pub fn as_nanos_saturating(&self) -> (r: u64)
        ensures
            r == if self@ <= u64::MAX { self@ } else { u64::MAX as nat },
    {
        if self.secs > 18_446_744_073 {
            assert(self@ > u64::MAX) by (nonlinear_arith)
                requires self.secs > 18_446_744_073, self@ == self.secs * 1_000_000_000 + self.nanos;
            u64::MAX
        } else {
            let whole: u64 = self.secs * 1_000_000_000;
            if whole > u64::MAX - (self.nanos as u64) {
                u64::MAX
            } else {
                whole + self.nanos as u64
            }
        }
    }
}

/// A time that is either a given instant or the current time.
#[derive(Clone, Copy, Debug, PartialEq, Eq)]
pub enum TimeOrNow {
    SpecificTime(std::time::SystemTime),
    Now,
}

/// Flags of `open(2)`.
#[derive(Clone, Copy, Debug, PartialEq, Eq, Structural, Hash)]
pub struct OpenFlags(pub i32);

pub const O_RDONLY: i32 = 0;
pub const O_WRONLY: i32 = 1;
pub const O_RDWR: i32 = 2;
/// The access-mode bits of the open flags.
pub const O_ACCMODE: i32 = 3;

/// The access mode part of the open flags.
#[allow(non_camel_case_types)]
#[derive(Clone, Copy, Debug, PartialEq, Eq, Structural, Hash)]
pub enum OpenAccMode {
    O_RDONLY,
    O_WRONLY,
    O_RDWR,
}

impl OpenFlags {
    /// The access mode: `O_WRONLY` and `O_RDWR` when the masked bits say so, `O_RDONLY` otherwise.
    pub fn acc_mode(self) -> (r: OpenAccMode)
        ensures
            (self.0 & O_ACCMODE) == O_WRONLY ==> r == OpenAccMode::O_WRONLY,
            (self.0 & O_ACCMODE) == O_RDWR ==> r == OpenAccMode::O_RDWR,
            (self.0 & O_ACCMODE) != O_WRONLY && (self.0 & O_ACCMODE) != O_RDWR ==> r
                == OpenAccMode::O_RDONLY,
    {
        let masked = self.0 & O_ACCMODE;
        if masked == O_WRONLY {
            OpenAccMode::O_WRONLY
        } else if masked == O_RDWR {
            OpenAccMode::O_RDWR
        } else {
            OpenAccMode::O_RDONLY
        }
    }
}

/// Capability flags negotiated in `init`.
#[derive(Clone, Copy, Debug, PartialEq, Eq, Structural, Hash)]
pub struct InitFlags {
    bits: u64,
}

/// The `FUSE_INIT_EXT` capability bit.
pub const FUSE_INIT_EXT: u64 = 0x4000_0000;

impl InitFlags {
    pub closed spec fn spec_bits(self) -> u64 {
        self.bits
    }

    pub fn empty() -> (r: InitFlags)
        ensures
            r.spec_bits() == 0,
    {
        InitFlags { bits: 0 }
    }

    /// Flags holding exactly the given bits.
    pub fn from_bits_retain(bits: u64) -> (r: InitFlags)
        ensures
            r.spec_bits() == bits,
    {
        InitFlags { bits }
    }

    pub fn bits(&self) -> (r: u64)
        ensures
            r == self.spec_bits(),
    {
        self.bits
    }

    /// Whether every bit of `other` is set in `self`.
    pub fn contains(&self, other: InitFlags) -> (r: bool)
        ensures
            r == (self.spec_bits() & other.spec_bits() == other.spec_bits()),
    {
        self.bits & other.bits == other.bits
    }

    pub fn union(&self, other: InitFlags) -> (r: InitFlags)
        ensures
            r.spec_bits() == self.spec_bits() | other.spec_bits(),
    {
        InitFlags { bits: self.bits | other.bits }
    }

    /// The bits of `self` that are not in `other`.
    pub fn difference(&self, other: InitFlags) -> (r: InitFlags)
        ensures
            r.spec_bits() == self.spec_bits() & !other.spec_bits(),
    {
        InitFlags { bits: self.bits & !other.bits }
    }

    #[allow(non_snake_case)]
    pub fn FUSE_ASYNC_READ() -> (r: InitFlags)
        ensures
            r.spec_bits() == 0x1,
    {
        InitFlags { bits: 0x1 }
    }

    #[allow(non_snake_case)]
    pub fn FUSE_POSIX_LOCKS() -> (r: InitFlags)
        ensures
            r.spec_bits() == 0x2,
    {
        InitFlags { bits: 0x2 }
    }

    #[allow(non_snake_case)]
    pub fn FUSE_FILE_OPS() -> (r: InitFlags)
        ensures
            r.spec_bits() == 0x4,
    {
        InitFlags { bits: 0x4 }
    }

    #[allow(non_snake_case)]
    pub fn FUSE_ATOMIC_O_TRUNC() -> (r: InitFlags)
        ensures
            r.spec_bits() == 0x8,
    {
        InitFlags { bits: 0x8 }
    }

    #[allow(non_snake_case)]
    pub fn FUSE_EXPORT_SUPPORT() -> (r: InitFlags)
        ensures
            r.spec_bits() == 0x10,
    {
        InitFlags { bits: 0x10 }
    }

    #[allow(non_snake_case)]
    pub fn FUSE_BIG_WRITES() -> (r: InitFlags)
        ensures
            r.spec_bits() == 0x20,
    {
        InitFlags { bits: 0x20 }
    }

    #[allow(non_snake_case)]
    pub fn FUSE_DONT_MASK() -> (r: InitFlags)
        ensures
            r.spec_bits() == 0x40,
    {
        InitFlags { bits: 0x40 }
    }

    #[allow(non_snake_case)]
    pub fn FUSE_SPLICE_WRITE() -> (r: InitFlags)
        ensures
            r.spec_bits() == 0x80,
    {
        InitFlags { bits: 0x80 }
    }

    #[allow(non_snake_case)]
    pub fn FUSE_SPLICE_MOVE() -> (r: InitFlags)
        ensures
            r.spec_bits() == 0x100,
    {
        InitFlags { bits: 0x100 }
    }

    #[allow(non_snake_case)]
    pub fn FUSE_SPLICE_READ() -> (r: InitFlags)
        ensures
            r.spec_bits() == 0x200,
    {
        InitFlags { bits: 0x200 }
    }

    #[allow(non_snake_case)]
    pub fn FUSE_FLOCK_LOCKS() -> (r: InitFlags)
        ensures
            r.spec_bits() == 0x400,
    {
        InitFlags { bits: 0x400 }
    }

    #[allow(non_snake_case)]
    pub fn FUSE_HAS_IOCTL_DIR() -> (r: InitFlags)
        ensures
            r.spec_bits() == 0x800,
    {
        InitFlags { bits: 0x800 }
    }

    #[allow(non_snake_case)]
    pub fn FUSE_AUTO_INVAL_DATA() -> (r: InitFlags)
        ensures
            r.spec_bits() == 0x1000,
    {
        InitFlags { bits: 0x1000 }
    }

    #[allow(non_snake_case)]
    pub fn FUSE_DO_READDIRPLUS() -> (r: InitFlags)
        ensures
            r.spec_bits() == 0x2000,
    {
        InitFlags { bits: 0x2000 }
    }

    #[allow(non_snake_case)]
    pub fn FUSE_READDIRPLUS_AUTO() -> (r: InitFlags)
        ensures
            r.spec_bits() == 0x4000,
    {
        InitFlags { bits: 0x4000 }
    }

    #[allow(non_snake_case)]
    pub fn FUSE_ASYNC_DIO() -> (r: InitFlags)
        ensures
            r.spec_bits() == 0x8000,
    {
        InitFlags { bits: 0x8000 }
    }

    #[allow(non_snake_case)]
    pub fn FUSE_WRITEBACK_CACHE() -> (r: InitFlags)
        ensures
            r.spec_bits() == 0x10000,
    {
        InitFlags { bits: 0x10000 }
    }

    #[allow(non_snake_case)]
    pub fn FUSE_NO_OPEN_SUPPORT() -> (r: InitFlags)
        ensures
            r.spec_bits() == 0x20000,
    {
        InitFlags { bits: 0x20000 }
    }

    #[allow(non_snake_case)]
    pub fn FUSE_PARALLEL_DIROPS() -> (r: InitFlags)
        ensures
            r.spec_bits() == 0x40000,
    {
        InitFlags { bits: 0x40000 }
    }

    #[allow(non_snake_case)]
    pub fn FUSE_HANDLE_KILLPRIV() -> (r: InitFlags)
        ensures
            r.spec_bits() == 0x80000,
    {
        InitFlags { bits: 0x80000 }
    }

    #[allow(non_snake_case)]
    pub fn FUSE_POSIX_ACL() -> (r: InitFlags)
        ensures
            r.spec_bits() == 0x100000,
    {
        InitFlags { bits: 0x100000 }
    }

    #[allow(non_snake_case)]
    pub fn FUSE_ABORT_ERROR() -> (r: InitFlags)
        ensures
            r.spec_bits() == 0x200000,
    {
        InitFlags { bits: 0x200000 }
    }

    #[allow(non_snake_case)]
    pub fn FUSE_MAX_PAGES() -> (r: InitFlags)
        ensures
            r.spec_bits() == 0x400000,
    {
        InitFlags { bits: 0x400000 }
    }

    #[allow(non_snake_case)]
    pub fn FUSE_CACHE_SYMLINKS() -> (r: InitFlags)
        ensures
            r.spec_bits() == 0x800000,
    {
        InitFlags { bits: 0x800000 }
    }

    #[allow(non_snake_case)]
    pub fn FUSE_NO_OPENDIR_SUPPORT() -> (r: InitFlags)
        ensures
            r.spec_bits() == 0x1000000,
    {
        InitFlags { bits: 0x1000000 }
    }

    #[allow(non_snake_case)]
    pub fn FUSE_EXPLICIT_INVAL_DATA() -> (r: InitFlags)
        ensures
            r.spec_bits() == 0x2000000,
    {
        InitFlags { bits: 0x2000000 }
    }

    #[allow(non_snake_case)]
    pub fn FUSE_MAP_ALIGNMENT() -> (r: InitFlags)
        ensures
            r.spec_bits() == 0x4000000,
    {
        InitFlags { bits: 0x4000000 }
    }

    #[allow(non_snake_case)]
    pub fn FUSE_SUBMOUNTS() -> (r: InitFlags)
        ensures
            r.spec_bits() == 0x8000000,
    {
        InitFlags { bits: 0x8000000 }
    }

    #[allow(non_snake_case)]
    pub fn FUSE_HANDLE_KILLPRIV_V2() -> (r: InitFlags)
        ensures
            r.spec_bits() == 0x10000000,
    {
        InitFlags { bits: 0x10000000 }
    }

    #[allow(non_snake_case)]
    pub fn FUSE_SETXATTR_EXT() -> (r: InitFlags)
        ensures
            r.spec_bits() == 0x20000000,
    {
        InitFlags { bits: 0x20000000 }
    }

    #[allow(non_snake_case)]
    pub fn FUSE_INIT_EXT() -> (r: InitFlags)
        ensures
            r.spec_bits() == 0x40000000,
    {
        InitFlags { bits: 0x40000000 }
    }

    #[allow(non_snake_case)]
    pub fn FUSE_INIT_RESERVED() -> (r: InitFlags)
        ensures
            r.spec_bits() == 0x80000000,
    {
        InitFlags { bits: 0x80000000 }
    }

    #[allow(non_snake_case)]
    pub fn FUSE_SECURITY_CTX() -> (r: InitFlags)
        ensures
            r.spec_bits() == 0x100000000,
    {
        InitFlags { bits: 0x100000000 }
    }

    #[allow(non_snake_case)]
    pub fn FUSE_HAS_INODE_DAX() -> (r: InitFlags)
        ensures
            r.spec_bits() == 0x200000000,
    {
        InitFlags { bits: 0x200000000 }
    }

    #[allow(non_snake_case)]
    pub fn FUSE_CREATE_SUPP_GROUP() -> (r: InitFlags)
        ensures
            r.spec_bits() == 0x400000000,
    {
        InitFlags { bits: 0x400000000 }
    }

    #[allow(non_snake_case)]
    pub fn FUSE_HAS_EXPIRE_ONLY() -> (r: InitFlags)
        ensures
            r.spec_bits() == 0x800000000,
    {
        InitFlags { bits: 0x800000000 }
    }

    #[allow(non_snake_case)]
    pub fn FUSE_DIRECT_IO_ALLOW_MMAP() -> (r: InitFlags)
        ensures
            r.spec_bits() == 0x1000000000,
    {
        InitFlags { bits: 0x1000000000 }
    }

    #[allow(non_snake_case)]
    pub fn FUSE_PASSTHROUGH() -> (r: InitFlags)
        ensures
            r.spec_bits() == 0x2000000000,
    {
        InitFlags { bits: 0x2000000000 }
    }

    #[allow(non_snake_case)]
    pub fn FUSE_NO_EXPORT_SUPPORT() -> (r: InitFlags)
        ensures
            r.spec_bits() == 0x4000000000,
    {
        InitFlags { bits: 0x4000000000 }
    }

    #[allow(non_snake_case)]
    pub fn FUSE_HAS_RESEND() -> (r: InitFlags)
        ensures
            r.spec_bits() == 0x8000000000,
    {
        InitFlags { bits: 0x8000000000 }
    }

    #[allow(non_snake_case)]
    pub fn FUSE_ALLOW_IDMAP() -> (r: InitFlags)
        ensures
            r.spec_bits() == 0x10000000000,
    {
        InitFlags { bits: 0x10000000000 }
    }

    #[allow(non_snake_case)]
    pub fn FUSE_OVER_IO_URING() -> (r: InitFlags)
        ensures
            r.spec_bits() == 0x20000000000,
    {
        InitFlags { bits: 0x20000000000 }
    }

    #[allow(non_snake_case)]
    pub fn FUSE_REQUEST_TIMEOUT() -> (r: InitFlags)
        ensures
            r.spec_bits() == 0x40000000000,
    {
        InitFlags { bits: 0x40000000000 }
    }

    #[allow(non_snake_case)]
    pub fn FUSE_ALLOCATE() -> (r: InitFlags)
        ensures
            r.spec_bits() == 0x8000000,
    {
        InitFlags { bits: 0x8000000 }
    }

    #[allow(non_snake_case)]
    pub fn FUSE_EXCHANGE_DATA() -> (r: InitFlags)
        ensures
            r.spec_bits() == 0x10000000,
    {
        InitFlags { bits: 0x10000000 }
    }

    #[allow(non_snake_case)]
    pub fn FUSE_CASE_INSENSITIVE() -> (r: InitFlags)
        ensures
            r.spec_bits() == 0x20000000,
    {
        InitFlags { bits: 0x20000000 }
    }

    #[allow(non_snake_case)]
    pub fn FUSE_VOL_RENAME() -> (r: InitFlags)
        ensures
            r.spec_bits() == 0x40000000,
    {
        InitFlags { bits: 0x40000000 }
    }

    #[allow(non_snake_case)]
    pub fn FUSE_XTIMES() -> (r: InitFlags)
        ensures
            r.spec_bits() == 0x80000000,
    {
        InitFlags { bits: 0x80000000 }
    }
}


/// A mount option in fuser style.
#[derive(Clone, Debug, PartialEq, Eq, Hash)]
pub enum MountOption {
    FSName(String),
    Subtype(String),
    CUSTOM(String),
    AutoUnmount,
    DefaultPermissions,
    Dev,
    NoDev,
    Suid,
    NoSuid,
    RO,
    RW,
    Exec,
    NoExec,
    Atime,
    NoAtime,
    DirSync,
    Sync,
    Async,
}

/// Whether two mount options are the same option: the same variant, and equal text where it carries one.
pub open spec fn same_option(a: MountOption, b: MountOption) -> bool {
    match a {
        MountOption::FSName(x) => b matches MountOption::FSName(y) && x@ == y@,
        MountOption::Subtype(x) => b matches MountOption::Subtype(y) && x@ == y@,
        MountOption::CUSTOM(x) => b matches MountOption::CUSTOM(y) && x@ == y@,
        MountOption::AutoUnmount => b is AutoUnmount,
        MountOption::DefaultPermissions => b is DefaultPermissions,
        MountOption::Dev => b is Dev,
        MountOption::NoDev => b is NoDev,
        MountOption::Suid => b is Suid,
        MountOption::NoSuid => b is NoSuid,
        MountOption::RO => b is RO,
        MountOption::RW => b is RW,
        MountOption::Exec => b is Exec,
        MountOption::NoExec => b is NoExec,
        MountOption::Atime => b is Atime,
        MountOption::NoAtime => b is NoAtime,
        MountOption::DirSync => b is DirSync,
        MountOption::Sync => b is Sync,
        MountOption::Async => b is Async,
    }
}

/// Mount configuration: options, access policy, worker threads and fd cloning.
#[derive(Clone, Debug, PartialEq, Eq)]
pub struct Config {
    pub mount_options: Vec<MountOption>,
    pub acl: SessionACL,
    pub n_threads: Option<usize>,
    pub clone_fd: bool,
}

impl Config {
    /// No options, the `Owner` policy, no thread count and no fd cloning.
    pub fn default_config() -> (r: Config)
        ensures
            r.mount_options@.len() == 0,
            r.acl == SessionACL::Owner,
            r.n_threads is None,
            !r.clone_fd,
    {
        Config { mount_options: Vec::new(), acl: SessionACL::Owner, n_threads: None, clone_fd: false }
    }
}

impl Default for Config {
    /// No mount options, the `Owner` policy, no thread count, no cloned device.
    fn default() -> (r: Config)
        ensures
            r.mount_options@.len() == 0,
            r.acl == SessionACL::Owner,
            r.n_threads is None,
            !r.clone_fd,
    {
        Config::default_config()
    }
}


/// `10^k`.
pub open spec fn pow10(k: nat) -> nat
    decreases k,
{
    if k == 0 { 1 } else { 10 * pow10((k - 1) as nat) }
}

/// The largest power of ten not above `n` (for `n >= 1`).
pub open spec fn floor_pow10(n: nat) -> nat
    decreases n,
{
    if n < 10 { 1 } else { 10 * floor_pow10(n / 10) }
}

proof fn lemma_floor_pow10(k: nat, n: nat)
    requires
        pow10(k) <= n < 10 * pow10(k),
    ensures
        floor_pow10(n) == pow10(k),
    decreases k,
{
    if k > 0 {
        let q = pow10((k - 1) as nat);
        assert(q >= 1) by { lemma_pow10_positive((k - 1) as nat); }
        assert(q <= n / 10 < 10 * q) by (nonlinear_arith)
            requires 10 * q <= n, n < 100 * q, q >= 1;
        lemma_floor_pow10((k - 1) as nat, n / 10);
        assert(n >= 10) by (nonlinear_arith) requires 10 * q <= n, q >= 1;
    }
}

proof fn lemma_pow10_positive(k: nat)
    ensures
        pow10(k) >= 1,
    decreases k,
{
    if k > 0 {
        lemma_pow10_positive((k - 1) as nat);
    }
}

/// What the filesystem negotiates with the kernel in `init`.
#[derive(Debug)]
pub struct KernelConfig {
    pub max_write: u32,
    pub max_readahead: u32,
    pub max_max_readahead: u32,
    pub capabilities: InitFlags,
    pub requested: InitFlags,
    pub max_background: u16,
    pub congestion_threshold: Option<u16>,
    pub time_gran: TimeSpan,
    pub max_stack_depth: u32,
    pub kernel_abi: Version,
}

/// The deepest filesystem stacking allowed.
pub const FILESYSTEM_MAX_STACK_DEPTH: u32 = 2;
/// The largest write size, 16 MiB.
pub const MAX_WRITE_SIZE: u32 = 16 * 1024 * 1024;

/// The congestion threshold in effect: the one set, or three quarters of the background limit,
/// in either case at most the background limit.
pub open spec fn effective_congestion_threshold(threshold: Option<u16>, max_background: u16) -> u16 {
    let t = match threshold {
        Some(t) => t,
        None => ((max_background as int) * 3 / 4) as u16,
    };
    if t <= max_background { t } else { max_background }
}

/// Everything but one field of a kernel configuration is the same.
pub open spec fn same_except_limits(a: KernelConfig, b: KernelConfig) -> bool {
    &&& a.max_max_readahead == b.max_max_readahead
    &&& a.capabilities == b.capabilities
    &&& a.kernel_abi == b.kernel_abi
}

impl KernelConfig {
    /// Sets the filesystem stacking depth (at most 2); gives back the previous depth, or the limit.
    pub fn set_max_stack_depth(&mut self, value: u32) -> (r: Result<u32, u32>)
        ensures
            value > FILESYSTEM_MAX_STACK_DEPTH ==> r == Err::<u32, u32>(FILESYSTEM_MAX_STACK_DEPTH) && *final(self) == *old(self),
            value <= FILESYSTEM_MAX_STACK_DEPTH ==> r == Ok::<u32, u32>(old(self).max_stack_depth)
                && *final(self) == (KernelConfig { max_stack_depth: value, ..*old(self) }),
    {
        if value > FILESYSTEM_MAX_STACK_DEPTH {
            return Err(FILESYSTEM_MAX_STACK_DEPTH);
        }
        let previous = self.max_stack_depth;
        self.max_stack_depth = value;
        Ok(previous)
    }

    /// Sets the largest write (1 byte to 16 MiB); gives back the previous value, or the nearest bound.
    pub fn set_max_write(&mut self, value: u32) -> (r: Result<u32, u32>)
        ensures
            value == 0 ==> r == Err::<u32, u32>(1) && *final(self) == *old(self),
            value > MAX_WRITE_SIZE ==> r == Err::<u32, u32>(MAX_WRITE_SIZE) && *final(self) == *old(self),
            0 < value <= MAX_WRITE_SIZE ==> r == Ok::<u32, u32>(old(self).max_write)
                && *final(self) == (KernelConfig { max_write: value, ..*old(self) }),
    {
        if value == 0 {
            return Err(1);
        }
        if value > MAX_WRITE_SIZE {
            return Err(MAX_WRITE_SIZE);
        }
        let previous = self.max_write;
        self.max_write = value;
        Ok(previous)
    }

    /// Sets the readahead size (1 byte up to the kernel's maximum); gives back the previous value,
    /// or the nearest bound.
    pub fn set_max_readahead(&mut self, value: u32) -> (r: Result<u32, u32>)
        ensures
            value == 0 ==> r == Err::<u32, u32>(1) && *final(self) == *old(self),
            value > old(self).max_max_readahead && value != 0 ==> r == Err::<u32, u32>(old(self).max_max_readahead) && *final(self) == *old(self),
            0 < value <= old(self).max_max_readahead ==> r == Ok::<u32, u32>(old(self).max_readahead)
                && *final(self) == (KernelConfig { max_readahead: value, ..*old(self) }),
    {
        if value == 0 {
            return Err(1);
        }
        if value > self.max_max_readahead {
            return Err(self.max_max_readahead);
        }
        let previous = self.max_readahead;
        self.max_readahead = value;
        Ok(previous)
    }

    /// The capabilities the kernel offers, without `FUSE_INIT_EXT`.
    pub fn capabilities(&self) -> (r: InitFlags)
        ensures
            r.spec_bits() == self.capabilities.spec_bits() & !FUSE_INIT_EXT,
    {
        self.capabilities.difference(InitFlags::from_bits_retain(FUSE_INIT_EXT))
    }

    /// The kernel's protocol version.
    pub fn kernel_abi(&self) -> (r: Version)
        ensures
            r == self.kernel_abi,
    {
        self.kernel_abi
    }

    /// Requests capabilities; refused with the ones the kernel does not offer.
    pub fn add_capabilities(&mut self, capabilities_to_add: InitFlags) -> (r: Result<(), InitFlags>)
        ensures
            old(self).capabilities.spec_bits() & capabilities_to_add.spec_bits() != capabilities_to_add.spec_bits() ==>
                (r matches Err(missing) && missing.spec_bits() == capabilities_to_add.spec_bits() & !old(self).capabilities.spec_bits()
                && *final(self) == *old(self)),
            old(self).capabilities.spec_bits() & capabilities_to_add.spec_bits() == capabilities_to_add.spec_bits() ==>
                r is Ok && final(self).requested.spec_bits() == old(self).requested.spec_bits() | capabilities_to_add.spec_bits()
                && *final(self) == (KernelConfig { requested: final(self).requested, ..*old(self) }),
    {
        if !self.capabilities.contains(capabilities_to_add) {
            return Err(capabilities_to_add.difference(self.capabilities));
        }
        self.requested = self.requested.union(capabilities_to_add);
        Ok(())
    }

    /// Sets the number of background requests (at least 1); gives back the previous value.
    pub fn set_max_background(&mut self, value: u16) -> (r: Result<u16, u16>)
        ensures
            value == 0 ==> r == Err::<u16, u16>(1) && *final(self) == *old(self),
            value != 0 ==> r == Ok::<u16, u16>(old(self).max_background)
                && *final(self) == (KernelConfig { max_background: value, ..*old(self) }),
    {
        if value == 0 {
            return Err(1);
        }
        let previous = self.max_background;
        self.max_background = value;
        Ok(previous)
    }

    /// Sets the congestion threshold (at least 1); gives back the threshold in effect before.
    pub fn set_congestion_threshold(&mut self, value: u16) -> (r: Result<u16, u16>)
        ensures
            value == 0 ==> r == Err::<u16, u16>(1) && *final(self) == *old(self),
            value != 0 ==> r == Ok::<u16, u16>(effective_congestion_threshold(old(self).congestion_threshold, old(self).max_background))
                && *final(self) == (KernelConfig { congestion_threshold: Some(value), ..*old(self) }),
    {
        if value == 0 {
            return Err(1);
        }
        let t = match self.congestion_threshold {
            Some(t) => t,
            None => ((self.max_background as u32) * 3 / 4) as u16,
        };
        let previous = if t <= self.max_background { t } else { self.max_background };
        self.congestion_threshold = Some(value);
        Ok(previous)
    }

    /// Sets the timestamp granularity: a power of ten nanoseconds from 1 ns to 1 s. Gives back
    /// the previous granularity; refused with 1 ns for zero, 1 s above a second, and otherwise the
    /// largest power of ten below the value.
    pub fn set_time_granularity(&mut self, value: TimeSpan) -> (r: Result<TimeSpan, TimeSpan>)
        ensures
            value@ == 0 ==> (r matches Err(e) && e.spec_secs() == 0 && e.spec_subsec_nanos() == 1 && *final(self) == *old(self)),
            value@ > 1_000_000_000 ==> (r matches Err(e) && e.spec_secs() == 1 && e.spec_subsec_nanos() == 0 && *final(self) == *old(self)),
            0 < value@ <= 1_000_000_000 && floor_pow10(value@) != value@ ==>
                (r matches Err(e) && e.spec_secs() == 0 && e.spec_subsec_nanos() == floor_pow10(value@) && *final(self) == *old(self)),
            0 < value@ <= 1_000_000_000 && floor_pow10(value@) == value@ ==>
                r == Ok::<TimeSpan, TimeSpan>(old(self).time_gran) && *final(self) == (KernelConfig { time_gran: value, ..*old(self) }),
    {
        let secs = value.as_secs();
        let nanos = value.subsec_nanos();
        if secs == 0 && nanos == 0 {
            return Err(TimeSpan::new(0, 1));
        }
        if secs > 1 || (secs == 1 && nanos > 0) {
            assert(value@ > 1_000_000_000) by (nonlinear_arith)
                requires value@ == secs * 1_000_000_000 + nanos, secs > 1 || (secs == 1 && nanos > 0);
            return Err(TimeSpan::new(1, 0));
        }
        let n: u64 = secs * 1_000_000_000 + nanos as u64;
        assert(n == value@ && n <= 1_000_000_000);
        let mut p: u64 = 1;
        let ghost mut k: nat = 0;
        while p < n
            invariant
                1 <= p <= n <= 1_000_000_000,
                n == value@,
                p == pow10(k),
            decreases n - p,
        {
            if n < p * 10 {
                proof {
                    lemma_floor_pow10(k, n as nat);
                }
                return Err(TimeSpan::new(0, p as u32));
            }
            p = p * 10;
            proof {
                k = k + 1;
            }
        }
        proof {
            assert(n < 10 * pow10(k));
            lemma_floor_pow10(k, n as nat);
        }
        let previous = self.time_gran;
        self.time_gran = value;
        Ok(previous)
    }
}

/// The configuration offered before `init`: 128 KiB writes and readahead (up to 1 MiB), no
/// capabilities, 16 background requests, 1 ns granularity, no stacking, protocol 7.40.
pub fn default_kernel_config() -> (r: KernelConfig)
    ensures
        r.max_write == 128 * 1024,
        r.max_readahead == 128 * 1024,
        r.max_max_readahead == 1024 * 1024,
        r.capabilities.spec_bits() == 0,
        r.requested.spec_bits() == 0,
        r.max_background == 16,
        r.congestion_threshold is None,
        r.time_gran@ == 1 && r.time_gran.spec_secs() == 0,
        r.max_stack_depth == 0,
        r.kernel_abi == Version(7, 40),
{
    KernelConfig {
        max_write: 128 * 1024,
        max_readahead: 128 * 1024,
        max_max_readahead: 1024 * 1024,
        capabilities: InitFlags::empty(),
        requested: InitFlags::empty(),
        max_background: 16,
        congestion_threshold: None,
        time_gran: TimeSpan::new(0, 1),
        max_stack_depth: 0,
        kernel_abi: Version(7, 40),
    }
}

} // verus!
