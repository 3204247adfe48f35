//! Mappings between the POSIX-style filesystem surface and the Windows
//! callback surface: status codes, attributes, create dispositions, access
//! masks, lock ranges and the per-handle context.
use vstd::prelude::*;
use crate::errno::{EACCES, EBUSY, EEXIST, EINVAL, ENOENT, ENOSPC, ENOSYS, EPERM};
use crate::flags::FopenFlags;
use crate::request::{INVALID_UID_GID, RequestIds};
use crate::types::{FileHandle, FileType, INodeNo, LockOwner, O_RDONLY, O_RDWR, O_WRONLY, ROOT_INODE};

verus! {

pub const STATUS_UNSUCCESSFUL: i32 = -1073741823;
pub const STATUS_NOT_IMPLEMENTED: i32 = -1073741822;
pub const STATUS_INVALID_PARAMETER: i32 = -1073741811;
pub const STATUS_ALREADY_COMMITTED: i32 = -1073741791;
pub const STATUS_ACCESS_DENIED: i32 = -1073741790;
pub const STATUS_OBJECT_NAME_NOT_FOUND: i32 = -1073741772;
pub const STATUS_OBJECT_NAME_COLLISION: i32 = -1073741771;
pub const STATUS_DISK_FULL: i32 = -1073741697;
pub const STATUS_FILE_IS_A_DIRECTORY: i32 = -1073741638;
pub const STATUS_DIRECTORY_NOT_EMPTY: i32 = -1073741567;
pub const STATUS_NOT_A_DIRECTORY: i32 = -1073741565;

pub const FILE_ATTRIBUTE_READONLY: u32 = 0x1;
pub const FILE_ATTRIBUTE_DIRECTORY: u32 = 0x10;
pub const FILE_ATTRIBUTE_NORMAL: u32 = 0x80;

pub const FILE_SUPERSEDE: u32 = 0;
pub const FILE_OPEN: u32 = 1;
pub const FILE_CREATE: u32 = 2;
pub const FILE_OPEN_IF: u32 = 3;
pub const FILE_OVERWRITE: u32 = 4;
pub const FILE_OVERWRITE_IF: u32 = 5;

pub const FILE_DIRECTORY_FILE: u32 = 0x1;

pub const GENERIC_READ: u32 = 0x8000_0000;
pub const GENERIC_WRITE: u32 = 0x4000_0000;
pub const FILE_READ_DATA: u32 = 0x1;
pub const FILE_WRITE_DATA: u32 = 0x2;
pub const FILE_APPEND_DATA: u32 = 0x4;

/// POSIX lock type of a write lock, as `setlk` and `getlk` take it.
pub const LOCK_TYPE_WRLCK: i32 = 1;
/// POSIX lock type of an unlock.
pub const LOCK_TYPE_UNLCK: i32 = 2;

/// The status a POSIX error number is reported as.
pub open spec fn ntstatus_of(err: i32) -> i32 {
    if err == ENOSYS {
        STATUS_NOT_IMPLEMENTED
    } else if err == ENOENT {
        STATUS_OBJECT_NAME_NOT_FOUND
    } else if err == EEXIST {
        STATUS_OBJECT_NAME_COLLISION
    } else if err == ENOSPC {
        STATUS_DISK_FULL
    } else if err == EACCES || err == EPERM {
        STATUS_ACCESS_DENIED
    } else if err == EINVAL {
        STATUS_INVALID_PARAMETER
    } else if err == EBUSY {
        STATUS_ALREADY_COMMITTED
    } else {
        STATUS_UNSUCCESSFUL
    }
}

/// Maps a POSIX error number into the status reported to Windows.
pub fn errno_to_ntstatus(err: i32) -> (r: i32)
    ensures
        r == ntstatus_of(err),
{
    if err == ENOSYS {
        STATUS_NOT_IMPLEMENTED
    } else if err == ENOENT {
        STATUS_OBJECT_NAME_NOT_FOUND
    } else if err == EEXIST {
        STATUS_OBJECT_NAME_COLLISION
    } else if err == ENOSPC {
        STATUS_DISK_FULL
    } else if err == EACCES || err == EPERM {
        STATUS_ACCESS_DENIED
    } else if err == EINVAL {
        STATUS_INVALID_PARAMETER
    } else if err == EBUSY {
        STATUS_ALREADY_COMMITTED
    } else {
        STATUS_UNSUCCESSFUL
    }
}

/// Why an optional operation probed on the filesystem failed.
#[derive(Clone, Copy, Debug, PartialEq, Eq, Structural)]
pub enum OptionalProbeError {
    /// The filesystem does not implement the operation.
    Unsupported { ntstatus: i32 },
    /// The filesystem implements it and refused this request.
    RequestError { ntstatus: i32 },
}

impl OptionalProbeError {
    pub fn ntstatus(self) -> (r: i32)
        ensures
            r == match self {
                OptionalProbeError::Unsupported { ntstatus } => ntstatus,
                OptionalProbeError::RequestError { ntstatus } => ntstatus,
            },
    {
        match self {
            OptionalProbeError::Unsupported { ntstatus } => ntstatus,
            OptionalProbeError::RequestError { ntstatus } => ntstatus,
        }
    }
}

/// `ENOSYS` marks the operation unsupported; any other error is the request's.
pub fn classify_optional_probe_error(err: i32) -> (r: OptionalProbeError)
    ensures
        err == ENOSYS ==> r == (OptionalProbeError::Unsupported { ntstatus: ntstatus_of(err) }),
        err != ENOSYS ==> r == (OptionalProbeError::RequestError { ntstatus: ntstatus_of(err) }),
{
    let ntstatus = errno_to_ntstatus(err);
    if err == ENOSYS {
        OptionalProbeError::Unsupported { ntstatus }
    } else {
        OptionalProbeError::RequestError { ntstatus }
    }
}

/// The status reported when a filesystem callback returned without replying.
pub fn missing_reply_status() -> (r: i32)
    ensures
        r == STATUS_UNSUCCESSFUL,
{
    STATUS_UNSUCCESSFUL
}

/// The status of a finished reply: its value, the mapped error, or the
/// missing-reply status when the callback never replied.
pub open spec fn reply_outcome<T>(reply: Option<Result<T, i32>>) -> Result<T, i32> {
    match reply {
        Some(Ok(v)) => Ok(v),
        Some(Err(err)) => Err(ntstatus_of(err)),
        None => Err(STATUS_UNSUCCESSFUL),
    }
}

/// Turns the state a reply was left in into a result.
pub fn reply_status<T>(reply: Option<Result<T, i32>>) -> (r: Result<T, i32>)
    ensures
        r == reply_outcome(reply),
{
    match reply {
        Some(Ok(v)) => Ok(v),
        Some(Err(err)) => Err(errno_to_ntstatus(err)),
        None => Err(missing_reply_status()),
    }
}

/// Windows file attributes of an object: directory or normal, read-only when
/// nobody may write it.
pub open spec fn windows_attr(kind: FileType, perm: u16) -> u32 {
    let base = if kind == FileType::Directory { FILE_ATTRIBUTE_DIRECTORY } else { FILE_ATTRIBUTE_NORMAL };
    if perm & 0o222 == 0 { base | FILE_ATTRIBUTE_READONLY } else { base }
}

pub fn filetype_to_windows_attr(kind: FileType, perm: u16) -> (r: u32)
    ensures
        r == windows_attr(kind, perm),
{
    let base = match kind {
        FileType::Directory => FILE_ATTRIBUTE_DIRECTORY,
        _ => FILE_ATTRIBUTE_NORMAL,
    };
    if perm & 0o222 == 0 {
        base | FILE_ATTRIBUTE_READONLY
    } else {
        base
    }
}

/// Attributes for a directory listing, where permissions are known only if
/// a `getattr` gave them; unknown permissions count as writable.
pub fn find_files_attr_from_kind_and_perm(kind: FileType, perm_from_getattr: Option<u16>) -> (r: u32)
    ensures
        r == windows_attr(kind, match perm_from_getattr { Some(p) => p, None => 0o666u16 }),
{
    let perm = match perm_from_getattr {
        Some(p) => p,
        None => 0o666,
    };
    filetype_to_windows_attr(kind, perm)
}

/// What a create disposition asks for.
#[derive(Clone, Copy, Debug, PartialEq, Eq, Structural)]
pub enum CreateDispositionPlan {
    CreateOnly,
    Supersede,
    OpenOnly,
    CreateThenOpenOnExists,
}

pub open spec fn disposition_plan(disposition: u32) -> CreateDispositionPlan {
    if disposition == FILE_CREATE {
        CreateDispositionPlan::CreateOnly
    } else if disposition == FILE_SUPERSEDE {
        CreateDispositionPlan::Supersede
    } else if disposition == FILE_OPEN_IF || disposition == FILE_OVERWRITE_IF {
        CreateDispositionPlan::CreateThenOpenOnExists
    } else {
        CreateDispositionPlan::OpenOnly
    }
}

pub fn create_disposition_plan(disposition: u32) -> (r: CreateDispositionPlan)
    ensures
        r == disposition_plan(disposition),
        r.spec_creates_entry() <==> (disposition == 0 || disposition == 2 || disposition == 3 || disposition == 5),
        (r == CreateDispositionPlan::CreateThenOpenOnExists) <==> (disposition == 3 || disposition == 5),
{
    if disposition == FILE_CREATE {
        CreateDispositionPlan::CreateOnly
    } else if disposition == FILE_SUPERSEDE {
        CreateDispositionPlan::Supersede
    } else if disposition == FILE_OPEN_IF || disposition == FILE_OVERWRITE_IF {
        CreateDispositionPlan::CreateThenOpenOnExists
    } else {
        CreateDispositionPlan::OpenOnly
    }
}

/// Which dispositions may create a missing entry: supersede (0), create (2),
/// open-if (3) and overwrite-if (5). Open (1), overwrite (4) and every unknown
/// disposition only open what exists; create alone refuses an existing entry,
/// supersede alone replaces it, and open-if and overwrite-if fall back to
/// opening it.
pub proof fn lemma_disposition_creates_only_when_asked(disposition: u32)
    ensures
        disposition_plan(disposition).spec_creates_entry()
            <==> (disposition == 0 || disposition == 2 || disposition == 3 || disposition == 5),
        disposition_plan(disposition) == CreateDispositionPlan::CreateOnly <==> disposition == 2,
        disposition_plan(disposition) == CreateDispositionPlan::Supersede <==> disposition == 0,
        disposition_plan(disposition) == CreateDispositionPlan::CreateThenOpenOnExists
            <==> (disposition == 3 || disposition == 5),
        disposition == 1 || disposition == 4 || disposition > 5 ==>
            disposition_plan(disposition) == CreateDispositionPlan::OpenOnly,
{
}

impl CreateDispositionPlan {
    pub open spec fn spec_creates_entry(self) -> bool {
        self != CreateDispositionPlan::OpenOnly
    }

    /// Whether the plan creates the entry (every plan but `OpenOnly`).
    pub fn creates_entry(&self) -> (r: bool)
        ensures
            r == self.spec_creates_entry(),
    {
        match self {
            CreateDispositionPlan::OpenOnly => false,
            _ => true,
        }
    }

    /// Whether a failed create with `err` falls back to opening the existing
    /// entry: only for `EEXIST`, and only for open-if and supersede plans.
    pub fn opens_existing_after_collision(&self, err: i32) -> (r: bool)
        ensures
            r == (err == EEXIST && (*self == CreateDispositionPlan::CreateThenOpenOnExists
                || *self == CreateDispositionPlan::Supersede)),
    {
        err == EEXIST && match self {
            CreateDispositionPlan::CreateThenOpenOnExists | CreateDispositionPlan::Supersede => true,
            _ => false,
        }
    }
}

/// Whether the create options ask for a directory.
pub fn is_directory_open(create_options: u32) -> (r: bool)
    ensures
        r == (create_options & FILE_DIRECTORY_FILE != 0),
{
    (create_options & FILE_DIRECTORY_FILE) != 0
}

/// The mode of a file created with the given Windows attributes.
pub fn mode_from_file_attributes(file_attributes: u32) -> (r: u32)
    ensures
        file_attributes & FILE_ATTRIBUTE_READONLY != 0 ==> r == 0o444,
        file_attributes & FILE_ATTRIBUTE_READONLY == 0 ==> r == 0o644,
{
    if (file_attributes & FILE_ATTRIBUTE_READONLY) != 0 {
        0o444
    } else {
        0o644
    }
}

/// The open flags an access mask asks for.
pub open spec fn access_open_flags(desired_access: u32) -> i32 {
    let can_read = desired_access & GENERIC_READ != 0 || desired_access & FILE_READ_DATA != 0;
    let can_write = desired_access & GENERIC_WRITE != 0 || desired_access & FILE_WRITE_DATA != 0
        || desired_access & FILE_APPEND_DATA != 0;
    if can_read && can_write {
        O_RDWR
    } else if can_write {
        O_WRONLY
    } else {
        O_RDONLY
    }
}

/// Whether an access mask asks to read: generic read or read-data.
pub open spec fn asks_read(m: u32) -> bool {
    m & 0x8000_0000 != 0 || m & 0x1 != 0
}

/// Whether an access mask asks to write: generic write, write-data or append-data.
pub open spec fn asks_write(m: u32) -> bool {
    m & 0x4000_0000 != 0 || m & 0x2 != 0 || m & 0x4 != 0
}

/// The open mode follows the rights asked for: any write right (appending
/// included) opens for writing, for reading and writing when a read right is
/// asked too; without a write right the open is read-only. Adding the append
/// right to any mask therefore never gives a read-only open.
pub proof fn lemma_open_flags_follow_rights(m: u32)
    ensures
        asks_write(m) ==> access_open_flags(m) != O_RDONLY,
        asks_write(m) && asks_read(m) ==> access_open_flags(m) == O_RDWR,
        asks_write(m) && !asks_read(m) ==> access_open_flags(m) == O_WRONLY,
        !asks_write(m) ==> access_open_flags(m) == O_RDONLY,
        access_open_flags(m | 0x4) != O_RDONLY,
        asks_read(m) ==> access_open_flags(m | 0x4) == O_RDWR,
{
    assert((m | 0x4u32) & 0x4 != 0) by (bit_vector);
    assert(m & 0x1 != 0 ==> (m | 0x4u32) & 0x1 != 0) by (bit_vector);
    assert(m & 0x8000_0000 != 0 ==> (m | 0x4u32) & 0x8000_0000 != 0) by (bit_vector);
}

pub fn access_mask_to_open_flags(desired_access: u32) -> (r: i32)
    ensures
        r == access_open_flags(desired_access),
        asks_write(desired_access) && asks_read(desired_access) ==> r == O_RDWR,
        asks_write(desired_access) && !asks_read(desired_access) ==> r == O_WRONLY,
        !asks_write(desired_access) ==> r == O_RDONLY,
{
    let can_read = (desired_access & GENERIC_READ) != 0 || (desired_access & FILE_READ_DATA) != 0;
    let can_write = (desired_access & GENERIC_WRITE) != 0 || (desired_access & FILE_WRITE_DATA) != 0
        || (desired_access & FILE_APPEND_DATA) != 0;
    if can_read && can_write {
        O_RDWR
    } else if can_write {
        O_WRONLY
    } else {
        O_RDONLY
    }
}

/// A non-negative offset as unsigned; negative ones are invalid.
pub fn nonnegative_i64_to_u64(value: i64) -> (r: Result<u64, i32>)
    ensures
        value >= 0 ==> r == Ok::<u64, i32>(value as u64),
        value < 0 ==> r == Err::<u64, i32>(STATUS_INVALID_PARAMETER),
{
    if value < 0 {
        Err(STATUS_INVALID_PARAMETER)
    } else {
        Ok(value as u64)
    }
}

/// A length as Windows' 32-bit length; longer ones are invalid.
pub fn checked_dokan_len(value: usize) -> (r: Result<u32, i32>)
    ensures
        value <= u32::MAX ==> r == Ok::<u32, i32>(value as u32),
        value > u32::MAX ==> r == Err::<u32, i32>(STATUS_INVALID_PARAMETER),
{
    if value > 0xffff_ffffusize {
        Err(STATUS_INVALID_PARAMETER)
    } else {
        Ok(value as u32)
    }
}

/// The byte range `[offset, offset + length)` of a lock request as
/// `(start, end)`; invalid when either is negative or the end overflows.
pub fn checked_lock_range(offset: i64, length: i64) -> (r: Result<(u64, u64), i32>)
    ensures
        (offset < 0 || length < 0 || offset + length > i64::MAX) <==> r == Err::<(u64, u64), i32>(STATUS_INVALID_PARAMETER),
        !(offset < 0 || length < 0 || offset + length > i64::MAX) ==> r == Ok::<(u64, u64), i32>(
            (offset as u64, (offset + length) as u64)),
{
    if offset < 0 || length < 0 {
        return Err(STATUS_INVALID_PARAMETER);
    }
    let start = match nonnegative_i64_to_u64(offset) {
        Ok(s) => s,
        Err(e) => return Err(e),
    };
    let sum = match offset.checked_add(length) {
        Some(s) => s,
        None => return Err(STATUS_INVALID_PARAMETER),
    };
    let end = match nonnegative_i64_to_u64(sum) {
        Ok(e) => e,
        Err(e) => return Err(e),
    };
    Ok((start, end))
}

/// The next directory offset: the last emitted entry's, else unchanged.
pub fn advance_offset_on_emitted(current: i64, emitted_offset: Option<i64>) -> (r: i64)
    ensures
        r == match emitted_offset { Some(o) => o, None => current },
{
    match emitted_offset {
        Some(o) => o,
        None => current,
    }
}

/// What a Windows handle remembers of the file it opened.
#[derive(Clone, Copy, Debug, PartialEq, Eq)]
pub struct AdapterContext {
    pub fh: FileHandle,
    pub flags: FopenFlags,
    pub ino: INodeNo,
    pub is_dir: bool,
    pub lock_owner: Option<LockOwner>,
    pub request_ids: RequestIds,
}

impl Default for AdapterContext {
    fn default() -> (r: AdapterContext)
        ensures
            r.fh == FileHandle(0),
            r.flags.spec_bits() == 0,
            r.ino == INodeNo(0),
            !r.is_dir,
            r.lock_owner is None,
            r.request_ids == (RequestIds { uid: INVALID_UID_GID, gid: INVALID_UID_GID, pid: 0 }),
    {
        AdapterContext {
            fh: FileHandle(0),
            flags: FopenFlags::empty(),
            ino: INodeNo(0),
            is_dir: false,
            lock_owner: None,
            request_ids: RequestIds::unavailable(0),
        }
    }
}

/// The parent directory an entry is placed under, given what resolving the
/// parent path gave: the resolved inode, or the root when resolution failed.
pub fn parent_ino_or_root(resolved: Result<INodeNo, i32>) -> (r: INodeNo)
    ensures
        resolved matches Ok(ino) ==> r == ino,
        resolved is Err ==> r == INodeNo(ROOT_INODE),
{
    match resolved {
        Ok(ino) => ino,
        Err(_) => INodeNo::root(),
    }
}

/// The inode a context has opened, if it has opened one.
pub fn ino_from_context_or_path(context: &AdapterContext) -> (r: Option<INodeNo>)
    ensures
        context.ino.0 != 0 ==> r == Some(context.ino),
        context.ino.0 == 0 ==> r is None,
{
    if context.ino.0 != 0 {
        return Some(context.ino);
    }
    None
}

/// The lock owner a context holds.
pub fn lock_owner_from_context(context: AdapterContext) -> (r: Option<LockOwner>)
    ensures
        r == context.lock_owner,
{
    context.lock_owner
}

/// The context to act on: the handle's own when it has opened an inode; for
/// the root path `\` a fresh context on the root directory; otherwise none.
pub fn resolve_ctx(file_name: &str, context: &AdapterContext) -> (r: Option<AdapterContext>)
    ensures
        context.ino.0 != 0 ==> r == Some(*context),
        context.ino.0 == 0 && file_name@ == seq!['\\'] ==> (r matches Some(c) && c.fh == FileHandle(0)
            && c.flags.spec_bits() == 0 && c.ino == INodeNo(ROOT_INODE) && c.is_dir && c.lock_owner is None
            && c.request_ids == context.request_ids),
        context.ino.0 == 0 && file_name@ != seq!['\\'] ==> r is None,
{
    if context.ino.0 != 0 {
        return Some(*context);
    }
    let root = "\\";
    proof {
        reveal_strlit("\\");
        assert(root@ =~= seq!['\\']);
    }
    if crate::text::str_eq(file_name, root) {
        return Some(AdapterContext {
            fh: FileHandle(0),
            flags: FopenFlags::from_bits_retain(0),
            ino: INodeNo::root(),
            is_dir: true,
            lock_owner: None,
            request_ids: context.request_ids,
        });
    }
    None
}

} // verus!
