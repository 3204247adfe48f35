//! Decisions the adapter takes on the replies of the filesystem: delete
//! prechecks, write planning and mount outcome.
use vstd::prelude::*;
use crate::errno::{ENOENT, ENOSYS};
use crate::helpers::{STATUS_DIRECTORY_NOT_EMPTY, STATUS_FILE_IS_A_DIRECTORY, STATUS_INVALID_PARAMETER,
    STATUS_NOT_A_DIRECTORY, STATUS_OBJECT_NAME_COLLISION, STATUS_UNSUCCESSFUL, errno_to_ntstatus, missing_reply_status, ntstatus_of,
    reply_outcome, reply_status};
use crate::text::str_eq;
use crate::helpers::AdapterContext;
use crate::types::{FileHandle, FileType, INodeNo, LockOwner};

verus! {

/// Deleting a file: refused for a directory, and with the `getattr` error
/// when the attributes could not be had.
pub fn file_delete_attr_check(attr_reply: Option<Result<FileType, i32>>) -> (r: Result<(), i32>)
    ensures
        r == match attr_reply {
            Some(Ok(FileType::Directory)) => Err(STATUS_FILE_IS_A_DIRECTORY),
            Some(Ok(_)) => Ok(()),
            Some(Err(err)) => Err(ntstatus_of(err)),
            None => Err(STATUS_UNSUCCESSFUL),
        },
{
    match attr_reply {
        Some(Ok(FileType::Directory)) => Err(STATUS_FILE_IS_A_DIRECTORY),
        Some(Ok(_)) => Ok(()),
        Some(Err(err)) => Err(errno_to_ntstatus(err)),
        None => Err(missing_reply_status()),
    }
}

/// Deleting a file after the write-access probe: allowed when access is
/// granted or the filesystem does not implement `access`.
pub fn file_delete_access_check(access_reply: Option<Result<(), i32>>) -> (r: Result<(), i32>)
    ensures
        r == match access_reply {
            Some(Ok(())) => Ok(()),
            Some(Err(err)) => if err == ENOSYS { Ok(()) } else { Err(ntstatus_of(err)) },
            None => Err(STATUS_UNSUCCESSFUL),
        },
{
    match access_reply {
        Some(Ok(())) => Ok(()),
        Some(Err(err)) => {
            if err == ENOSYS {
                Ok(())
            } else {
                Err(errno_to_ntstatus(err))
            }
        },
        None => Err(missing_reply_status()),
    }
}

/// Deleting a directory: refused for anything else, and with the `getattr`
/// error when the attributes could not be had.
pub fn directory_delete_attr_check(attr_reply: Option<Result<FileType, i32>>) -> (r: Result<(), i32>)
    ensures
        r == match attr_reply {
            Some(Ok(FileType::Directory)) => Ok(()),
            Some(Ok(_)) => Err(STATUS_NOT_A_DIRECTORY),
            Some(Err(err)) => Err(ntstatus_of(err)),
            None => Err(STATUS_UNSUCCESSFUL),
        },
{
    match attr_reply {
        Some(Ok(FileType::Directory)) => Ok(()),
        Some(Ok(_)) => Err(STATUS_NOT_A_DIRECTORY),
        Some(Err(err)) => Err(errno_to_ntstatus(err)),
        None => Err(missing_reply_status()),
    }
}

/// Whether a name is a real child, not `.` or `..`.
pub open spec fn is_child_name(name: Seq<char>) -> bool {
    name != seq!['.'] && name != seq!['.', '.']
}

/// A name that is neither `.` nor `..`: empty, longer than two characters,
/// or holding a character other than `.`.
pub open spec fn not_a_dot_entry(name: Seq<char>) -> bool {
    name.len() == 0 || name.len() > 2 || exists|j: int| 0 <= j < name.len() && name[j] != '.'
}

/// Every name but `.` and `..` is a child, dot-files such as `.gitignore`
/// included.
pub proof fn lemma_children_are_all_but_dot_entries(name: Seq<char>)
    ensures
        is_child_name(name) <==> not_a_dot_entry(name),
{
    if !not_a_dot_entry(name) {
        if name.len() == 1 {
            assert(name =~= seq!['.']) by {
                assert(name[0] == '.');
            }
        } else {
            assert(name.len() == 2);
            assert(name =~= seq!['.', '.']) by {
                assert(name[0] == '.');
                assert(name[1] == '.');
            }
        }
    } else if name.len() == 1 || name.len() == 2 {
        let j = choose|j: int| 0 <= j < name.len() && name[j] != '.';
        assert(seq!['.'][0] == '.');
        assert(seq!['.', '.'][0] == '.' && seq!['.', '.'][1] == '.');
        if name == seq!['.'] {
            assert(name[j] == '.');
        }
        if name == seq!['.', '.'] {
            assert(name[j] == '.');
        }
    }
}

/// Whether a listing names any child besides `.` and `..`.
pub fn has_child(names: &Vec<String>) -> (r: bool)
    ensures
        r == exists|i: int| 0 <= i < names@.len() && is_child_name(#[trigger] names@[i]@),
        r <==> exists|i: int| 0 <= i < names@.len() && not_a_dot_entry(#[trigger] names@[i]@),
{
    proof {
        assert forall|i: int|
            #![trigger is_child_name(names@[i]@)]
            #![trigger not_a_dot_entry(names@[i]@)]
            0 <= i < names@.len() implies (is_child_name(names@[i]@) <==> not_a_dot_entry(names@[i]@)) by {
            lemma_children_are_all_but_dot_entries(names@[i]@);
        }
    }
    let dot = ".";
    let dotdot = "..";
    proof {
        reveal_strlit(".");
        reveal_strlit("..");
        assert(dot@ =~= seq!['.']);
        assert(dotdot@ =~= seq!['.', '.']);
    }
    let mut i: usize = 0;
    while i < names.len()
        invariant
            i <= names@.len(),
            dot@ == seq!['.'],
            dotdot@ == seq!['.', '.'],
            forall|j: int| 0 <= j < i ==> !is_child_name(#[trigger] names@[j]@),
            forall|j: int|
                #![trigger is_child_name(names@[j]@)]
                #![trigger not_a_dot_entry(names@[j]@)]
                0 <= j < names@.len() ==> (is_child_name(names@[j]@) <==> not_a_dot_entry(names@[j]@)),
        decreases names.len() - i,
    {
        let name = names[i].as_str();
        if !str_eq(name, dot) && !str_eq(name, dotdot) {
            assert(is_child_name(names@[i as int]@));
            return true;
        }
        i = i + 1;
    }
    false
}

/// Deleting a directory after listing it: refused when it has a child,
/// otherwise the status of the listing.
pub fn directory_delete_outcome(has_child: bool, listing_status: Option<Result<(), i32>>) -> (r: Result<(), i32>)
    ensures
        has_child ==> r == Err::<(), i32>(STATUS_DIRECTORY_NOT_EMPTY),
        !has_child ==> r == reply_outcome(listing_status),
{
    if has_child {
        return Err(STATUS_DIRECTORY_NOT_EMPTY);
    }
    reply_status(listing_status)
}

/// The first step of planning a write: refused at a negative offset (unless
/// writing at the end); decided at once for an ordinary write; otherwise the
/// file's size is needed (`None`).
pub fn dokan_write_plan_start(offset: i64, len: usize, write_to_eof: bool, paging_io: bool)
    -> (r: Result<Option<(u64, usize)>, i32>)
    ensures
        !write_to_eof && offset < 0 ==> r == Err::<Option<(u64, usize)>, i32>(STATUS_INVALID_PARAMETER),
        !write_to_eof && offset >= 0 && !paging_io ==> r == Ok::<Option<(u64, usize)>, i32>(Some((offset as u64, len))),
        (write_to_eof || (offset >= 0 && paging_io)) ==> r == Ok::<Option<(u64, usize)>, i32>(None),
{
    if !write_to_eof && offset < 0 {
        return Err(STATUS_INVALID_PARAMETER);
    }
    if !write_to_eof && !paging_io {
        return Ok(Some((offset as u64, len)));
    }
    Ok(None)
}

/// Where a write that needed the file's `size` goes and how much of it: at
/// the end when writing to end of file; a paging write does not extend the
/// file, so it is cut at the current size.
pub open spec fn write_plan_with_size(offset: i64, len: usize, write_to_eof: bool, paging_io: bool, size: u64) -> (u64, usize) {
    let start: u64 = if write_to_eof { size } else { offset as u64 };
    if paging_io {
        if start >= size {
            (start, 0usize)
        } else {
            let remaining: int = size - start;
            (start, if remaining <= len { remaining as usize } else { len })
        }
    } else {
        (start, len)
    }
}

/// A write with the file's size known starts at the end of file when
/// writing there, else at `offset`; an ordinary write keeps its length; a
/// paging write keeps as much of its length as lies inside the file: all of
/// it when it ends within the file, up to the end of file when it crosses it,
/// and nothing when it starts at or past the end.
pub proof fn lemma_write_plan_clips_paging_to_size(offset: i64, len: usize, write_to_eof: bool, paging_io: bool, size: u64)
    requires
        write_to_eof || offset >= 0,
    ensures
        ({
            let (start, n) = write_plan_with_size(offset, len, write_to_eof, paging_io, size);
            &&& start == if write_to_eof { size as int } else { offset as int }
            &&& !paging_io ==> n == len
            &&& paging_io && start + len <= size ==> n == len
            &&& paging_io && start < size && start + len > size ==> n == size - start
            &&& paging_io && start >= size ==> n == 0
        }),
{
}

pub fn dokan_write_plan_with_size(offset: i64, len: usize, write_to_eof: bool, paging_io: bool, size: u64)
    -> (r: (u64, usize))
    requires
        write_to_eof || offset >= 0,
    ensures
        r == write_plan_with_size(offset, len, write_to_eof, paging_io, size),
        r.0 == if write_to_eof { size as int } else { offset as int },
        !paging_io ==> r.1 == len,
        paging_io && r.0 + len <= size ==> r.1 == len,
        paging_io && r.0 < size && r.0 + len > size ==> r.1 == size - r.0,
        paging_io && r.0 >= size ==> r.1 == 0,
{
    let start: u64 = if write_to_eof { size } else { offset as u64 };
    if paging_io {
        if start >= size {
            return (start, 0);
        }
        let diff: u64 = size - start;
        let remaining: usize = if diff > usize::MAX as u64 { usize::MAX } else { diff as usize };
        let n = if len <= remaining { len } else { remaining };
        return (start, n);
    }
    (start, len)
}

/// The whole write plan, given what `getattr` answered when the size was
/// needed.
pub fn dokan_write_plan(offset: i64, len: usize, write_to_eof: bool, paging_io: bool,
    size_reply: Option<Result<u64, i32>>) -> (r: Result<(u64, usize), i32>)
    ensures
        !write_to_eof && offset < 0 ==> r == Err::<(u64, usize), i32>(STATUS_INVALID_PARAMETER),
        !write_to_eof && offset >= 0 && !paging_io ==> r == Ok::<(u64, usize), i32>((offset as u64, len)),
        (write_to_eof || (offset >= 0 && paging_io)) ==> r == match reply_outcome(size_reply) {
            Ok(size) => Ok(write_plan_with_size(offset, len, write_to_eof, paging_io, size)),
            Err(e) => Err(e),
        },
{
    match dokan_write_plan_start(offset, len, write_to_eof, paging_io) {
        Err(e) => Err(e),
        Ok(Some(plan)) => Ok(plan),
        Ok(None) => match reply_status(size_reply) {
            Ok(size) => Ok(dokan_write_plan_with_size(offset, len, write_to_eof, paging_io, size)),
            Err(e) => Err(e),
        },
    }
}

/// A paging write never goes past the file's current size.
pub proof fn lemma_paging_write_stays_within_size(offset: i64, len: usize, write_to_eof: bool, size: u64)
    requires
        write_to_eof || offset >= 0,
    ensures
        ({
            let (start, n) = write_plan_with_size(offset, len, write_to_eof, true, size);
            n == 0 || start + n <= size
        }),
        ({
            let (start, n) = write_plan_with_size(offset, len, write_to_eof, true, size);
            n <= len
        }),
{
}

/// The status of a mount whose `init` failed: the mapped error number,
/// or `STATUS_UNSUCCESSFUL` when the error carried none.
pub fn init_failure_status(raw_os_error: Option<i32>) -> (r: i32)
    ensures
        r == match raw_os_error { Some(err) => ntstatus_of(err), None => STATUS_UNSUCCESSFUL },
{
    match raw_os_error {
        Some(err) => errno_to_ntstatus(err),
        None => STATUS_UNSUCCESSFUL,
    }
}

/// A move that may not replace its target, given what resolving the target
/// path found: an existing target is a collision; a missing one, or a
/// filesystem without `lookup` to check with, lets the move go ahead; any
/// other failure is reported.
pub fn move_target_check(target: Result<INodeNo, i32>) -> (r: Result<(), i32>)
    ensures
        target is Ok ==> r == Err::<(), i32>(STATUS_OBJECT_NAME_COLLISION),
        target matches Err(err) ==> r == if err == ENOENT || err == ENOSYS { Ok::<(), i32>(()) }
            else { Err::<(), i32>(ntstatus_of(err)) },
{
    match target {
        Ok(_) => Err(STATUS_OBJECT_NAME_COLLISION),
        Err(err) => {
            if err == ENOENT || err == ENOSYS {
                Ok(())
            } else {
                Err(errno_to_ntstatus(err))
            }
        },
    }
}

/// The call that closes a handle: `releasedir` for a directory, `release`
/// with the handle's lock owner for a file.
#[derive(Clone, Copy, Debug, PartialEq, Eq)]
pub enum CloseRoute {
    ReleaseDir { ino: INodeNo, fh: FileHandle, flags: i32 },
    Release { ino: INodeNo, fh: FileHandle, flags: i32, lock_owner: Option<LockOwner> },
}

pub fn close_route(context: AdapterContext) -> (r: CloseRoute)
    ensures
        context.is_dir ==> r == (CloseRoute::ReleaseDir { ino: context.ino, fh: context.fh, flags: context.flags.spec_bits() as i32 }),
        !context.is_dir ==> r == (CloseRoute::Release { ino: context.ino, fh: context.fh, flags: context.flags.spec_bits() as i32,
            lock_owner: context.lock_owner }),
{
    let flags = context.flags.bits() as i32;
    if context.is_dir {
        CloseRoute::ReleaseDir { ino: context.ino, fh: context.fh, flags }
    } else {
        CloseRoute::Release { ino: context.ino, fh: context.fh, flags, lock_owner: context.lock_owner }
    }
}

/// Whether flushing a handle syncs a directory (`fsyncdir`) or a file (`fsync`).
pub fn flush_syncs_directory(context: &AdapterContext) -> (r: bool)
    ensures
        r == context.is_dir,
{
    context.is_dir
}

} // verus!
