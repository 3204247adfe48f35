//! What replies carry: the payloads of successful replies, the entries of a
//! directory listing with the space they take, and batched forgets.
use vstd::prelude::*;
use crate::types::{FileAttr, FileHandle, FileType, Generation, INodeNo};
use core::time::Duration;
use vstd::string::StringSliceAdditionalSpecFns;

verus! {

/// The payload of a successful `entry` reply.
#[derive(Clone, Copy, Debug, PartialEq, Eq)]
pub struct ReplyEntryPayload {
    pub attr: FileAttr,
    pub ttl: Duration,
    pub generation: Generation,
}

/// The payload of a successful `attr` reply.
#[derive(Clone, Copy, Debug, PartialEq, Eq)]
pub struct ReplyAttrPayload {
    pub attr: FileAttr,
    pub ttl: Duration,
}

/// The payload of a successful `opened` reply: the handle and the open flags bits.
#[derive(Clone, Copy, Debug, PartialEq, Eq, Structural)]
pub struct ReplyOpenPayload {
    pub fh: FileHandle,
    pub flags: u32,
}

/// The payload of a successful `created` reply.
#[derive(Clone, Copy, Debug, PartialEq, Eq)]
pub struct ReplyCreatePayload {
    pub attr: FileAttr,
    pub ttl: Duration,
    pub generation: Generation,
    pub fh: FileHandle,
    pub flags: u32,
}

/// One entry of a `readdir` reply.
#[derive(Clone, Debug, PartialEq, Eq)]
pub struct DirectoryEntryPayload {
    pub ino: INodeNo,
    pub offset: u64,
    pub kind: FileType,
    pub name: String,
}

/// One entry of a `readdirplus` reply.
#[derive(Debug, PartialEq, Eq)]
pub struct DirectoryPlusEntryPayload {
    pub ino: INodeNo,
    pub offset: u64,
    pub name: String,
    pub ttl: Duration,
    pub attr: FileAttr,
    pub generation: Generation,
}

/// Bytes of a `readdir` entry before its name.
pub const FUSE_DIRENT_BASE_SIZE: usize = 24;
/// Bytes of a `readdirplus` entry before its name.
pub const FUSE_DIRENTPLUS_BASE_SIZE: usize = 144;

/// `size` rounded up to a multiple of 8.
pub open spec fn round_up_8(size: nat) -> nat {
    ((size + 7) / 8 * 8) as nat
}

/// Rounds `size` up to a multiple of 8.
pub fn align_8(size: usize) -> (r: usize)
    requires
        size + 7 <= usize::MAX,
    ensures
        r == round_up_8(size as nat),
{
    let s: usize = size + 7;
    let r: usize = s & !7usize;
    assert(r == s / 8 * 8) by (bit_vector)
        requires
            r == s & !7usize,
    ;
    r
}

/// The space a `readdir` entry with a name of `name_len` bytes takes.
pub open spec fn dirent_size(name_len: nat) -> nat {
    round_up_8(FUSE_DIRENT_BASE_SIZE as nat + name_len)
}

/// The space a `readdirplus` entry with a name of `name_len` bytes takes.
pub open spec fn direntplus_size(name_len: nat) -> nat {
    round_up_8(FUSE_DIRENTPLUS_BASE_SIZE as nat + name_len)
}

/// The largest name length whose entry size fits in a `usize`.
pub open spec fn name_len_fits(name_len: nat) -> bool {
    FUSE_DIRENTPLUS_BASE_SIZE + name_len + 7 <= usize::MAX
}

pub fn dirent_entry_size(name_len: usize) -> (r: usize)
    requires
        name_len_fits(name_len as nat),
    ensures
        r == dirent_size(name_len as nat),
{
    align_8(FUSE_DIRENT_BASE_SIZE + name_len)
}

pub fn direntplus_entry_size(name_len: usize) -> (r: usize)
    requires
        name_len_fits(name_len as nat),
    ensures
        r == direntplus_size(name_len as nat),
{
    align_8(FUSE_DIRENTPLUS_BASE_SIZE + name_len)
}

/// The sum of a sequence of sizes.
pub open spec fn total(sizes: Seq<nat>) -> nat
    decreases sizes.len(),
{
    if sizes.len() == 0 {
        0
    } else {
        total(sizes.drop_last()) + sizes.last()
    }
}

/// The entries of a directory reply, filled up to a byte budget. Once an
/// entry does not fit, or the reply fails, the buffer is full and takes no
/// more entries.
pub struct DirectoryBuffer<E> {
    entries: Vec<E>,
    full: bool,
    max_size: usize,
    used_size: usize,
    sizes: Ghost<Seq<nat>>,
}

impl<E> DirectoryBuffer<E> {
    /// The entries taken so far, in order.
    pub closed spec fn spec_entries(&self) -> Seq<E> {
        self.entries@
    }

    /// The space each taken entry takes, in order.
    pub closed spec fn spec_sizes(&self) -> Seq<nat> {
        self.sizes@
    }

    pub closed spec fn spec_full(&self) -> bool {
        self.full
    }

    pub closed spec fn spec_max_size(&self) -> usize {
        self.max_size
    }

    pub closed spec fn spec_used_size(&self) -> usize {
        self.used_size
    }

    /// The space used is the sum of the entries' sizes and within the budget.
    pub closed spec fn wf(&self) -> bool {
        &&& self.entries@.len() == self.sizes@.len()
        &&& self.used_size as nat == total(self.sizes@)
        &&& self.used_size <= self.max_size
    }

    /// An empty buffer with a budget of `max_size` bytes.
    pub fn new(max_size: usize) -> (r: DirectoryBuffer<E>)
        ensures
            r.wf(),
            r.spec_entries() == Seq::<E>::empty(),
            r.spec_sizes() == Seq::<nat>::empty(),
            !r.spec_full(),
            r.spec_max_size() == max_size,
            r.spec_used_size() == 0,
    {
        DirectoryBuffer { entries: Vec::new(), full: false, max_size, used_size: 0, sizes: Ghost(Seq::empty()) }
    }

    /// An empty buffer without a budget.
    pub fn unbounded() -> (r: DirectoryBuffer<E>)
        ensures
            r.wf(),
            r.spec_entries() == Seq::<E>::empty(),
            !r.spec_full(),
            r.spec_max_size() == usize::MAX,
            r.spec_used_size() == 0,
    {
        DirectoryBuffer::new(usize::MAX)
    }

    pub fn entries(&self) -> (r: &Vec<E>)
        ensures
            r@ == self.spec_entries(),
    {
        &self.entries
    }

    pub fn is_full(&self) -> (r: bool)
        ensures
            r == self.spec_full(),
    {
        self.full
    }

    pub fn used_size(&self) -> (r: usize)
        ensures
            r == self.spec_used_size(),
    {
        self.used_size
    }

    pub fn max_size(&self) -> (r: usize)
        ensures
            r == self.spec_max_size(),
    {
        self.max_size
    }

    /// Takes `entry`, which needs `size` bytes, unless the buffer is full or
    /// the entry would go over the budget; in the latter case the buffer
    /// becomes full. Returns whether the buffer was or became full.
    pub fn push_sized(&mut self, entry: E, size: usize) -> (r: bool)
        requires
            old(self).wf(),
        ensures
            final(self).wf(),
            final(self).spec_used_size() <= final(self).spec_max_size(),
            final(self).spec_used_size() == total(final(self).spec_sizes()),
            final(self).spec_max_size() == old(self).spec_max_size(),
            r == final(self).spec_full(),
            old(self).spec_full() ==> r && *final(self) == *old(self),
            !old(self).spec_full() && old(self).spec_used_size() + size > old(self).spec_max_size() ==> {
                &&& r
                &&& final(self).spec_full()
                &&& final(self).spec_entries() == old(self).spec_entries()
                &&& final(self).spec_sizes() == old(self).spec_sizes()
                &&& final(self).spec_used_size() == old(self).spec_used_size()
            },
            !old(self).spec_full() && old(self).spec_used_size() + size <= old(self).spec_max_size() ==> {
                &&& !r
                &&& !final(self).spec_full()
                &&& final(self).spec_entries() == old(self).spec_entries().push(entry)
                &&& final(self).spec_sizes() == old(self).spec_sizes().push(size as nat)
                &&& final(self).spec_used_size() == old(self).spec_used_size() + size
            },
    {
        if self.full {
            return true;
        }
        if size > self.max_size || self.used_size > self.max_size - size {
            self.full = true;
            return true;
        }
        self.entries.push(entry);
        proof {
            let old_sizes = self.sizes@;
            self.sizes = Ghost(old_sizes.push(size as nat));
            assert(self.sizes@.drop_last() == old_sizes);
        }
        self.used_size = self.used_size + size;
        false
    }

    /// Marks the buffer full, as a failed reply does.
    pub fn mark_full(&mut self)
        requires
            old(self).wf(),
        ensures
            final(self).wf(),
            final(self).spec_full(),
            final(self).spec_entries() == old(self).spec_entries(),
            final(self).spec_sizes() == old(self).spec_sizes(),
            final(self).spec_used_size() == old(self).spec_used_size(),
            final(self).spec_max_size() == old(self).spec_max_size(),
    {
        self.full = true;
    }
}

/// Adds a `readdir` entry named `name`; returns whether the listing is full
/// (in which case the entry was not taken).
pub fn add_directory_entry(
    buffer: &mut DirectoryBuffer<DirectoryEntryPayload>,
    ino: INodeNo,
    offset: u64,
    kind: FileType,
    name: &str,
) -> (r: bool)
    requires
        old(buffer).wf(),
        name_len_fits(name.spec_bytes().len()),
    ensures
        final(buffer).wf(),
        final(buffer).spec_used_size() <= final(buffer).spec_max_size(),
        final(buffer).spec_max_size() == old(buffer).spec_max_size(),
        r == final(buffer).spec_full(),
        old(buffer).spec_full() ==> r && *final(buffer) == *old(buffer),
        !old(buffer).spec_full() && old(buffer).spec_used_size() + dirent_size(name.spec_bytes().len()) > old(buffer).spec_max_size() ==> {
            &&& r
            &&& final(buffer).spec_full()
            &&& final(buffer).spec_entries() == old(buffer).spec_entries()
            &&& final(buffer).spec_used_size() == old(buffer).spec_used_size()
        },
        !old(buffer).spec_full() && old(buffer).spec_used_size() + dirent_size(name.spec_bytes().len()) <= old(buffer).spec_max_size() ==> {
            &&& !r
            &&& final(buffer).spec_entries().len() == old(buffer).spec_entries().len() + 1
            &&& final(buffer).spec_entries().drop_last() == old(buffer).spec_entries()
            &&& final(buffer).spec_entries().last().ino == ino
            &&& final(buffer).spec_entries().last().offset == offset
            &&& final(buffer).spec_entries().last().kind == kind
            &&& final(buffer).spec_entries().last().name@ == name@
            &&& final(buffer).spec_used_size() == old(buffer).spec_used_size() + dirent_size(name.spec_bytes().len())
        },
{
    if buffer.is_full() {
        return true;
    }
    let size = dirent_entry_size(name.len());
    let entry = DirectoryEntryPayload { ino, offset, kind, name: name.to_owned() };
    let r = buffer.push_sized(entry, size);
    proof {
        if !r {
            assert(final(buffer).spec_entries().drop_last() == old(buffer).spec_entries());
        }
    }
    r
}

/// Adds a `readdirplus` entry named `name`; returns whether the listing is
/// full (in which case the entry was not taken).
pub fn add_directory_plus_entry(
    buffer: &mut DirectoryBuffer<DirectoryPlusEntryPayload>,
    ino: INodeNo,
    offset: u64,
    name: &str,
    ttl: Duration,
    attr: FileAttr,
    generation: Generation,
) -> (r: bool)
    requires
        old(buffer).wf(),
        name_len_fits(name.spec_bytes().len()),
    ensures
        final(buffer).wf(),
        final(buffer).spec_used_size() <= final(buffer).spec_max_size(),
        final(buffer).spec_max_size() == old(buffer).spec_max_size(),
        r == final(buffer).spec_full(),
        old(buffer).spec_full() ==> r && *final(buffer) == *old(buffer),
        !old(buffer).spec_full() && old(buffer).spec_used_size() + direntplus_size(name.spec_bytes().len()) > old(buffer).spec_max_size() ==> {
            &&& r
            &&& final(buffer).spec_full()
            &&& final(buffer).spec_entries() == old(buffer).spec_entries()
            &&& final(buffer).spec_used_size() == old(buffer).spec_used_size()
        },
        !old(buffer).spec_full() && old(buffer).spec_used_size() + direntplus_size(name.spec_bytes().len()) <= old(buffer).spec_max_size() ==> {
            &&& !r
            &&& final(buffer).spec_entries().len() == old(buffer).spec_entries().len() + 1
            &&& final(buffer).spec_entries().drop_last() == old(buffer).spec_entries()
            &&& final(buffer).spec_entries().last().ino == ino
            &&& final(buffer).spec_entries().last().offset == offset
            &&& final(buffer).spec_entries().last().name@ == name@
            &&& final(buffer).spec_entries().last().ttl == ttl
            &&& final(buffer).spec_entries().last().attr == attr
            &&& final(buffer).spec_entries().last().generation == generation
            &&& final(buffer).spec_used_size() == old(buffer).spec_used_size() + direntplus_size(name.spec_bytes().len())
        },
{
    if buffer.is_full() {
        return true;
    }
    let size = direntplus_entry_size(name.len());
    let entry = DirectoryPlusEntryPayload { ino, offset, name: name.to_owned(), ttl, attr, generation };
    let r = buffer.push_sized(entry, size);
    proof {
        if !r {
            assert(final(buffer).spec_entries().drop_last() == old(buffer).spec_entries());
        }
    }
    r
}

/// The offset to continue a listing from: the last entry's, or `current`
/// for an empty listing.
pub fn next_dir_offset_from_entries(current: i64, entries: &[DirectoryEntryPayload]) -> (r: i64)
    ensures
        entries@.len() == 0 ==> r == current,
        entries@.len() > 0 ==> r == entries@.last().offset as i64,
{
    if entries.len() == 0 {
        current
    } else {
        entries[entries.len() - 1].offset as i64
    }
}

/// The offset to continue a `readdirplus` listing from.
pub fn next_dirplus_offset_from_entries(current: i64, entries: &[DirectoryPlusEntryPayload]) -> (r: i64)
    ensures
        entries@.len() == 0 ==> r == current,
        entries@.len() > 0 ==> r == entries@.last().offset as i64,
{
    if entries.len() == 0 {
        current
    } else {
        entries[entries.len() - 1].offset as i64
    }
}

/// One entry of a batched forget: an inode and how many lookups of it to drop.
#[derive(Debug)]
pub struct ForgetOne {
    nodeid: u64,
    nlookup: u64,
}

impl ForgetOne {
    pub closed spec fn spec_nodeid(&self) -> u64 {
        self.nodeid
    }

    pub closed spec fn spec_nlookup(&self) -> u64 {
        self.nlookup
    }

    pub fn new(nodeid: u64, nlookup: u64) -> (r: ForgetOne)
        ensures
            r.spec_nodeid() == nodeid,
            r.spec_nlookup() == nlookup,
    {
        ForgetOne { nodeid, nlookup }
    }

    pub fn nodeid(&self) -> (r: INodeNo)
        ensures
            r == INodeNo(self.spec_nodeid()),
    {
        INodeNo(self.nodeid)
    }

    pub fn nlookup(&self) -> (r: u64)
        ensures
            r == self.spec_nlookup(),
    {
        self.nlookup
    }
}

/// A kernel passthrough backing file. This facade never registers one: the
/// only value that exists is the marker that passthrough is unsupported.
#[derive(Debug)]
pub struct BackingId {
    token: (),
}

impl BackingId {
    pub fn unsupported_for_windows() -> (r: BackingId) {
        BackingId { token: () }
    }
}

} // verus!
