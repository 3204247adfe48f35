//! Requests handed to filesystem callbacks, their identifiers and the ids of
//! their callers.
use vstd::prelude::*;
use crate::types::RequestId;

verus! {

/// The uid and gid reported when the caller's identity cannot be read.
pub const INVALID_UID_GID: u32 = 0xffff_ffff;

/// The user, group and process of the caller of an operation.
#[derive(Clone, Copy, Debug, PartialEq, Eq, Structural)]
pub struct RequestIds {
    pub uid: u32,
    pub gid: u32,
    pub pid: u32,
}

impl RequestIds {
    /// Ids of process `pid` whose user and group are unknown.
    pub fn unavailable(pid: u32) -> (r: RequestIds)
        ensures
            r.uid == INVALID_UID_GID,
            r.gid == INVALID_UID_GID,
            r.pid == pid,
    {
        RequestIds { uid: INVALID_UID_GID, gid: INVALID_UID_GID, pid }
    }
}

impl Default for RequestIds {
    /// Unknown user and group of process 0.
    fn default() -> (r: RequestIds)
        ensures
            r == (RequestIds { uid: INVALID_UID_GID, gid: INVALID_UID_GID, pid: 0 }),
    {
        RequestIds::unavailable(0)
    }
}

/// A request as a filesystem callback sees it.
#[derive(Clone, Copy, Debug)]
pub struct Request {
    unique: u64,
    uid: u32,
    gid: u32,
    pid: u32,
}

impl Request {
    pub closed spec fn spec_unique(self) -> u64 {
        self.unique
    }

    pub closed spec fn spec_uid(self) -> u32 {
        self.uid
    }

    pub closed spec fn spec_gid(self) -> u32 {
        self.gid
    }

    pub closed spec fn spec_pid(self) -> u32 {
        self.pid
    }

    /// The request `unique` made by user `uid`, group `gid`, process `pid`.
    pub fn from_ids(unique: u64, uid: u32, gid: u32, pid: u32) -> (r: Request)
        ensures
            r.spec_unique() == unique,
            r.spec_uid() == uid,
            r.spec_gid() == gid,
            r.spec_pid() == pid,
    {
        Request { unique, uid, gid, pid }
    }

    /// The request identifier.
    pub fn unique(&self) -> (r: RequestId)
        ensures
            r == RequestId(self.spec_unique()),
    {
        RequestId(self.unique)
    }

    pub fn uid(&self) -> (r: u32)
        ensures
            r == self.spec_uid(),
    {
        self.uid
    }

    pub fn gid(&self) -> (r: u32)
        ensures
            r == self.spec_gid(),
    {
        self.gid
    }

    pub fn pid(&self) -> (r: u32)
        ensures
            r == self.spec_pid(),
    {
        self.pid
    }
}

/// The source of request identifiers: each call hands out the next number,
/// starting at 1 and wrapping around after `u64::MAX`.
#[derive(Debug)]
pub struct RequestUniqueCounter {
    next: u64,
}

impl RequestUniqueCounter {
    /// The number the next call hands out.
    pub closed spec fn spec_next(self) -> u64 {
        self.next
    }

    /// A counter whose first identifier is 1.
    pub fn new() -> (r: RequestUniqueCounter)
        ensures
            r.spec_next() == 1,
    {
        RequestUniqueCounter { next: 1 }
    }

    /// Hands out the current number and moves to the following one.
    pub fn next_request_unique(&mut self) -> (r: u64)
        ensures
            r == old(self).spec_next(),
            final(self).spec_next() == vstd::wrapping::u64_specs::wrapping_add(r, 1),
    {
        let r = self.next;
        self.next = self.next.wrapping_add(1);
        r
    }
}

/// Of two identifiers handed out one after the other, the second is the
/// first plus one, so the later one is larger, unless the first was the last
/// number a `u64` holds.
pub proof fn lemma_successive_uniques_increase(counter: RequestUniqueCounter)
    requires
        counter.spec_next() < u64::MAX,
    ensures
        vstd::wrapping::u64_specs::wrapping_add(counter.spec_next(), 1) == counter.spec_next() + 1,
        vstd::wrapping::u64_specs::wrapping_add(counter.spec_next(), 1) > counter.spec_next(),
{
}

/// A request from `ids`, numbered by `counter`.
pub fn request_from_ids(counter: &mut RequestUniqueCounter, ids: RequestIds) -> (r: Request)
    ensures
        r.spec_unique() == old(counter).spec_next(),
        final(counter).spec_next() == vstd::wrapping::u64_specs::wrapping_add(old(counter).spec_next(), 1),
        r.spec_uid() == ids.uid,
        r.spec_gid() == ids.gid,
        r.spec_pid() == ids.pid,
{
    let unique = counter.next_request_unique();
    Request::from_ids(unique, ids.uid, ids.gid, ids.pid)
}

/// The request that the mount itself issues: number 0, user, group and process 0.
pub fn request_kernel() -> (r: Request)
    ensures
        r.spec_unique() == 0,
        r.spec_uid() == 0,
        r.spec_gid() == 0,
        r.spec_pid() == 0,
{
    Request::from_ids(0, 0, 0, 0)
}

/// The FNV-1a offset basis.
pub const FNV_OFFSET_BASIS: u32 = 0x811c_9dc5;
/// The FNV-1a prime.
pub const FNV_PRIME: u32 = 0x0100_0193;

/// One FNV-1a step: fold `byte` into `hash`.
pub open spec fn fnv1a_step(hash: u32, byte: u8) -> u32 {
    vstd::wrapping::u32_specs::wrapping_mul(hash ^ (byte as u32), FNV_PRIME)
}

/// The 32-bit FNV-1a hash of `bytes`.
pub open spec fn fnv1a(bytes: Seq<u8>) -> u32
    decreases bytes.len(),
{
    if bytes.len() == 0 {
        FNV_OFFSET_BASIS
    } else {
        fnv1a_step(fnv1a(bytes.drop_last()), bytes.last())
    }
}

/// A hash of `value` that is the same in every process: 32-bit FNV-1a.
pub fn stable_u32(value: &[u8]) -> (r: u32)
    ensures
        r == fnv1a(value@),
{
    let mut hash: u32 = FNV_OFFSET_BASIS;
    let mut i: usize = 0;
    while i < value.len()
        invariant
            i <= value.len(),
            hash == fnv1a(value@.take(i as int)),
        decreases value.len() - i,
    {
        assert(value@.take(i as int) == value@.take(i as int + 1).drop_last());
        hash = hash ^ (value[i] as u32);
        hash = hash.wrapping_mul(FNV_PRIME);
        i = i + 1;
    }
    assert(value@.take(i as int) == value@);
    hash
}

/// The id that a security identifier's bytes stand for: `None` for an empty
/// identifier, else the stable hash of its bytes.
pub fn sid_to_id(sid: &[u8]) -> (r: Option<u32>)
    ensures
        sid@.len() == 0 ==> r is None,
        sid@.len() > 0 ==> r == Some(fnv1a(sid@)),
{
    if sid.len() == 0 {
        return None;
    }
    Some(stable_u32(sid))
}

/// The caller's ids from the bytes of its user and primary-group identifiers,
/// when both could be read and neither is empty.
pub fn token_request_ids(user_sid: Option<&[u8]>, group_sid: Option<&[u8]>, pid: u32) -> (r: Option<RequestIds>)
    ensures
        r is Some <==> (user_sid is Some && user_sid.unwrap()@.len() > 0 && group_sid is Some && group_sid.unwrap()@.len() > 0),
        r matches Some(ids) ==> ids.uid == fnv1a(user_sid.unwrap()@) && ids.gid == fnv1a(group_sid.unwrap()@)
            && ids.pid == pid,
{
    let user = match user_sid {
        Some(u) => u,
        None => return None,
    };
    let group = match group_sid {
        Some(g) => g,
        None => return None,
    };
    let uid = match sid_to_id(user) {
        Some(id) => id,
        None => return None,
    };
    let gid = match sid_to_id(group) {
        Some(id) => id,
        None => return None,
    };
    Some(RequestIds { uid, gid, pid })
}

} // verus!
