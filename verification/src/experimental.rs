//! Plain values of the asynchronous filesystem surface: the caller of a
//! request and the answers to `lookup` and `getattr`.
use vstd::prelude::*;
use crate::request::Request;
use crate::types::{FileAttr, Generation, RequestId};
use core::time::Duration;

verus! {

/// Who issued a request, and its identifier.
#[derive(Clone, Copy, Debug)]
pub struct RequestContext {
    uid: u32,
    gid: u32,
    pid: u32,
    request_id: RequestId,
}

impl RequestContext {
    pub closed spec fn spec_uid(self) -> u32 {
        self.uid
    }

    pub closed spec fn spec_gid(self) -> u32 {
        self.gid
    }

    pub closed spec fn spec_pid(self) -> u32 {
        self.pid
    }

    pub closed spec fn spec_request_id(self) -> RequestId {
        self.request_id
    }

    /// The context of request `request_id` from user `uid`, group `gid`, process `pid`.
    pub fn new(uid: u32, gid: u32, pid: u32, request_id: RequestId) -> (r: RequestContext)
        ensures
            r.spec_uid() == uid,
            r.spec_gid() == gid,
            r.spec_pid() == pid,
            r.spec_request_id() == request_id,
    {
        RequestContext { uid, gid, pid, request_id }
    }

    pub fn user_id(&self) -> (r: u32)
        ensures
            r == self.spec_uid(),
    {
        self.uid
    }

    pub fn group_id(&self) -> (r: u32)
        ensures
            r == self.spec_gid(),
    {
        self.gid
    }

    pub fn process_id(&self) -> (r: u32)
        ensures
            r == self.spec_pid(),
    {
        self.pid
    }

    pub fn request_id(&self) -> (r: RequestId)
        ensures
            r == self.spec_request_id(),
    {
        self.request_id
    }

    /// The context of `req`: its user, group, process and identifier.
    pub fn from_request(req: &Request) -> (r: RequestContext)
        ensures
            r.spec_uid() == req.spec_uid(),
            r.spec_gid() == req.spec_gid(),
            r.spec_pid() == req.spec_pid(),
            r.spec_request_id() == RequestId(req.spec_unique()),
    {
        RequestContext::new(req.uid(), req.gid(), req.pid(), req.unique())
    }
}

impl<'a> From<&'a Request> for RequestContext {
    fn from(req: &'a Request) -> (r: RequestContext)
        ensures
            r.spec_uid() == req.spec_uid(),
            r.spec_gid() == req.spec_gid(),
            r.spec_pid() == req.spec_pid(),
            r.spec_request_id() == RequestId(req.spec_unique()),
    {
        RequestContext::from_request(req)
    }
}

impl<'a> vstd::std_specs::convert::FromSpecImpl<&'a Request> for RequestContext {
    open spec fn obeys_from_spec() -> bool {
        true
    }

    closed spec fn from_spec(req: &'a Request) -> RequestContext {
        RequestContext {
            uid: req.spec_uid(),
            gid: req.spec_gid(),
            pid: req.spec_pid(),
            request_id: RequestId(req.spec_unique()),
        }
    }
}

/// The answer to a `lookup`: the entry's attributes, how long they may be
/// cached, and the inode's generation.
#[derive(Debug)]
pub struct LookupResponse {
    pub ttl: Duration,
    pub attr: FileAttr,
    pub generation: Generation,
}

impl LookupResponse {
    pub fn new(ttl: Duration, attr: FileAttr, generation: Generation) -> (r: LookupResponse)
        ensures
            r.ttl == ttl,
            r.attr == attr,
            r.generation == generation,
    {
        LookupResponse { ttl, attr, generation }
    }
}

/// The answer to a `getattr`: the attributes and how long they may be cached.
#[derive(Debug)]
pub struct GetAttrResponse {
    pub ttl: Duration,
    pub attr: FileAttr,
}

impl GetAttrResponse {
    pub fn new(ttl: Duration, attr: FileAttr) -> (r: GetAttrResponse)
        ensures
            r.ttl == ttl,
            r.attr == attr,
    {
        GetAttrResponse { ttl, attr }
    }
}

} // verus!
