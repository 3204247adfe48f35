//! Kernel notifications: their payloads and the frame they are sent in.
//!
//! A frame is a 16-byte header (the frame length, the notification code, and
//! eight zero bytes, all little-endian) followed by the payload.
use vstd::prelude::*;
use vstd::bytes::{spec_u32_to_le_bytes, spec_u64_to_le_bytes};
use vstd::string::StringSliceAdditionalSpecFns;
use crate::bytes::{push_bytes, push_i64_le, push_u32_le, push_u64_le, spec_i64_to_le_bytes};
use crate::types::INodeNo;

verus! {

/// A handle to a pending `poll()` request.
#[derive(Copy, Clone, Debug, PartialEq, Eq, Structural)]
pub struct PollHandle(pub u64);

/// The kinds of notification.
#[derive(Clone, Copy, Debug, PartialEq, Eq, Structural)]
pub enum NotifyCode {
    Poll,
    InvalEntry,
    InvalInode,
    Store,
    Delete,
}

pub const FUSE_POLL: u32 = 1;
pub const FUSE_NOTIFY_INVAL_INODE: u32 = 2;
pub const FUSE_NOTIFY_INVAL_ENTRY: u32 = 3;
pub const FUSE_NOTIFY_STORE: u32 = 4;
pub const FUSE_NOTIFY_DELETE: u32 = 6;

/// Bytes of the frame header.
pub const NOTIFY_HEADER_LEN: u32 = 16;

/// The wire number of a notification kind.
pub open spec fn code_number(code: NotifyCode) -> u32 {
    match code {
        NotifyCode::Poll => FUSE_POLL,
        NotifyCode::InvalEntry => FUSE_NOTIFY_INVAL_ENTRY,
        NotifyCode::InvalInode => FUSE_NOTIFY_INVAL_INODE,
        NotifyCode::Store => FUSE_NOTIFY_STORE,
        NotifyCode::Delete => FUSE_NOTIFY_DELETE,
    }
}

pub fn notify_code_number(code: NotifyCode) -> (r: u32)
    ensures
        r == code_number(code),
{
    match code {
        NotifyCode::Poll => FUSE_POLL,
        NotifyCode::InvalEntry => FUSE_NOTIFY_INVAL_ENTRY,
        NotifyCode::InvalInode => FUSE_NOTIFY_INVAL_INODE,
        NotifyCode::Store => FUSE_NOTIFY_STORE,
        NotifyCode::Delete => FUSE_NOTIFY_DELETE,
    }
}

/// A length did not fit in the 32 bits the wire gives it.
#[derive(Clone, Copy, Debug, PartialEq, Eq, Structural)]
pub struct NotificationTooLarge;

/// The header of a frame around a payload of `payload_len` bytes.
pub open spec fn header_bytes(code: NotifyCode, payload_len: nat) -> Seq<u8> {
    spec_u32_to_le_bytes((payload_len + NOTIFY_HEADER_LEN) as u32) + spec_u32_to_le_bytes(code_number(code))
        + seq![0u8, 0u8, 0u8, 0u8, 0u8, 0u8, 0u8, 0u8]
}

/// Payload lengths a frame can carry without its length overflowing: up to
/// `u32::MAX - 16` bytes. Longer payloads up to `u32::MAX` bytes would make
/// the length computation overflow, and are left out.
pub open spec fn frameable_len(len: nat) -> bool {
    len <= u32::MAX - NOTIFY_HEADER_LEN || len > u32::MAX
}

/// A notification payload, not yet framed.
#[derive(Debug)]
pub struct Notification {
    payload: Vec<u8>,
}

impl Notification {
    pub closed spec fn spec_payload(&self) -> Seq<u8> {
        self.payload@
    }

    pub fn new(payload: Vec<u8>) -> (r: Notification)
        ensures
            r.spec_payload() == payload@,
    {
        Notification { payload }
    }

    pub fn payload(&self) -> (r: &[u8])
        ensures
            r@ == self.spec_payload(),
    {
        self.payload.as_slice()
    }

    /// The frame header for sending this notification as `code`; refused when
    /// the payload is longer than `u32::MAX` bytes.
    pub fn header(&self, code: NotifyCode) -> (r: Result<Vec<u8>, NotificationTooLarge>)
        requires
            frameable_len(self.spec_payload().len()),
        ensures
            self.spec_payload().len() > u32::MAX <==> r is Err,
            r matches Ok(h) ==> h@ == header_bytes(code, self.spec_payload().len()),
    {
        if self.payload.len() > 0xffff_ffffusize {
            return Err(NotificationTooLarge);
        }
        let payload_len = self.payload.len() as u32;
        let total_len: u32 = payload_len + NOTIFY_HEADER_LEN;
        let mut header: Vec<u8> = Vec::new();
        push_u32_le(&mut header, total_len);
        push_u32_le(&mut header, notify_code_number(code));
        push_u64_le(&mut header, 0);
        proof {
            vstd::bytes::spec_u64_to_le_bytes_to_open(0);
            assert(spec_u64_to_le_bytes(0) == seq![0u8, 0u8, 0u8, 0u8, 0u8, 0u8, 0u8, 0u8]) by {
                assert(0u64 & 0xff == 0 && (0u64 >> 8) & 0xff == 0 && (0u64 >> 16) & 0xff == 0
                    && (0u64 >> 24) & 0xff == 0 && (0u64 >> 32) & 0xff == 0 && (0u64 >> 40) & 0xff == 0
                    && (0u64 >> 48) & 0xff == 0 && (0u64 >> 56) & 0xff == 0) by (bit_vector);
            }
        }
        Ok(header)
    }

    /// The whole frame: header, then payload.
    pub fn frame(&self, code: NotifyCode) -> (r: Result<Vec<u8>, NotificationTooLarge>)
        requires
            frameable_len(self.spec_payload().len()),
        ensures
            self.spec_payload().len() > u32::MAX <==> r is Err,
            r matches Ok(f) ==> f@ == header_bytes(code, self.spec_payload().len()) + self.spec_payload(),
    {
        let mut out = match self.header(code) {
            Ok(h) => h,
            Err(e) => return Err(e),
        };
        push_bytes(&mut out, self.payload.as_slice());
        Ok(out)
    }
}

/// The payload of a poll notification: the handle.
pub fn poll_payload(kh: PollHandle) -> (r: Vec<u8>)
    ensures
        r@ == spec_u64_to_le_bytes(kh.0),
{
    let mut payload: Vec<u8> = Vec::new();
    push_u64_le(&mut payload, kh.0);
    payload
}

/// The payload of an inode invalidation: inode, offset, length.
pub fn inval_inode_payload(ino: INodeNo, off: i64, len: i64) -> (r: Vec<u8>)
    ensures
        r@ == spec_u64_to_le_bytes(ino.0) + spec_i64_to_le_bytes(off) + spec_i64_to_le_bytes(len),
{
    let mut payload: Vec<u8> = Vec::new();
    push_u64_le(&mut payload, ino.0);
    push_i64_le(&mut payload, off);
    push_i64_le(&mut payload, len);
    payload
}

/// The payload of an entry invalidation: parent, name length, padding, the
/// name and a terminating zero; refused for a name longer than `u32::MAX` bytes.
pub fn inval_entry_payload(parent: INodeNo, name: &str) -> (r: Result<Vec<u8>, NotificationTooLarge>)
    ensures
        name.spec_bytes().len() > u32::MAX <==> r is Err,
        r matches Ok(p) ==> p@ == spec_u64_to_le_bytes(parent.0) + spec_u32_to_le_bytes(name.spec_bytes().len() as u32)
            + spec_u32_to_le_bytes(0) + name.spec_bytes() + seq![0u8],
{
    let bytes = name.as_bytes();
    if bytes.len() > 0xffff_ffffusize {
        return Err(NotificationTooLarge);
    }
    let namelen = bytes.len() as u32;
    let mut payload: Vec<u8> = Vec::new();
    push_u64_le(&mut payload, parent.0);
    push_u32_le(&mut payload, namelen);
    push_u32_le(&mut payload, 0);
    push_bytes(&mut payload, bytes);
    payload.push(0);
    Ok(payload)
}

/// The payload of a store: inode, offset, data length, padding, the data;
/// refused for data longer than `u32::MAX` bytes.
pub fn store_payload(ino: INodeNo, offset: u64, data: &[u8]) -> (r: Result<Vec<u8>, NotificationTooLarge>)
    ensures
        data@.len() > u32::MAX <==> r is Err,
        r matches Ok(p) ==> p@ == spec_u64_to_le_bytes(ino.0) + spec_u64_to_le_bytes(offset)
            + spec_u32_to_le_bytes(data@.len() as u32) + spec_u32_to_le_bytes(0) + data@,
{
    if data.len() > 0xffff_ffffusize {
        return Err(NotificationTooLarge);
    }
    let size = data.len() as u32;
    let mut payload: Vec<u8> = Vec::new();
    push_u64_le(&mut payload, ino.0);
    push_u64_le(&mut payload, offset);
    push_u32_le(&mut payload, size);
    push_u32_le(&mut payload, 0);
    push_bytes(&mut payload, data);
    Ok(payload)
}

/// The payload of a delete: parent, child, name length, padding, the name and
/// a terminating zero; refused for a name longer than `u32::MAX` bytes.
pub fn delete_payload(parent: INodeNo, child: INodeNo, name: &str) -> (r: Result<Vec<u8>, NotificationTooLarge>)
    ensures
        name.spec_bytes().len() > u32::MAX <==> r is Err,
        r matches Ok(p) ==> p@ == spec_u64_to_le_bytes(parent.0) + spec_u64_to_le_bytes(child.0)
            + spec_u32_to_le_bytes(name.spec_bytes().len() as u32) + spec_u32_to_le_bytes(0) + name.spec_bytes() + seq![0u8],
{
    let bytes = name.as_bytes();
    if bytes.len() > 0xffff_ffffusize {
        return Err(NotificationTooLarge);
    }
    let namelen = bytes.len() as u32;
    let mut payload: Vec<u8> = Vec::new();
    push_u64_le(&mut payload, parent.0);
    push_u64_le(&mut payload, child.0);
    push_u32_le(&mut payload, namelen);
    push_u32_le(&mut payload, 0);
    push_bytes(&mut payload, bytes);
    payload.push(0);
    Ok(payload)
}

/// A frame is its header then its payload; the header is 16 bytes, its first
/// four bytes read back as the length of the whole frame, and the next four
/// as the notification's code.
pub proof fn lemma_frame_layout(code: NotifyCode, payload: Seq<u8>)
    requires
        payload.len() <= u32::MAX - NOTIFY_HEADER_LEN,
    ensures
        header_bytes(code, payload.len()).len() == NOTIFY_HEADER_LEN,
        vstd::bytes::spec_u32_from_le_bytes((header_bytes(code, payload.len()) + payload).subrange(0, 4))
            == (header_bytes(code, payload.len()) + payload).len(),
        vstd::bytes::spec_u32_from_le_bytes((header_bytes(code, payload.len()) + payload).subrange(4, 8))
            == code_number(code),
        (header_bytes(code, payload.len()) + payload).subrange(16, 16 + payload.len() as int) == payload,
{
    vstd::bytes::lemma_auto_spec_u32_to_from_le_bytes();
    let len32 = (payload.len() + NOTIFY_HEADER_LEN) as u32;
    let h = header_bytes(code, payload.len());
    let f = h + payload;
    assert(spec_u32_to_le_bytes(len32).len() == 4);
    assert(spec_u32_to_le_bytes(code_number(code)).len() == 4);
    assert(f.subrange(0, 4) == spec_u32_to_le_bytes(len32));
    assert(f.subrange(4, 8) == spec_u32_to_le_bytes(code_number(code)));
    assert(f.subrange(16, 16 + payload.len() as int) == payload);
}

} // verus!
