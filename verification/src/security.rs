//! Security descriptors synthesised from POSIX ownership and permissions, and
//! the mapping between extended attributes and alternate data streams.
use vstd::prelude::*;
use vstd::bytes::{spec_u16_to_le_bytes, spec_u32_to_le_bytes};
use crate::bytes::{push_bytes, push_u16_le, push_u32_le};
use crate::helpers::{STATUS_INVALID_PARAMETER, checked_dokan_len};
use crate::text::{has_prefix, push_char, push_str, str_eq, strip_prefix};
use vstd::utf8::{decode_utf8, valid_utf8};
use crate::types::FileAttr;

verus! {

pub const ACCESS_ALLOWED_ACE_TYPE: u8 = 0;
pub const ACL_REVISION: u8 = 2;
pub const SE_DACL_PRESENT: u16 = 0x0004;
pub const SE_SELF_RELATIVE: u16 = 0x8000;
pub const FILE_GENERIC_READ: u32 = 0x0012_0089;
pub const FILE_GENERIC_WRITE: u32 = 0x0012_0116;
pub const FILE_GENERIC_EXECUTE: u32 = 0x0012_00a0;

/// The extended attribute that holds a stored security descriptor.
pub const SECURITY_DESCRIPTOR_XATTR: &'static str = "user.dokan.security_descriptor";

/// The identifier of Unix user (`kind` 1) or group (`kind` 2) `id`:
/// revision 1, two sub-authorities, authority 22, then `kind` and `id`.
pub open spec fn unix_sid_bytes(kind: u32, id: u32) -> Seq<u8> {
    seq![1u8, 2u8, 0u8, 0u8, 0u8, 0u8, 0u8, 22u8] + spec_u32_to_le_bytes(kind) + spec_u32_to_le_bytes(id)
}

/// The identifier of everyone: revision 1, one sub-authority 0, authority 1.
pub open spec fn world_sid_bytes() -> Seq<u8> {
    seq![1u8, 1u8, 0u8, 0u8, 0u8, 0u8, 0u8, 1u8] + spec_u32_to_le_bytes(0)
}

pub fn unix_sid(kind: u32, id: u32) -> (r: Vec<u8>)
    ensures
        r@ == unix_sid_bytes(kind, id),
{
    let mut sid: Vec<u8> = vec![1, 2, 0, 0, 0, 0, 0, 22];
    assert(sid@ == seq![1u8, 2u8, 0u8, 0u8, 0u8, 0u8, 0u8, 22u8]);
    push_u32_le(&mut sid, kind);
    push_u32_le(&mut sid, id);
    sid
}

pub fn world_sid() -> (r: Vec<u8>)
    ensures
        r@ == world_sid_bytes(),
{
    let mut sid: Vec<u8> = vec![1, 1, 0, 0, 0, 0, 0, 1];
    assert(sid@ == seq![1u8, 1u8, 0u8, 0u8, 0u8, 0u8, 0u8, 1u8]);
    push_u32_le(&mut sid, 0);
    sid
}

/// The Windows access that the three permission bits of `perm` at `shift`
/// grant: read, write and execute map to the generic file rights.
pub open spec fn perm_access(perm: u16, shift: u16) -> u32 {
    let bits = (perm >> shift) & 7u16;
    (if bits & 4u16 != 0 { FILE_GENERIC_READ } else { 0u32 })
        | (if bits & 2u16 != 0 { FILE_GENERIC_WRITE } else { 0u32 })
        | (if bits & 1u16 != 0 { FILE_GENERIC_EXECUTE } else { 0u32 })
}

pub fn perm_to_file_access(perm: u16, shift: u16) -> (r: u32)
    requires
        shift < 16,
    ensures
        r == perm_access(perm, shift),
{
    let bits = (perm >> shift) & 7u16;
    let read = if bits & 4u16 != 0 { FILE_GENERIC_READ } else { 0u32 };
    let write = if bits & 2u16 != 0 { FILE_GENERIC_WRITE } else { 0u32 };
    let execute = if bits & 1u16 != 0 { FILE_GENERIC_EXECUTE } else { 0u32 };
    read | write | execute
}

/// An access-allowed entry granting `access` to `sid`; nothing for no access.
pub open spec fn allow_ace_bytes(access: u32, sid: Seq<u8>) -> Seq<u8> {
    if access == 0 {
        Seq::empty()
    } else {
        seq![ACCESS_ALLOWED_ACE_TYPE, 0u8] + spec_u16_to_le_bytes((8 + sid.len()) as u16)
            + spec_u32_to_le_bytes(access) + sid
    }
}

/// Appends the entry granting `access` to `sid`, unless `access` is empty;
/// returns whether it appended one.
pub fn push_allow_ace(out: &mut Vec<u8>, access: u32, sid: &[u8]) -> (r: bool)
    requires
        sid@.len() + 8 <= u16::MAX,
    ensures
        r == (access != 0),
        final(out)@ == old(out)@ + allow_ace_bytes(access, sid@),
{
    if access == 0 {
        assert(old(out)@ + Seq::<u8>::empty() == old(out)@);
        return false;
    }
    let ghost start = out@;
    out.push(ACCESS_ALLOWED_ACE_TYPE);
    out.push(0);
    push_u16_le(out, (8 + sid.len()) as u16);
    push_u32_le(out, access);
    push_bytes(out, sid);
    assert(out@ == start + allow_ace_bytes(access, sid@));
    true
}

/// How many of the three entries grant anything.
pub open spec fn ace_count(owner: u32, group: u32, other: u32) -> nat {
    (if owner != 0 { 1nat } else { 0nat }) + (if group != 0 { 1nat } else { 0nat }) + (if other != 0 { 1nat } else { 0nat })
}

/// The entries of the descriptor's access list: owner, group, everyone.
pub open spec fn descriptor_aces(attr: FileAttr) -> Seq<u8> {
    allow_ace_bytes(perm_access(attr.perm, 6), unix_sid_bytes(1, attr.uid))
        + allow_ace_bytes(perm_access(attr.perm, 3), unix_sid_bytes(2, attr.gid))
        + allow_ace_bytes(perm_access(attr.perm, 0), world_sid_bytes())
}

/// Where the owner identifier starts.
pub open spec fn owner_offset() -> nat { 20 }
/// Where the group identifier starts.
pub open spec fn group_offset() -> nat { 36 }
/// Where the access list starts.
pub open spec fn dacl_offset() -> nat { 52 }

/// The self-relative descriptor for `attr`: the header (revision 1, control
/// self-relative with an access list, then the owner, group, no system list,
/// and access list offsets), the owner and group identifiers, and the access
/// list (revision 2, its length, entry count and padding, then its entries).
pub open spec fn descriptor_bytes(attr: FileAttr) -> Seq<u8> {
    let aces = descriptor_aces(attr);
    let count = ace_count(perm_access(attr.perm, 6), perm_access(attr.perm, 3), perm_access(attr.perm, 0));
    seq![1u8, 0u8] + spec_u16_to_le_bytes(SE_SELF_RELATIVE | SE_DACL_PRESENT)
        + spec_u32_to_le_bytes(owner_offset() as u32) + spec_u32_to_le_bytes(group_offset() as u32)
        + spec_u32_to_le_bytes(0) + spec_u32_to_le_bytes(dacl_offset() as u32)
        + unix_sid_bytes(1, attr.uid) + unix_sid_bytes(2, attr.gid)
        + seq![ACL_REVISION, 0u8] + spec_u16_to_le_bytes((8 + aces.len()) as u16)
        + spec_u16_to_le_bytes(count as u16) + spec_u16_to_le_bytes(0) + aces
}

/// The security descriptor that stands for the owner, group and permission
/// bits of `attr`.
pub fn synthesized_security_descriptor(attr: FileAttr) -> (r: Vec<u8>)
    ensures
        r@ == descriptor_bytes(attr),
{
    proof {
        vstd::bytes::lemma_auto_spec_u32_to_from_le_bytes();
        vstd::bytes::lemma_auto_spec_u16_to_from_le_bytes();
    }
    let owner_sid = unix_sid(1, attr.uid);
    let group_sid = unix_sid(2, attr.gid);
    let world = world_sid();

    let mut aces: Vec<u8> = Vec::new();
    let owner_access = perm_to_file_access(attr.perm, 6);
    let group_access = perm_to_file_access(attr.perm, 3);
    let other_access = perm_to_file_access(attr.perm, 0);
    let a1 = push_allow_ace(&mut aces, owner_access, owner_sid.as_slice());
    let a2 = push_allow_ace(&mut aces, group_access, group_sid.as_slice());
    let a3 = push_allow_ace(&mut aces, other_access, world.as_slice());
    let mut ace_count: u16 = 0;
    if a1 {
        ace_count = ace_count + 1;
    }
    if a2 {
        ace_count = ace_count + 1;
    }
    if a3 {
        ace_count = ace_count + 1;
    }
    assert(aces@ == Seq::<u8>::empty() + descriptor_aces(attr));
    assert(aces@.len() <= 3 * 24);

    let descriptor_len: usize = 20;
    let owner_off: usize = descriptor_len;
    let group_off: usize = owner_off + owner_sid.len();
    let dacl_off: usize = group_off + group_sid.len();
    let acl_len: usize = 8 + aces.len();

    let mut descriptor: Vec<u8> = Vec::new();
    descriptor.push(1);
    descriptor.push(0);
    push_u16_le(&mut descriptor, SE_SELF_RELATIVE | SE_DACL_PRESENT);
    push_u32_le(&mut descriptor, owner_off as u32);
    push_u32_le(&mut descriptor, group_off as u32);
    push_u32_le(&mut descriptor, 0);
    push_u32_le(&mut descriptor, dacl_off as u32);
    push_bytes(&mut descriptor, owner_sid.as_slice());
    push_bytes(&mut descriptor, group_sid.as_slice());
    descriptor.push(ACL_REVISION);
    descriptor.push(0);
    push_u16_le(&mut descriptor, acl_len as u16);
    push_u16_le(&mut descriptor, ace_count);
    push_u16_le(&mut descriptor, 0);
    push_bytes(&mut descriptor, aces.as_slice());
    assert(descriptor@ =~= descriptor_bytes(attr));
    descriptor
}

/// The descriptor names the owner and group of `attr` at the offsets its
/// header gives, and its access list runs to the end.
pub proof fn lemma_descriptor_layout(attr: FileAttr)
    ensures
        descriptor_bytes(attr).subrange(owner_offset() as int, group_offset() as int) == unix_sid_bytes(1, attr.uid),
        descriptor_bytes(attr).subrange(group_offset() as int, dacl_offset() as int) == unix_sid_bytes(2, attr.gid),
        descriptor_bytes(attr).len() == dacl_offset() + 8 + descriptor_aces(attr).len(),
        vstd::bytes::spec_u32_from_le_bytes(descriptor_bytes(attr).subrange(4, 8)) == owner_offset(),
        vstd::bytes::spec_u32_from_le_bytes(descriptor_bytes(attr).subrange(8, 12)) == group_offset(),
        vstd::bytes::spec_u32_from_le_bytes(descriptor_bytes(attr).subrange(16, 20)) == dacl_offset(),
{
    vstd::bytes::lemma_auto_spec_u32_to_from_le_bytes();
    vstd::bytes::lemma_auto_spec_u16_to_from_le_bytes();
    let d = descriptor_bytes(attr);
    assert(d.subrange(owner_offset() as int, group_offset() as int) =~= unix_sid_bytes(1, attr.uid));
    assert(d.subrange(group_offset() as int, dacl_offset() as int) =~= unix_sid_bytes(2, attr.gid));
    assert(d.subrange(4, 8) =~= spec_u32_to_le_bytes(owner_offset() as u32));
    assert(d.subrange(8, 12) =~= spec_u32_to_le_bytes(group_offset() as u32));
    assert(d.subrange(16, 20) =~= spec_u32_to_le_bytes(dacl_offset() as u32));
}

/// The length reported for an extended attribute: the filesystem's size
/// hint when it gave one, else the data's length, which must fit in 32 bits.
pub fn xattr_reported_len(data_len: usize, size_hint: Option<u32>) -> (r: Result<u32, i32>)
    ensures
        size_hint matches Some(h) ==> r == Ok::<u32, i32>(h),
        size_hint is None && data_len <= u32::MAX ==> r == Ok::<u32, i32>(data_len as u32),
        size_hint is None && data_len > u32::MAX ==> r == Err::<u32, i32>(STATUS_INVALID_PARAMETER),
{
    match size_hint {
        Some(h) => Ok(h),
        None => checked_dokan_len(data_len),
    }
}

/// The size to fetch the attribute's data with, when the filesystem answered
/// with a non-zero size only.
pub fn xattr_needs_data_fetch(data: &[u8], size_hint: Option<u32>) -> (r: Option<u32>)
    ensures
        (data@.len() == 0 && size_hint is Some && size_hint.unwrap() > 0) ==> r == size_hint,
        !(data@.len() == 0 && size_hint is Some && size_hint.unwrap() > 0) ==> r is None,
{
    if data.len() == 0 {
        match size_hint {
            Some(h) => if h > 0 { Some(h) } else { None },
            None => None,
        }
    } else {
        None
    }
}

/// The stream an extended attribute name stands for: `user.X` is the stream
/// `:X:$DATA`, except for an empty `X` and for the security-descriptor
/// attribute; other names stand for no stream.
pub open spec fn stream_for_xattr(name: Seq<char>) -> Option<Seq<char>> {
    let prefix = seq!['u', 's', 'e', 'r', '.'];
    if has_prefix(name, prefix) {
        let stream = name.subrange(5, name.len() as int);
        if stream.len() == 0 || stream == SECURITY_DESCRIPTOR_XATTR@.subrange(5, SECURITY_DESCRIPTOR_XATTR@.len() as int) {
            None
        } else {
            Some(seq![':'] + stream + seq![':', '$', 'D', 'A', 'T', 'A'])
        }
    } else {
        None
    }
}

/// The stream name for an extended attribute name given as text.
pub fn stream_name_from_xattr_str(name: &str) -> (r: Option<String>)
    ensures
        r is Some <==> stream_for_xattr(name@) is Some,
        r matches Some(s) ==> Some(s@) == stream_for_xattr(name@),
{
    let user = "user.";
    let suffix = ":$DATA";
    let reserved = "dokan.security_descriptor";
    proof {
        reveal_strlit("user.");
        reveal_strlit(":$DATA");
        reveal_strlit("dokan.security_descriptor");
        reveal_strlit("user.dokan.security_descriptor");
        assert(user@ =~= seq!['u', 's', 'e', 'r', '.']);
        assert(suffix@ =~= seq![':', '$', 'D', 'A', 'T', 'A']);
        assert(reserved@ =~= SECURITY_DESCRIPTOR_XATTR@.subrange(5, SECURITY_DESCRIPTOR_XATTR@.len() as int));
    }
    let stream = match strip_prefix(name, user) {
        Some(rest) => rest,
        None => return None,
    };
    if stream.unicode_len() == 0 || str_eq(stream.as_str(), reserved) {
        return None;
    }
    let mut out = String::new();
    push_char(&mut out, ':');
    push_str(&mut out, stream.as_str());
    push_str(&mut out, suffix);
    assert(out@ =~= seq![':'] + stream@ + seq![':', '$', 'D', 'A', 'T', 'A']);
    Some(out)
}

/// The text that `bytes` encode, by `std::str::from_utf8`. Trusted: the
/// contract claims what the standard library documents, that it succeeds
/// exactly on valid UTF-8 and that the text it gives is what the bytes decode
/// to, with validity and decoding as vstd's UTF-8 specification defines them.
#[verifier::external_body]
fn str_from_utf8(bytes: &[u8]) -> (r: Option<&str>)
    ensures
        r is Some <==> valid_utf8(bytes@),
        r matches Some(s) ==> s@ == decode_utf8(bytes@),
{
    std::str::from_utf8(bytes).ok()
}

/// The stream name for an extended attribute name given as bytes: none
/// unless the bytes are UTF-8 text that stands for a stream.
pub fn stream_name_from_xattr(name: &[u8]) -> (r: Option<String>)
    ensures
        !valid_utf8(name@) ==> r is None,
        valid_utf8(name@) ==> (r is Some <==> stream_for_xattr(decode_utf8(name@)) is Some),
        valid_utf8(name@) && r is Some ==> Some(r.unwrap()@) == stream_for_xattr(decode_utf8(name@)),
{
    let text = match str_from_utf8(name) {
        Some(t) => t,
        None => return None,
    };
    stream_name_from_xattr_str(text)
}

} // verus!
