use confuse::security::{
    perm_to_file_access, push_allow_ace, stream_name_from_xattr, stream_name_from_xattr_str,
    synthesized_security_descriptor, unix_sid, world_sid, xattr_needs_data_fetch, xattr_reported_len,
    FILE_GENERIC_EXECUTE, FILE_GENERIC_READ, FILE_GENERIC_WRITE, SECURITY_DESCRIPTOR_XATTR,
};
use confuse::helpers::STATUS_INVALID_PARAMETER;
use confuse::types::{FileAttr, FileType, INodeNo};
use std::time::UNIX_EPOCH;

#[test]
fn stream_name_mapping_skips_security_descriptor_xattr() {
    assert_eq!(stream_name_from_xattr(b"user.zone"), Some(":zone:$DATA".to_string()));
    assert_eq!(stream_name_from_xattr(b"user.dokan.security_descriptor"), None);
    assert_eq!(stream_name_from_xattr(b"trusted.zone"), None);
}

#[test]
fn stream_names_need_utf8_and_a_non_empty_user_name() {
    assert_eq!(stream_name_from_xattr(b"user."), None);
    assert_eq!(stream_name_from_xattr(&[0x75, 0x73, 0x65, 0x72, 0x2e, 0xff]), None);
    assert_eq!(stream_name_from_xattr_str("user.é"), Some(":é:$DATA".to_string()));
    assert_eq!(SECURITY_DESCRIPTOR_XATTR, "user.dokan.security_descriptor");
}

#[test]
fn sids_have_the_unix_and_world_layout() {
    assert_eq!(unix_sid(1, 1000), vec![1, 2, 0, 0, 0, 0, 0, 22, 1, 0, 0, 0, 0xe8, 0x03, 0, 0]);
    assert_eq!(world_sid(), vec![1, 1, 0, 0, 0, 0, 0, 1, 0, 0, 0, 0]);
}

#[test]
fn permission_bits_map_to_generic_rights() {
    assert_eq!(perm_to_file_access(0o754, 6), FILE_GENERIC_READ | FILE_GENERIC_WRITE | FILE_GENERIC_EXECUTE);
    assert_eq!(perm_to_file_access(0o754, 3), FILE_GENERIC_READ | FILE_GENERIC_EXECUTE);
    assert_eq!(perm_to_file_access(0o754, 0), FILE_GENERIC_READ);
    assert_eq!(perm_to_file_access(0o750, 0), 0);
}

#[test]
fn allow_ace_is_skipped_without_access() {
    let mut out = Vec::new();
    assert!(!push_allow_ace(&mut out, 0, &[1, 2]));
    assert!(out.is_empty());
    assert!(push_allow_ace(&mut out, 0x0012_0089, &[1, 2]));
    assert_eq!(out, vec![0, 0, 10, 0, 0x89, 0x00, 0x12, 0x00, 1, 2]);
}

fn attr(perm: u16) -> FileAttr {
    FileAttr {
        ino: INodeNo(9),
        size: 0,
        blocks: 0,
        atime: UNIX_EPOCH,
        mtime: UNIX_EPOCH,
        ctime: UNIX_EPOCH,
        crtime: UNIX_EPOCH,
        kind: FileType::RegularFile,
        perm,
        nlink: 1,
        uid: 1000,
        gid: 100,
        rdev: 0,
        blksize: 4096,
        flags: 0,
    }
}

#[test]
fn synthesized_descriptor_has_owner_group_and_acl() {
    let d = synthesized_security_descriptor(attr(0o640));
    assert_eq!(&d[0..4], &[1, 0, 0x04, 0x80]);
    assert_eq!(&d[4..8], &20u32.to_le_bytes());
    assert_eq!(&d[8..12], &36u32.to_le_bytes());
    assert_eq!(&d[12..16], &0u32.to_le_bytes());
    assert_eq!(&d[16..20], &52u32.to_le_bytes());
    assert_eq!(&d[20..36], unix_sid(1, 1000).as_slice());
    assert_eq!(&d[36..52], unix_sid(2, 100).as_slice());
    // Two entries of 24 bytes each: owner read+write, group read; nobody else.
    assert_eq!(&d[52..60], &[2, 0, 56, 0, 2, 0, 0, 0]);
    assert_eq!(d.len(), 52 + 8 + 48);
    assert_eq!(&d[60..64], &[0, 0, 24, 0]);
    assert_eq!(&d[64..68], &(FILE_GENERIC_READ | FILE_GENERIC_WRITE).to_le_bytes());
    assert_eq!(&d[68..84], unix_sid(1, 1000).as_slice());
    assert_eq!(&d[88..92], &FILE_GENERIC_READ.to_le_bytes());
}

#[test]
fn synthesized_descriptor_without_permissions_has_empty_acl() {
    let d = synthesized_security_descriptor(attr(0));
    assert_eq!(d.len(), 60);
    assert_eq!(&d[52..60], &[2, 0, 8, 0, 0, 0, 0, 0]);
}

#[test]
fn xattr_lengths_prefer_the_size_hint() {
    assert_eq!(xattr_reported_len(10, Some(99)), Ok(99));
    assert_eq!(xattr_reported_len(10, None), Ok(10));
    assert_eq!(xattr_reported_len(u32::MAX as usize + 1, None), Err(STATUS_INVALID_PARAMETER));
    assert_eq!(xattr_needs_data_fetch(&[], Some(12)), Some(12));
    assert_eq!(xattr_needs_data_fetch(&[], Some(0)), None);
    assert_eq!(xattr_needs_data_fetch(&[], None), None);
    assert_eq!(xattr_needs_data_fetch(&[1], Some(12)), None);
}
