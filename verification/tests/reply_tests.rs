use confuse::reply::{
    add_directory_entry, add_directory_plus_entry, align_8, dirent_entry_size, direntplus_entry_size,
    next_dir_offset_from_entries, next_dirplus_offset_from_entries, BackingId, DirectoryBuffer,
    DirectoryEntryPayload, DirectoryPlusEntryPayload, ForgetOne,
};
use confuse::types::{FileAttr, FileType, Generation, INodeNo};
use std::time::{Duration, UNIX_EPOCH};

fn attr() -> FileAttr {
    FileAttr {
        ino: INodeNo(1),
        size: 0,
        blocks: 0,
        atime: UNIX_EPOCH,
        mtime: UNIX_EPOCH,
        ctime: UNIX_EPOCH,
        crtime: UNIX_EPOCH,
        kind: FileType::RegularFile,
        perm: 0o644,
        nlink: 1,
        uid: 0,
        gid: 0,
        rdev: 0,
        blksize: 4096,
        flags: 0,
    }
}

#[test]
fn forget_one_accessors_expose_public_value_shape() {
    let f = ForgetOne::new(7, 3);
    assert_eq!(f.nodeid(), INodeNo(7));
    assert_eq!(f.nlookup(), 3);
}

#[test]
fn backing_id_marks_unsupported_passthrough() {
    let id = BackingId::unsupported_for_windows();
    assert!(format!("{:?}", id).contains("BackingId"));
}

#[test]
fn reply_directory_new_size_enforces_aligned_byte_capacity() {
    let mut reply: DirectoryBuffer<DirectoryEntryPayload> = DirectoryBuffer::new(32);
    assert!(!add_directory_entry(&mut reply, INodeNo(1), 0, FileType::RegularFile, "a"));
    assert!(add_directory_entry(&mut reply, INodeNo(2), 1, FileType::RegularFile, "a"));
}

#[test]
fn reply_directoryplus_new_size_enforces_aligned_byte_capacity() {
    let attr = attr();
    let mut reply: DirectoryBuffer<DirectoryPlusEntryPayload> = DirectoryBuffer::new(152);
    assert!(!add_directory_plus_entry(&mut reply, INodeNo(1), 0, "a", Duration::from_secs(1), attr, Generation(0)));
    assert!(add_directory_plus_entry(&mut reply, INodeNo(2), 1, "a", Duration::from_secs(1), attr, Generation(0)));
}

#[test]
fn reply_directory_preserves_entry_offsets_and_next_offset() {
    let mut reply: DirectoryBuffer<DirectoryEntryPayload> = DirectoryBuffer::unbounded();
    assert!(!add_directory_entry(&mut reply, INodeNo(10), 7, FileType::RegularFile, "a"));
    assert!(!add_directory_entry(&mut reply, INodeNo(11), 9, FileType::Directory, "b"));
    let entries = reply.entries().clone();
    assert_eq!(entries[0].offset, 7);
    assert_eq!(entries[1].offset, 9);
    assert_eq!(next_dir_offset_from_entries(0, &entries), 9);
    assert_eq!(next_dir_offset_from_entries(5, &[]), 5);
}

#[test]
fn reply_directoryplus_preserves_entry_offsets_and_next_offset() {
    let attr = attr();
    let mut reply: DirectoryBuffer<DirectoryPlusEntryPayload> = DirectoryBuffer::unbounded();
    assert!(!add_directory_plus_entry(&mut reply, INodeNo(10), 13, "a", Duration::from_secs(1), attr, Generation(0)));
    assert!(!add_directory_plus_entry(&mut reply, INodeNo(11), 15, "b", Duration::from_secs(1), attr, Generation(0)));
    let entries = reply.entries();
    assert_eq!(entries[0].offset, 13);
    assert_eq!(entries[1].offset, 15);
    assert_eq!(next_dirplus_offset_from_entries(0, entries), 15);
    assert_eq!(next_dirplus_offset_from_entries(8, &[]), 8);
}

#[test]
fn reply_directory_non_ascii_uses_utf8_byte_capacity() {
    let mut reply: DirectoryBuffer<DirectoryEntryPayload> = DirectoryBuffer::new(32);
    assert!(!add_directory_entry(&mut reply, INodeNo(1), 0, FileType::RegularFile, "é"));
    assert!(add_directory_entry(&mut reply, INodeNo(2), 1, FileType::RegularFile, "é"));
}

#[test]
fn reply_directoryplus_non_ascii_uses_utf8_byte_capacity() {
    let attr = attr();
    let mut reply: DirectoryBuffer<DirectoryPlusEntryPayload> = DirectoryBuffer::new(152);
    assert!(!add_directory_plus_entry(&mut reply, INodeNo(1), 0, "é", Duration::from_secs(1), attr, Generation(0)));
    assert!(add_directory_plus_entry(&mut reply, INodeNo(2), 1, "é", Duration::from_secs(1), attr, Generation(0)));
}

#[test]
fn reply_directoryplus_stores_ttl_and_generation() {
    let attr = attr();
    let mut reply: DirectoryBuffer<DirectoryPlusEntryPayload> = DirectoryBuffer::unbounded();
    assert!(!add_directory_plus_entry(&mut reply, INodeNo(3), 4, "c", Duration::from_secs(9), attr, Generation(5)));
    let entry = &reply.entries()[0];
    assert_eq!(entry.ttl, Duration::from_secs(9));
    assert_eq!(entry.generation, Generation(5));
    assert_eq!(entry.attr, attr);
    assert_eq!(entry.name, "c");
}

#[test]
fn full_listing_takes_no_more_entries() {
    let mut reply: DirectoryBuffer<DirectoryEntryPayload> = DirectoryBuffer::new(64);
    assert!(!add_directory_entry(&mut reply, INodeNo(1), 1, FileType::RegularFile, "a"));
    assert!(add_directory_entry(&mut reply, INodeNo(2), 2, FileType::RegularFile, "a-much-longer-name-than-fits"));
    assert!(reply.is_full());
    assert!(add_directory_entry(&mut reply, INodeNo(3), 3, FileType::RegularFile, "b"));
    assert_eq!(reply.entries().len(), 1);
    assert_eq!(reply.used_size(), 32);
    assert!(reply.used_size() <= reply.max_size());
}

#[test]
fn failed_listing_is_full() {
    let mut reply: DirectoryBuffer<DirectoryEntryPayload> = DirectoryBuffer::unbounded();
    reply.mark_full();
    assert!(add_directory_entry(&mut reply, INodeNo(1), 1, FileType::RegularFile, "a"));
    assert!(reply.entries().is_empty());
}

#[test]
fn entry_sizes_round_up_to_eight_bytes() {
    assert_eq!(align_8(0), 0);
    assert_eq!(align_8(1), 8);
    assert_eq!(align_8(24), 24);
    assert_eq!(align_8(25), 32);
    assert_eq!(dirent_entry_size(1), 32);
    assert_eq!(dirent_entry_size(8), 32);
    assert_eq!(dirent_entry_size(9), 40);
    assert_eq!(direntplus_entry_size(1), 152);
}
