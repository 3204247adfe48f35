use confuse::adapter::{finish_created_entry, finish_removal, finish_rename};
use confuse::adapter::{get_key, remove_key, set_key};
use confuse::security::{synthesized_security_descriptor, FILE_GENERIC_READ, SE_DACL_PRESENT, SE_SELF_RELATIVE};
use confuse::adapter::{
    create_outcome, default_stream_size, delete_on_close_follow_up, descriptor_copy_plan, descriptor_fetch_size,
    disk_space, file_info_fields, known_open_ino, lock_probe_outcome, mkdir_outcome, open_outcome,
    plan_create_file, readdir_find_entry, readdir_pattern_find_entry, readdirplus_find_entry, read_copy_len,
    remap_descendant_keys, remember_created_path, root_context, security_xattr_outcome, stream_list_outcome,
    xattr_names, CreateAction, CreateOutcome, CreatedFile, DescriptorSource, EmitProgress, LookedUp, PathWalk,
};
use confuse::errno::{EACCES, EEXIST, EIO, ENOENT, ENOSYS, NO_XATTR};
use confuse::helpers::{
    CreateDispositionPlan, FILE_ATTRIBUTE_READONLY, FILE_CREATE, FILE_DIRECTORY_FILE, FILE_OPEN, FILE_OPEN_IF,
    GENERIC_READ, GENERIC_WRITE, STATUS_ACCESS_DENIED, STATUS_INVALID_PARAMETER, STATUS_NOT_IMPLEMENTED,
    STATUS_OBJECT_NAME_COLLISION, STATUS_OBJECT_NAME_NOT_FOUND, STATUS_UNSUCCESSFUL,
};
use confuse::reply::{DirectoryEntryPayload, DirectoryPlusEntryPayload, ReplyOpenPayload};
use confuse::request::RequestIds;
use confuse::resolver::PathResolver;
use confuse::types::{FileAttr, FileHandle, FileType, Generation, INodeNo, TimeSpan, O_RDWR, O_RDONLY};
use std::time::{Duration, UNIX_EPOCH};

fn attr(ino: u64, kind: FileType, perm: u16, size: u64) -> FileAttr {
    FileAttr {
        ino: INodeNo(ino),
        size,
        blocks: 0,
        atime: UNIX_EPOCH,
        mtime: UNIX_EPOCH,
        ctime: UNIX_EPOCH,
        crtime: UNIX_EPOCH,
        kind,
        perm,
        nlink: 2,
        uid: 0,
        gid: 0,
        rdev: 0,
        blksize: 4096,
        flags: 0,
    }
}

fn ids() -> RequestIds {
    RequestIds { uid: 1, gid: 2, pid: 3 }
}

#[test]
fn create_plans_follow_disposition_and_options() {
    let root = plan_create_file("\\", GENERIC_READ, 0, FILE_OPEN, 0);
    assert_eq!(root.action, CreateAction::RootContext);
    assert_eq!(root.path_ino, INodeNo(1));
    let open = plan_create_file("\\a\\b.txt", GENERIC_READ | GENERIC_WRITE, 0, FILE_OPEN, 0);
    assert_eq!(open.parent_path, "\\a");
    assert_eq!(open.leaf, "b.txt");
    assert_eq!(open.path_ino, INodeNo(0));
    assert_eq!(open.action, CreateAction::OpenExisting { open_flags: O_RDWR, is_dir_open: false });
    let mkdir = plan_create_file("\\d", GENERIC_READ, FILE_ATTRIBUTE_READONLY, FILE_CREATE, FILE_DIRECTORY_FILE);
    assert_eq!(mkdir.action, CreateAction::MakeDirectory { mode: 0o444 });
    let create = plan_create_file("\\f", GENERIC_READ, 0, FILE_OPEN_IF, 0);
    assert_eq!(
        create.action,
        CreateAction::CreateFile { mode: 0o644, open_flags: O_RDONLY, plan: CreateDispositionPlan::CreateThenOpenOnExists }
    );
}

#[test]
fn mkdir_and_open_replies_become_contexts() {
    let made = mkdir_outcome(Some(Ok(INodeNo(0))), INodeNo(1), ids()).expect("made");
    assert_eq!(made.ino, INodeNo(1));
    assert!(made.is_dir);
    assert_eq!(made.request_ids, ids());
    let made = mkdir_outcome(Some(Ok(INodeNo(8))), INodeNo(0), ids()).expect("made");
    assert_eq!(made.ino, INodeNo(8));
    assert_eq!(mkdir_outcome(Some(Err(EEXIST)), INodeNo(0), ids()), Err(STATUS_OBJECT_NAME_COLLISION));
    assert_eq!(mkdir_outcome(None, INodeNo(0), ids()), Err(STATUS_UNSUCCESSFUL));
    let opened = open_outcome(Some(Ok(ReplyOpenPayload { fh: FileHandle(5), flags: 2 })), INodeNo(9), false, ids())
        .expect("opened");
    assert_eq!(opened.fh, FileHandle(5));
    assert_eq!(opened.flags.bits(), 2);
    assert_eq!(opened.ino, INodeNo(9));
    assert!(!opened.is_dir);
    assert_eq!(open_outcome(Some(Err(ENOENT)), INodeNo(9), false, ids()), Err(STATUS_OBJECT_NAME_NOT_FOUND));
    assert_eq!(known_open_ino(INodeNo(4)), Some(INodeNo(4)));
    assert_eq!(known_open_ino(INodeNo(0)), None);
    let root = root_context(ids());
    assert_eq!(root.ino, INodeNo(1));
    assert!(root.is_dir);
}

#[test]
fn create_replies_fall_back_to_open_on_collision() {
    let created = CreatedFile { ino: INodeNo(0), kind: FileType::RegularFile, fh: FileHandle(3), flags: 1 };
    match create_outcome(Some(Ok(created)), CreateDispositionPlan::CreateOnly, INodeNo(1), false, ids()) {
        CreateOutcome::Created(ctx) => {
            assert_eq!(ctx.ino, INodeNo(1));
            assert_eq!(ctx.fh, FileHandle(3));
            assert!(!ctx.is_dir);
        }
        other => panic!("unexpected {other:?}"),
    }
    assert_eq!(
        create_outcome(Some(Err(EEXIST)), CreateDispositionPlan::CreateThenOpenOnExists, INodeNo(0), false, ids()),
        CreateOutcome::OpenExisting
    );
    assert_eq!(
        create_outcome(Some(Err(EEXIST)), CreateDispositionPlan::CreateOnly, INodeNo(0), false, ids()),
        CreateOutcome::Failed(STATUS_OBJECT_NAME_COLLISION)
    );
    assert_eq!(
        create_outcome(None, CreateDispositionPlan::Supersede, INodeNo(0), false, ids()),
        CreateOutcome::Failed(STATUS_UNSUCCESSFUL)
    );
}

#[test]
fn path_walk_uses_cache_then_lookups() {
    let mut resolver = PathResolver::new();
    let mut walk = PathWalk::start("\\Dir\\file.txt");
    assert!(!walk.is_finished());
    assert_eq!(walk.step_cached(&mut resolver, 0), Ok(false));
    let request = walk.lookup_request();
    assert_eq!(request.path, "\\Dir");
    assert_eq!(request.name, "Dir");
    assert_eq!(request.parent, INodeNo(1));
    let dir = LookedUp { attr: attr(10, FileType::Directory, 0o755, 0), generation: Generation(0), ttl: TimeSpan::from_secs(10) };
    assert_eq!(walk.step_lookup(&mut resolver, Some(Ok(dir)), 0), Ok(()));
    assert_eq!(walk.current_ino(), INodeNo(10));
    let request = walk.lookup_request();
    assert_eq!(request.path, "\\Dir\\file.txt");
    assert_eq!(request.parent, INodeNo(10));
    assert_eq!(walk.step_lookup(&mut resolver, Some(Err(ENOENT)), 0), Err(ENOENT));

    let mut again = PathWalk::start("\\dir\\file.txt");
    assert_eq!(again.step_cached(&mut resolver, 1), Ok(true));
    assert_eq!(again.current_ino(), INodeNo(10));
    assert_eq!(again.step_cached(&mut resolver, 1), Err(ENOENT));
    assert_eq!(again.step_lookup(&mut resolver, None, 1), Err(EIO));

    let finished = PathWalk::start("\\");
    assert!(finished.is_finished());
    assert_eq!(finished.current_ino(), INodeNo(1));
}

#[test]
fn created_paths_are_remembered_under_the_parent_generation() {
    let mut resolver = PathResolver::new();
    remember_created_path(&mut resolver, "\\new", INodeNo(1), "new", attr(30, FileType::RegularFile, 0o644, 0),
        Generation(4), TimeSpan::from_secs(5), 0);
    let cached = resolver.cached("\\NEW", INodeNo(1), Generation(0), 1);
    assert_eq!(cached.map(|r| r.map(|e| (e.ino, e.generation))), Some(Ok((INodeNo(30), Generation(4)))));
}

#[test]
fn listing_entries_report_attributes_sizes_and_times() {
    let entry = DirectoryEntryPayload { ino: INodeNo(5), offset: 1, kind: FileType::RegularFile, name: "a".to_string() };
    let plain = readdir_find_entry(&entry, Some(0o444));
    assert_eq!(plain.attributes, 0x81);
    assert_eq!(plain.file_size, 0);
    assert!(plain.times.is_none());
    assert_eq!(plain.name, "a");
    let patterned = readdir_pattern_find_entry(&entry, Some(attr(5, FileType::RegularFile, 0o644, 77)));
    assert_eq!(patterned.attributes, 0x80);
    assert_eq!(patterned.file_size, 77);
    assert!(patterned.times.is_some());
    let unknown = readdir_pattern_find_entry(&entry, None);
    assert_eq!(unknown.file_size, 0);
    let plus = DirectoryPlusEntryPayload {
        ino: INodeNo(6),
        offset: 2,
        name: "d".to_string(),
        ttl: Duration::from_secs(1),
        attr: attr(6, FileType::Directory, 0o755, 4096),
        generation: Generation(0),
    };
    let found = readdirplus_find_entry(&plus);
    assert_eq!(found.attributes, 0x10);
    assert_eq!(found.file_size, 4096);
}

#[test]
fn emit_progress_keeps_last_taken_offset() {
    let mut progress = EmitProgress::new();
    progress.record(3, true);
    progress.record(4, true);
    assert_eq!(progress.emitted_offset, Some(4));
    progress.record(5, false);
    assert_eq!(progress.emitted_offset, Some(4));
    assert!(progress.stopped);
}

#[test]
fn disk_space_saturates() {
    assert_eq!(disk_space(10, 5, 4, 512), (5120, 2560, 2048));
    assert_eq!(disk_space(u64::MAX, 1, 0, 2), (u64::MAX, 2, 0));
}

#[test]
fn read_copy_is_limited_by_the_buffer() {
    assert_eq!(read_copy_len(10, 4), Ok(4));
    assert_eq!(read_copy_len(3, 4), Ok(3));
}

#[test]
fn file_information_comes_from_attributes() {
    let info = file_info_fields(&attr(12, FileType::RegularFile, 0o444, 9));
    assert_eq!(info.attributes, 0x81);
    assert_eq!(info.file_size, 9);
    assert_eq!(info.number_of_links, 2);
    assert_eq!(info.file_index, 12);
}

#[test]
fn delete_on_close_follow_up_only_after_success() {
    assert_eq!(delete_on_close_follow_up(Some(Ok(())), INodeNo(5)), Some(true));
    assert_eq!(delete_on_close_follow_up(Some(Ok(())), INodeNo(0)), Some(false));
    assert_eq!(delete_on_close_follow_up(Some(Err(EACCES)), INodeNo(5)), None);
    assert_eq!(delete_on_close_follow_up(None, INodeNo(5)), None);
}

#[test]
fn rename_remaps_handles_under_the_old_root() {
    let items = vec![
        ("\\old".to_string(), 1u32),
        ("\\old\\child".to_string(), 2u32),
        ("\\other".to_string(), 3u32),
        ("\\new".to_string(), 4u32),
    ];
    let out = remap_descendant_keys(&items, "\\old", "\\new");
    assert_eq!(
        out,
        vec![("\\other".to_string(), 3), ("\\new".to_string(), 1), ("\\new\\child".to_string(), 2)]
    );
}

#[test]
fn lock_probe_refuses_held_ranges() {
    assert_eq!(lock_probe_outcome(None), Ok(()));
    assert_eq!(lock_probe_outcome(Some(Ok((0, 10, 2, 0)))), Ok(()));
    assert_eq!(lock_probe_outcome(Some(Ok((0, 10, 1, 7)))), Err(STATUS_UNSUCCESSFUL));
    assert_eq!(lock_probe_outcome(Some(Err(ENOSYS))), Err(STATUS_NOT_IMPLEMENTED));
}

#[test]
fn security_descriptor_sources() {
    assert_eq!(security_xattr_outcome(Some(Ok(vec![1, 2]))), Ok(DescriptorSource::Stored(vec![1, 2])));
    assert_eq!(security_xattr_outcome(Some(Err(NO_XATTR))), Ok(DescriptorSource::Synthesize));
    assert_eq!(security_xattr_outcome(Some(Err(EACCES))), Err(STATUS_ACCESS_DENIED));
    assert_eq!(security_xattr_outcome(None), Err(STATUS_UNSUCCESSFUL));
    assert_eq!(descriptor_copy_plan(40, None, 20), Ok((40, false)));
    assert_eq!(descriptor_copy_plan(0, Some(64), 64), Ok((64, true)));
    assert_eq!(descriptor_copy_plan(u32::MAX as usize + 1, None, 0), Err(STATUS_INVALID_PARAMETER));
    assert_eq!(descriptor_fetch_size(10, 64), 64);
    assert_eq!(descriptor_fetch_size(100, 64), 100);
}

#[test]
fn stream_listing_decisions() {
    assert_eq!(default_stream_size(Some(Ok(12))), 12);
    assert_eq!(default_stream_size(Some(Ok(u64::MAX))), i64::MAX);
    assert_eq!(default_stream_size(Some(Err(EIO))), 0);
    assert_eq!(stream_list_outcome(Some(Err(ENOSYS))), Ok(None));
    assert_eq!(stream_list_outcome(Some(Ok(vec![0]))), Ok(Some(vec![0])));
    assert_eq!(stream_list_outcome(None), Err(STATUS_UNSUCCESSFUL));
    assert_eq!(
        xattr_names(b"user.a\0\0user.b\0trusted.c"),
        vec![b"user.a".to_vec(), b"user.b".to_vec(), b"trusted.c".to_vec()]
    );
    assert!(xattr_names(b"\0\0").is_empty());
}

#[test]
fn file_security_missing_descriptor_xattr_synthesizes_descriptor_from_attr() {
    let file_write_data: u32 = 0x0002;
    assert_eq!(security_xattr_outcome(Some(Err(NO_XATTR))), Ok(DescriptorSource::Synthesize));
    let mut file = attr(2, FileType::RegularFile, 0o444, 123);
    file.nlink = 1;
    let out = synthesized_security_descriptor(file);
    let (required, fits) = descriptor_copy_plan(out.len(), None, out.len() as u32).expect("fits in u32");
    assert!(fits);
    assert_eq!(out.len(), required as usize);
    assert_eq!(out[0], 1);
    assert_eq!(u16::from_le_bytes([out[2], out[3]]) & SE_SELF_RELATIVE, SE_SELF_RELATIVE);
    assert_eq!(u16::from_le_bytes([out[2], out[3]]) & SE_DACL_PRESENT, SE_DACL_PRESENT);
    let dacl_offset = u32::from_le_bytes([out[16], out[17], out[18], out[19]]) as usize;
    let ace_offset = dacl_offset + 8;
    let mask = u32::from_le_bytes([out[ace_offset + 4], out[ace_offset + 5], out[ace_offset + 6], out[ace_offset + 7]]);
    assert_ne!(mask & FILE_GENERIC_READ, 0);
    assert_eq!(mask & file_write_data, 0);
}

#[test]
fn file_security_reports_size_hint_and_copies_descriptor() {
    // The size probe answers with a size hint and no data.
    assert_eq!(security_xattr_outcome(Some(Ok(vec![]))), Ok(DescriptorSource::Stored(vec![])));
    assert_eq!(descriptor_copy_plan(0, Some(4), 0), Ok((4, false)));
    // With room for the descriptor its data is fetched and copied.
    assert_eq!(descriptor_copy_plan(0, Some(4), 4), Ok((4, true)));
    assert_eq!(confuse::security::xattr_needs_data_fetch(&[], Some(4)), Some(4));
    assert_eq!(descriptor_fetch_size(4, 4), 4);
    assert_eq!(security_xattr_outcome(Some(Ok(vec![1, 2, 3, 4]))), Ok(DescriptorSource::Stored(vec![1, 2, 3, 4])));
}

#[test]
fn file_security_short_buffer_reports_required_length_without_copy() {
    assert_eq!(descriptor_copy_plan(0, Some(4), 2), Ok((4, false)));
}

#[test]
fn find_streams_fetches_xattr_names_after_size_probe() {
    let names = b"user.zone\0user.dokan.security_descriptor\0".to_vec();
    // The size probe reports only the length; the names come with the second call.
    assert_eq!(confuse::security::xattr_needs_data_fetch(&[], Some(names.len() as u32)), Some(names.len() as u32));
    let listed = stream_list_outcome(Some(Ok(names))).expect("listing").expect("names");
    let streams: Vec<String> = xattr_names(&listed)
        .iter()
        .filter_map(|n| confuse::security::stream_name_from_xattr(n))
        .collect();
    assert_eq!(default_stream_size(Some(Ok(123))), 123);
    assert_eq!(streams, vec![":zone:$DATA".to_string()]);
}

#[test]
fn cache_follow_ups_after_create_rename_and_removal() {
    let mut resolver = PathResolver::new();
    resolver.remember_attr(INodeNo(1), attr(1, FileType::Directory, 0o755, 0), TimeSpan::from_secs(60), 0);
    finish_created_entry(&mut resolver, "\\dir", INodeNo(1), "dir", INodeNo(7),
        attr(7, FileType::Directory, 0o755, 0), Generation(0), TimeSpan::from_secs(60), 1);
    // The parent's cached attributes are gone; the new path is cached.
    assert!(resolver.cached_attr(INodeNo(1), 2).is_none());
    let hit = resolver.cached("\\dir", INodeNo(1), Generation(0), 2);
    assert_eq!(hit.map(|r| r.map(|e| e.ino)), Some(Ok(INodeNo(7))));
    remember_created_path(&mut resolver, "\\dir\\f", INodeNo(7), "f", attr(8, FileType::RegularFile, 0o644, 0),
        Generation(0), TimeSpan::from_secs(60), 2);
    // Renaming the directory drops both cached paths under it and gives their lookups back.
    let forgets = finish_rename(&mut resolver, "\\dir", "\\moved", Some(INodeNo(7)), INodeNo(1), INodeNo(1), 3);
    let mut forgotten: Vec<u64> = forgets.iter().map(|(ino, _)| ino.0).collect();
    forgotten.sort();
    assert_eq!(forgotten, vec![7, 8]);
    assert!(resolver.cached("\\dir", INodeNo(1), Generation(0), 4).is_none());
    remember_created_path(&mut resolver, "\\moved", INodeNo(1), "moved", attr(7, FileType::Directory, 0o755, 0),
        Generation(0), TimeSpan::from_secs(60), 4);
    let forgets = finish_removal(&mut resolver, "\\moved", Some(INodeNo(7)), INodeNo(1), 5);
    assert_eq!(forgets.iter().map(|(ino, n)| (ino.0, *n)).collect::<Vec<_>>(), vec![(7, 1)]);
    assert!(resolver.cached("\\moved", INodeNo(1), Generation(0), 6).is_none());
}

#[test]
fn handle_table_reads_back_what_was_set() {
    let mut table: Vec<(String, i64)> = Vec::new();
    set_key(&mut table, "\\a".to_string(), 1);
    set_key(&mut table, "\\b".to_string(), 2);
    set_key(&mut table, "\\a".to_string(), 3);
    assert_eq!(get_key(&table, "\\a"), Some(3));
    assert_eq!(get_key(&table, "\\b"), Some(2));
    assert_eq!(table.len(), 2);
    remove_key(&mut table, "\\a");
    assert_eq!(get_key(&table, "\\a"), None);
    assert_eq!(get_key(&table, "\\b"), Some(2));
}
