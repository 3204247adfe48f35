use confuse::errno::{EACCES, ENOENT, ENOSYS};
use confuse::helpers::{
    STATUS_ACCESS_DENIED, STATUS_DIRECTORY_NOT_EMPTY, STATUS_FILE_IS_A_DIRECTORY, STATUS_INVALID_PARAMETER,
    STATUS_NOT_A_DIRECTORY, STATUS_OBJECT_NAME_NOT_FOUND, STATUS_UNSUCCESSFUL,
};
use confuse::operations::{
    directory_delete_attr_check, directory_delete_outcome, dokan_write_plan, dokan_write_plan_start,
    file_delete_access_check, file_delete_attr_check, has_child, init_failure_status,
};
use confuse::types::FileType;
use confuse::flags::FopenFlags;
use confuse::helpers::AdapterContext;
use confuse::helpers::STATUS_OBJECT_NAME_COLLISION;
use confuse::operations::move_target_check;
use confuse::operations::{close_route, flush_syncs_directory, CloseRoute};
use confuse::session_state::{DestroyOnce, MountState, UnmountFailed};
use confuse::types::{FileHandle, INodeNo, LockOwner};

#[test]
fn delete_prechecks_reject_wrong_type_permissions_and_non_empty_dirs() {
    assert_eq!(file_delete_attr_check(Some(Ok(FileType::Directory))), Err(STATUS_FILE_IS_A_DIRECTORY));
    assert_eq!(file_delete_attr_check(Some(Ok(FileType::RegularFile))), Ok(()));
    assert_eq!(file_delete_attr_check(Some(Err(ENOENT))), Err(STATUS_OBJECT_NAME_NOT_FOUND));
    assert_eq!(file_delete_attr_check(None), Err(STATUS_UNSUCCESSFUL));
    assert_eq!(file_delete_access_check(Some(Ok(()))), Ok(()));
    assert_eq!(file_delete_access_check(Some(Err(ENOSYS))), Ok(()));
    assert_eq!(file_delete_access_check(Some(Err(EACCES))), Err(STATUS_ACCESS_DENIED));
    assert_eq!(directory_delete_attr_check(Some(Ok(FileType::RegularFile))), Err(STATUS_NOT_A_DIRECTORY));
    assert_eq!(directory_delete_attr_check(Some(Ok(FileType::Directory))), Ok(()));
    let names = vec![".".to_string(), "..".to_string()];
    assert!(!has_child(&names));
    let with_child = vec![".".to_string(), "child".to_string()];
    assert!(has_child(&with_child));
    assert_eq!(directory_delete_outcome(true, Some(Ok(()))), Err(STATUS_DIRECTORY_NOT_EMPTY));
    assert_eq!(directory_delete_outcome(false, Some(Ok(()))), Ok(()));
    assert_eq!(directory_delete_outcome(false, None), Err(STATUS_UNSUCCESSFUL));
}

#[test]
fn write_plan_handles_eof_and_paging_io_without_extending() {
    assert_eq!(dokan_write_plan_start(-1, 4, false, false), Err(STATUS_INVALID_PARAMETER));
    assert_eq!(dokan_write_plan_start(8, 4, false, false), Ok(Some((8, 4))));
    assert_eq!(dokan_write_plan_start(8, 4, true, false), Ok(None));
    assert_eq!(dokan_write_plan(0, 5, true, false, Some(Ok(100))), Ok((100, 5)));
    assert_eq!(dokan_write_plan(90, 20, false, true, Some(Ok(100))), Ok((90, 10)));
    assert_eq!(dokan_write_plan(120, 20, false, true, Some(Ok(100))), Ok((120, 0)));
    assert_eq!(dokan_write_plan(0, 20, true, true, Some(Ok(100))), Ok((100, 0)));
    assert_eq!(dokan_write_plan(0, 20, true, false, Some(Err(ENOENT))), Err(STATUS_OBJECT_NAME_NOT_FOUND));
    assert_eq!(dokan_write_plan(0, 20, true, false, None), Err(STATUS_UNSUCCESSFUL));
}

#[test]
fn mounted_init_errors_map_to_status() {
    assert_eq!(init_failure_status(Some(EACCES)), STATUS_ACCESS_DENIED);
    assert_eq!(init_failure_status(None), STATUS_UNSUCCESSFUL);
}

#[test]
fn rename_policy_reports_collision_when_replace_is_false() {
    assert_eq!(move_target_check(Ok(INodeNo(5))), Err(STATUS_OBJECT_NAME_COLLISION));
    assert_eq!(move_target_check(Err(ENOENT)), Ok(()));
    assert_eq!(move_target_check(Err(EACCES)), Err(STATUS_ACCESS_DENIED));
}

#[test]
fn rename_precheck_without_lookup_support_lets_the_move_proceed() {
    assert_eq!(move_target_check(Err(ENOSYS)), Ok(()));
}

#[test]
fn close_route_splits_file_vs_directory() {
    let mut ctx = AdapterContext::default();
    ctx.ino = INodeNo(4);
    ctx.fh = FileHandle(8);
    ctx.flags = FopenFlags::from_bits_retain(2);
    ctx.lock_owner = Some(LockOwner(3));
    assert_eq!(
        close_route(ctx),
        CloseRoute::Release { ino: INodeNo(4), fh: FileHandle(8), flags: 2, lock_owner: Some(LockOwner(3)) }
    );
    assert!(!flush_syncs_directory(&ctx));
    ctx.is_dir = true;
    assert_eq!(close_route(ctx), CloseRoute::ReleaseDir { ino: INodeNo(4), fh: FileHandle(8), flags: 2 });
    assert!(flush_syncs_directory(&ctx));
}

#[test]
fn teardown_and_unmount_happen_once() {
    let mut destroyed = DestroyOnce::new();
    assert!(destroyed.claim());
    assert!(!destroyed.claim());
    let mut mount = MountState::mounted();
    assert!(mount.needs_unmount());
    assert_eq!(mount.record_unmount(false), Err(UnmountFailed));
    assert!(mount.needs_unmount());
    assert_eq!(mount.record_unmount(true), Ok(()));
    assert!(!mount.needs_unmount());
}

#[test]
fn flush_route_splits_file_vs_directory() {
    let mut ctx = AdapterContext::default();
    ctx.fh = FileHandle(1);
    ctx.ino = INodeNo(2);
    ctx.lock_owner = Some(LockOwner(77));
    assert!(!flush_syncs_directory(&ctx));
    ctx.is_dir = true;
    ctx.lock_owner = None;
    assert!(flush_syncs_directory(&ctx));
}

#[test]
fn session_drop_calls_destroy_once() {
    let mut destroy = DestroyOnce::new();
    let mut calls: u64 = 0;
    if destroy.claim() {
        calls += 1;
    }
    if destroy.claim() {
        calls += 1;
    }
    assert_eq!(calls, 1);
}
