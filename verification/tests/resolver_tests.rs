use confuse::errno::ENOENT;
use confuse::resolver::{PathResolver, ResolvedEntry};
use confuse::types::{FileAttr, FileType, Generation, INodeNo, TimeSpan};
use std::time::UNIX_EPOCH;

const SEC: u64 = 1_000_000_000;

fn attr(ino: u64, size: u64) -> FileAttr {
    FileAttr {
        ino: INodeNo(ino),
        size,
        blocks: 0,
        atime: UNIX_EPOCH,
        mtime: UNIX_EPOCH,
        ctime: UNIX_EPOCH,
        crtime: UNIX_EPOCH,
        kind: FileType::RegularFile,
        perm: 0o644,
        nlink: 1,
        uid: 0,
        gid: 0,
        rdev: 0,
        blksize: 4096,
        flags: 0,
    }
}

fn root() -> INodeNo {
    INodeNo::root()
}

fn remember(r: &mut PathResolver, path: &str, name: &str, ino: u64, ttl: TimeSpan, now: u64) -> ResolvedEntry {
    r.remember_positive(path, root(), Generation(0), name.to_string(), attr(ino, 0), Generation(3), ttl, now)
}

#[test]
fn no_context_path_entries_reuse_entry_ttl_cache_until_expiry() {
    let mut r = PathResolver::new();
    let entry = remember(&mut r, "\\file.txt", "file.txt", 2, TimeSpan::from_secs(1), 0);
    assert_eq!(entry, ResolvedEntry { ino: INodeNo(2), generation: Generation(3) });
    assert_eq!(r.cached("\\file.txt", root(), Generation(0), SEC / 2), Some(Ok(entry)));
    assert!(r.take_pending_forgets().is_empty());
    assert_eq!(r.cached("\\file.txt", root(), Generation(0), SEC), None);
    assert_eq!(r.take_pending_forgets(), vec![(INodeNo(2), 1)]);
}

#[test]
fn zero_ttl_path_entries_are_not_cached() {
    let mut r = PathResolver::new();
    remember(&mut r, "\\file.txt", "file.txt", 2, TimeSpan::zero(), 0);
    assert_eq!(r.cached("\\file.txt", root(), Generation(0), 0), None);
    assert_eq!(r.take_pending_forgets(), vec![(INodeNo(2), 1)]);
}

#[test]
fn lookup_keys_ignore_case_and_separators() {
    let mut r = PathResolver::new();
    let entry = remember(&mut r, "\\Dir\\File.TXT", "File.TXT", 5, TimeSpan::from_secs(10), 0);
    assert_eq!(r.cached("/dir/file.txt", root(), Generation(0), 1), Some(Ok(entry)));
    assert_eq!(r.cached("\\dir\\.\\x\\..\\file.txt", root(), Generation(0), 1), Some(Ok(entry)));
}

#[test]
fn missing_path_uses_ttl_bound_negative_cache() {
    let mut r = PathResolver::new();
    r.remember_negative("\\missing", root(), Generation(0), "missing".to_string(), 0);
    assert_eq!(r.cached("\\missing", root(), Generation(0), SEC - 1), Some(Err(ENOENT)));
    assert_eq!(r.cached("\\missing", root(), Generation(0), SEC), None);
}

#[test]
fn negative_cache_can_be_turned_off() {
    let mut r = PathResolver::new();
    r.set_negative_ttl(TimeSpan::zero());
    r.remember_negative("\\missing", root(), Generation(0), "missing".to_string(), 0);
    assert_eq!(r.cached("\\missing", root(), Generation(0), 0), None);
}

#[test]
fn cached_entry_under_another_parent_is_dropped() {
    let mut r = PathResolver::new();
    remember(&mut r, "\\a", "a", 7, TimeSpan::from_secs(10), 0);
    assert_eq!(r.cached("\\a", INodeNo(9), Generation(0), 1), None);
    assert_eq!(r.take_pending_forgets(), vec![(INodeNo(7), 1)]);
    assert_eq!(r.cached("\\a", root(), Generation(0), 1), None);
}

#[test]
fn attr_ttl_cache_is_separate_from_entry_ttl_cache() {
    let mut r = PathResolver::new();
    remember(&mut r, "\\f", "f", 4, TimeSpan::from_secs(10), 0);
    assert_eq!(r.cached_attr(INodeNo(4), 1), None);
    r.remember_attr(INodeNo(4), attr(4, 99), TimeSpan::from_secs(1), 1);
    assert_eq!(r.cached_attr(INodeNo(4), 2).map(|a| a.size), Some(99));
    assert_eq!(r.cached_attr(INodeNo(4), 1 + SEC), None);
}

#[test]
fn lookup_entry_refresh_does_not_overwrite_live_attr_ttl_cache() {
    let mut r = PathResolver::new();
    remember(&mut r, "\\f", "f", 4, TimeSpan::from_secs(10), 0);
    r.remember_attr(INodeNo(4), attr(4, 99), TimeSpan::from_secs(5), 0);
    r.remember_positive("\\f", root(), Generation(0), "f".to_string(), attr(4, 1), Generation(3), TimeSpan::from_secs(10), 1);
    assert_eq!(r.cached_attr(INodeNo(4), 2).map(|a| a.size), Some(99));
}

#[test]
fn positive_to_negative_transition_invalidates_live_attr_ttl_cache() {
    let mut r = PathResolver::new();
    remember(&mut r, "\\f", "f", 4, TimeSpan::from_secs(10), 0);
    r.remember_attr(INodeNo(4), attr(4, 99), TimeSpan::from_secs(5), 0);
    r.remember_negative("\\f", root(), Generation(0), "f".to_string(), 1);
    assert_eq!(r.cached_attr(INodeNo(4), 2), None);
    assert_eq!(r.take_pending_forgets(), vec![(INodeNo(4), 1)]);
    assert_eq!(r.cached("\\f", root(), Generation(0), 2), Some(Err(ENOENT)));
}

#[test]
fn repeated_lookup_replacement_forgets_every_cached_lookup_ref() {
    let mut r = PathResolver::new();
    remember(&mut r, "\\f", "f", 4, TimeSpan::from_secs(10), 0);
    remember(&mut r, "\\f", "f", 4, TimeSpan::from_secs(10), 1);
    remember(&mut r, "\\f", "f", 4, TimeSpan::from_secs(10), 2);
    assert!(r.take_pending_forgets().is_empty());
    let forgets = r.invalidate_subtree("\\f", 3);
    assert_eq!(forgets, vec![(INodeNo(4), 3)]);
}

#[test]
fn replacing_cached_path_with_different_inode_drains_old_lookup_ref() {
    let mut r = PathResolver::new();
    remember(&mut r, "\\f", "f", 4, TimeSpan::from_secs(10), 0);
    remember(&mut r, "\\f", "f", 5, TimeSpan::from_secs(10), 1);
    assert_eq!(r.take_pending_forgets(), vec![(INodeNo(4), 1)]);
    assert_eq!(r.cached("\\f", root(), Generation(0), 2).map(|e| e.map(|e| e.ino)), Some(Ok(INodeNo(5))));
}

#[test]
fn expired_positive_is_reaped_before_unrelated_path_resolution() {
    let mut r = PathResolver::new();
    remember(&mut r, "\\old", "old", 8, TimeSpan::from_secs(1), 0);
    remember(&mut r, "\\young", "young", 9, TimeSpan::from_secs(10), 0);
    assert_eq!(r.reap_expired(2 * SEC), vec![(INodeNo(8), 1)]);
    assert!(r.cached("\\young", root(), Generation(0), 2 * SEC).is_some());
}

#[test]
fn invalidate_subtree_drops_descendants_only() {
    let mut r = PathResolver::new();
    r.remember_positive("\\d", root(), Generation(0), "d".to_string(), attr(10, 0), Generation(0), TimeSpan::from_secs(10), 0);
    r.remember_positive("\\d\\x", INodeNo(10), Generation(0), "x".to_string(), attr(11, 0), Generation(0), TimeSpan::from_secs(10), 0);
    r.remember_positive("\\dx", root(), Generation(0), "dx".to_string(), attr(12, 0), Generation(0), TimeSpan::from_secs(10), 0);
    let mut forgets = r.invalidate_subtree("\\D", 1);
    forgets.sort();
    assert_eq!(forgets, vec![(INodeNo(10), 1), (INodeNo(11), 1)]);
    assert!(r.cached("\\dx", root(), Generation(0), 1).is_some());
    assert!(r.cached("\\d\\x", INodeNo(10), Generation(0), 1).is_none());
}

#[test]
fn notifier_style_entry_invalidation_clears_negative_cache() {
    let mut r = PathResolver::new();
    r.remember_negative("\\missing", root(), Generation(0), "missing".to_string(), 0);
    r.invalidate_entry_from_notify(root(), "MISSING", 1);
    assert!(r.cached("\\missing", root(), Generation(0), 1).is_none());
}

#[test]
fn entry_invalidation_returns_forgets_of_the_named_entry() {
    let mut r = PathResolver::new();
    remember(&mut r, "\\a", "a", 20, TimeSpan::from_secs(10), 0);
    remember(&mut r, "\\b", "b", 21, TimeSpan::from_secs(10), 0);
    assert_eq!(r.invalidate_entry(root(), "a", 1), vec![(INodeNo(20), 1)]);
    assert!(r.cached("\\b", root(), Generation(0), 1).is_some());
}

#[test]
fn generation_of_known_and_unknown_inodes() {
    let mut r = PathResolver::new();
    remember(&mut r, "\\a", "a", 20, TimeSpan::from_secs(10), 0);
    assert_eq!(r.generation_for(INodeNo(20)), Generation(3));
    assert_eq!(r.generation_for(INodeNo(99)), Generation(0));
}

#[test]
fn invalidating_inode_attributes_keeps_the_path() {
    let mut r = PathResolver::new();
    remember(&mut r, "\\a", "a", 20, TimeSpan::from_secs(10), 0);
    r.remember_attr(INodeNo(20), attr(20, 5), TimeSpan::from_secs(10), 0);
    r.invalidate_inode_attr(INodeNo(20), 1);
    assert_eq!(r.cached_attr(INodeNo(20), 1), None);
    assert!(r.cached("\\a", root(), Generation(0), 1).is_some());
}
