use confuse::experimental::RequestContext;
use confuse::request::{
    request_from_ids, request_kernel, sid_to_id, stable_u32, token_request_ids, Request, RequestIds,
    RequestUniqueCounter, INVALID_UID_GID,
};
use confuse::types::RequestId;

#[test]
fn request_unique_is_exposed_and_stable() {
    let req = Request::from_ids(42, 1000, 1001, 9999);
    assert_eq!(req.unique(), RequestId(42));
    assert_eq!(req.uid(), 1000);
    assert_eq!(req.gid(), 1001);
    assert_eq!(req.pid(), 9999);
}

#[test]
fn request_unique_counter_progresses() {
    let mut counter = RequestUniqueCounter::new();
    let a = counter.next_request_unique();
    let b = counter.next_request_unique();
    assert!(b > a);
}

#[test]
fn request_unique_counter_starts_at_one_and_counts_up() {
    let mut counter = RequestUniqueCounter::new();
    let seen: Vec<u64> = (0..64).map(|_| counter.next_request_unique()).collect();
    assert_eq!(seen[0], 1);
    for pair in seen.windows(2) {
        assert_eq!(pair[1], pair[0] + 1);
    }
}

#[test]
fn request_accessors_preserve_values() {
    let req = Request::from_ids(42, 1001, 1002, 12345);
    assert_eq!(req.unique(), RequestId(42));
    assert_eq!(req.uid(), 1001);
    assert_eq!(req.gid(), 1002);
    assert_eq!(req.pid(), 12345);
}

#[test]
fn unavailable_request_ids_use_fuse_invalid_uid_gid() {
    let mut counter = RequestUniqueCounter::new();
    let ids = RequestIds::unavailable(1234);
    let req = request_from_ids(&mut counter, ids);
    assert_eq!(req.uid(), INVALID_UID_GID);
    assert_eq!(req.gid(), INVALID_UID_GID);
    assert_eq!(req.pid(), 1234);
}

#[test]
fn request_from_ids_numbers_requests_in_order() {
    let mut counter = RequestUniqueCounter::new();
    let first = request_from_ids(&mut counter, RequestIds { uid: 5, gid: 6, pid: 7 });
    let second = request_from_ids(&mut counter, RequestIds { uid: 5, gid: 6, pid: 7 });
    assert_eq!(first.unique(), RequestId(1));
    assert_eq!(second.unique(), RequestId(2));
    assert_eq!(first.uid(), 5);
    assert_eq!(first.gid(), 6);
    assert_eq!(first.pid(), 7);
}

#[test]
fn default_request_ids_are_unavailable_for_process_zero() {
    let ids = RequestIds::default();
    assert_eq!(ids, RequestIds { uid: u32::MAX, gid: u32::MAX, pid: 0 });
}

#[test]
fn kernel_request_is_all_zero() {
    let req = request_kernel();
    assert_eq!(req.unique(), RequestId(0));
    assert_eq!((req.uid(), req.gid(), req.pid()), (0, 0, 0));
}

#[test]
fn stable_u32_is_fnv1a() {
    assert_eq!(stable_u32(&[]), 0x811c_9dc5);
    assert_eq!(stable_u32(b"a"), 0xe40c_292c);
    assert_eq!(stable_u32(b"foobar"), 0xbf9c_f968);
}

#[test]
fn sid_bytes_map_to_stable_ids() {
    assert_eq!(sid_to_id(&[]), None);
    assert_eq!(sid_to_id(b"a"), Some(0xe40c_292c));
    let user: &[u8] = b"a";
    let group: &[u8] = b"foobar";
    let ids = token_request_ids(Some(user), Some(group), 77).expect("both identifiers present");
    assert_eq!(ids, RequestIds { uid: 0xe40c_292c, gid: 0xbf9c_f968, pid: 77 });
    assert_eq!(token_request_ids(None, Some(group), 77), None);
    assert_eq!(token_request_ids(Some(user), Some(&[]), 77), None);
}

#[test]
fn request_context_copies_the_request() {
    let req = Request::from_ids(42, 1000, 1001, 9999);
    let ctx = RequestContext::from(&req);
    assert_eq!(ctx.user_id(), 1000);
    assert_eq!(ctx.group_id(), 1001);
    assert_eq!(ctx.process_id(), 9999);
    assert_eq!(ctx.request_id(), RequestId(42));
    let direct = RequestContext::new(1, 2, 3, RequestId(4));
    assert_eq!((direct.user_id(), direct.group_id(), direct.process_id()), (1, 2, 3));
    assert_eq!(direct.request_id(), RequestId(4));
}
