//! The path resolver: a TTL cache from normalised paths to inodes (positive entries) or to
//! "does not exist" (negative entries), plus per-inode attribute caching and the lookup
//! reference counts that decide when the filesystem is told to forget an inode.
//!
//! Times are nanoseconds on a monotonic clock read by the caller and passed in as `now`.
use vstd::prelude::*;
use crate::assoc::{amap, has_key, lemma_amap_empty, lemma_amap_index, lemma_amap_push, lemma_amap_remove, unique_keys};
use std::collections::HashMap;
use crate::errno::ENOENT;
use crate::paths::{normalize_path, normalize_path_spec, with_trailing_sep, with_trailing_separator};
use crate::text::{has_prefix, lowercase, str_eq, strip_prefix, to_lowercase};
use crate::types::{FileAttr, Generation, INodeNo, TimeSpan};

verus! {

broadcast use vstd::std_specs::hash::group_hash_axioms;

/// An inode reached by a path.
#[derive(Clone, Copy, Debug, PartialEq, Eq, Structural)]
pub struct ResolvedEntry {
    pub ino: INodeNo,
    pub generation: Generation,
}

/// A cached path: found (`Positive`, holding `outstanding` lookups of its inode) or known missing.
#[derive(Debug)]
pub enum PathCacheEntry {
    Positive {
        parent: INodeNo,
        parent_generation: Generation,
        name: String,
        ino: INodeNo,
        generation: Generation,
        entry_expires: u64,
        outstanding: u64,
    },
    Negative { parent: INodeNo, parent_generation: Generation, name: String, expires: u64 },
}

/// What the resolver knows of one inode.
#[derive(Clone, Copy, Debug)]
pub struct InodeState {
    pub attr: FileAttr,
    pub generation: Generation,
    pub lookup_refcount: u64,
    pub attr_expires: Option<u64>,
}

#[derive(Debug)]
struct PathSlot {
    key: String,
    entry: PathCacheEntry,
}

/// One second in nanoseconds: how long a missing path is remembered by default.
pub const DEFAULT_NEGATIVE_TTL_NANOS: u64 = 1_000_000_000;

pub type PathMap = Map<Seq<char>, PathCacheEntry>;
pub type InodeMap = Map<u64, InodeState>;
pub type Forgets = Seq<(INodeNo, u64)>;

/// The resolver's state: cached paths by key, inodes by number, and forgets not yet handed out.
pub type Model = (PathMap, InodeMap, Forgets);

pub struct PathResolver {
    paths: Vec<PathSlot>,
    inodes: HashMap<u64, InodeState>,
    pending_forgets: Vec<(INodeNo, u64)>,
    negative_ttl: Option<u64>,
    remembered: Ghost<Map<u64, nat>>,
    taken: Ghost<Map<u64, nat>>,
    saturated: Ghost<Set<u64>>,
}

spec fn pkey() -> spec_fn(PathSlot) -> Seq<char> {
    |s: PathSlot| s.key@
}

spec fn pval() -> spec_fn(PathSlot) -> PathCacheEntry {
    |s: PathSlot| s.entry
}



/// `m[k]`, or 0 where `m` has no `k`.
pub open spec fn count_of(m: Map<u64, nat>, k: u64) -> nat {
    if m.contains_key(k) { m[k] } else { 0 }
}

/// The lookup reference count of `ino`; 0 for an inode the map does not hold.
pub open spec fn ref_of(m: InodeMap, ino: u64) -> nat {
    if m.contains_key(ino) { m[ino].lookup_refcount as nat } else { 0 }
}

/// The total forget count for `ino` in a list of forgets.
pub open spec fn forget_sum(p: Forgets, ino: u64) -> nat
    decreases p.len(),
{
    if p.len() == 0 {
        0
    } else {
        forget_sum(p.drop_last(), ino) + if p.last().0.0 == ino { p.last().1 as nat } else { 0 }
    }
}

/// An inode is kept while lookups of it are outstanding or its cached attributes are still valid.
pub open spec fn is_live(st: InodeState, now: u64) -> bool {
    st.lookup_refcount > 0 || (st.attr_expires matches Some(t) && t > now)
}

/// The inodes of `m` that are live at `now`.
pub open spec fn retain_live(m: InodeMap, now: u64) -> InodeMap {
    Map::new(|k: u64| m.contains_key(k) && is_live(m[k], now), |k: u64| m[k])
}

pub open spec fn min_u64(a: u64, b: u64) -> u64 {
    if a <= b { a } else { b }
}

/// How many lookups of `ino` giving back `count` outstanding ones releases.
pub open spec fn released(m: InodeMap, ino: u64, count: u64) -> u64 {
    if m.contains_key(ino) { min_u64(m[ino].lookup_refcount, count) } else { 0 }
}

pub open spec fn with_refcount(st: InodeState, refcount: u64) -> InodeState {
    InodeState { attr: st.attr, generation: st.generation, lookup_refcount: refcount, attr_expires: st.attr_expires }
}

pub open spec fn with_attr_expiry(st: InodeState, expires: Option<u64>) -> InodeState {
    InodeState { attr: st.attr, generation: st.generation, lookup_refcount: st.lookup_refcount, attr_expires: expires }
}

/// Giving back `count` outstanding lookups of `ino`: its count drops by what is released,
/// that much is queued for forgetting, and inodes no longer live at `now` are dropped.
pub open spec fn release_model(m: Model, ino: u64, count: u64, now: u64) -> Model {
    let n = released(m.1, ino, count);
    let inodes = if m.1.contains_key(ino) {
        m.1.insert(ino, with_refcount(m.1[ino], (m.1[ino].lookup_refcount - n) as u64))
    } else {
        m.1
    };
    let pending = if n > 0 { m.2.push((INodeNo(ino), n)) } else { m.2 };
    (m.0, retain_live(inodes, now), pending)
}

/// Forgets the cached attributes of `ino`.
pub open spec fn clear_attr(m: InodeMap, ino: u64) -> InodeMap {
    if m.contains_key(ino) { m.insert(ino, with_attr_expiry(m[ino], None)) } else { m }
}

/// Dropping dead inodes leaves every reference count as it was.
pub proof fn lemma_ref_of_retain(m: InodeMap, now: u64, ino: u64)
    ensures
        ref_of(retain_live(m, now), ino) == ref_of(m, ino),
{
}


/// `x + 1`, staying at `u64::MAX`.
pub open spec fn sat_inc(x: u64) -> u64 {
    if x < u64::MAX { (x + 1) as u64 } else { x }
}

/// `a + b`, staying at `u64::MAX`.
pub open spec fn sat_add(a: u64, b: u64) -> u64 {
    if a + b <= u64::MAX { (a + b) as u64 } else { u64::MAX }
}

pub open spec fn root_key() -> Seq<char> {
    seq!['\\']
}

/// What a cache probe of `key` from `parent` (at `parent_generation`) answers at `now`: the inode of a
/// live positive entry reached from that parent whose inode is still known, `ENOENT` for a live
/// negative entry reached from that parent, and nothing otherwise (the root is never cached).
pub open spec fn cached_result(m: Model, key: Seq<char>, parent: INodeNo, parent_generation: Generation, now: u64) -> Option<Result<ResolvedEntry, i32>> {
    if key == root_key() || !m.0.contains_key(key) {
        None
    } else {
        match m.0[key] {
            PathCacheEntry::Positive { parent: p, parent_generation: g, ino, generation, entry_expires, .. } =>
                if entry_expires > now && p == parent && g == parent_generation && m.1.contains_key(ino.0) {
                    Some(Ok(ResolvedEntry { ino, generation }))
                } else {
                    None
                },
            PathCacheEntry::Negative { parent: p, parent_generation: g, expires, .. } =>
                if expires > now && p == parent && g == parent_generation {
                    Some(Err(ENOENT))
                } else {
                    None
                },
        }
    }
}

/// A probe drops the entry it finds when the entry has expired or was reached from another parent.
pub open spec fn probe_drops(e: PathCacheEntry, parent: INodeNo, parent_generation: Generation, now: u64) -> bool {
    match e {
        PathCacheEntry::Positive { parent: p, parent_generation: g, entry_expires, .. } =>
            !(entry_expires > now && p == parent && g == parent_generation),
        PathCacheEntry::Negative { parent: p, parent_generation: g, expires, .. } =>
            !(expires > now && p == parent && g == parent_generation),
    }
}

/// Removing the entry `e` at `key`: a positive entry gives its outstanding lookups back, its
/// inode's cached attributes first forgotten when `clear` holds.
pub open spec fn drop_entry_model(m: Model, key: Seq<char>, e: PathCacheEntry, clear: bool, now: u64) -> Model {
    match e {
        PathCacheEntry::Positive { ino, outstanding, .. } =>
            release_model((m.0.remove(key), if clear { clear_attr(m.1, ino.0) } else { m.1 }, m.2), ino.0, outstanding, now),
        PathCacheEntry::Negative { .. } => (m.0.remove(key), m.1, m.2),
    }
}

/// The state after a cache probe of `key`.
pub open spec fn cached_model(m: Model, key: Seq<char>, parent: INodeNo, parent_generation: Generation, now: u64) -> Model {
    if key == root_key() || !m.0.contains_key(key) {
        m
    } else if probe_drops(m.0[key], parent, parent_generation, now) {
        drop_entry_model(m, key, m.0[key], false, now)
    } else {
        m
    }
}

/// Clearing `key` before a positive entry is stored there: a positive entry for the same inode hands
/// its outstanding lookups on when the new entry will be cached (`keep`); any other positive entry
/// gives them back.
pub open spec fn take_reusable_model(m: Model, key: Seq<char>, ino: u64, keep: bool, now: u64) -> (Model, u64) {
    if !m.0.contains_key(key) {
        (m, 0)
    } else {
        match m.0[key] {
            PathCacheEntry::Positive { ino: cino, outstanding, .. } =>
                if cino.0 == ino && keep {
                    ((m.0.remove(key), m.1, m.2), outstanding)
                } else {
                    (release_model((m.0.remove(key), m.1, m.2), cino.0, outstanding, now), 0)
                },
            PathCacheEntry::Negative { .. } => ((m.0.remove(key), m.1, m.2), 0),
        }
    }
}

/// One more lookup of the inode of `attr`: an inode without live cached attributes takes `attr`,
/// every inode takes `generation`, and the count goes up by one (staying at `u64::MAX`).
pub open spec fn remember_inode(m: InodeMap, attr: FileAttr, generation: Generation) -> InodeMap {
    let ino = attr.ino.0;
    if m.contains_key(ino) {
        let st = m[ino];
        m.insert(ino, InodeState {
            attr: if st.attr_expires is None { attr } else { st.attr },
            generation,
            lookup_refcount: sat_inc(st.lookup_refcount),
            attr_expires: st.attr_expires,
        })
    } else {
        m.insert(ino, InodeState { attr, generation, lookup_refcount: 1, attr_expires: None })
    }
}

/// Remembering a found path: with a non-zero TTL the path is cached until `now + ttl` and holds one
/// more lookup of its inode; with a zero TTL nothing is cached and the lookup is queued to be forgotten.
pub open spec fn remember_positive_model(m: Model, key: Seq<char>, parent: INodeNo, parent_generation: Generation, name: String, attr: FileAttr, generation: Generation, ttl: u64, now: u64) -> Model {
    let (m1, reused) = take_reusable_model(m, key, attr.ino.0, ttl != 0, now);
    if ttl != 0 {
        (m1.0.insert(key, PathCacheEntry::Positive {
            parent,
            parent_generation,
            name,
            ino: attr.ino,
            generation,
            entry_expires: sat_add(now, ttl),
            outstanding: sat_inc(reused),
        }), remember_inode(m1.1, attr, generation), m1.2)
    } else {
        (m1.0, retain_live(m1.1, now), m1.2.push((attr.ino, 1)))
    }
}

/// `m` with `amount` more at `k`.
/// The generation the model knows for `ino`, 0 for an unknown inode.
pub open spec fn generation_of(m: Model, ino: INodeNo) -> Generation {
    if m.1.contains_key(ino.0) { m.1[ino.0].generation } else { Generation(0) }
}

pub open spec fn add_count(m: Map<u64, nat>, k: u64, amount: nat) -> Map<u64, nat> {
    m.insert(k, count_of(m, k) + amount)
}

/// A TTL in nanoseconds, staying at `u64::MAX`.
pub open spec fn span_nanos(ttl: TimeSpan) -> u64 {
    if ttl@ <= u64::MAX { ttl@ as u64 } else { u64::MAX }
}

/// Remembering that `key` is missing: a cached entry there is removed (a positive one forgets its
/// inode's cached attributes and gives its lookups back); then, unless missing paths are not
/// remembered, a negative entry valid until `now + ttl` takes its place.
pub open spec fn remember_negative_model(m: Model, key: Seq<char>, parent: INodeNo, parent_generation: Generation, name: String, negative_ttl: Option<u64>, now: u64) -> Model {
    let m1 = if m.0.contains_key(key) { drop_entry_model(m, key, m.0[key], true, now) } else { m };
    match negative_ttl {
        None => m1,
        Some(t) => (m1.0.insert(key, PathCacheEntry::Negative { parent, parent_generation, name, expires: sat_add(now, t) }), m1.1, m1.2),
    }
}

/// What remembering attributes does to the inode map: a zero TTL forgets cached attributes of
/// `ino`; otherwise `attr` is cached until `now + ttl` (a new inode starts at generation 0 and no lookups).
pub open spec fn remember_attr_model(m: InodeMap, ino: u64, attr: FileAttr, ttl: u64, now: u64) -> InodeMap {
    if ttl == 0 {
        clear_attr(m, ino)
    } else if m.contains_key(ino) {
        m.insert(ino, InodeState { attr, generation: m[ino].generation, lookup_refcount: m[ino].lookup_refcount, attr_expires: Some(sat_add(now, ttl)) })
    } else {
        m.insert(ino, InodeState { attr, generation: Generation(0), lookup_refcount: 0, attr_expires: Some(sat_add(now, ttl)) })
    }
}

/// The cached attributes of `ino` when still valid at `now`.
pub open spec fn cached_attr_result(m: InodeMap, ino: u64, now: u64) -> Option<FileAttr> {
    if m.contains_key(ino) && (m[ino].attr_expires matches Some(t) && t > now) {
        Some(m[ino].attr)
    } else {
        None
    }
}

/// Counts of `m` with every forget of `p` added.
pub open spec fn add_forgets(m: Map<u64, nat>, p: Forgets) -> Map<u64, nat> {
    Map::new(|k: u64| count_of(m, k) + forget_sum(p, k) > 0, |k: u64| count_of(m, k) + forget_sum(p, k))
}

/// Which cached paths a bulk invalidation removes.
pub enum DropRule {
    /// Entries whose validity ended at or before `now`.
    Expired,
    /// The entry at `key` and every entry whose key starts with `prefix` (the key with a trailing `\\`).
    Subtree { key: String, prefix: String },
    /// Entries under `parent` whose name, lower-cased, is `lowered`.
    Entry { parent: INodeNo, lowered: String },
}

pub open spec fn entry_parent(e: PathCacheEntry) -> INodeNo {
    match e {
        PathCacheEntry::Positive { parent, .. } => parent,
        PathCacheEntry::Negative { parent, .. } => parent,
    }
}

pub open spec fn entry_name(e: PathCacheEntry) -> Seq<char> {
    match e {
        PathCacheEntry::Positive { name, .. } => name@,
        PathCacheEntry::Negative { name, .. } => name@,
    }
}

pub open spec fn entry_expiry(e: PathCacheEntry) -> u64 {
    match e {
        PathCacheEntry::Positive { entry_expires, .. } => entry_expires,
        PathCacheEntry::Negative { expires, .. } => expires,
    }
}

pub open spec fn rule_drops(rule: DropRule, key: Seq<char>, e: PathCacheEntry, now: u64) -> bool {
    match rule {
        DropRule::Expired => entry_expiry(e) <= now,
        DropRule::Subtree { key: k, prefix } => key == k@ || has_prefix(key, prefix@),
        DropRule::Entry { parent, lowered } => entry_parent(e) == parent && lowercase(entry_name(e)) == lowered@,
    }
}

pub open spec fn rule_pred(rule: DropRule, now: u64) -> spec_fn(Seq<char>, PathCacheEntry) -> bool {
    |k: Seq<char>, e: PathCacheEntry| rule_drops(rule, k, e, now)
}

/// Entries expired at `now`.
pub open spec fn expired_pred(now: u64) -> spec_fn(Seq<char>, PathCacheEntry) -> bool {
    |k: Seq<char>, e: PathCacheEntry| entry_expiry(e) <= now
}

/// The entry at `root` and every entry below it.
pub open spec fn subtree_pred(root: Seq<char>) -> spec_fn(Seq<char>, PathCacheEntry) -> bool {
    |k: Seq<char>, e: PathCacheEntry| k == root || has_prefix(k, with_trailing_sep(root))
}

/// Entries under `parent` named `name`, compared after lower-casing.
pub open spec fn named_entry_pred(parent: INodeNo, name: Seq<char>) -> spec_fn(Seq<char>, PathCacheEntry) -> bool {
    |k: Seq<char>, e: PathCacheEntry| entry_parent(e) == parent && lowercase(entry_name(e)) == lowercase(name)
}

/// The slots of `s` that `pred` keeps, in order.
pub open spec fn kept_slots(s: Seq<(Seq<char>, PathCacheEntry)>, pred: spec_fn(Seq<char>, PathCacheEntry) -> bool) -> Seq<(Seq<char>, PathCacheEntry)>
    decreases s.len(),
{
    if s.len() == 0 {
        s
    } else if pred(s.last().0, s.last().1) {
        kept_slots(s.drop_last(), pred)
    } else {
        kept_slots(s.drop_last(), pred).push(s.last())
    }
}

/// Removing, in the order of `slots`, every slot that `pred` selects (see `drop_entry_model`).
pub open spec fn drop_matching_model(m: Model, slots: Seq<(Seq<char>, PathCacheEntry)>, pred: spec_fn(Seq<char>, PathCacheEntry) -> bool, clear: bool, now: u64) -> Model
    decreases slots.len(),
{
    if slots.len() == 0 {
        m
    } else {
        let m1 = drop_matching_model(m, slots.drop_last(), pred, clear, now);
        if pred(slots.last().0, slots.last().1) {
            drop_entry_model(m1, slots.last().0, slots.last().1, clear, now)
        } else {
            m1
        }
    }
}

/// The keys among `slots` that `pred` selects.
pub open spec fn selected_keys(slots: Seq<(Seq<char>, PathCacheEntry)>, pred: spec_fn(Seq<char>, PathCacheEntry) -> bool) -> Set<Seq<char>> {
    Set::new(|k: Seq<char>| exists|i: int| 0 <= i < slots.len() && (#[trigger] slots[i]).0 == k && pred(slots[i].0, slots[i].1))
}

proof fn lemma_drop_matching_paths(m: Model, slots: Seq<(Seq<char>, PathCacheEntry)>, pred: spec_fn(Seq<char>, PathCacheEntry) -> bool, clear: bool, now: u64)
    ensures
        drop_matching_model(m, slots, pred, clear, now).0 == m.0.remove_keys(selected_keys(slots, pred)),
    decreases slots.len(),
{
    if slots.len() == 0 {
        assert(m.0.remove_keys(selected_keys(slots, pred)) =~= m.0);
    } else {
        let prev = slots.drop_last();
        lemma_drop_matching_paths(m, prev, pred, clear, now);
        let last = slots.last();
        if pred(last.0, last.1) {
            assert(selected_keys(slots, pred) =~= selected_keys(prev, pred).insert(last.0)) by {
                assert forall|k: Seq<char>| selected_keys(slots, pred).contains(k) implies selected_keys(prev, pred).insert(last.0).contains(k) by {
                    let i = choose|i: int| 0 <= i < slots.len() && (#[trigger] slots[i]).0 == k && pred(slots[i].0, slots[i].1);
                    if i < prev.len() {
                        assert(prev[i] == slots[i]);
                    }
                }
                assert forall|k: Seq<char>| selected_keys(prev, pred).contains(k) implies selected_keys(slots, pred).contains(k) by {
                    let i = choose|i: int| 0 <= i < prev.len() && (#[trigger] prev[i]).0 == k && pred(prev[i].0, prev[i].1);
                    assert(slots[i] == prev[i]);
                }
                assert(slots[slots.len() - 1] == last);
            }
            assert(m.0.remove_keys(selected_keys(slots, pred)) =~= m.0.remove_keys(selected_keys(prev, pred)).remove(last.0));
        } else {
            assert(selected_keys(slots, pred) =~= selected_keys(prev, pred)) by {
                assert forall|k: Seq<char>| selected_keys(slots, pred).contains(k) implies selected_keys(prev, pred).contains(k) by {
                    let i = choose|i: int| 0 <= i < slots.len() && (#[trigger] slots[i]).0 == k && pred(slots[i].0, slots[i].1);
                    if i < prev.len() {
                        assert(prev[i] == slots[i]);
                    }
                }
                assert forall|k: Seq<char>| selected_keys(prev, pred).contains(k) implies selected_keys(slots, pred).contains(k) by {
                    let i = choose|i: int| 0 <= i < prev.len() && (#[trigger] prev[i]).0 == k && pred(prev[i].0, prev[i].1);
                    assert(slots[i] == prev[i]);
                }
            }
        }
    }
}

/// A path remembered as found with a non-zero TTL is answered from the cache, for the same parent
/// and parent generation, exactly until its TTL runs out (the root is never cached).
pub proof fn lemma_remembered_positive_is_cached(
    m: Model,
    key: Seq<char>,
    parent: INodeNo,
    parent_generation: Generation,
    name: String,
    attr: FileAttr,
    generation: Generation,
    ttl: u64,
    now: u64,
    later: u64,
)
    requires
        ttl != 0,
        key != root_key(),
    ensures
        cached_result(remember_positive_model(m, key, parent, parent_generation, name, attr, generation, ttl, now), key, parent, parent_generation, later)
            == if later < sat_add(now, ttl) { Some(Ok(ResolvedEntry { ino: attr.ino, generation })) } else { None::<Result<ResolvedEntry, i32>> },
{
    let m2 = remember_positive_model(m, key, parent, parent_generation, name, attr, generation, ttl, now);
    assert(m2.0.contains_key(key));
    assert(m2.1.contains_key(attr.ino.0));
}

/// A path remembered with a zero TTL is not cached afterwards.
pub proof fn lemma_zero_ttl_is_not_cached(
    m: Model,
    key: Seq<char>,
    parent: INodeNo,
    parent_generation: Generation,
    name: String,
    attr: FileAttr,
    generation: Generation,
    now: u64,
)
    ensures
        !remember_positive_model(m, key, parent, parent_generation, name, attr, generation, 0, now).0.contains_key(key),
{
}

/// A path remembered as missing is answered `ENOENT`, for the same parent and parent generation,
/// exactly until the negative TTL runs out; it is not cached at all when missing paths are not remembered.
pub proof fn lemma_remembered_negative_is_cached(
    m: Model,
    key: Seq<char>,
    parent: INodeNo,
    parent_generation: Generation,
    name: String,
    negative_ttl: Option<u64>,
    now: u64,
    later: u64,
)
    requires
        key != root_key(),
    ensures
        cached_result(remember_negative_model(m, key, parent, parent_generation, name, negative_ttl, now), key, parent, parent_generation, later)
            == match negative_ttl {
                Some(t) => if later < sat_add(now, t) { Some(Err(ENOENT)) } else { None::<Result<ResolvedEntry, i32>> },
                None => None::<Result<ResolvedEntry, i32>>,
            },
{
    let m1 = if m.0.contains_key(key) { drop_entry_model(m, key, m.0[key], true, now) } else { m };
    assert(!m1.0.contains_key(key));
}

impl PathResolver {
    /// The cached paths by normalised key.
    pub closed spec fn paths_view(&self) -> PathMap {
        amap(self.paths@, pkey(), pval())
    }

    /// The known inodes by number.
    pub closed spec fn inodes_view(&self) -> InodeMap {
        self.inodes@
    }

    /// Forgets queued and not yet handed out, oldest first.
    pub closed spec fn pending_view(&self) -> Forgets {
        self.pending_forgets@
    }

    /// The cached paths in the order the resolver keeps them.
    pub closed spec fn path_slots(&self) -> Seq<(Seq<char>, PathCacheEntry)> {
        self.paths@.map_values(|s: PathSlot| (s.key@, s.entry))
    }

    pub open spec fn model(&self) -> Model {
        (self.paths_view(), self.inodes_view(), self.pending_view())
    }

    /// How long a missing path is remembered, in nanoseconds; `None` when not at all.
    pub closed spec fn negative_ttl_view(&self) -> Option<u64> {
        self.negative_ttl
    }

    /// Lookups of each inode that the resolver has taken over.
    pub closed spec fn remembered(&self) -> Map<u64, nat> {
        self.remembered@
    }

    /// Forget counts of each inode already handed out to the caller.
    pub closed spec fn taken(&self) -> Map<u64, nat> {
        self.taken@
    }

    /// Inodes whose reference count once stood at `u64::MAX` when another lookup came in.
    pub closed spec fn saturated(&self) -> Set<u64> {
        self.saturated@
    }

    /// The resolver's own consistency: keys are unique, every cached positive path holds at
    /// least one lookup, and lookups taken over are accounted for.
    pub closed spec fn wf(&self) -> bool {
        &&& unique_keys(self.paths@, pkey())
        &&& forall|k: Seq<char>| #[trigger] self.paths_view().contains_key(k) ==> (
            self.paths_view()[k] matches PathCacheEntry::Positive { outstanding, .. } ==> outstanding >= 1)
        &&& forall|ino: u64| #[trigger] self.accounted(ino)
    }

    /// For `ino`: forgets handed out, forgets queued and the live reference count together
    /// never exceed the lookups taken over, and match them exactly unless the count saturated.
    pub closed spec fn accounted(&self, ino: u64) -> bool {
        let total = count_of(self.taken@, ino) + forget_sum(self.pending_forgets@, ino) + ref_of(self.inodes_view(), ino);
        &&& total <= count_of(self.remembered@, ino)
        &&& !self.saturated@.contains(ino) ==> total == count_of(self.remembered@, ino)
    }

    /// The lookup accounting law.
    pub proof fn lemma_lookup_accounting(&self, ino: u64)
        requires
            self.wf(),
        ensures
            count_of(self.taken(), ino) + forget_sum(self.pending_view(), ino) + ref_of(self.inodes_view(), ino)
                <= count_of(self.remembered(), ino),
            !self.saturated().contains(ino) ==> count_of(self.taken(), ino) + forget_sum(self.pending_view(), ino)
                + ref_of(self.inodes_view(), ino) == count_of(self.remembered(), ino),
    {
        assert(self.accounted(ino));
    }

    /// An empty resolver that remembers missing paths for one second.
    pub fn new() -> (r: PathResolver)
        ensures
            r.wf(),
            r.paths_view() == PathMap::empty(),
            r.inodes_view() == InodeMap::empty(),
            r.pending_view() == Forgets::empty(),
            r.negative_ttl_view() == Some(DEFAULT_NEGATIVE_TTL_NANOS),
            r.remembered() == Map::<u64, nat>::empty(),
            r.taken() == Map::<u64, nat>::empty(),
    {
        let r = PathResolver {
            paths: Vec::new(),
            inodes: HashMap::new(),
            pending_forgets: Vec::new(),
            negative_ttl: Some(DEFAULT_NEGATIVE_TTL_NANOS),
            remembered: Ghost(Map::empty()),
            taken: Ghost(Map::empty()),
            saturated: Ghost(Set::empty()),
        };
        proof {
            lemma_amap_empty(r.paths@, pkey(), pval());
            assert forall|ino: u64| #[trigger] r.accounted(ino) by {}
        }
        r
    }

    /// How long missing paths are remembered, in nanoseconds; `None` when not at all.
    pub fn negative_ttl_nanos(&self) -> (r: Option<u64>)
        ensures
            r == self.negative_ttl_view(),
    {
        self.negative_ttl
    }

    /// Remember missing paths for `ttl`, or not at all when `ttl` is zero.
    pub fn set_negative_ttl(&mut self, ttl: TimeSpan)
        requires
            old(self).wf(),
        ensures
            final(self).wf(),
            final(self).model() == old(self).model(),
            final(self).negative_ttl_view() == if ttl@ == 0 { None } else { Some(
                if ttl@ <= u64::MAX { ttl@ as u64 } else { u64::MAX }) },
            final(self).remembered() == old(self).remembered(),
            final(self).taken() == old(self).taken(),
    {
        if ttl.is_zero() {
            self.negative_ttl = None;
        } else {
            self.negative_ttl = Some(ttl.as_nanos_saturating());
        }
        proof {
            assert forall|ino: u64| #[trigger] self.accounted(ino) by {
                assert(old(self).accounted(ino));
            }
        }
    }

    fn find_path(&self, key: &String) -> (r: Option<usize>)
        requires
            unique_keys(self.paths@, pkey()),
        ensures
            r is Some <==> self.paths_view().contains_key(key@),
            r matches Some(i) ==> i < self.paths@.len() && self.paths@[i as int].key@ == key@
                && self.paths_view()[key@] == self.paths@[i as int].entry,
    {
        let mut i: usize = 0;
        while i < self.paths.len()
            invariant
                i <= self.paths@.len(),
                unique_keys(self.paths@, pkey()),
                forall|j: int| 0 <= j < i ==> (#[trigger] self.paths@[j]).key@ != key@,
            decreases self.paths@.len() - i,
        {
            if self.paths[i].key == *key {
                proof {
                    lemma_amap_index(self.paths@, pkey(), pval(), i as int);
                }
                return Some(i);
            }
            i = i + 1;
        }
        proof {
            if has_key(self.paths@, pkey(), key@) {
                let j = choose|j: int| 0 <= j < self.paths@.len() && pkey()(#[trigger] self.paths@[j]) == key@;
                assert(self.paths@[j].key@ == key@);
            }
        }
        None
    }

    fn find_inode(&self, ino: u64) -> (r: Option<InodeState>)
        ensures
            r is Some <==> self.inodes_view().contains_key(ino),
            r matches Some(st) ==> self.inodes_view()[ino] == st,
    {
        match self.inodes.get(&ino) {
            Some(st) => Some(*st),
            None => None,
        }
    }

    /// The generation recorded for `ino`, or generation 0 for an unknown inode.
    pub fn generation_for(&self, ino: INodeNo) -> (r: Generation)
        requires
            self.wf(),
        ensures
            r == if self.inodes_view().contains_key(ino.0) { self.inodes_view()[ino.0].generation } else { Generation(0) },
            r == generation_of(self.model(), ino),
    {
        match self.find_inode(ino.0) {
            Some(st) => st.generation,
            None => Generation(0),
        }
    }

    fn remove_path_at(&mut self, i: usize) -> (r: PathCacheEntry)
        requires
            unique_keys(old(self).paths@, pkey()),
            i < old(self).paths@.len(),
        ensures
            unique_keys(final(self).paths@, pkey()),
            final(self).paths_view() == old(self).paths_view().remove(old(self).paths@[i as int].key@),
            final(self).paths@ == old(self).paths@.remove(i as int),
            r == old(self).paths_view()[old(self).paths@[i as int].key@],
            r == old(self).paths@[i as int].entry,
            final(self).inodes@ == old(self).inodes@,
            final(self).pending_forgets@ == old(self).pending_forgets@,
            final(self).negative_ttl == old(self).negative_ttl,
            final(self).remembered == old(self).remembered,
            final(self).taken == old(self).taken,
            final(self).saturated == old(self).saturated,
    {
        proof {
            lemma_amap_remove(self.paths@, pkey(), pval(), i as int);
            lemma_amap_index(self.paths@, pkey(), pval(), i as int);
        }
        let slot = self.paths.remove(i);
        slot.entry
    }

    fn insert_new_path(&mut self, key: String, entry: PathCacheEntry)
        requires
            unique_keys(old(self).paths@, pkey()),
            !old(self).paths_view().contains_key(key@),
        ensures
            unique_keys(final(self).paths@, pkey()),
            final(self).paths_view() == old(self).paths_view().insert(key@, entry),
            final(self).inodes@ == old(self).inodes@,
            final(self).pending_forgets@ == old(self).pending_forgets@,
            final(self).negative_ttl == old(self).negative_ttl,
            final(self).remembered == old(self).remembered,
            final(self).taken == old(self).taken,
            final(self).saturated == old(self).saturated,
    {
        let slot = PathSlot { key, entry };
        proof {
            lemma_amap_push(self.paths@, pkey(), pval(), slot);
        }
        self.paths.push(slot);
    }

    fn set_inode(&mut self, ino: u64, state: InodeState)
        ensures
            final(self).inodes_view() == old(self).inodes_view().insert(ino, state),
            final(self).paths@ == old(self).paths@,
            final(self).pending_forgets@ == old(self).pending_forgets@,
            final(self).negative_ttl == old(self).negative_ttl,
            final(self).remembered == old(self).remembered,
            final(self).taken == old(self).taken,
            final(self).saturated == old(self).saturated,
    {
        self.inodes.insert(ino, state);
    }

    /// Drops the inodes that are no longer live at `now`.
    fn retain_live_inodes(&mut self, now: u64)
        ensures
            final(self).inodes_view() == retain_live(old(self).inodes_view(), now),
            final(self).paths@ == old(self).paths@,
            final(self).pending_forgets@ == old(self).pending_forgets@,
            final(self).negative_ttl == old(self).negative_ttl,
            final(self).remembered == old(self).remembered,
            final(self).taken == old(self).taken,
            final(self).saturated == old(self).saturated,
    {
        let ghost orig = self.inodes@;
        let mut dead: Vec<u64> = Vec::new();
        for entry in it: self.inodes.iter()
            invariant
                self.inodes@ == orig,
                forall|j: int| 0 <= j < dead@.len() ==> orig.contains_key(#[trigger] dead@[j]) && !is_live(orig[dead@[j]], now),
                forall|j: int| 0 <= j < it.seq().len() ==> orig.contains_key(*(#[trigger] it.seq()[j]).0)
                    && orig[*it.seq()[j].0] == *it.seq()[j].1,
                forall|j: int| 0 <= j < it.index() ==> (!is_live(*(#[trigger] it.seq()[j]).1, now) ==> dead@.contains(*it.seq()[j].0)),
        {
            let ghost idx = it.index();
            assert(entry == it.seq()[idx]);
            let (k, st) = entry;
            let live = st.lookup_refcount > 0 || match st.attr_expires {
                Some(t) => t > now,
                None => false,
            };
            let ghost before = dead@;
            if !live {
                dead.push(*k);
                proof {
                    assert(dead@ == before.push(*k));
                    assert forall|j: int| 0 <= j < dead@.len() implies orig.contains_key(#[trigger] dead@[j]) && !is_live(orig[dead@[j]], now) by {
                        if j < before.len() {
                            assert(dead@[j] == before[j]);
                        }
                    }
                }
            }
            proof {
                assert(live == is_live(*st, now));
                assert forall|j: int| 0 <= j < idx + 1 implies (!is_live(*(#[trigger] it.seq()[j]).1, now)
                    ==> dead@.contains(*it.seq()[j].0)) by {
                    if j < idx {
                        if !is_live(*it.seq()[j].1, now) {
                            assert(before.contains(*it.seq()[j].0));
                            let i = choose|i: int| 0 <= i < before.len() && before[i] == *it.seq()[j].0;
                            if !live {
                                assert(dead@[i] == before[i]);
                            }
                        }
                    } else if !live {
                        assert(dead@[dead@.len() - 1] == *k);
                    }
                }
            }
        }
        let mut j: usize = 0;
        while j < dead.len()
            invariant
                j <= dead@.len(),
                forall|i: int| 0 <= i < dead@.len() ==> orig.contains_key(#[trigger] dead@[i]) && !is_live(orig[dead@[i]], now),
                forall|k: u64| orig.contains_key(k) && !is_live(orig[k], now) ==> dead@.contains(k),
                forall|k: u64| #[trigger] self.inodes@.contains_key(k) <==> (orig.contains_key(k) && !dead@.take(j as int).contains(k)),
                forall|k: u64| #[trigger] self.inodes@.contains_key(k) ==> self.inodes@[k] == orig[k],
                self.paths@ == old(self).paths@,
                self.pending_forgets@ == old(self).pending_forgets@,
                self.negative_ttl == old(self).negative_ttl,
                self.remembered == old(self).remembered,
                self.taken == old(self).taken,
                self.saturated == old(self).saturated,
            decreases dead@.len() - j,
        {
            let k = dead[j];
            let ghost before = self.inodes@;
            self.inodes.remove(&k);
            proof {
                assert(self.inodes@ == before.remove(k));
                let t0 = dead@.take(j as int);
                let t1 = dead@.take(j as int + 1);
                assert(t1 =~= t0.push(k));
                assert forall|x: u64| #[trigger] self.inodes@.contains_key(x) <==> (orig.contains_key(x) && !t1.contains(x)) by {
                    if t1.contains(x) && x != k {
                        let i = choose|i: int| 0 <= i < t1.len() && t1[i] == x;
                        assert(i < t0.len());
                        assert(t0[i] == x);
                    }
                    if t0.contains(x) {
                        let i = choose|i: int| 0 <= i < t0.len() && t0[i] == x;
                        assert(t1[i] == x);
                    }
                    if x == k {
                        assert(t1[j as int] == k);
                    }
                }
            }
            j = j + 1;
        }
        proof {
            assert(dead@.take(j as int) =~= dead@);
            assert(self.inodes@ =~= retain_live(orig, now));
        }
    }

    /// Gives back `count` outstanding lookups of `ino`.
    fn release(&mut self, ino: u64, count: u64, now: u64)
        requires
        ensures
            final(self).model() == release_model(old(self).model(), ino, count, now),
            final(self).paths@ == old(self).paths@,
            final(self).negative_ttl == old(self).negative_ttl,
            final(self).remembered == old(self).remembered,
            final(self).taken == old(self).taken,
            final(self).saturated == old(self).saturated,
            forall|i: u64| old(self).accounted(i) ==> #[trigger] final(self).accounted(i),
    {
        let ghost m0 = self.model();
        match self.find_inode(ino) {
            Some(st) => {
                let n = if st.lookup_refcount <= count { st.lookup_refcount } else { count };
                let new_state = InodeState {
                    attr: st.attr,
                    generation: st.generation,
                    lookup_refcount: st.lookup_refcount - n,
                    attr_expires: st.attr_expires,
                };
                self.set_inode(ino, new_state);
                if n > 0 {
                    self.pending_forgets.push((INodeNo(ino), n));
                }
            },
            None => {},
        }
        let ghost mid = self.inodes_view();
        self.retain_live_inodes(now);
        proof {
            assert(self.model().1 == release_model(m0, ino, count, now).1);
            assert(self.model() == release_model(m0, ino, count, now));
            assert forall|i: u64| old(self).accounted(i) implies #[trigger] self.accounted(i) by {
                lemma_ref_of_retain(mid, now, i);
                let p0 = old(self).pending_forgets@;
                if self.pending_forgets@ != p0 {
                    assert(self.pending_forgets@.drop_last() == p0);
                }
            }
        }
    }

    /// Probes the cache for `path` reached from `parent` at `parent_generation`.
    pub fn cached(&mut self, path: &str, parent: INodeNo, parent_generation: Generation, now: u64) -> (r: Option<Result<ResolvedEntry, i32>>)
        requires
            old(self).wf(),
        ensures
            final(self).wf(),
            r == cached_result(old(self).model(), normalize_path_spec(path@), parent, parent_generation, now),
            final(self).model() == cached_model(old(self).model(), normalize_path_spec(path@), parent, parent_generation, now),
            final(self).negative_ttl_view() == old(self).negative_ttl_view(),
            final(self).remembered() == old(self).remembered(),
            final(self).taken() == old(self).taken(),
    {
        let key = normalize_path(path);
        proof {
            reveal_strlit("\\");
            assert("\\"@ =~= root_key());
        }
        if str_eq(key.as_str(), "\\") {
            return None;
        }
        let i = match self.find_path(&key) {
            None => return None,
            Some(i) => i,
        };
        let ghost e = self.paths@[i as int].entry;
        match &self.paths[i].entry {
            PathCacheEntry::Positive { parent: p, parent_generation: g, ino, generation, entry_expires, .. } => {
                if *entry_expires > now && *p == parent && *g == parent_generation {
                    let ino = *ino;
                    let generation = *generation;
                    if self.find_inode(ino.0).is_some() {
                        return Some(Ok(ResolvedEntry { ino, generation }));
                    } else {
                        return None;
                    }
                }
            },
            PathCacheEntry::Negative { parent: p, parent_generation: g, expires, .. } => {
                if *expires > now && *p == parent && *g == parent_generation {
                    return Some(Err(ENOENT));
                }
            },
        }
        let ghost m0 = self.model();
        let entry = self.remove_path_at(i);
        match entry {
            PathCacheEntry::Positive { ino, outstanding, .. } => {
                self.release(ino.0, outstanding, now);
            },
            PathCacheEntry::Negative { .. } => {},
        }
        proof {
            assert(self.model() == drop_entry_model(m0, key@, e, false, now));
            assert forall|k: Seq<char>| #[trigger] self.paths_view().contains_key(k) implies (
                self.paths_view()[k] matches PathCacheEntry::Positive { outstanding, .. } ==> outstanding >= 1) by {
                assert(old(self).paths_view().contains_key(k));
            }
            assert forall|ino: u64| #[trigger] self.accounted(ino) by {
                assert(old(self).accounted(ino));
            }
        }
        None
    }

    /// Clears `key` ahead of a new positive entry for `ino` (see `take_reusable_model`).
    fn take_reusable(&mut self, key: &String, ino: u64, keep: bool, now: u64) -> (r: u64)
        requires
            old(self).wf(),
        ensures
            final(self).wf(),
            (final(self).model(), r) == take_reusable_model(old(self).model(), key@, ino, keep, now),
            !final(self).paths_view().contains_key(key@),
            final(self).negative_ttl == old(self).negative_ttl,
            final(self).remembered == old(self).remembered,
            final(self).taken == old(self).taken,
            final(self).saturated == old(self).saturated,
    {
        match self.find_path(key) {
            None => 0,
            Some(i) => {
                let ghost m0 = self.model();
                let entry = self.remove_path_at(i);
                let r = match entry {
                    PathCacheEntry::Positive { ino: cino, outstanding, .. } => {
                        if cino.0 == ino && keep {
                            outstanding
                        } else {
                            self.release(cino.0, outstanding, now);
                            0
                        }
                    },
                    PathCacheEntry::Negative { .. } => 0,
                };
                proof {
                    assert forall|k: Seq<char>| #[trigger] self.paths_view().contains_key(k) implies (
                        self.paths_view()[k] matches PathCacheEntry::Positive { outstanding, .. } ==> outstanding >= 1) by {
                        assert(old(self).paths_view().contains_key(k));
                    }
                    assert forall|ino: u64| #[trigger] self.accounted(ino) by {
                        assert(old(self).accounted(ino));
                    }
                }
                r
            },
        }
    }

    /// Remembers that `path`, named `name` under `parent` (at `parent_generation`), was found to be
    /// the inode of `attr` at `generation`, valid for `ttl`.
    pub fn remember_positive(
        &mut self,
        path: &str,
        parent: INodeNo,
        parent_generation: Generation,
        name: String,
        attr: FileAttr,
        generation: Generation,
        ttl: TimeSpan,
        now: u64,
    ) -> (r: ResolvedEntry)
        requires
            old(self).wf(),
        ensures
            final(self).wf(),
            r == (ResolvedEntry { ino: attr.ino, generation }),
            final(self).model() == remember_positive_model(old(self).model(), normalize_path_spec(path@), parent, parent_generation, name, attr, generation, span_nanos(ttl), now),
            final(self).negative_ttl_view() == old(self).negative_ttl_view(),
            final(self).remembered() == add_count(old(self).remembered(), attr.ino.0, 1),
            final(self).taken() == old(self).taken(),
    {
        let key = normalize_path(path);
        let ttl_nanos = ttl.as_nanos_saturating();
        let keep = ttl_nanos != 0;
        let ino = attr.ino;
        let reused = self.take_reusable(&key, ino.0, keep, now);
        let ghost m1 = self.model();
        let ghost mid = *self;
        if keep {
            let outstanding = if reused < u64::MAX { reused + 1 } else { reused };
            let entry = PathCacheEntry::Positive {
                parent,
                parent_generation,
                name,
                ino,
                generation,
                entry_expires: if now <= u64::MAX - ttl_nanos { now + ttl_nanos } else { u64::MAX },
                outstanding,
            };
            self.insert_new_path(key, entry);
            match self.find_inode(ino.0) {
                Some(st) => {
                    let new_state = InodeState {
                        attr: if st.attr_expires.is_none() { attr } else { st.attr },
                        generation,
                        lookup_refcount: if st.lookup_refcount < u64::MAX { st.lookup_refcount + 1 } else { st.lookup_refcount },
                        attr_expires: st.attr_expires,
                    };
                    if st.lookup_refcount == u64::MAX {
                        self.saturated = Ghost(self.saturated@.insert(ino.0));
                    }
                    self.set_inode(ino.0, new_state);
                },
                None => {
                    self.set_inode(ino.0, InodeState { attr, generation, lookup_refcount: 1, attr_expires: None });
                },
            }
        } else {
            self.retain_live_inodes(now);
            self.pending_forgets.push((ino, 1));
        }
        self.remembered = Ghost(add_count(self.remembered@, ino.0, 1));
        proof {
            assert(self.inodes_view() == remember_positive_model(old(self).model(), key@, parent, parent_generation, name, attr, generation, ttl_nanos, now).1);
            assert(self.model() == remember_positive_model(old(self).model(), key@, parent, parent_generation, name, attr, generation, ttl_nanos, now));
            assert forall|k: Seq<char>| #[trigger] self.paths_view().contains_key(k) implies (
                self.paths_view()[k] matches PathCacheEntry::Positive { outstanding, .. } ==> outstanding >= 1) by {
                if k != key@ {
                    assert(mid.paths_view().contains_key(k));
                }
            }
            assert forall|i: u64| #[trigger] self.accounted(i) by {
                assert(mid.accounted(i));
                lemma_ref_of_retain(mid.inodes_view(), now, i);
                if !keep {
                    assert(self.pending_forgets@.drop_last() == mid.pending_forgets@);
                }
            }
        }
        ResolvedEntry { ino, generation }
    }

    /// Remembers that `path`, named `name` under `parent` (at `parent_generation`), does not exist.
    pub fn remember_negative(&mut self, path: &str, parent: INodeNo, parent_generation: Generation, name: String, now: u64)
        requires
            old(self).wf(),
        ensures
            final(self).wf(),
            final(self).model() == remember_negative_model(old(self).model(), normalize_path_spec(path@), parent, parent_generation, name, old(self).negative_ttl_view(), now),
            final(self).negative_ttl_view() == old(self).negative_ttl_view(),
            final(self).remembered() == old(self).remembered(),
            final(self).taken() == old(self).taken(),
    {
        let key = normalize_path(path);
        let ghost m0 = self.model();
        match self.find_path(&key) {
            None => {},
            Some(i) => {
                let ghost e = self.paths@[i as int].entry;
                let entry = self.remove_path_at(i);
                match entry {
                    PathCacheEntry::Positive { ino, outstanding, .. } => {
                        self.clear_inode_attr(ino.0);
                        self.release(ino.0, outstanding, now);
                    },
                    PathCacheEntry::Negative { .. } => {},
                }
                proof {
                    assert(self.model() == drop_entry_model(m0, key@, e, true, now));
                }
            },
        }
        let ghost mid = *self;
        proof {
            assert forall|k: Seq<char>| #[trigger] self.paths_view().contains_key(k) implies (
                self.paths_view()[k] matches PathCacheEntry::Positive { outstanding, .. } ==> outstanding >= 1) by {
                assert(old(self).paths_view().contains_key(k));
            }
            assert forall|ino: u64| #[trigger] self.accounted(ino) by {
                assert(old(self).accounted(ino));
            }
        }
        match self.negative_ttl {
            None => {},
            Some(ttl) => {
                let expires = if now <= u64::MAX - ttl { now + ttl } else { u64::MAX };
                self.insert_new_path(key, PathCacheEntry::Negative { parent, parent_generation, name, expires });
                proof {
                    assert forall|k: Seq<char>| #[trigger] self.paths_view().contains_key(k) implies (
                        self.paths_view()[k] matches PathCacheEntry::Positive { outstanding, .. } ==> outstanding >= 1) by {
                        if k != key@ {
                            assert(mid.paths_view().contains_key(k));
                        }
                    }
                    assert forall|ino: u64| #[trigger] self.accounted(ino) by {
                        assert(mid.accounted(ino));
                    }
                }
            },
        }
    }

    /// Forgets the cached attributes of `ino`, keeping everything else.
    fn clear_inode_attr(&mut self, ino: u64)
        requires
        ensures
            final(self).inodes_view() == clear_attr(old(self).inodes_view(), ino),
            final(self).paths@ == old(self).paths@,
            final(self).pending_forgets@ == old(self).pending_forgets@,
            final(self).negative_ttl == old(self).negative_ttl,
            final(self).remembered == old(self).remembered,
            final(self).taken == old(self).taken,
            final(self).saturated == old(self).saturated,
            forall|i: u64| old(self).accounted(i) ==> #[trigger] final(self).accounted(i),
    {
        match self.find_inode(ino) {
            Some(st) => {
                self.set_inode(ino, InodeState { attr: st.attr, generation: st.generation, lookup_refcount: st.lookup_refcount, attr_expires: None });
            },
            None => {},
        }
    }

    /// The cached attributes of `ino` while they are valid; stale ones are forgotten.
    pub fn cached_attr(&mut self, ino: INodeNo, now: u64) -> (r: Option<FileAttr>)
        requires
            old(self).wf(),
        ensures
            final(self).wf(),
            r == cached_attr_result(old(self).inodes_view(), ino.0, now),
            final(self).paths_view() == old(self).paths_view(),
            final(self).pending_view() == old(self).pending_view(),
            final(self).inodes_view() == if old(self).inodes_view().contains_key(ino.0) && r is None {
                retain_live(clear_attr(old(self).inodes_view(), ino.0), now)
            } else {
                old(self).inodes_view()
            },
            final(self).negative_ttl_view() == old(self).negative_ttl_view(),
            final(self).remembered() == old(self).remembered(),
            final(self).taken() == old(self).taken(),
    {
        match self.find_inode(ino.0) {
            None => None,
            Some(st) => {
                let valid = match st.attr_expires {
                    Some(t) => t > now,
                    None => false,
                };
                if valid {
                    Some(st.attr)
                } else {
                    self.invalidate_inode_attr(ino, now);
                    None
                }
            },
        }
    }

    /// Forgets the cached attributes of `ino` and drops inodes no longer live at `now`.
    pub fn invalidate_inode_attr(&mut self, ino: INodeNo, now: u64)
        requires
            old(self).wf(),
        ensures
            final(self).wf(),
            final(self).paths_view() == old(self).paths_view(),
            final(self).path_slots() == old(self).path_slots(),
            final(self).pending_view() == old(self).pending_view(),
            final(self).inodes_view() == retain_live(clear_attr(old(self).inodes_view(), ino.0), now),
            final(self).negative_ttl_view() == old(self).negative_ttl_view(),
            final(self).remembered() == old(self).remembered(),
            final(self).taken() == old(self).taken(),
    {
        self.clear_inode_attr(ino.0);
        let ghost mid = *self;
        self.retain_live_inodes(now);
        proof {
            assert forall|i: u64| #[trigger] self.accounted(i) by {
                assert(old(self).accounted(i));
                assert(mid.accounted(i));
                lemma_ref_of_retain(mid.inodes_view(), now, i);
            }
        }
    }

    /// Caches `attr` as the attributes of `ino` for `ttl`; a zero `ttl` forgets cached attributes.
    pub fn remember_attr(&mut self, ino: INodeNo, attr: FileAttr, ttl: TimeSpan, now: u64)
        requires
            old(self).wf(),
        ensures
            final(self).wf(),
            final(self).paths_view() == old(self).paths_view(),
            final(self).pending_view() == old(self).pending_view(),
            final(self).inodes_view() == remember_attr_model(old(self).inodes_view(), ino.0, attr, span_nanos(ttl), now),
            final(self).negative_ttl_view() == old(self).negative_ttl_view(),
            final(self).remembered() == old(self).remembered(),
            final(self).taken() == old(self).taken(),
    {
        let ttl_nanos = ttl.as_nanos_saturating();
        if ttl_nanos == 0 {
            self.clear_inode_attr(ino.0);
            return;
        }
        let expires = if now <= u64::MAX - ttl_nanos { now + ttl_nanos } else { u64::MAX };
        match self.find_inode(ino.0) {
            Some(st) => {
                self.set_inode(ino.0, InodeState { attr, generation: st.generation, lookup_refcount: st.lookup_refcount, attr_expires: Some(expires) });
            },
            None => {
                self.set_inode(ino.0, InodeState { attr, generation: Generation(0), lookup_refcount: 0, attr_expires: Some(expires) });
            },
        }
        proof {
            assert forall|i: u64| #[trigger] self.accounted(i) by {
                assert(old(self).accounted(i));
            }
        }
    }

    /// Hands out the queued forgets, oldest first, and empties the queue.
    pub fn take_pending_forgets(&mut self) -> (r: Vec<(INodeNo, u64)>)
        requires
            old(self).wf(),
        ensures
            final(self).wf(),
            r@ == old(self).pending_view(),
            final(self).pending_view() == Forgets::empty(),
            final(self).paths_view() == old(self).paths_view(),
            final(self).path_slots() == old(self).path_slots(),
            final(self).inodes_view() == old(self).inodes_view(),
            final(self).negative_ttl_view() == old(self).negative_ttl_view(),
            final(self).remembered() == old(self).remembered(),
            final(self).taken() == add_forgets(old(self).taken(), old(self).pending_view()),
    {
        let mut out: Vec<(INodeNo, u64)> = Vec::new();
        std::mem::swap(&mut out, &mut self.pending_forgets);
        self.taken = Ghost(add_forgets(self.taken@, out@));
        proof {
            assert forall|i: u64| #[trigger] self.accounted(i) by {
                assert(old(self).accounted(i));
                assert(count_of(self.taken@, i) == count_of(old(self).taken@, i) + forget_sum(out@, i));
            }
        }
        out
    }

    fn rule_matches(rule: &DropRule, slot: &PathSlot, now: u64) -> (r: bool)
        ensures
            r == rule_drops(*rule, slot.key@, slot.entry, now),
    {
        match rule {
            DropRule::Expired => {
                let exp = match &slot.entry {
                    PathCacheEntry::Positive { entry_expires, .. } => *entry_expires,
                    PathCacheEntry::Negative { expires, .. } => *expires,
                };
                exp <= now
            },
            DropRule::Subtree { key, prefix } => {
                str_eq(slot.key.as_str(), key.as_str()) || strip_prefix(slot.key.as_str(), prefix.as_str()).is_some()
            },
            DropRule::Entry { parent, lowered } => {
                let (p, name) = match &slot.entry {
                    PathCacheEntry::Positive { parent, name, .. } => (*parent, name),
                    PathCacheEntry::Negative { parent, name, .. } => (*parent, name),
                };
                if p != *parent {
                    false
                } else {
                    let l = to_lowercase(name.as_str());
                    str_eq(l.as_str(), lowered.as_str())
                }
            },
        }
    }

    /// Removes, in cache order, every entry that `rule` selects; positive entries give their
    /// lookups back, forgetting their inode's cached attributes first when `clear` holds.
    fn drop_where(&mut self, rule: &DropRule, clear: bool, now: u64)
        requires
            old(self).wf(),
        ensures
            final(self).wf(),
            final(self).model() == drop_matching_model(old(self).model(), old(self).path_slots(), rule_pred(*rule, now), clear, now),
            final(self).path_slots() == kept_slots(old(self).path_slots(), rule_pred(*rule, now)),
            final(self).negative_ttl == old(self).negative_ttl,
            final(self).remembered == old(self).remembered,
            final(self).taken == old(self).taken,
    {
        let ghost orig = self.path_slots();
        let ghost m0 = self.model();
        let ghost pred = rule_pred(*rule, now);
        let mut i: usize = 0;
        let ghost mut j: int = 0;
        proof {
            assert(orig.take(0) =~= Seq::<(Seq<char>, PathCacheEntry)>::empty());
            assert(self.path_slots() =~= kept_slots(orig.take(0), pred) + orig.skip(0));
        }
        while i < self.paths.len()
            invariant
                self.wf(),
                0 <= j <= orig.len(),
                pred == rule_pred(*rule, now),
                self.path_slots() == kept_slots(orig.take(j), pred) + orig.skip(j),
                i == kept_slots(orig.take(j), pred).len(),
                self.model() == drop_matching_model(m0, orig.take(j), pred, clear, now),
                self.negative_ttl == old(self).negative_ttl,
                self.remembered == old(self).remembered,
                self.taken == old(self).taken,
            decreases self.paths@.len() - i,
        {
            proof {
                assert(self.path_slots().len() == self.paths@.len());
                assert(j < orig.len());
                assert(self.path_slots()[i as int] == orig[j]);
                assert(orig.take(j + 1).drop_last() =~= orig.take(j));
                assert(orig.take(j + 1).last() == orig[j]);
            }
            let ghost before = *self;
            if Self::rule_matches(rule, &self.paths[i], now) {
                let entry = self.remove_path_at(i);
                let ghost after_remove = *self;
                match entry {
                    PathCacheEntry::Positive { ino, outstanding, .. } => {
                        if clear {
                            self.clear_inode_attr(ino.0);
                        }
                        self.release(ino.0, outstanding, now);
                    },
                    PathCacheEntry::Negative { .. } => {},
                }
                proof {
                    assert(self.paths@ == after_remove.paths@);
                    assert(self.path_slots() =~= before.path_slots().remove(i as int));
                    assert(kept_slots(orig.take(j + 1), pred) == kept_slots(orig.take(j), pred));
                    assert(self.path_slots() =~= kept_slots(orig.take(j + 1), pred) + orig.skip(j + 1));
                    assert(self.model() == drop_entry_model(before.model(), orig[j].0, orig[j].1, clear, now));
                    assert forall|k: Seq<char>| #[trigger] self.paths_view().contains_key(k) implies (
                        self.paths_view()[k] matches PathCacheEntry::Positive { outstanding, .. } ==> outstanding >= 1) by {
                        assert(before.paths_view().contains_key(k));
                    }
                    assert forall|x: u64| #[trigger] self.accounted(x) by {
                        assert(before.accounted(x));
                    }
                }
            } else {
                i = i + 1;
                proof {
                    assert(kept_slots(orig.take(j + 1), pred) == kept_slots(orig.take(j), pred).push(orig[j]));
                    assert(self.path_slots() =~= kept_slots(orig.take(j + 1), pred) + orig.skip(j + 1));
                }
            }
            proof {
                j = j + 1;
            }
        }
        proof {
            assert(self.path_slots().len() == self.paths@.len());
            assert(j == orig.len());
            assert(orig.take(j) =~= orig);
            assert(self.path_slots() =~= kept_slots(orig, pred));
        }
    }

    /// Removes the entries whose validity has ended at `now` and hands out all queued forgets.
    pub fn reap_expired(&mut self, now: u64) -> (r: Vec<(INodeNo, u64)>)
        requires
            old(self).wf(),
        ensures
            final(self).wf(),
            ({
                let m1 = drop_matching_model(old(self).model(), old(self).path_slots(), expired_pred(now), false, now);
                &&& r@ == m1.2
                &&& final(self).model() == (m1.0, m1.1, Forgets::empty())
                &&& final(self).taken() == add_forgets(old(self).taken(), m1.2)
            }),
            final(self).negative_ttl_view() == old(self).negative_ttl_view(),
            final(self).remembered() == old(self).remembered(),
    {
        let rule = DropRule::Expired;
        proof {
            assert(rule_pred(rule, now) =~= expired_pred(now));
        }
        self.drop_where(&rule, false, now);
        self.take_pending_forgets()
    }

    /// Removes the entry at `path` and every entry below it (forgetting cached attributes of
    /// their inodes), hands out all queued forgets, and drops inodes no longer live.
    pub fn invalidate_subtree(&mut self, path: &str, now: u64) -> (r: Vec<(INodeNo, u64)>)
        requires
            old(self).wf(),
        ensures
            final(self).wf(),
            ({
                let m1 = drop_matching_model(old(self).model(), old(self).path_slots(), subtree_pred(normalize_path_spec(path@)), true, now);
                &&& r@ == m1.2
                &&& final(self).model() == (m1.0, retain_live(m1.1, now), Forgets::empty())
                &&& final(self).taken() == add_forgets(old(self).taken(), m1.2)
            }),
            final(self).path_slots() == kept_slots(old(self).path_slots(), subtree_pred(normalize_path_spec(path@))),
            final(self).negative_ttl_view() == old(self).negative_ttl_view(),
            final(self).remembered() == old(self).remembered(),
    {
        let key = normalize_path(path);
        let prefix = with_trailing_separator(key.as_str());
        let rule = DropRule::Subtree { key, prefix };
        proof {
            assert(rule_pred(rule, now) =~= subtree_pred(normalize_path_spec(path@)));
        }
        self.drop_where(&rule, true, now);
        let forgets = self.take_pending_forgets();
        self.retain_after_invalidation(now);
        forgets
    }

    fn retain_after_invalidation(&mut self, now: u64)
        requires
            old(self).wf(),
        ensures
            final(self).wf(),
            final(self).model() == (old(self).model().0, retain_live(old(self).model().1, now), old(self).model().2),
            final(self).path_slots() == old(self).path_slots(),
            final(self).negative_ttl == old(self).negative_ttl,
            final(self).remembered == old(self).remembered,
            final(self).taken == old(self).taken,
    {
        self.retain_live_inodes(now);
        proof {
            assert forall|x: u64| #[trigger] self.accounted(x) by {
                assert(old(self).accounted(x));
                lemma_ref_of_retain(old(self).inodes_view(), now, x);
            }
        }
    }

    /// Removes every entry under `parent` named `name` (compared after lower-casing), forgetting
    /// cached attributes of their inodes; hands out all queued forgets and drops inodes no longer live.
    pub fn invalidate_entry(&mut self, parent: INodeNo, name: &str, now: u64) -> (r: Vec<(INodeNo, u64)>)
        requires
            old(self).wf(),
        ensures
            final(self).wf(),
            ({
                let m1 = drop_matching_model(old(self).model(), old(self).path_slots(), named_entry_pred(parent, name@), true, now);
                &&& r@ == m1.2
                &&& final(self).model() == (m1.0, retain_live(m1.1, now), Forgets::empty())
                &&& final(self).taken() == add_forgets(old(self).taken(), m1.2)
            }),
            final(self).negative_ttl_view() == old(self).negative_ttl_view(),
            final(self).remembered() == old(self).remembered(),
    {
        let lowered = to_lowercase(name);
        let rule = DropRule::Entry { parent, lowered };
        proof {
            assert(rule_pred(rule, now) =~= named_entry_pred(parent, name@));
        }
        self.drop_where(&rule, true, now);
        let forgets = self.take_pending_forgets();
        self.retain_after_invalidation(now);
        forgets
    }

    /// `invalidate_entry` for a kernel-style notification, whose forgets are dropped.
    pub fn invalidate_entry_from_notify(&mut self, parent: INodeNo, name: &str, now: u64)
        requires
            old(self).wf(),
        ensures
            final(self).wf(),
            ({
                let m1 = drop_matching_model(old(self).model(), old(self).path_slots(), named_entry_pred(parent, name@), true, now);
                &&& final(self).model() == (m1.0, retain_live(m1.1, now), Forgets::empty())
                &&& final(self).taken() == add_forgets(old(self).taken(), m1.2)
            }),
            final(self).negative_ttl_view() == old(self).negative_ttl_view(),
            final(self).remembered() == old(self).remembered(),
    {
        let _ = self.invalidate_entry(parent, name, now);
    }

    /// Invalidation removes exactly what it selects: afterwards a path is cached if and only if
    /// it was cached before and its entry is not selected, and every remaining entry is unchanged.
    pub proof fn lemma_invalidation_removes_selected(&self, pred: spec_fn(Seq<char>, PathCacheEntry) -> bool, clear: bool, now: u64)
        requires
            self.wf(),
        ensures
            ({
                let after = drop_matching_model(self.model(), self.path_slots(), pred, clear, now).0;
                forall|k: Seq<char>| #[trigger] after.contains_key(k) <==> (self.paths_view().contains_key(k) && !pred(k, self.paths_view()[k]))
            }),
            ({
                let after = drop_matching_model(self.model(), self.path_slots(), pred, clear, now).0;
                forall|k: Seq<char>| #[trigger] after.contains_key(k) ==> after[k] == self.paths_view()[k]
            }),
    {
        let slots = self.path_slots();
        lemma_drop_matching_paths(self.model(), slots, pred, clear, now);
        assert forall|k: Seq<char>| self.paths_view().contains_key(k) implies
            (selected_keys(slots, pred).contains(k) <==> pred(k, self.paths_view()[k])) by {
            let i = choose|i: int| 0 <= i < self.paths@.len() && pkey()(#[trigger] self.paths@[i]) == k;
            lemma_amap_index(self.paths@, pkey(), pval(), i);
            assert(slots[i] == (k, self.paths_view()[k]));
            if selected_keys(slots, pred).contains(k) {
                let j = choose|j: int| 0 <= j < slots.len() && (#[trigger] slots[j]).0 == k && pred(slots[j].0, slots[j].1);
                assert(slots[j] == (self.paths@[j].key@, self.paths@[j].entry));
                if j != i {
                    assert(pkey()(self.paths@[j]) == pkey()(self.paths@[i]));
                }
            }
        }
    }
}

} // verus!
