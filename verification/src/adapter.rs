//! The decisions of the Windows callback adapter, taken between the calls it
//! makes into the filesystem: how a create request is carried out and what
//! each reply turns into, how a path is walked through the lookup cache,
//! and how directory entries are reported.
use vstd::prelude::*;
use std::time::SystemTime;
use crate::errno::{EAGAIN, EIO, ENOENT, ENOSYS, NO_XATTR};
use crate::flags::FopenFlags;
use crate::helpers::{LOCK_TYPE_UNLCK, classify_optional_probe_error, AdapterContext, CreateDispositionPlan, STATUS_UNSUCCESSFUL, access_mask_to_open_flags,
    access_open_flags, create_disposition_plan, disposition_plan, errno_to_ntstatus, is_directory_open,
    missing_reply_status, mode_from_file_attributes, ntstatus_of, STATUS_INVALID_PARAMETER, checked_dokan_len, filetype_to_windows_attr, find_files_attr_from_kind_and_perm, windows_attr, FILE_ATTRIBUTE_READONLY, FILE_DIRECTORY_FILE};
use crate::paths::{rename_descendant_path_key, rename_key_spec, child_path_from_parent, child_path_spec, normalize_path_spec, normalized_components, normalized_components_spec, split_parent_and_name, split_parent_and_name_spec, string_views};
use crate::resolver::{PathResolver, Model, PathCacheEntry, add_count, clear_attr, drop_matching_model, generation_of, kept_slots, retain_live, subtree_pred, cached_model, cached_result, remember_negative_model, remember_positive_model, span_nanos};
use crate::reply::{DirectoryEntryPayload, DirectoryPlusEntryPayload, ReplyOpenPayload};
use crate::request::RequestIds;
use crate::text::{push_char, str_eq};
use crate::security::xattr_reported_len;
use crate::types::{FileAttr, FileHandle, FileType, Generation, INodeNo, ROOT_INODE, TimeSpan};

verus! {

/// What a create request does once its parent is resolved.
#[derive(Clone, Copy, Debug, PartialEq, Eq, Structural)]
pub enum CreateAction {
    /// The path names the root: hand out a context on the root directory.
    RootContext,
    /// Open the existing entry.
    OpenExisting { open_flags: i32, is_dir_open: bool },
    /// Make a directory with `mode`.
    MakeDirectory { mode: u32 },
    /// Create a file with `mode`; on a name collision the plan may fall back
    /// to opening the existing entry.
    CreateFile { mode: u32, open_flags: i32, plan: CreateDispositionPlan },
}

/// A create request, taken apart.
#[derive(Debug)]
pub struct CreatePlan {
    /// The path of the parent directory, resolved before anything else.
    pub parent_path: String,
    /// The last component of the path.
    pub leaf: String,
    /// The root inode when the path is `\`, else 0 (to be resolved).
    pub path_ino: INodeNo,
    pub action: CreateAction,
}

/// The action a create request asks for, given its leaf name.
pub open spec fn create_action(leaf: Seq<char>, desired_access: u32, file_attributes: u32,
    create_disposition: u32, create_options: u32) -> CreateAction {
    let plan = disposition_plan(create_disposition);
    let is_dir_open = create_options & FILE_DIRECTORY_FILE != 0;
    let open_flags = access_open_flags(desired_access);
    let mode: u32 = if file_attributes & FILE_ATTRIBUTE_READONLY != 0 { 0o444 } else { 0o644 };
    if leaf.len() == 0 {
        CreateAction::RootContext
    } else if !plan.spec_creates_entry() {
        CreateAction::OpenExisting { open_flags, is_dir_open }
    } else if is_dir_open {
        CreateAction::MakeDirectory { mode }
    } else {
        CreateAction::CreateFile { mode, open_flags, plan }
    }
}

/// Takes a create request apart: the parent to resolve, the leaf, the
/// inode already known for the path, and what to do.
pub fn plan_create_file(file_name: &str, desired_access: u32, file_attributes: u32,
    create_disposition: u32, create_options: u32) -> (r: CreatePlan)
    ensures
        r.parent_path@ == split_parent_and_name_spec(file_name@).0,
        r.leaf@ == split_parent_and_name_spec(file_name@).1,
        r.path_ino == if file_name@ == seq!['\\'] { INodeNo(ROOT_INODE) } else { INodeNo(0) },
        r.action == create_action(split_parent_and_name_spec(file_name@).1, desired_access,
            file_attributes, create_disposition, create_options),
{
    let (parent_path, leaf) = split_parent_and_name(file_name);
    let root = "\\";
    proof {
        reveal_strlit("\\");
        assert(root@ =~= seq!['\\']);
    }
    let path_ino = if str_eq(file_name, root) { INodeNo::root() } else { INodeNo(0) };
    let action = if leaf.unicode_len() == 0 {
        CreateAction::RootContext
    } else {
        let plan = create_disposition_plan(create_disposition);
        let is_dir_open = is_directory_open(create_options);
        let open_flags = access_mask_to_open_flags(desired_access);
        if !plan.creates_entry() {
            CreateAction::OpenExisting { open_flags, is_dir_open }
        } else {
            let mode = mode_from_file_attributes(file_attributes);
            if is_dir_open {
                CreateAction::MakeDirectory { mode }
            } else {
                CreateAction::CreateFile { mode, open_flags, plan }
            }
        }
    };
    CreatePlan { parent_path, leaf, path_ino, action }
}

/// A context on the root directory for the caller `request_ids`.
pub fn root_context(request_ids: RequestIds) -> (r: AdapterContext)
    ensures
        r.fh == FileHandle(0),
        r.flags.spec_bits() == 0,
        r.ino == INodeNo(ROOT_INODE),
        r.is_dir,
        r.lock_owner is None,
        r.request_ids == request_ids,
{
    AdapterContext {
        fh: FileHandle(0),
        flags: FopenFlags::from_bits_retain(0),
        ino: INodeNo::root(),
        is_dir: true,
        lock_owner: None,
        request_ids,
    }
}

/// The inode a new entry is known by: the one its attributes give, or the
/// inode already known for its path when the attributes give none.
pub open spec fn entry_ino(attr_ino: INodeNo, path_ino: INodeNo) -> INodeNo {
    if attr_ino.0 != 0 { attr_ino } else { path_ino }
}

/// What a `mkdir` reply turns into: a context on the new directory, the
/// mapped error, or the missing-reply status.
pub fn mkdir_outcome(reply: Option<Result<INodeNo, i32>>, path_ino: INodeNo, request_ids: RequestIds)
    -> (r: Result<AdapterContext, i32>)
    ensures
        reply matches Some(Ok(attr_ino)) ==> (r matches Ok(c) && c.fh == FileHandle(0) && c.flags.spec_bits() == 0
            && c.ino == entry_ino(attr_ino, path_ino) && c.is_dir && c.lock_owner is None && c.request_ids == request_ids),
        reply matches Some(Err(err)) ==> r == Err::<AdapterContext, i32>(ntstatus_of(err)),
        reply is None ==> r == Err::<AdapterContext, i32>(STATUS_UNSUCCESSFUL),
{
    match reply {
        Some(Ok(attr_ino)) => {
            let ino = if attr_ino.0 != 0 { attr_ino } else { path_ino };
            Ok(AdapterContext {
                fh: FileHandle(0),
                flags: FopenFlags::from_bits_retain(0),
                ino,
                is_dir: true,
                lock_owner: None,
                request_ids,
            })
        },
        Some(Err(err)) => Err(errno_to_ntstatus(err)),
        None => Err(missing_reply_status()),
    }
}

/// What a successful `create` reply tells the adapter.
#[derive(Clone, Copy, Debug, PartialEq, Eq, Structural)]
pub struct CreatedFile {
    pub ino: INodeNo,
    pub kind: FileType,
    pub fh: FileHandle,
    pub flags: u32,
}

/// What a `create` reply turns into.
#[derive(Clone, Copy, Debug, PartialEq, Eq)]
pub enum CreateOutcome {
    /// The file was created and opened with this context.
    Created(AdapterContext),
    /// The name was taken and the plan falls back to opening the existing entry.
    OpenExisting,
    /// The request failed with this status.
    Failed(i32),
}

pub fn create_outcome(reply: Option<Result<CreatedFile, i32>>, plan: CreateDispositionPlan, path_ino: INodeNo,
    is_dir_open: bool, request_ids: RequestIds) -> (r: CreateOutcome)
    ensures
        reply matches Some(Ok(f)) ==> (r matches CreateOutcome::Created(c) && c.fh == f.fh && c.flags.spec_bits() == f.flags
            && c.ino == entry_ino(f.ino, path_ino) && c.is_dir == (f.kind == FileType::Directory || is_dir_open)
            && c.lock_owner is None && c.request_ids == request_ids),
        reply matches Some(Err(err)) ==> r == if err == crate::errno::EEXIST && (plan == CreateDispositionPlan::CreateThenOpenOnExists
            || plan == CreateDispositionPlan::Supersede) { CreateOutcome::OpenExisting } else { CreateOutcome::Failed(ntstatus_of(err)) },
        reply is None ==> r == CreateOutcome::Failed(STATUS_UNSUCCESSFUL),
{
    match reply {
        Some(Ok(f)) => {
            let ino = if f.ino.0 != 0 { f.ino } else { path_ino };
            let is_dir = match f.kind {
                FileType::Directory => true,
                _ => is_dir_open,
            };
            CreateOutcome::Created(AdapterContext {
                fh: f.fh,
                flags: FopenFlags::from_bits_retain(f.flags),
                ino,
                is_dir,
                lock_owner: None,
                request_ids,
            })
        },
        Some(Err(err)) => {
            if plan.opens_existing_after_collision(err) {
                CreateOutcome::OpenExisting
            } else {
                CreateOutcome::Failed(errno_to_ntstatus(err))
            }
        },
        None => CreateOutcome::Failed(missing_reply_status()),
    }
}

/// What an `open` or `opendir` reply turns into: a context on `actual_ino`.
pub fn open_outcome(reply: Option<Result<ReplyOpenPayload, i32>>, actual_ino: INodeNo, is_dir_open: bool,
    request_ids: RequestIds) -> (r: Result<AdapterContext, i32>)
    ensures
        reply matches Some(Ok(p)) ==> (r matches Ok(c) && c.fh == p.fh && c.flags.spec_bits() == p.flags
            && c.ino == actual_ino && c.is_dir == is_dir_open && c.lock_owner is None && c.request_ids == request_ids),
        reply matches Some(Err(err)) ==> r == Err::<AdapterContext, i32>(ntstatus_of(err)),
        reply is None ==> r == Err::<AdapterContext, i32>(STATUS_UNSUCCESSFUL),
{
    match reply {
        Some(Ok(p)) => Ok(AdapterContext {
            fh: p.fh,
            flags: FopenFlags::from_bits_retain(p.flags),
            ino: actual_ino,
            is_dir: is_dir_open,
            lock_owner: None,
            request_ids,
        }),
        Some(Err(err)) => Err(errno_to_ntstatus(err)),
        None => Err(missing_reply_status()),
    }
}

/// The inode to open: the one already known for the path, or none when the
/// path must be resolved first.
pub fn known_open_ino(path_ino: INodeNo) -> (r: Option<INodeNo>)
    ensures
        path_ino.0 != 0 ==> r == Some(path_ino),
        path_ino.0 == 0 ==> r is None,
{
    if path_ino.0 != 0 {
        Some(path_ino)
    } else {
        None
    }
}

/// A path being resolved from the root, one component at a time: each
/// component is taken from the lookup cache when it holds it, and looked up
/// in the filesystem otherwise.
pub struct PathWalk {
    components: Vec<String>,
    next: usize,
    current_ino: INodeNo,
    current_generation: Generation,
    current_path: String,
}

/// A lookup the walk needs the filesystem to answer.
#[derive(Debug)]
pub struct LookupRequest {
    /// The path of the component being looked up.
    pub path: String,
    pub parent: INodeNo,
    pub parent_generation: Generation,
    pub name: String,
}

/// What a successful lookup reply tells the walk.
#[derive(Clone, Copy, Debug)]
pub struct LookedUp {
    pub attr: FileAttr,
    pub generation: Generation,
    pub ttl: TimeSpan,
}

impl PathWalk {
    /// The normalised components of the path.
    pub closed spec fn spec_components(&self) -> Seq<Seq<char>> {
        string_views(self.components@)
    }

    /// How many components are resolved.
    pub closed spec fn spec_next(&self) -> nat {
        self.next as nat
    }

    pub closed spec fn spec_ino(&self) -> INodeNo {
        self.current_ino
    }

    pub closed spec fn spec_generation(&self) -> Generation {
        self.current_generation
    }

    /// The path resolved so far.
    pub closed spec fn spec_path(&self) -> Seq<char> {
        self.current_path@
    }

    pub closed spec fn wf(&self) -> bool {
        self.next <= self.components@.len()
    }

    /// The path of the next component and its name.
    pub open spec fn next_child(&self) -> (Seq<char>, Seq<char>) {
        let name = self.spec_components()[self.spec_next() as int];
        (child_path_spec(self.spec_path(), name), name)
    }

    /// A walk of `path` that starts at the root.
    pub fn start(path: &str) -> (r: PathWalk)
        ensures
            r.wf(),
            r.spec_components() == normalized_components_spec(path@),
            r.spec_next() == 0,
            r.spec_ino() == INodeNo(ROOT_INODE),
            r.spec_generation() == Generation(0),
            r.spec_path() == seq!['\\'],
    {
        let components = normalized_components(path);
        let mut current_path = String::new();
        push_char(&mut current_path, '\\');
        assert(current_path@ =~= seq!['\\']);
        PathWalk { components, next: 0, current_ino: INodeNo::root(), current_generation: Generation(0), current_path }
    }

    /// Whether every component is resolved.
    pub fn is_finished(&self) -> (r: bool)
        requires
            self.wf(),
        ensures
            r == (self.spec_next() == self.spec_components().len()),
    {
        self.next == self.components.len()
    }

    /// The inode reached so far; the path's inode once the walk is finished.
    pub fn current_ino(&self) -> (r: INodeNo)
        ensures
            r == self.spec_ino(),
    {
        self.current_ino
    }

    fn advance(&mut self, child_path: String, ino: INodeNo, generation: Generation)
        requires
            old(self).wf(),
            old(self).spec_next() < old(self).spec_components().len(),
        ensures
            final(self).wf(),
            final(self).spec_components() == old(self).spec_components(),
            final(self).spec_next() == old(self).spec_next() + 1,
            final(self).spec_ino() == ino,
            final(self).spec_generation() == generation,
            final(self).spec_path() == child_path@,
    {
        assert(self.spec_components().len() == self.components@.len());
        let n = self.components.len();
        assert(self.next < n);
        self.current_ino = ino;
        self.current_generation = generation;
        self.current_path = child_path;
        self.next = self.next + 1;
    }

    /// The lookup that resolves the next component.
    pub fn lookup_request(&self) -> (r: LookupRequest)
        requires
            self.wf(),
            self.spec_next() < self.spec_components().len(),
        ensures
            r.path@ == self.next_child().0,
            r.name@ == self.next_child().1,
            r.parent == self.spec_ino(),
            r.parent_generation == self.spec_generation(),
    {
        let name = self.components[self.next].clone();
        let path = child_path_from_parent(self.current_path.as_str(), name.as_str());
        LookupRequest { path, parent: self.current_ino, parent_generation: self.current_generation, name }
    }

    /// Tries to resolve the next component from the cache: `Ok(true)` when it
    /// did, `Ok(false)` when the filesystem must be asked, and the cached error
    /// for a path known to be missing.
    pub fn step_cached(&mut self, resolver: &mut PathResolver, now: u64) -> (r: Result<bool, i32>)
        requires
            old(self).wf(),
            old(self).spec_next() < old(self).spec_components().len(),
            old(resolver).wf(),
        ensures
            final(self).wf(),
            final(resolver).wf(),
            final(self).spec_components() == old(self).spec_components(),
            final(resolver).model() == cached_model(old(resolver).model(), normalize_path_spec(old(self).next_child().0),
                old(self).spec_ino(), old(self).spec_generation(), now),
            final(resolver).negative_ttl_view() == old(resolver).negative_ttl_view(),
            final(resolver).remembered() == old(resolver).remembered(),
            final(resolver).taken() == old(resolver).taken(),
            match cached_result(old(resolver).model(), normalize_path_spec(old(self).next_child().0), old(self).spec_ino(),
                old(self).spec_generation(), now) {
                Some(Ok(entry)) => r == Ok::<bool, i32>(true) && final(self).spec_next() == old(self).spec_next() + 1
                    && final(self).spec_ino() == entry.ino && final(self).spec_generation() == entry.generation
                    && final(self).spec_path() == old(self).next_child().0,
                Some(Err(err)) => r == Err::<bool, i32>(err) && *final(self) == *old(self),
                None => r == Ok::<bool, i32>(false) && *final(self) == *old(self),
            },
    {
        let request = self.lookup_request();
        match resolver.cached(request.path.as_str(), self.current_ino, self.current_generation, now) {
            Some(Ok(entry)) => {
                self.advance(request.path, entry.ino, entry.generation);
                Ok(true)
            },
            Some(Err(err)) => Err(err),
            None => Ok(false),
        }
    }

    /// Takes the filesystem's answer to the next component's lookup: a found
    /// entry is remembered and the walk moves on; `ENOENT` is remembered as a
    /// missing path; an error is handed back, and `EIO` when there was no reply.
    pub fn step_lookup(&mut self, resolver: &mut PathResolver, reply: Option<Result<LookedUp, i32>>, now: u64)
        -> (r: Result<(), i32>)
        requires
            old(self).wf(),
            old(self).spec_next() < old(self).spec_components().len(),
            old(resolver).wf(),
        ensures
            final(self).wf(),
            final(resolver).wf(),
            final(self).spec_components() == old(self).spec_components(),
            final(resolver).negative_ttl_view() == old(resolver).negative_ttl_view(),
            final(resolver).taken() == old(resolver).taken(),
            match reply {
                Some(Ok(found)) => r is Ok && final(self).spec_next() == old(self).spec_next() + 1
                    && final(self).spec_ino() == found.attr.ino && final(self).spec_generation() == found.generation
                    && final(self).spec_path() == old(self).next_child().0
                    && final(resolver).model() == remember_positive_model(old(resolver).model(),
                        normalize_path_spec(old(self).next_child().0), old(self).spec_ino(), old(self).spec_generation(),
                        final(resolver).model().0[normalize_path_spec(old(self).next_child().0)]->Positive_name, found.attr,
                        found.generation, span_nanos(found.ttl), now)
                    && (span_nanos(found.ttl) != 0 ==> final(resolver).model().0[normalize_path_spec(old(self).next_child().0)]->Positive_name@
                        == old(self).next_child().1)
                    && final(resolver).remembered() == add_count(old(resolver).remembered(), found.attr.ino.0, 1),
                Some(Err(err)) => r == Err::<(), i32>(err) && *final(self) == *old(self)
                    && final(resolver).remembered() == old(resolver).remembered()
                    && final(resolver).model() == if err == ENOENT {
                        remember_negative_model(old(resolver).model(), normalize_path_spec(old(self).next_child().0),
                            old(self).spec_ino(), old(self).spec_generation(),
                            final(resolver).model().0[normalize_path_spec(old(self).next_child().0)]->Negative_name,
                            old(resolver).negative_ttl_view(), now)
                    } else {
                        old(resolver).model()
                    }
                    && (err == ENOENT && old(resolver).negative_ttl_view() is Some ==>
                        final(resolver).model().0[normalize_path_spec(old(self).next_child().0)]->Negative_name@
                        == old(self).next_child().1),
                None => r == Err::<(), i32>(EIO) && *final(self) == *old(self) && final(resolver).model() == old(resolver).model()
                    && final(resolver).remembered() == old(resolver).remembered(),
            },
    {
        let request = self.lookup_request();
        match reply {
            Some(Ok(found)) => {
                let entry = resolver.remember_positive(request.path.as_str(), request.parent, request.parent_generation,
                    request.name, found.attr, found.generation, found.ttl, now);
                self.advance(request.path, entry.ino, entry.generation);
                Ok(())
            },
            Some(Err(err)) => {
                if err == ENOENT {
                    resolver.remember_negative(request.path.as_str(), request.parent, request.parent_generation,
                        request.name, now);
                }
                Err(err)
            },
            None => Err(EIO),
        }
    }
}

/// Remembers a path the filesystem just created or listed: `path`, named
/// `name` under `parent` at the parent's current generation.
pub fn remember_created_path(resolver: &mut PathResolver, path: &str, parent: INodeNo, name: &str, attr: FileAttr,
    generation: Generation, ttl: TimeSpan, now: u64)
    requires
        old(resolver).wf(),
    ensures
        final(resolver).wf(),
        final(resolver).negative_ttl_view() == old(resolver).negative_ttl_view(),
        final(resolver).taken() == old(resolver).taken(),
        final(resolver).remembered() == add_count(old(resolver).remembered(), attr.ino.0, 1),
        final(resolver).model() == remember_positive_model(old(resolver).model(), normalize_path_spec(path@), parent,
            generation_of(old(resolver).model(), parent),
            final(resolver).model().0[normalize_path_spec(path@)]->Positive_name, attr, generation, span_nanos(ttl), now),
        span_nanos(ttl) != 0 ==> final(resolver).model().0[normalize_path_spec(path@)]->Positive_name@ == name@,
{
    let parent_generation = resolver.generation_for(parent);
    resolver.remember_positive(path, parent, parent_generation, name.to_owned(), attr, generation, ttl, now);
}

/// The cache after the cached attributes of `ino` are forgotten.
pub open spec fn forget_attr_model(m: Model, ino: INodeNo, now: u64) -> Model {
    (m.0, retain_live(clear_attr(m.1, ino.0), now), m.2)
}

/// The cache after the cached attributes of `ino`, if given, are forgotten.
pub open spec fn forget_attr_if_model(m: Model, ino: Option<INodeNo>, now: u64) -> Model {
    match ino {
        Some(i) => forget_attr_model(m, i, now),
        None => m,
    }
}

/// The cache after every path at or under `root` is dropped, walking `slots`,
/// with the queued forgets handed out.
pub open spec fn drop_subtree_model(m: Model, slots: Seq<(Seq<char>, PathCacheEntry)>, root: Seq<char>, now: u64) -> Model {
    let d = drop_matching_model(m, slots, subtree_pred(root), true, now);
    (d.0, retain_live(d.1, now), Seq::empty())
}

/// The forgets handed out when every path at or under `root` is dropped.
pub open spec fn drop_subtree_forgets(m: Model, slots: Seq<(Seq<char>, PathCacheEntry)>, root: Seq<char>, now: u64)
    -> Seq<(INodeNo, u64)> {
    drop_matching_model(m, slots, subtree_pred(root), true, now).2
}

/// Brings the cache up to date after an entry was created at `path` (named
/// `name` under `parent`) and opened as `created`: the attributes of the
/// parent and of the opened inode are forgotten, and the new path is
/// remembered under the parent's current generation.
pub fn finish_created_entry(resolver: &mut PathResolver, path: &str, parent: INodeNo, name: &str, created: INodeNo,
    attr: FileAttr, generation: Generation, ttl: TimeSpan, now: u64)
    requires
        old(resolver).wf(),
    ensures
        final(resolver).wf(),
        ({
            let m1 = forget_attr_model(forget_attr_model(old(resolver).model(), parent, now), created, now);
            final(resolver).model() == remember_positive_model(m1, normalize_path_spec(path@), parent,
                generation_of(m1, parent), final(resolver).model().0[normalize_path_spec(path@)]->Positive_name, attr,
                generation, span_nanos(ttl), now)
        }),
        span_nanos(ttl) != 0 ==> final(resolver).model().0[normalize_path_spec(path@)]->Positive_name@ == name@,
        final(resolver).negative_ttl_view() == old(resolver).negative_ttl_view(),
        final(resolver).taken() == old(resolver).taken(),
        final(resolver).remembered() == add_count(old(resolver).remembered(), attr.ino.0, 1),
{
    resolver.invalidate_inode_attr(parent, now);
    resolver.invalidate_inode_attr(created, now);
    remember_created_path(resolver, path, parent, name, attr, generation, ttl, now);
}

/// Brings the cache up to date after `old_path` was renamed to `new_path`:
/// the moved inode's attributes are forgotten, every cached path at or under
/// either path is dropped, and the attributes of both parents are forgotten.
/// Returns the lookups to forget, those of the old paths first.
pub fn finish_rename(resolver: &mut PathResolver, old_path: &str, new_path: &str, moved: Option<INodeNo>,
    old_parent: INodeNo, new_parent: INodeNo, now: u64) -> (r: Vec<(INodeNo, u64)>)
    requires
        old(resolver).wf(),
    ensures
        final(resolver).wf(),
        ({
            let slots0 = old(resolver).path_slots();
            let m0 = forget_attr_if_model(old(resolver).model(), moved, now);
            let m1 = drop_subtree_model(m0, slots0, normalize_path_spec(old_path@), now);
            let slots1 = kept_slots(slots0, subtree_pred(normalize_path_spec(old_path@)));
            let m2 = drop_subtree_model(m1, slots1, normalize_path_spec(new_path@), now);
            &&& r@ == drop_subtree_forgets(m0, slots0, normalize_path_spec(old_path@), now)
                + drop_subtree_forgets(m1, slots1, normalize_path_spec(new_path@), now)
            &&& final(resolver).model() == forget_attr_model(forget_attr_model(m2, old_parent, now), new_parent, now)
        }),
        final(resolver).negative_ttl_view() == old(resolver).negative_ttl_view(),
        final(resolver).remembered() == old(resolver).remembered(),
{
    match moved {
        Some(ino) => resolver.invalidate_inode_attr(ino, now),
        None => {},
    }
    let mut forgets = resolver.invalidate_subtree(old_path, now);
    let mut more = resolver.invalidate_subtree(new_path, now);
    forgets.append(&mut more);
    resolver.invalidate_inode_attr(old_parent, now);
    resolver.invalidate_inode_attr(new_parent, now);
    forgets
}

/// Brings the cache up to date after the entry at `path` under `parent` was
/// removed: every cached path at or under it is dropped, then the attributes
/// of the removed inode (when known) and of the parent are forgotten.
/// Returns the lookups to forget.
pub fn finish_removal(resolver: &mut PathResolver, path: &str, removed: Option<INodeNo>, parent: INodeNo, now: u64)
    -> (r: Vec<(INodeNo, u64)>)
    requires
        old(resolver).wf(),
    ensures
        final(resolver).wf(),
        ({
            let slots0 = old(resolver).path_slots();
            let m1 = drop_subtree_model(old(resolver).model(), slots0, normalize_path_spec(path@), now);
            &&& r@ == drop_subtree_forgets(old(resolver).model(), slots0, normalize_path_spec(path@), now)
            &&& final(resolver).model() == forget_attr_model(forget_attr_if_model(m1, removed, now), parent, now)
        }),
        final(resolver).negative_ttl_view() == old(resolver).negative_ttl_view(),
        final(resolver).remembered() == old(resolver).remembered(),
{
    let forgets = resolver.invalidate_subtree(path, now);
    match removed {
        Some(ino) => resolver.invalidate_inode_attr(ino, now),
        None => {},
    }
    resolver.invalidate_inode_attr(parent, now);
    forgets
}

/// A keyed list without its entries under `key`.
pub open spec fn without_key<T>(s: Seq<(Seq<char>, T)>, key: Seq<char>) -> Seq<(Seq<char>, T)>
    decreases s.len(),
{
    if s.len() == 0 {
        s
    } else if s.last().0 == key {
        without_key(s.drop_last(), key)
    } else {
        without_key(s.drop_last(), key).push(s.last())
    }
}

/// The value of the last entry under `key`, if any.
pub open spec fn value_of_key<T>(s: Seq<(Seq<char>, T)>, key: Seq<char>) -> Option<T>
    decreases s.len(),
{
    if s.len() == 0 {
        None
    } else if s.last().0 == key {
        Some(s.last().1)
    } else {
        value_of_key(s.drop_last(), key)
    }
}

proof fn lemma_without_key_values<T>(s: Seq<(Seq<char>, T)>, key: Seq<char>, other: Seq<char>)
    ensures
        value_of_key(without_key(s, key), key) is None,
        other != key ==> value_of_key(without_key(s, key), other) == value_of_key(s, other),
    decreases s.len(),
{
    if s.len() > 0 {
        lemma_without_key_values(s.drop_last(), key, other);
        let rest = without_key(s.drop_last(), key);
        if s.last().0 != key {
            assert(rest.push(s.last()).drop_last() == rest);
        }
    }
}

/// A keyed table reads back what was last set: after setting `key` to
/// `value`, `key` gives `value`; after removing `key`, it gives nothing; and
/// every other key gives what it gave before.
pub proof fn lemma_keyed_table_reads_back<T>(s: Seq<(Seq<char>, T)>, key: Seq<char>, value: T, other: Seq<char>)
    ensures
        value_of_key(without_key(s, key).push((key, value)), key) == Some(value),
        value_of_key(without_key(s, key), key) is None,
        other != key ==> value_of_key(without_key(s, key).push((key, value)), other) == value_of_key(s, other),
        other != key ==> value_of_key(without_key(s, key), other) == value_of_key(s, other),
{
    lemma_without_key_values(s, key, other);
    let w = without_key(s, key);
    assert(w.push((key, value)).drop_last() == w);
}

/// Removes every entry under `key`, keeping the others in order.
pub fn remove_key<T: Copy>(items: &mut Vec<(String, T)>, key: &str)
    ensures
        keyed_view(final(items)@) == without_key(keyed_view(old(items)@), key@),
{
    let ghost s = keyed_view(items@);
    let mut out: Vec<(String, T)> = Vec::new();
    let mut i: usize = 0;
    while i < items.len()
        invariant
            i <= items@.len(),
            s == keyed_view(items@),
            keyed_view(out@) == without_key(s.take(i as int), key@),
        decreases items@.len() - i,
    {
        assert(s.take(i as int + 1).drop_last() == s.take(i as int));
        if !str_eq(items[i].0.as_str(), key) {
            let ghost before = out@;
            out.push((items[i].0.clone(), items[i].1));
            assert(keyed_view(out@) =~= keyed_view(before).push(s[i as int]));
        }
        i = i + 1;
    }
    assert(s.take(i as int) == s);
    *items = out;
}

/// Sets the entry under `key` to `value`: any entry already under `key` goes,
/// and the new one comes last.
pub fn set_key<T: Copy>(items: &mut Vec<(String, T)>, key: String, value: T)
    ensures
        keyed_view(final(items)@) == without_key(keyed_view(old(items)@), key@).push((key@, value)),
{
    remove_key(items, key.as_str());
    let ghost before = items@;
    items.push((key, value));
    assert(keyed_view(items@) =~= keyed_view(before).push((key@, value)));
}

/// The value under `key`, if any (the last one, should there be several).
pub fn get_key<T: Copy>(items: &Vec<(String, T)>, key: &str) -> (r: Option<T>)
    ensures
        r == value_of_key(keyed_view(items@), key@),
{
    let ghost s = keyed_view(items@);
    let mut found: Option<T> = None;
    let mut i: usize = 0;
    while i < items.len()
        invariant
            i <= items@.len(),
            s == keyed_view(items@),
            found == value_of_key(s.take(i as int), key@),
        decreases items@.len() - i,
    {
        assert(s.take(i as int + 1).drop_last() == s.take(i as int));
        if str_eq(items[i].0.as_str(), key) {
            found = Some(items[i].1);
        }
        i = i + 1;
    }
    assert(s.take(i as int) == s);
    found
}

/// How a directory entry is reported to Windows: its attributes, size, the
/// creation, access and write times (`None` for the epoch), and its name.
#[derive(Clone, Debug)]
pub struct FindEntry {
    pub attributes: u32,
    pub file_size: u64,
    pub times: Option<(SystemTime, SystemTime, SystemTime)>,
    pub name: String,
}

/// A plain listing entry: attributes from its kind and, when `getattr`
/// answered, its permissions; no size and epoch times.
pub fn readdir_find_entry(entry: &DirectoryEntryPayload, perm: Option<u16>) -> (r: FindEntry)
    ensures
        r.attributes == windows_attr(entry.kind, match perm { Some(p) => p, None => 0o666u16 }),
        r.file_size == 0,
        r.times is None,
        r.name@ == entry.name@,
{
    FindEntry {
        attributes: find_files_attr_from_kind_and_perm(entry.kind, perm),
        file_size: 0,
        times: None,
        name: entry.name.clone(),
    }
}

/// A listing entry matched against a pattern: size, times and permissions
/// come from `getattr` when it answered.
pub fn readdir_pattern_find_entry(entry: &DirectoryEntryPayload, attr: Option<FileAttr>) -> (r: FindEntry)
    ensures
        r.attributes == windows_attr(entry.kind, match attr { Some(a) => a.perm, None => 0o666u16 }),
        r.file_size == match attr { Some(a) => a.size, None => 0 },
        r.times == match attr { Some(a) => Some((a.ctime, a.atime, a.mtime)), None => None },
        r.name@ == entry.name@,
{
    match attr {
        Some(a) => FindEntry {
            attributes: find_files_attr_from_kind_and_perm(entry.kind, Some(a.perm)),
            file_size: a.size,
            times: Some((a.ctime, a.atime, a.mtime)),
            name: entry.name.clone(),
        },
        None => FindEntry {
            attributes: find_files_attr_from_kind_and_perm(entry.kind, None),
            file_size: 0,
            times: None,
            name: entry.name.clone(),
        },
    }
}

/// A `readdirplus` entry, which carries its own attributes.
pub fn readdirplus_find_entry(entry: &DirectoryPlusEntryPayload) -> (r: FindEntry)
    ensures
        r.attributes == windows_attr(entry.attr.kind, entry.attr.perm),
        r.file_size == entry.attr.size,
        r.times == Some((entry.attr.ctime, entry.attr.atime, entry.attr.mtime)),
        r.name@ == entry.name@,
{
    FindEntry {
        attributes: filetype_to_windows_attr(entry.attr.kind, entry.attr.perm),
        file_size: entry.attr.size,
        times: Some((entry.attr.ctime, entry.attr.atime, entry.attr.mtime)),
        name: entry.name.clone(),
    }
}

/// Progress of reporting a listing: the offset of the last entry Windows
/// took, and whether it stopped taking entries.
#[derive(Clone, Copy, Debug, PartialEq, Eq, Structural)]
pub struct EmitProgress {
    pub emitted_offset: Option<i64>,
    pub stopped: bool,
}

impl EmitProgress {
    pub fn new() -> (r: EmitProgress)
        ensures
            r.emitted_offset is None,
            !r.stopped,
    {
        EmitProgress { emitted_offset: None, stopped: false }
    }

    /// Records the outcome of handing over the entry at `offset`: taken, or
    /// refused, which ends the listing and leaves the last offset as it was.
    pub fn record(&mut self, offset: u64, taken: bool)
        requires
            !old(self).stopped,
        ensures
            taken ==> final(self).emitted_offset == Some(offset as i64) && !final(self).stopped,
            !taken ==> final(self).emitted_offset == old(self).emitted_offset && final(self).stopped,
    {
        if taken {
            self.emitted_offset = Some(offset as i64);
        } else {
            self.stopped = true;
        }
    }
}

/// Disk space in bytes from block counts, saturating at `u64::MAX`.
pub fn disk_space(blocks: u64, bfree: u64, bavail: u64, bsize: u32) -> (r: (u64, u64, u64))
    ensures
        r.0 == if blocks * bsize <= u64::MAX { (blocks * bsize) as u64 } else { u64::MAX },
        r.1 == if bfree * bsize <= u64::MAX { (bfree * bsize) as u64 } else { u64::MAX },
        r.2 == if bavail * bsize <= u64::MAX { (bavail * bsize) as u64 } else { u64::MAX },
{
    (saturating_mul(blocks, bsize as u64), saturating_mul(bfree, bsize as u64), saturating_mul(bavail, bsize as u64))
}

/// `a * b`, or `u64::MAX` when the product does not fit.
fn saturating_mul(a: u64, b: u64) -> (r: u64)
    ensures
        r == if a * b <= u64::MAX { (a * b) as u64 } else { u64::MAX },
{
    match a.checked_mul(b) {
        Some(p) => p,
        None => u64::MAX,
    }
}

/// How many bytes of a read reply fit in the caller's buffer.
pub fn read_copy_len(data_len: usize, buffer_len: usize) -> (r: Result<u32, i32>)
    ensures
        ({
            let n = if data_len <= buffer_len { data_len } else { buffer_len };
            &&& n <= u32::MAX ==> r == Ok::<u32, i32>(n as u32)
            &&& n > u32::MAX ==> r == Err::<u32, i32>(STATUS_INVALID_PARAMETER)
        }),
{
    let n = if data_len <= buffer_len { data_len } else { buffer_len };
    checked_dokan_len(n)
}

/// The fields of a file's information record that its attributes give.
#[derive(Clone, Copy, Debug, PartialEq, Eq, Structural)]
pub struct FileInfoFields {
    pub attributes: u32,
    pub file_size: u64,
    pub number_of_links: u32,
    pub file_index: u64,
}

pub fn file_info_fields(attr: &FileAttr) -> (r: FileInfoFields)
    ensures
        r.attributes == windows_attr(attr.kind, attr.perm),
        r.file_size == attr.size,
        r.number_of_links == attr.nlink,
        r.file_index == attr.ino.0,
{
    FileInfoFields {
        attributes: filetype_to_windows_attr(attr.kind, attr.perm),
        file_size: attr.size,
        number_of_links: attr.nlink,
        file_index: attr.ino.0,
    }
}

/// After a delete-on-close: nothing more unless the removal succeeded; then
/// whether the handle's own inode is known and needs its attributes dropped.
pub fn delete_on_close_follow_up(status: Option<Result<(), i32>>, context_ino: INodeNo) -> (r: Option<bool>)
    ensures
        (status matches Some(Ok(_))) ==> r == Some(context_ino.0 != 0),
        !(status matches Some(Ok(_))) ==> r is None,
{
    match status {
        Some(Ok(())) => Some(context_ino.0 != 0),
        _ => None,
    }
}

/// The entries of `s` whose key a rename from `o` to `n` moves, with their
/// new keys, in order.
pub open spec fn moved_entries<T>(s: Seq<(Seq<char>, T)>, o: Seq<char>, n: Seq<char>) -> Seq<(Seq<char>, T)>
    decreases s.len(),
{
    if s.len() == 0 {
        Seq::empty()
    } else {
        let rest = moved_entries(s.drop_last(), o, n);
        match rename_key_spec(o, n, s.last().0) {
            Some(k) => rest.push((k, s.last().1)),
            None => rest,
        }
    }
}

/// Whether `key` is among the keys of `s`.
pub open spec fn has_key_in<T>(s: Seq<(Seq<char>, T)>, key: Seq<char>) -> bool {
    exists|i: int| 0 <= i < s.len() && (#[trigger] s[i]).0 == key
}

/// The entries of `s` that stay where they are: the rename does not move
/// them and no moved entry takes their key.
pub open spec fn kept_entries<T>(s: Seq<(Seq<char>, T)>, moved: Seq<(Seq<char>, T)>, o: Seq<char>, n: Seq<char>)
    -> Seq<(Seq<char>, T)>
    decreases s.len(),
{
    if s.len() == 0 {
        Seq::empty()
    } else {
        let rest = kept_entries(s.drop_last(), moved, o, n);
        if rename_key_spec(o, n, s.last().0) is None && !has_key_in(moved, s.last().0) {
            rest.push(s.last())
        } else {
            rest
        }
    }
}

/// A keyed list after renaming `o` to `n`: the entries that stay, then the
/// moved ones under their new keys.
pub open spec fn remapped<T>(s: Seq<(Seq<char>, T)>, o: Seq<char>, n: Seq<char>) -> Seq<(Seq<char>, T)> {
    kept_entries(s, moved_entries(s, o, n), o, n) + moved_entries(s, o, n)
}

/// A keyed list with its keys as character sequences.
pub open spec fn keyed_view<T>(v: Seq<(String, T)>) -> Seq<(Seq<char>, T)> {
    v.map_values(|e: (String, T)| (e.0@, e.1))
}

fn contains_key_in<T: Copy>(v: &Vec<(String, T)>, key: &str) -> (r: bool)
    ensures
        r == has_key_in(keyed_view(v@), key@),
{
    let mut i: usize = 0;
    while i < v.len()
        invariant
            i <= v@.len(),
            forall|j: int| 0 <= j < i ==> (#[trigger] keyed_view(v@)[j]).0 != key@,
        decreases v@.len() - i,
    {
        if str_eq(v[i].0.as_str(), key) {
            assert(keyed_view(v@)[i as int].0 == key@);
            return true;
        }
        i = i + 1;
    }
    false
}

/// Moves every entry whose key is `old_root` or lies under it to the
/// corresponding key under `new_root`. A moved entry replaces an entry that
/// already had its new key; every entry keeps its value.
pub fn remap_descendant_keys<T: Copy>(items: &Vec<(String, T)>, old_root: &str, new_root: &str) -> (r: Vec<(String, T)>)
    ensures
        keyed_view(r@) == remapped(keyed_view(items@), old_root@, new_root@),
{
    let ghost s = keyed_view(items@);
    let mut moved: Vec<(String, T)> = Vec::new();
    let mut i: usize = 0;
    while i < items.len()
        invariant
            i <= items@.len(),
            s == keyed_view(items@),
            keyed_view(moved@) == moved_entries(s.take(i as int), old_root@, new_root@),
        decreases items@.len() - i,
    {
        assert(s.take(i as int + 1).drop_last() == s.take(i as int));
        let key = items[i].0.as_str();
        let value = items[i].1;
        match rename_descendant_path_key(old_root, new_root, key) {
            Some(next_key) => {
                moved.push((next_key, value));
                assert(keyed_view(moved@) == moved_entries(s.take(i as int), old_root@, new_root@).push((next_key@, value)));
            },
            None => {},
        }
        i = i + 1;
    }
    assert(s.take(i as int) == s);
    let ghost mv = keyed_view(moved@);
    let mut out: Vec<(String, T)> = Vec::new();
    let mut j: usize = 0;
    while j < items.len()
        invariant
            j <= items@.len(),
            s == keyed_view(items@),
            mv == keyed_view(moved@),
            mv == moved_entries(s, old_root@, new_root@),
            keyed_view(out@) == kept_entries(s.take(j as int), mv, old_root@, new_root@),
        decreases items@.len() - j,
    {
        assert(s.take(j as int + 1).drop_last() == s.take(j as int));
        let key = items[j].0.as_str();
        let stays = match rename_descendant_path_key(old_root, new_root, key) {
            Some(_) => false,
            None => !contains_key_in(&moved, key),
        };
        if stays {
            out.push((items[j].0.clone(), items[j].1));
            assert(keyed_view(out@) == kept_entries(s.take(j as int), mv, old_root@, new_root@).push(s[j as int]));
        }
        j = j + 1;
    }
    assert(s.take(j as int) == s);
    let ghost kept = keyed_view(out@);
    let mut k: usize = 0;
    while k < moved.len()
        invariant
            k <= moved@.len(),
            mv == keyed_view(moved@),
            keyed_view(out@) == kept + mv.take(k as int),
        decreases moved@.len() - k,
    {
        let ghost before = out@;
        out.push((moved[k].0.clone(), moved[k].1));
        assert(keyed_view(out@) =~= keyed_view(before).push(mv[k as int]));
        assert(mv.take(k as int + 1) == mv.take(k as int).push(mv[k as int]));
        k = k + 1;
    }
    assert(mv.take(k as int) == mv);
    out
}

proof fn lemma_moved_entries_contain<T>(s: Seq<(Seq<char>, T)>, o: Seq<char>, n: Seq<char>, i: int)
    requires
        0 <= i < s.len(),
        rename_key_spec(o, n, s[i].0) is Some,
    ensures
        moved_entries(s, o, n).contains((rename_key_spec(o, n, s[i].0)->0, s[i].1)),
    decreases s.len(),
{
    let rest = moved_entries(s.drop_last(), o, n);
    if i == s.len() - 1 {
        let e = (rename_key_spec(o, n, s[i].0)->0, s[i].1);
        assert(moved_entries(s, o, n) == rest.push(e));
        assert(rest.push(e)[rest.len() as int] == e);
    } else {
        lemma_moved_entries_contain(s.drop_last(), o, n, i);
        let e = (rename_key_spec(o, n, s[i].0)->0, s[i].1);
        let j = choose|j: int| 0 <= j < rest.len() && rest[j] == e;
        match rename_key_spec(o, n, s.last().0) {
            Some(k) => {
                assert(moved_entries(s, o, n) == rest.push((k, s.last().1)));
                assert(rest.push((k, s.last().1))[j] == e);
            },
            None => {},
        }
    }
}

proof fn lemma_kept_entries_contain<T>(s: Seq<(Seq<char>, T)>, mv: Seq<(Seq<char>, T)>, o: Seq<char>, n: Seq<char>, i: int)
    requires
        0 <= i < s.len(),
        rename_key_spec(o, n, s[i].0) is None,
        !has_key_in(mv, s[i].0),
    ensures
        kept_entries(s, mv, o, n).contains(s[i]),
    decreases s.len(),
{
    let rest = kept_entries(s.drop_last(), mv, o, n);
    if i == s.len() - 1 {
        assert(kept_entries(s, mv, o, n) == rest.push(s.last()));
        assert(rest.push(s.last())[rest.len() as int] == s[i]);
    } else {
        lemma_kept_entries_contain(s.drop_last(), mv, o, n, i);
        assert(s.drop_last()[i] == s[i]);
        let j = choose|j: int| 0 <= j < rest.len() && rest[j] == s[i];
        if rename_key_spec(o, n, s.last().0) is None && !has_key_in(mv, s.last().0) {
            assert(kept_entries(s, mv, o, n) == rest.push(s.last()));
            assert(rest.push(s.last())[j] == s[i]);
        }
    }
}

/// After renaming `o` to `n`, every entry is still found with its value: one
/// whose key the rename moves under its new key, one it does not move under
/// its old key, unless a moved entry took that key.
pub proof fn lemma_remap_keeps_every_value<T>(s: Seq<(Seq<char>, T)>, o: Seq<char>, n: Seq<char>, i: int)
    requires
        0 <= i < s.len(),
    ensures
        rename_key_spec(o, n, s[i].0) is Some ==>
            remapped(s, o, n).contains((rename_key_spec(o, n, s[i].0)->0, s[i].1)),
        rename_key_spec(o, n, s[i].0) is None && !has_key_in(moved_entries(s, o, n), s[i].0) ==>
            remapped(s, o, n).contains(s[i]),
{
    let mv = moved_entries(s, o, n);
    let kept = kept_entries(s, mv, o, n);
    if rename_key_spec(o, n, s[i].0) is Some {
        lemma_moved_entries_contain(s, o, n, i);
        let e = (rename_key_spec(o, n, s[i].0)->0, s[i].1);
        let j = choose|j: int| 0 <= j < mv.len() && mv[j] == e;
        assert((kept + mv)[kept.len() + j] == e);
    } else if !has_key_in(mv, s[i].0) {
        lemma_kept_entries_contain(s, mv, o, n, i);
        let j = choose|j: int| 0 <= j < kept.len() && kept[j] == s[i];
        assert((kept + mv)[j] == s[i]);
    }
}

/// What the probe for a conflicting lock says about taking a write lock:
/// go ahead when the range is unlocked (or the reply says nothing), refuse
/// when someone holds it, and report the probe's own error.
pub fn lock_probe_outcome(query: Option<Result<(u64, u64, i32, u32), i32>>) -> (r: Result<(), i32>)
    ensures
        r == match query {
            Some(Err(err)) => Err(ntstatus_of(err)),
            Some(Ok((_, _, typ, _))) => if typ != LOCK_TYPE_UNLCK { Err(ntstatus_of(EAGAIN)) } else { Ok(()) },
            None => Ok(()),
        },
{
    match query {
        Some(Err(err)) => Err(classify_optional_probe_error(err).ntstatus()),
        Some(Ok((_, _, typ, _))) => {
            if typ != LOCK_TYPE_UNLCK {
                Err(errno_to_ntstatus(EAGAIN))
            } else {
                Ok(())
            }
        },
        None => Ok(()),
    }
}

/// Where a security descriptor comes from, given the answer to reading the
/// stored one.
#[derive(Clone, Debug, PartialEq, Eq)]
pub enum DescriptorSource {
    /// The stored descriptor (possibly only its size, when its data must be fetched).
    Stored(Vec<u8>),
    /// Nothing is stored: synthesise one from the attributes.
    Synthesize,
}

pub fn security_xattr_outcome(reply: Option<Result<Vec<u8>, i32>>) -> (r: Result<DescriptorSource, i32>)
    ensures
        reply matches Some(Ok(d)) ==> (r matches Ok(DescriptorSource::Stored(x)) && x@ == d@),
        reply matches Some(Err(err)) ==> r == if err == NO_XATTR { Ok::<DescriptorSource, i32>(DescriptorSource::Synthesize) }
            else { Err::<DescriptorSource, i32>(ntstatus_of(err)) },
        reply is None ==> r == Err::<DescriptorSource, i32>(STATUS_UNSUCCESSFUL),
{
    match reply {
        Some(Ok(d)) => Ok(DescriptorSource::Stored(d)),
        Some(Err(err)) => {
            if err == NO_XATTR {
                Ok(DescriptorSource::Synthesize)
            } else {
                Err(classify_optional_probe_error(err).ntstatus())
            }
        },
        None => Err(missing_reply_status()),
    }
}

/// How a stored descriptor is handed over: the length reported back, and
/// whether the caller's buffer is large enough for the data to be copied.
pub fn descriptor_copy_plan(data_len: usize, size_hint: Option<u32>, buffer_length: u32) -> (r: Result<(u32, bool), i32>)
    ensures
        size_hint matches Some(h) ==> r == Ok::<(u32, bool), i32>((h, buffer_length >= h)),
        size_hint is None && data_len <= u32::MAX ==> r == Ok::<(u32, bool), i32>((data_len as u32, buffer_length >= data_len)),
        size_hint is None && data_len > u32::MAX ==> r == Err::<(u32, bool), i32>(STATUS_INVALID_PARAMETER),
{
    let needed = match xattr_reported_len(data_len, size_hint) {
        Ok(n) => n,
        Err(e) => return Err(e),
    };
    Ok((needed, buffer_length >= needed))
}

/// The size a stored descriptor's data is fetched with: at least the caller's buffer.
pub fn descriptor_fetch_size(fetch_size: u32, buffer_length: u32) -> (r: u32)
    ensures
        r == if fetch_size >= buffer_length { fetch_size } else { buffer_length },
{
    if fetch_size >= buffer_length { fetch_size } else { buffer_length }
}

/// The size reported for a file's unnamed data stream: its size from
/// `getattr`, capped at `i64::MAX`, or 0 when `getattr` failed.
pub fn default_stream_size(attr_size: Option<Result<u64, i32>>) -> (r: i64)
    ensures
        r == match attr_size {
            Some(Ok(size)) => if size <= i64::MAX { size as i64 } else { i64::MAX },
            _ => 0,
        },
{
    match attr_size {
        Some(Ok(size)) => if size <= 0x7fff_ffff_ffff_ffffu64 { size as i64 } else { i64::MAX },
        _ => 0,
    }
}

/// What listing the extended attributes means for the stream listing: the
/// list to report from, none when the filesystem has no such operation, or
/// the error.
pub fn stream_list_outcome(reply: Option<Result<Vec<u8>, i32>>) -> (r: Result<Option<Vec<u8>>, i32>)
    ensures
        reply matches Some(Ok(d)) ==> (r matches Ok(Some(x)) && x@ == d@),
        reply matches Some(Err(err)) ==> r == if err == ENOSYS { Ok::<Option<Vec<u8>>, i32>(None) }
            else { Err::<Option<Vec<u8>>, i32>(ntstatus_of(err)) },
        reply is None ==> r == Err::<Option<Vec<u8>>, i32>(STATUS_UNSUCCESSFUL),
{
    match reply {
        Some(Ok(d)) => Ok(Some(d)),
        Some(Err(err)) => {
            if err == ENOSYS {
                Ok(None)
            } else {
                Err(classify_optional_probe_error(err).ntstatus())
            }
        },
        None => Err(missing_reply_status()),
    }
}

/// The non-empty NUL-separated names of an attribute list, in order.
pub open spec fn nul_separated_names(data: Seq<u8>) -> Seq<Seq<u8>>
    decreases data.len(),
{
    if data.len() == 0 {
        Seq::empty()
    } else {
        proof {
            lemma_first_nul_bounds(data, 0);
        }
        let first_nul = first_nul_at(data, 0);
        let head = data.subrange(0, first_nul);
        let tail = if first_nul < data.len() { data.subrange(first_nul + 1, data.len() as int) } else { Seq::empty() };
        if head.len() == 0 {
            nul_separated_names(tail)
        } else {
            seq![head] + nul_separated_names(tail)
        }
    }
}

/// The index of the first NUL at or after `from`, or the length.
pub open spec fn first_nul_at(data: Seq<u8>, from: int) -> int
    decreases data.len() - from,
{
    if from >= data.len() || data[from] == 0 { from } else { first_nul_at(data, from + 1) }
}

pub proof fn lemma_first_nul_bounds(data: Seq<u8>, from: int)
    requires
        0 <= from <= data.len(),
    ensures
        from <= first_nul_at(data, from) <= data.len(),
        first_nul_at(data, from) < data.len() ==> data[first_nul_at(data, from)] == 0,
        forall|i: int| from <= i < first_nul_at(data, from) ==> data[i] != 0,
    decreases data.len() - from,
{
    if from < data.len() && data[from] != 0 {
        lemma_first_nul_bounds(data, from + 1);
    }
}

/// Splits an attribute list at its NUL bytes, dropping empty names.
pub fn xattr_names(data: &[u8]) -> (r: Vec<Vec<u8>>)
    ensures
        r@.len() == nul_separated_names(data@).len(),
        forall|i: int| 0 <= i < r@.len() ==> (#[trigger] r@[i])@ == nul_separated_names(data@)[i],
{
    let mut out: Vec<Vec<u8>> = Vec::new();
    let mut start: usize = 0;
    assert(data@.subrange(0, data@.len() as int) =~= data@);
    while start < data.len()
        invariant
            start <= data@.len(),
            nul_separated_names(data@) =~= out@.map_values(|v: Vec<u8>| v@) + nul_separated_names(data@.subrange(start as int, data@.len() as int)),
        decreases data@.len() - start,
    {
        let ghost rest = data@.subrange(start as int, data@.len() as int);
        let mut end: usize = start;
        while end < data.len() && data[end] != 0
            invariant
                start <= end <= data@.len(),
                forall|i: int| start <= i < end ==> data@[i] != 0,
            decreases data@.len() - end,
        {
            end = end + 1;
        }
        proof {
            lemma_first_nul_bounds(rest, 0);
            lemma_first_nul_is(rest, 0, (end - start) as int);
        }
        let mut name: Vec<u8> = Vec::new();
        let mut k: usize = start;
        while k < end
            invariant
                start <= k <= end <= data@.len(),
                name@ == data@.subrange(start as int, k as int),
            decreases end - k,
        {
            name.push(data[k]);
            assert(data@.subrange(start as int, k as int + 1) == data@.subrange(start as int, k as int).push(data@[k as int]));
            k = k + 1;
        }
        let ghost before = out@;
        let ghost next_start: int = if end < data.len() { end + 1 } else { end as int };
        assert(rest.subrange(0, (end - start) as int) == name@);
        assert(data@.subrange(next_start, data@.len() as int) == (if (end as int) < data@.len() {
            rest.subrange((end - start) as int + 1, rest.len() as int) } else { Seq::<u8>::empty() }));
        if name.len() > 0 {
            out.push(name);
            assert(out@.map_values(|v: Vec<u8>| v@) =~= before.map_values(|v: Vec<u8>| v@).push(data@.subrange(start as int, end as int)));
        }
        start = if end < data.len() { end + 1 } else { end };
    }
    assert(data@.subrange(start as int, data@.len() as int) =~= Seq::<u8>::empty());
    assert forall|i: int| 0 <= i < out@.len() implies (#[trigger] out@[i])@ == nul_separated_names(data@)[i] by {
        assert(out@.map_values(|v: Vec<u8>| v@)[i] == out@[i]@);
    }
    out
}

proof fn lemma_first_nul_is(data: Seq<u8>, from: int, at: int)
    requires
        0 <= from <= at <= data.len(),
        forall|i: int| from <= i < at ==> data[i] != 0,
        at == data.len() || data[at] == 0,
    ensures
        first_nul_at(data, from) == at,
    decreases at - from,
{
    if from < at {
        lemma_first_nul_is(data, from + 1, at);
    }
}

} // verus!
