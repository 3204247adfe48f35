//! Mount option parsing (`-o a,b` style), validation, and the mapping onto what a Dokan mount
//! can express.
use vstd::prelude::*;
use vstd::string::*;
use crate::text::{chars_of, has_prefix, lemma_split_on_nonempty, push_str, split_chars, split_on, str_eq, str_eq_ignore_ascii_case, eq_ignore_ascii_case, string_from_chars, strip_prefix, trim_chars, trim_spec};
use crate::types::{Config, MountOption, SessionACL, TimeSpan};
use crate::resolver::{PathResolver, DEFAULT_NEGATIVE_TTL_NANOS, Model, PathMap, InodeMap, Forgets};
use crate::text::{parse_u64, parse_u64_spec};

verus! {

/// A single parsed option: a mount option, or an access policy.
#[derive(Clone, Debug, PartialEq, Eq)]
pub enum ParsedMountOption {
    Mount(MountOption),
    Acl(SessionACL),
}

/// Two options that cannot be given together.
#[derive(Clone, Copy, Debug, PartialEq, Eq, Structural)]
pub enum ConflictPair {
    RoRw,
    DevNoDev,
    SuidNoSuid,
    ExecNoExec,
    AtimeNoAtime,
    SyncAsync,
}

/// Why a mount configuration was refused.
#[derive(Clone, Copy, Debug, PartialEq, Eq, Structural)]
pub enum OptionError {
    /// `allow_other` and `allow_root` were both given.
    AclConflict,
    /// Both options of a pair were given.
    Conflicting(ConflictPair),
    /// `-o` was the last argument.
    MissingOptionValue,
    /// `auto_unmount` needs the `All` or `RootAndOwner` policy.
    AutoUnmountNeedsSharedAcl,
    /// A thread count of zero.
    ZeroThreads,
}

impl ConflictPair {
    /// The option names of the pair, as they are written in `-o` lists.
    pub fn names(&self) -> (r: (&'static str, &'static str))
        ensures
            r.0@ == conflict_names(*self).0,
            r.1@ == conflict_names(*self).1,
    {
        match self {
            ConflictPair::RoRw => ("ro", "rw"),
            ConflictPair::DevNoDev => ("dev", "nodev"),
            ConflictPair::SuidNoSuid => ("suid", "nosuid"),
            ConflictPair::ExecNoExec => ("exec", "noexec"),
            ConflictPair::AtimeNoAtime => ("atime", "noatime"),
            ConflictPair::SyncAsync => ("sync", "async"),
        }
    }
}

pub open spec fn conflict_names(p: ConflictPair) -> (Seq<char>, Seq<char>) {
    match p {
        ConflictPair::RoRw => ("ro"@, "rw"@),
        ConflictPair::DevNoDev => ("dev"@, "nodev"@),
        ConflictPair::SuidNoSuid => ("suid"@, "nosuid"@),
        ConflictPair::ExecNoExec => ("exec"@, "noexec"@),
        ConflictPair::AtimeNoAtime => ("atime"@, "noatime"@),
        ConflictPair::SyncAsync => ("sync"@, "async"@),
    }
}

impl OptionError {
    /// Whether the error reports invalid input (every error but a zero thread count).
    pub fn is_invalid_input(&self) -> (r: bool)
        ensures
            r == !(*self is ZeroThreads),
    {
        match self {
            OptionError::ZeroThreads => false,
            _ => true,
        }
    }

    /// The error message.
    pub fn message(&self) -> (r: String)
        ensures
            *self is AclConflict ==> r@ == "allow_other and allow_root are mutually exclusive"@,
            *self is MissingOptionValue ==> r@ == "Error parsing args: Expected option, reached end of args"@,
            *self is AutoUnmountNeedsSharedAcl ==> r@ == "auto_unmount requires allow_other or allow_root access policy"@,
            *self is ZeroThreads ==> r@ == "n_threads"@,
            *self matches OptionError::Conflicting(p) ==> r@ == "mount options "@ + conflict_names(p).0 + " and "@
                + conflict_names(p).1 + " are mutually exclusive"@,
    {
        match self {
            OptionError::AclConflict => String::from_str("allow_other and allow_root are mutually exclusive"),
            OptionError::MissingOptionValue => String::from_str("Error parsing args: Expected option, reached end of args"),
            OptionError::AutoUnmountNeedsSharedAcl => String::from_str("auto_unmount requires allow_other or allow_root access policy"),
            OptionError::ZeroThreads => String::from_str("n_threads"),
            OptionError::Conflicting(p) => {
                let (l, r) = p.names();
                let mut out = String::from_str("mount options ");
                push_str(&mut out, l);
                push_str(&mut out, " and ");
                push_str(&mut out, r);
                push_str(&mut out, " are mutually exclusive");
                out
            },
        }
    }
}

/// The options spelled by a whole word: `ro`, `rw`, the two access policies, and the options
/// Dokan accepts without an equivalent.
pub open spec fn keyword_option(s: Seq<char>) -> Option<ParsedMountOption> {
    if s == "ro"@ { Some(ParsedMountOption::Mount(MountOption::RO)) }
    else if s == "rw"@ { Some(ParsedMountOption::Mount(MountOption::RW)) }
    else if s == "allow_other"@ { Some(ParsedMountOption::Acl(SessionACL::All)) }
    else if s == "allow_root"@ { Some(ParsedMountOption::Acl(SessionACL::RootAndOwner)) }
    else if s == "auto_unmount"@ { Some(ParsedMountOption::Mount(MountOption::AutoUnmount)) }
    else if s == "default_permissions"@ { Some(ParsedMountOption::Mount(MountOption::DefaultPermissions)) }
    else if s == "dev"@ { Some(ParsedMountOption::Mount(MountOption::Dev)) }
    else if s == "nodev"@ { Some(ParsedMountOption::Mount(MountOption::NoDev)) }
    else if s == "suid"@ { Some(ParsedMountOption::Mount(MountOption::Suid)) }
    else if s == "nosuid"@ { Some(ParsedMountOption::Mount(MountOption::NoSuid)) }
    else if s == "exec"@ { Some(ParsedMountOption::Mount(MountOption::Exec)) }
    else if s == "noexec"@ { Some(ParsedMountOption::Mount(MountOption::NoExec)) }
    else if s == "atime"@ { Some(ParsedMountOption::Mount(MountOption::Atime)) }
    else if s == "noatime"@ { Some(ParsedMountOption::Mount(MountOption::NoAtime)) }
    else if s == "dirsync"@ { Some(ParsedMountOption::Mount(MountOption::DirSync)) }
    else if s == "sync"@ { Some(ParsedMountOption::Mount(MountOption::Sync)) }
    else if s == "async"@ { Some(ParsedMountOption::Mount(MountOption::Async)) }
    else { None }
}

/// A mount option read as a tag (its variant) and its text (empty for options without text).
pub open spec fn opt_view(o: MountOption) -> (int, Seq<char>) {
    match o {
        MountOption::FSName(x) => (0, x@),
        MountOption::Subtype(x) => (1, x@),
        MountOption::CUSTOM(x) => (2, x@),
        MountOption::AutoUnmount => (3, Seq::empty()),
        MountOption::DefaultPermissions => (4, Seq::empty()),
        MountOption::Dev => (5, Seq::empty()),
        MountOption::NoDev => (6, Seq::empty()),
        MountOption::Suid => (7, Seq::empty()),
        MountOption::NoSuid => (8, Seq::empty()),
        MountOption::RO => (9, Seq::empty()),
        MountOption::RW => (10, Seq::empty()),
        MountOption::Exec => (11, Seq::empty()),
        MountOption::NoExec => (12, Seq::empty()),
        MountOption::Atime => (13, Seq::empty()),
        MountOption::NoAtime => (14, Seq::empty()),
        MountOption::DirSync => (15, Seq::empty()),
        MountOption::Sync => (16, Seq::empty()),
        MountOption::Async => (17, Seq::empty()),
    }
}

pub open spec fn opts_view(v: Seq<MountOption>) -> Seq<(int, Seq<char>)> {
    v.map_values(|o: MountOption| opt_view(o))
}

/// What one option word means: an access policy (`Some`), or a mount option given by its view.
/// `fsname=X` and `subtype=X` carry `X`; any other word is a custom option carrying itself.
pub open spec fn parse_view(s: Seq<char>) -> (Option<SessionACL>, (int, Seq<char>)) {
    match keyword_option(s) {
        Some(ParsedMountOption::Acl(a)) => (Some(a), (0, Seq::empty())),
        Some(ParsedMountOption::Mount(o)) => (None, opt_view(o)),
        None => if has_prefix(s, "fsname="@) {
            (None, (0, s.skip(7)))
        } else if has_prefix(s, "subtype="@) {
            (None, (1, s.skip(8)))
        } else {
            (None, (2, s))
        },
    }
}

pub open spec fn parsed_view(p: ParsedMountOption) -> (Option<SessionACL>, (int, Seq<char>)) {
    match p {
        ParsedMountOption::Acl(a) => (Some(a), (0, Seq::empty())),
        ParsedMountOption::Mount(o) => (None, opt_view(o)),
    }
}

/// Parses one option word.
pub fn parse_single_mount_option(s: &str) -> (r: ParsedMountOption)
    ensures
        parsed_view(r) == parse_view(s@),
        keyword_option(s@) matches Some(p) ==> r == p,
{
    proof {
        reveal_strlit("fsname=");
        reveal_strlit("subtype=");
    }
    if str_eq(s, "ro") { return ParsedMountOption::Mount(MountOption::RO); }
    if str_eq(s, "rw") { return ParsedMountOption::Mount(MountOption::RW); }
    if str_eq(s, "allow_other") { return ParsedMountOption::Acl(SessionACL::All); }
    if str_eq(s, "allow_root") { return ParsedMountOption::Acl(SessionACL::RootAndOwner); }
    if str_eq(s, "auto_unmount") { return ParsedMountOption::Mount(MountOption::AutoUnmount); }
    if str_eq(s, "default_permissions") { return ParsedMountOption::Mount(MountOption::DefaultPermissions); }
    if str_eq(s, "dev") { return ParsedMountOption::Mount(MountOption::Dev); }
    if str_eq(s, "nodev") { return ParsedMountOption::Mount(MountOption::NoDev); }
    if str_eq(s, "suid") { return ParsedMountOption::Mount(MountOption::Suid); }
    if str_eq(s, "nosuid") { return ParsedMountOption::Mount(MountOption::NoSuid); }
    if str_eq(s, "exec") { return ParsedMountOption::Mount(MountOption::Exec); }
    if str_eq(s, "noexec") { return ParsedMountOption::Mount(MountOption::NoExec); }
    if str_eq(s, "atime") { return ParsedMountOption::Mount(MountOption::Atime); }
    if str_eq(s, "noatime") { return ParsedMountOption::Mount(MountOption::NoAtime); }
    if str_eq(s, "dirsync") { return ParsedMountOption::Mount(MountOption::DirSync); }
    if str_eq(s, "sync") { return ParsedMountOption::Mount(MountOption::Sync); }
    if str_eq(s, "async") { return ParsedMountOption::Mount(MountOption::Async); }
    if let Some(rest) = strip_prefix(s, "fsname=") {
        return ParsedMountOption::Mount(MountOption::FSName(rest));
    }
    if let Some(rest) = strip_prefix(s, "subtype=") {
        return ParsedMountOption::Mount(MountOption::Subtype(rest));
    }
    ParsedMountOption::Mount(MountOption::CUSTOM(String::from_str(s)))
}


/// Options so far (by view) and the access policy.
pub type OptionState = (Seq<(int, Seq<char>)>, SessionACL);

/// One parsed option applied to the state: a policy replaces the current one unless a different
/// shared policy was already chosen (refused: `None`); a mount option is appended.
pub open spec fn apply_step(st: OptionState, pv: (Option<SessionACL>, (int, Seq<char>))) -> Option<OptionState> {
    match pv.0 {
        Some(a) => if st.1 != SessionACL::Owner && st.1 != a { None } else { Some((st.0, a)) },
        None => Some((st.0.push(pv.1), st.1)),
    }
}

/// Option words applied in order, stopping at the first refused one (`false`).
pub open spec fn apply_words(st: OptionState, ws: Seq<Seq<char>>) -> (OptionState, bool)
    decreases ws.len(),
{
    if ws.len() == 0 {
        (st, true)
    } else {
        let (s1, ok) = apply_words(st, ws.drop_last());
        if !ok {
            (s1, false)
        } else {
            match apply_step(s1, parse_view(ws.last())) {
                Some(s2) => (s2, true),
                None => (s1, false),
            }
        }
    }
}

/// The trimmed, non-empty pieces among `parts`.
pub open spec fn nonempty_trimmed(parts: Seq<Seq<char>>) -> Seq<Seq<char>>
    decreases parts.len(),
{
    if parts.len() == 0 {
        Seq::empty()
    } else {
        let prev = nonempty_trimmed(parts.drop_last());
        let w = trim_spec(parts.last());
        if w.len() == 0 { prev } else { prev.push(w) }
    }
}

/// The option words of a comma-separated list.
pub open spec fn csv_words(csv: Seq<char>) -> Seq<Seq<char>> {
    nonempty_trimmed(split_on(csv, ','))
}

pub open spec fn config_state(c: Config) -> OptionState {
    (opts_view(c.mount_options@), c.acl)
}

/// Applying words one list after another is applying the joined list.
pub proof fn lemma_apply_words_concat(st: OptionState, a: Seq<Seq<char>>, b: Seq<Seq<char>>)
    ensures
        apply_words(st, a + b) == ({
            let (s1, ok) = apply_words(st, a);
            if ok { apply_words(s1, b) } else { (s1, false) }
        }),
    decreases b.len(),
{
    if b.len() == 0 {
        assert(a + b =~= a);
    } else {
        lemma_apply_words_concat(st, a, b.drop_last());
        assert((a + b).drop_last() =~= a + b.drop_last());
        assert((a + b).last() == b.last());
    }
}

/// Trimming and dropping empty pieces works piece by piece.
pub proof fn lemma_nonempty_trimmed_concat(a: Seq<Seq<char>>, b: Seq<Seq<char>>)
    ensures
        nonempty_trimmed(a + b) == nonempty_trimmed(a) + nonempty_trimmed(b),
    decreases b.len(),
{
    if b.len() == 0 {
        assert(a + b =~= a);
        assert(nonempty_trimmed(a) + nonempty_trimmed(b) =~= nonempty_trimmed(a));
    } else {
        lemma_nonempty_trimmed_concat(a, b.drop_last());
        assert((a + b).drop_last() =~= a + b.drop_last());
        assert((a + b).last() == b.last());
        let w = trim_spec(b.last());
        if w.len() > 0 {
            assert(nonempty_trimmed(a) + nonempty_trimmed(b.drop_last()).push(w) =~= (nonempty_trimmed(a) + nonempty_trimmed(b.drop_last())).push(w));
        }
    }
}

/// Applies one parsed option to `config`: a policy replaces the current one unless a different
/// shared policy was already chosen (then `AclConflict` and `config` unchanged); a mount option is appended.
pub fn apply_parsed_mount_option(config: &mut Config, option: ParsedMountOption) -> (r: Result<(), OptionError>)
    ensures
        apply_step(config_state(*old(config)), parsed_view(option)) matches Some(st) ==> r is Ok && config_state(*final(config)) == st,
        apply_step(config_state(*old(config)), parsed_view(option)) is None ==> r == Err::<(), OptionError>(OptionError::AclConflict) && *final(config) == *old(config),
        final(config).n_threads == old(config).n_threads,
        final(config).clone_fd == old(config).clone_fd,
{
    match option {
        ParsedMountOption::Mount(o) => {
            let ghost before = config.mount_options@;
            config.mount_options.push(o);
            proof {
                assert(opts_view(config.mount_options@) =~= opts_view(before).push(opt_view(o)));
            }
            Ok(())
        },
        ParsedMountOption::Acl(acl) => {
            if config.acl != SessionACL::Owner && config.acl != acl {
                return Err(OptionError::AclConflict);
            }
            config.acl = acl;
            Ok(())
        },
    }
}

/// Applies a comma-separated option list: each piece is trimmed, empty pieces are skipped, and the
/// rest are applied in order until one is refused.
pub fn apply_csv_mount_options(config: &mut Config, csv: &str) -> (r: Result<(), OptionError>)
    ensures
        config_state(*final(config)) == apply_words(config_state(*old(config)), csv_words(csv@)).0,
        r is Ok <==> apply_words(config_state(*old(config)), csv_words(csv@)).1,
        r is Err ==> r == Err::<(), OptionError>(OptionError::AclConflict),
        final(config).n_threads == old(config).n_threads,
        final(config).clone_fd == old(config).clone_fd,
{
    let chars = chars_of(csv);
    let parts = split_chars(&chars, ',');
    let ghost all = split_on(csv@, ',');
    let ghost st0 = config_state(*config);
    assert(st0 == config_state(*old(config)));
    let mut k: usize = 0;
    proof {
        assert(all.take(0) =~= Seq::<Seq<char>>::empty());
    }
    while k < parts.len()
        invariant
            chars@ == csv@,
            all == split_on(csv@, ','),
            parts@.len() == all.len(),
            forall|i: int| 0 <= i < parts@.len() ==> (#[trigger] parts@[i])@ == all[i],
            k <= parts@.len(),
            st0 == config_state(*old(config)),
            apply_words(st0, nonempty_trimmed(all.take(k as int))) == (config_state(*config), true),
            config.n_threads == old(config).n_threads,
            config.clone_fd == old(config).clone_fd,
        decreases parts@.len() - k,
    {
        let piece = trim_chars(&parts[k]);
        proof {
            assert(all.take(k + 1).drop_last() =~= all.take(k as int));
            assert(all.take(k + 1).last() == all[k as int]);
        }
        if piece.len() > 0 {
            let word = string_from_chars(&piece);
            let parsed = parse_single_mount_option(word.as_str());
            let ghost before = config_state(*config);
            let res = apply_parsed_mount_option(config, parsed);
            proof {
                assert(nonempty_trimmed(all.take(k + 1)) == nonempty_trimmed(all.take(k as int)).push(piece@));
                let ws = nonempty_trimmed(all.take(k + 1));
                assert(ws.drop_last() =~= nonempty_trimmed(all.take(k as int)));
                assert(ws.last() == piece@);
            }
            if res.is_err() {
                proof {
                    let pre = all.take(k + 1);
                    let rest = all.skip(k + 1);
                    assert(all =~= pre + rest);
                    lemma_nonempty_trimmed_concat(pre, rest);
                    lemma_apply_words_concat(st0, nonempty_trimmed(pre), nonempty_trimmed(rest));
                    assert(parse_view(piece@) == parsed_view(parsed));
                    assert(apply_step(before, parse_view(piece@)) is None);
                    assert(apply_words(st0, nonempty_trimmed(pre)) == (before, false));
                    assert(csv_words(csv@) == nonempty_trimmed(pre) + nonempty_trimmed(rest));
                    assert(config_state(*config) == before);
                    assert(apply_words(st0, csv_words(csv@)) == (before, false));
                }
                return res;
            }
        }
        k = k + 1;
    }
    proof {
        assert(all.take(k as int) =~= all);
    }
    Ok(())
}


/// Some option has tag `t`.
pub open spec fn has_tag(v: Seq<(int, Seq<char>)>, t: int) -> bool {
    exists|i: int| 0 <= i < v.len() && (#[trigger] v[i]).0 == t
}

/// The first pair, in the order ro/rw, dev/nodev, suid/nosuid, exec/noexec, atime/noatime,
/// sync/async, whose two options are both present.
pub open spec fn first_conflict(v: Seq<(int, Seq<char>)>) -> Option<ConflictPair> {
    if has_tag(v, 9) && has_tag(v, 10) { Some(ConflictPair::RoRw) }
    else if has_tag(v, 5) && has_tag(v, 6) { Some(ConflictPair::DevNoDev) }
    else if has_tag(v, 7) && has_tag(v, 8) { Some(ConflictPair::SuidNoSuid) }
    else if has_tag(v, 11) && has_tag(v, 12) { Some(ConflictPair::ExecNoExec) }
    else if has_tag(v, 13) && has_tag(v, 14) { Some(ConflictPair::AtimeNoAtime) }
    else if has_tag(v, 16) && has_tag(v, 17) { Some(ConflictPair::SyncAsync) }
    else { None }
}

pub open spec fn validate_result(v: Seq<(int, Seq<char>)>) -> Result<(), OptionError> {
    match first_conflict(v) {
        Some(p) => Err(OptionError::Conflicting(p)),
        None => Ok(()),
    }
}

fn option_tag(o: &MountOption) -> (r: u8)
    ensures
        r as int == opt_view(*o).0,
{
    match o {
        MountOption::FSName(_) => 0,
        MountOption::Subtype(_) => 1,
        MountOption::CUSTOM(_) => 2,
        MountOption::AutoUnmount => 3,
        MountOption::DefaultPermissions => 4,
        MountOption::Dev => 5,
        MountOption::NoDev => 6,
        MountOption::Suid => 7,
        MountOption::NoSuid => 8,
        MountOption::RO => 9,
        MountOption::RW => 10,
        MountOption::Exec => 11,
        MountOption::NoExec => 12,
        MountOption::Atime => 13,
        MountOption::NoAtime => 14,
        MountOption::DirSync => 15,
        MountOption::Sync => 16,
        MountOption::Async => 17,
    }
}

fn has_option_tag(options: &Vec<MountOption>, t: u8) -> (r: bool)
    ensures
        r == has_tag(opts_view(options@), t as int),
{
    let mut i: usize = 0;
    while i < options.len()
        invariant
            i <= options@.len(),
            forall|j: int| 0 <= j < i ==> opt_view(#[trigger] options@[j]).0 != t,
        decreases options@.len() - i,
    {
        if option_tag(&options[i]) == t {
            assert(opts_view(options@)[i as int].0 == t);
            return true;
        }
        i = i + 1;
    }
    proof {
        if has_tag(opts_view(options@), t as int) {
            let j = choose|j: int| 0 <= j < opts_view(options@).len() && (#[trigger] opts_view(options@)[j]).0 == t;
            assert(opt_view(options@[j]).0 == t);
        }
    }
    false
}

pub open spec fn pair_tags(p: ConflictPair) -> (int, int) {
    match p {
        ConflictPair::RoRw => (9, 10),
        ConflictPair::DevNoDev => (5, 6),
        ConflictPair::SuidNoSuid => (7, 8),
        ConflictPair::ExecNoExec => (11, 12),
        ConflictPair::AtimeNoAtime => (13, 14),
        ConflictPair::SyncAsync => (16, 17),
    }
}

/// Refuses the options when both options of `pair` are present.
pub fn reject_conflicting_mount_options(options: &Vec<MountOption>, pair: ConflictPair) -> (r: Result<(), OptionError>)
    ensures
        r is Err <==> has_tag(opts_view(options@), pair_tags(pair).0) && has_tag(opts_view(options@), pair_tags(pair).1),
        r is Err ==> r == Err::<(), OptionError>(OptionError::Conflicting(pair)),
{
    let (l, rt): (u8, u8) = match pair {
        ConflictPair::RoRw => (9, 10),
        ConflictPair::DevNoDev => (5, 6),
        ConflictPair::SuidNoSuid => (7, 8),
        ConflictPair::ExecNoExec => (11, 12),
        ConflictPair::AtimeNoAtime => (13, 14),
        ConflictPair::SyncAsync => (16, 17),
    };
    if has_option_tag(options, l) && has_option_tag(options, rt) {
        Err(OptionError::Conflicting(pair))
    } else {
        Ok(())
    }
}

/// Refuses mutually exclusive options, reporting the first conflicting pair.
pub fn validate_mount_options(options: &Vec<MountOption>) -> (r: Result<(), OptionError>)
    ensures
        r == validate_result(opts_view(options@)),
{
    reject_conflicting_mount_options(options, ConflictPair::RoRw)?;
    reject_conflicting_mount_options(options, ConflictPair::DevNoDev)?;
    reject_conflicting_mount_options(options, ConflictPair::SuidNoSuid)?;
    reject_conflicting_mount_options(options, ConflictPair::ExecNoExec)?;
    reject_conflicting_mount_options(options, ConflictPair::AtimeNoAtime)?;
    reject_conflicting_mount_options(options, ConflictPair::SyncAsync)?;
    Ok(())
}

/// Some option is the custom option `auto_probe`.
pub open spec fn auto_probe_spec(v: Seq<(int, Seq<char>)>) -> bool {
    exists|i: int| 0 <= i < v.len() && (#[trigger] v[i]) == (2int, "auto_probe"@)
}

fn custom_text(o: &MountOption) -> (r: Option<&String>)
    ensures
        r is Some <==> opt_view(*o).0 == 2,
        r matches Some(t) ==> t@ == opt_view(*o).1,
{
    match o {
        MountOption::CUSTOM(v) => Some(v),
        _ => None,
    }
}

pub fn is_auto_probe_enabled(options: &Vec<MountOption>) -> (r: bool)
    ensures
        r == auto_probe_spec(opts_view(options@)),
{
    let mut i: usize = 0;
    while i < options.len()
        invariant
            i <= options@.len(),
            forall|j: int| 0 <= j < i ==> opt_view(#[trigger] options@[j]) != (2int, "auto_probe"@),
        decreases options@.len() - i,
    {
        if let Some(v) = custom_text(&options[i]) {
            if str_eq(v.as_str(), "auto_probe") {
                assert(opts_view(options@)[i as int] == (2int, "auto_probe"@));
                return true;
            }
        }
        i = i + 1;
    }
    proof {
        if auto_probe_spec(opts_view(options@)) {
            let j = choose|j: int| 0 <= j < opts_view(options@).len() && (#[trigger] opts_view(options@)[j]) == (2int, "auto_probe"@);
            assert(opt_view(options@[j]) == (2int, "auto_probe"@));
        }
    }
    false
}

/// Options accepted for fuser compatibility that a Dokan mount has no way to express.
pub open spec fn inexpressible_tag(t: int) -> bool {
    (3 <= t && t <= 8) || (11 <= t && t <= 17)
}

pub fn is_dokan_inexpressible_mount_option(opt: &MountOption) -> (r: bool)
    ensures
        r == inexpressible_tag(opt_view(*opt).0),
{
    let t = option_tag(opt);
    (3 <= t && t <= 8) || (11 <= t && t <= 17)
}

/// What a Dokan mount takes from the options: write protection, debug output, single-threaded callbacks.
#[derive(Clone, Copy, Debug, PartialEq, Eq, Structural)]
pub struct DokanMountPlan {
    pub write_protect: bool,
    pub debug: bool,
    pub single_thread: bool,
}

/// Some option is a custom option equal to `word` without regard to ASCII case.
pub open spec fn has_custom_word(v: Seq<(int, Seq<char>)>, word: Seq<char>) -> bool {
    exists|i: int| 0 <= i < v.len() && (#[trigger] v[i]).0 == 2 && eq_ignore_ascii_case(v[i].1, word)
}

/// `ro` protects against writes; custom `single_thread` and `debug` (any ASCII case) set the
/// matching flags; every other option changes nothing.
pub open spec fn plan_of(v: Seq<(int, Seq<char>)>) -> DokanMountPlan {
    DokanMountPlan {
        write_protect: has_tag(v, 9),
        debug: has_custom_word(v, "debug"@),
        single_thread: has_custom_word(v, "single_thread"@),
    }
}

/// An option that a Dokan mount cannot express changes nothing of what the
/// mount is given: adding it to any option list leaves the plan as it was.
pub proof fn lemma_inexpressible_option_is_noop(options: Seq<MountOption>, opt: MountOption)
    requires
        inexpressible_tag(opt_view(opt).0),
    ensures
        plan_of(opts_view(options.push(opt))) == plan_of(opts_view(options)),
{
    let v = opts_view(options);
    let w = opts_view(options.push(opt));
    assert(w =~= v.push(opt_view(opt)));
    assert forall|t: int| t == 9 || t == 2 implies (has_tag(w, t) <==> has_tag(v, t)) by {
        if has_tag(w, t) {
            let j = choose|j: int| 0 <= j < w.len() && (#[trigger] w[j]).0 == t;
            assert(j < v.len());
            assert(v[j] == w[j]);
        }
        if has_tag(v, t) {
            let j = choose|j: int| 0 <= j < v.len() && (#[trigger] v[j]).0 == t;
            assert(w[j] == v[j]);
        }
    }
    assert forall|word: Seq<char>| has_custom_word(w, word) <==> has_custom_word(v, word) by {
        if has_custom_word(w, word) {
            let j = choose|j: int| 0 <= j < w.len() && (#[trigger] w[j]).0 == 2 && eq_ignore_ascii_case(w[j].1, word);
            assert(j < v.len());
            assert(v[j] == w[j]);
        }
        if has_custom_word(v, word) {
            let j = choose|j: int| 0 <= j < v.len() && (#[trigger] v[j]).0 == 2 && eq_ignore_ascii_case(v[j].1, word);
            assert(w[j] == v[j]);
        }
    }
    assert(has_tag(w, 9) == has_tag(v, 9));
    assert(has_custom_word(w, "debug"@) == has_custom_word(v, "debug"@));
    assert(has_custom_word(w, "single_thread"@) == has_custom_word(v, "single_thread"@));
}

/// Validates the options and maps them onto a Dokan mount.
pub fn to_dokan_mount_options(options: &Vec<MountOption>) -> (r: Result<DokanMountPlan, OptionError>)
    ensures
        validate_result(opts_view(options@)) matches Err(e) ==> r == Err::<DokanMountPlan, OptionError>(e),
        validate_result(opts_view(options@)) is Ok ==> r == Ok::<DokanMountPlan, OptionError>(plan_of(opts_view(options@))),
{
    validate_mount_options(options)?;
    let mut plan = DokanMountPlan { write_protect: false, debug: false, single_thread: false };
    let ghost v = opts_view(options@);
    let mut i: usize = 0;
    while i < options.len()
        invariant
            v == opts_view(options@),
            i <= options@.len(),
            plan == plan_of(v.take(i as int)),
        decreases options@.len() - i,
    {
        proof {
            assert(v.take(i + 1) =~= v.take(i as int).push(v[i as int]));
            assert(forall|t: int| has_tag(v.take(i + 1), t) <==> (has_tag(v.take(i as int), t) || v[i as int].0 == t)) by {
                assert forall|t: int| has_tag(v.take(i + 1), t) implies (has_tag(v.take(i as int), t) || v[i as int].0 == t) by {
                    let j = choose|j: int| 0 <= j < v.take(i + 1).len() && (#[trigger] v.take(i + 1)[j]).0 == t;
                    if j < i { assert(v.take(i as int)[j] == v.take(i + 1)[j]); }
                }
                assert forall|t: int| has_tag(v.take(i as int), t) implies has_tag(v.take(i + 1), t) by {
                    let j = choose|j: int| 0 <= j < v.take(i as int).len() && (#[trigger] v.take(i as int)[j]).0 == t;
                    assert(v.take(i as int)[j] == v.take(i + 1)[j]);
                }
                assert(v.take(i + 1)[i as int] == v[i as int]);
                assert(has_tag(v.take(i + 1), v[i as int].0));
            }
            assert(forall|w: Seq<char>| has_custom_word(v.take(i + 1), w) <==> (has_custom_word(v.take(i as int), w) || (v[i as int].0 == 2 && eq_ignore_ascii_case(v[i as int].1, w)))) by {
                assert forall|w: Seq<char>| has_custom_word(v.take(i + 1), w) implies (has_custom_word(v.take(i as int), w) || (v[i as int].0 == 2 && eq_ignore_ascii_case(v[i as int].1, w))) by {
                    let j = choose|j: int| 0 <= j < v.take(i + 1).len() && (#[trigger] v.take(i + 1)[j]).0 == 2 && eq_ignore_ascii_case(v.take(i + 1)[j].1, w);
                    if j < i { assert(v.take(i as int)[j] == v.take(i + 1)[j]); }
                }
                assert forall|w: Seq<char>| has_custom_word(v.take(i as int), w) implies has_custom_word(v.take(i + 1), w) by {
                    let j = choose|j: int| 0 <= j < v.take(i as int).len() && (#[trigger] v.take(i as int)[j]).0 == 2 && eq_ignore_ascii_case(v.take(i as int)[j].1, w);
                    assert(v.take(i as int)[j] == v.take(i + 1)[j]);
                }
                assert forall|w: Seq<char>| (v[i as int].0 == 2 && #[trigger] eq_ignore_ascii_case(v[i as int].1, w)) implies has_custom_word(v.take(i + 1), w) by {
                    assert(v.take(i + 1)[i as int] == v[i as int]);
                }
            }
            assert(v[i as int] == opt_view(options@[i as int]));
        }
        let t = option_tag(&options[i]);
        if t == 9 {
            plan.write_protect = true;
        }
        if let Some(text) = custom_text(&options[i]) {
            if str_eq_ignore_ascii_case(text.as_str(), "single_thread") {
                plan.single_thread = true;
            }
            if str_eq_ignore_ascii_case(text.as_str(), "debug") {
                plan.debug = true;
            }
        }
        i = i + 1;
    }
    proof {
        assert(v.take(i as int) =~= v);
    }
    Ok(plan)
}

/// Callbacks run on a single thread exactly when the configuration asks for one thread.
pub fn apply_session_threading(config: &Config, plan: &mut DokanMountPlan)
    ensures
        final(plan).single_thread == (config.n_threads == Some(1usize)),
        final(plan).write_protect == old(plan).write_protect,
        final(plan).debug == old(plan).debug,
{
    plan.single_thread = match config.n_threads {
        Some(n) => n == 1,
        None => false,
    };
}

/// The text of the last option with tag `t`, or `default` when there is none.
pub open spec fn last_text(v: Seq<(int, Seq<char>)>, t: int, default: Seq<char>) -> Seq<char>
    decreases v.len(),
{
    if v.len() == 0 {
        default
    } else if v.last().0 == t {
        v.last().1
    } else {
        last_text(v.drop_last(), t, default)
    }
}

/// The volume name is set by `fsname=` options alone and the filesystem name
/// by `subtype=` options alone: adding an option to the list gives the new
/// name when it is of that kind and leaves the name as it was otherwise, so a
/// list without such an option keeps the default.
pub proof fn lemma_volume_names_come_from_their_own_options(options: Seq<MountOption>, o: MountOption,
    volume_default: Seq<char>, fs_default: Seq<char>)
    ensures
        last_text(opts_view(options.push(o)), 0, volume_default) == match o {
            MountOption::FSName(x) => x@,
            _ => last_text(opts_view(options), 0, volume_default),
        },
        last_text(opts_view(options.push(o)), 1, fs_default) == match o {
            MountOption::Subtype(x) => x@,
            _ => last_text(opts_view(options), 1, fs_default),
        },
        (forall|i: int| 0 <= i < options.len() ==> !(#[trigger] options[i] is FSName))
            ==> last_text(opts_view(options), 0, volume_default) == volume_default,
        (forall|i: int| 0 <= i < options.len() ==> !(#[trigger] options[i] is Subtype))
            ==> last_text(opts_view(options), 1, fs_default) == fs_default,
    decreases options.len(),
{
    assert(opts_view(options.push(o)) =~= opts_view(options).push(opt_view(o)));
    assert(opts_view(options.push(o)).drop_last() =~= opts_view(options));
    if options.len() > 0 {
        let rest = options.drop_last();
        lemma_volume_names_come_from_their_own_options(rest, options.last(), volume_default, fs_default);
        assert(rest.push(options.last()) =~= options);
        if forall|i: int| 0 <= i < options.len() ==> !(#[trigger] options[i] is FSName) {
            assert forall|i: int| 0 <= i < rest.len() implies !(#[trigger] rest[i] is FSName) by {
                assert(rest[i] == options[i]);
            }
            assert(options[options.len() - 1] == options.last());
        }
        if forall|i: int| 0 <= i < options.len() ==> !(#[trigger] options[i] is Subtype) {
            assert forall|i: int| 0 <= i < rest.len() implies !(#[trigger] rest[i] is Subtype) by {
                assert(rest[i] == options[i]);
            }
            assert(options[options.len() - 1] == options.last());
        }
    } else {
        assert(opts_view(options) =~= Seq::<(int, Seq<char>)>::empty());
    }
}

/// Volume name and filesystem name: the last `fsname=` and `subtype=` values, by default
/// `confuse` and `FUSER`.
pub fn derive_volume_names(options: &Vec<MountOption>) -> (r: (String, String))
    ensures
        r.0@ == last_text(opts_view(options@), 0, "confuse"@),
        r.1@ == last_text(opts_view(options@), 1, "FUSER"@),
        (forall|i: int| 0 <= i < options@.len() ==> !(#[trigger] options@[i] is FSName)) ==> r.0@ == "confuse"@,
        (forall|i: int| 0 <= i < options@.len() ==> !(#[trigger] options@[i] is Subtype)) ==> r.1@ == "FUSER"@,
{
    proof {
        lemma_volume_names_come_from_their_own_options(options@, MountOption::RO, "confuse"@, "FUSER"@);
    }
    let mut volume_name = String::from_str("confuse");
    let mut fs_name = String::from_str("FUSER");
    let ghost v = opts_view(options@);
    let mut i: usize = 0;
    proof {
        assert(v.take(0) =~= Seq::<(int, Seq<char>)>::empty());
    }
    while i < options.len()
        invariant
            v == opts_view(options@),
            i <= options@.len(),
            volume_name@ == last_text(v.take(i as int), 0, "confuse"@),
            fs_name@ == last_text(v.take(i as int), 1, "FUSER"@),
        decreases options@.len() - i,
    {
        proof {
            assert(v.take(i + 1).drop_last() =~= v.take(i as int));
            assert(v.take(i + 1).last() == opt_view(options@[i as int]));
        }
        match &options[i] {
            MountOption::FSName(x) => { volume_name = x.clone(); },
            MountOption::Subtype(x) => { fs_name = x.clone(); },
            _ => {},
        }
        i = i + 1;
    }
    proof {
        assert(v.take(i as int) =~= v);
    }
    (volume_name, fs_name)
}

/// `auto_unmount` needs a shared access policy; a thread count must not be zero.
pub fn validate_session_config(config: &Config) -> (r: Result<(), OptionError>)
    ensures
        config.acl == SessionACL::Owner && has_tag(opts_view(config.mount_options@), 3) ==> r == Err::<(), OptionError>(OptionError::AutoUnmountNeedsSharedAcl),
        !(config.acl == SessionACL::Owner && has_tag(opts_view(config.mount_options@), 3)) && config.n_threads == Some(0usize) ==> r == Err::<(), OptionError>(OptionError::ZeroThreads),
        !(config.acl == SessionACL::Owner && has_tag(opts_view(config.mount_options@), 3)) && config.n_threads != Some(0usize) ==> r is Ok,
{
    if config.acl == SessionACL::Owner && has_option_tag(&config.mount_options, 3) {
        return Err(OptionError::AutoUnmountNeedsSharedAcl);
    }
    match config.n_threads {
        Some(n) => if n == 0 { return Err(OptionError::ZeroThreads) },
        None => {},
    }
    Ok(())
}

/// Nanoseconds in `ms` milliseconds, staying at `u64::MAX`.
pub open spec fn millis_nanos(ms: u64) -> u64 {
    if ms * 1_000_000 <= u64::MAX { (ms * 1_000_000) as u64 } else { u64::MAX }
}

/// The negative TTL after the custom options of `v`, in order: `negative_ttl=0` and
/// `negative_ttl=off` turn it off, `negative_ttl_ms=N` sets `N` milliseconds (off for 0).
pub open spec fn negative_ttl_after(v: Seq<(int, Seq<char>)>, init: Option<u64>) -> Option<u64>
    decreases v.len(),
{
    if v.len() == 0 {
        init
    } else {
        let prev = negative_ttl_after(v.drop_last(), init);
        let (t, text) = v.last();
        if t != 2 {
            prev
        } else if text == "negative_ttl=0"@ || text == "negative_ttl=off"@ {
            None
        } else if has_prefix(text, "negative_ttl_ms="@) && parse_u64_spec(text.skip(16)) is Some {
            let ms = parse_u64_spec(text.skip(16))->0;
            if ms == 0 { None } else { Some(millis_nanos(ms)) }
        } else {
            prev
        }
    }
}

/// A fresh path resolver whose negative TTL the custom options set.
pub fn configured_path_resolver(config: &Config) -> (r: PathResolver)
    ensures
        r.wf(),
        r.model() == (PathMap::empty(), InodeMap::empty(), Forgets::empty()),
        r.negative_ttl_view() == negative_ttl_after(opts_view(config.mount_options@), Some(DEFAULT_NEGATIVE_TTL_NANOS)),
        r.remembered() == Map::<u64, nat>::empty(),
        r.taken() == Map::<u64, nat>::empty(),
{
    let mut resolver = PathResolver::new();
    let ghost v = opts_view(config.mount_options@);
    let mut i: usize = 0;
    proof {
        reveal_strlit("negative_ttl_ms=");
        assert(v.take(0) =~= Seq::<(int, Seq<char>)>::empty());
    }
    while i < config.mount_options.len()
        invariant
            v == opts_view(config.mount_options@),
            i <= config.mount_options@.len(),
            resolver.wf(),
            resolver.model() == (PathMap::empty(), InodeMap::empty(), Forgets::empty()),
            resolver.negative_ttl_view() == negative_ttl_after(v.take(i as int), Some(DEFAULT_NEGATIVE_TTL_NANOS)),
            resolver.remembered() == Map::<u64, nat>::empty(),
            resolver.taken() == Map::<u64, nat>::empty(),
            "negative_ttl_ms="@.len() == 16,
        decreases config.mount_options@.len() - i,
    {
        proof {
            assert(v.take(i + 1).drop_last() =~= v.take(i as int));
            assert(v.take(i + 1).last() == opt_view(config.mount_options@[i as int]));
        }
        if let Some(value) = custom_text(&config.mount_options[i]) {
            if str_eq(value.as_str(), "negative_ttl=0") || str_eq(value.as_str(), "negative_ttl=off") {
                resolver.set_negative_ttl(TimeSpan::zero());
            } else if let Some(rest) = strip_prefix(value.as_str(), "negative_ttl_ms=") {
                let digits = chars_of(rest.as_str());
                if let Some(ms) = parse_u64(&digits) {
                    let ttl = TimeSpan::from_millis(ms);
                    resolver.set_negative_ttl(ttl);
                }
            }
        }
        i = i + 1;
    }
    proof {
        assert(v.take(i as int) =~= v);
    }
    resolver
}


/// The option words of command-line style arguments: `-o LIST` and `-oLIST` give the words of
/// `LIST`; a final lone `-o` and any other argument are words themselves.
pub open spec fn arg_words(args: Seq<Seq<char>>) -> Seq<Seq<char>>
    decreases args.len(),
{
    if args.len() == 0 {
        Seq::empty()
    } else if args[0] == "-o"@ {
        if args.len() >= 2 { csv_words(args[1]) + arg_words(args.skip(2)) } else { seq![args[0]] }
    } else if has_prefix(args[0], "-o"@) && args[0].len() > 2 {
        csv_words(args[0].skip(2)) + arg_words(args.skip(1))
    } else {
        seq![args[0]] + arg_words(args.skip(1))
    }
}

/// What parsing option words from the initial state gives: the first refused word is an
/// `AclConflict`; otherwise the options must pass validation.
pub open spec fn parse_outcome(ws: Seq<Seq<char>>, missing_value: bool) -> Result<OptionState, OptionError> {
    let (st, ok) = apply_words((Seq::empty(), SessionACL::Owner), ws);
    if !ok {
        Err(OptionError::AclConflict)
    } else if missing_value {
        Err(OptionError::MissingOptionValue)
    } else {
        match first_conflict(st.0) {
            Some(p) => Err(OptionError::Conflicting(p)),
            None => Ok(st),
        }
    }
}

pub open spec fn string_seq_views(v: Seq<String>) -> Seq<Seq<char>> {
    v.map_values(|s: String| s@)
}

fn apply_one_word(config: &mut Config, word: &str) -> (r: Result<(), OptionError>)
    ensures
        config_state(*final(config)) == apply_words(config_state(*old(config)), seq![word@]).0,
        r is Ok <==> apply_words(config_state(*old(config)), seq![word@]).1,
        r is Err ==> r == Err::<(), OptionError>(OptionError::AclConflict),
        final(config).n_threads == old(config).n_threads,
        final(config).clone_fd == old(config).clone_fd,
{
    let parsed = parse_single_mount_option(word);
    let ghost st = config_state(*config);
    proof {
        assert(seq![word@].drop_last() =~= Seq::<Seq<char>>::empty());
        assert(seq![word@].last() == word@);
        assert(apply_words(st, Seq::<Seq<char>>::empty()) == (st, true));
    }
    let r = apply_parsed_mount_option(config, parsed);
    proof {
        assert(apply_words(st, seq![word@]) == match apply_step(st, parse_view(word@)) {
            Some(s2) => (s2, true),
            None => (st, false),
        });
    }
    r
}

/// Parses command-line style arguments (`-o a,b`, `-oa,b`, or bare option words) into a
/// configuration, then validates it. A final lone `-o` is kept as a custom option.
pub fn parse_mount_options(args: &Vec<String>) -> (r: Result<Config, OptionError>)
    ensures
        match parse_outcome(arg_words(string_seq_views(args@)), false) {
            Ok(st) => r matches Ok(c) && config_state(c) == st && c.n_threads is None && !c.clone_fd,
            Err(e) => r == Err::<Config, OptionError>(e),
        },
{
    let mut out = Config::default_config();
    let ghost all = string_seq_views(args@);
    let ghost init: OptionState = (Seq::empty(), SessionACL::Owner);
    let ghost mut done: Seq<Seq<char>> = Seq::empty();
    let mut i: usize = 0;
    proof {
        reveal_strlit("-o");
        assert(opts_view(out.mount_options@) =~= Seq::<(int, Seq<char>)>::empty());
        assert(all.skip(0) =~= all);
    }
    while i < args.len()
        invariant
            all == string_seq_views(args@),
            i <= args@.len(),
            arg_words(all) == done + arg_words(all.skip(i as int)),
            apply_words(init, done) == (config_state(out), true),
            init == (Seq::<(int, Seq<char>)>::empty(), SessionACL::Owner),
            out.n_threads is None,
            !out.clone_fd,
            "-o"@ == seq!['-', 'o'],
        decreases args@.len() - i,
    {
        let ghost rest = all.skip(i as int);
        proof {
            assert(rest[0] == args@[i as int]@);
            assert(rest.skip(1) =~= all.skip(i + 1));
            if i + 1 < args@.len() {
                assert(rest.skip(2) =~= all.skip(i + 2));
                assert(rest[1] == args@[i + 1]@);
            }
        }
        let arg = args[i].as_str();
        let ghost before = config_state(out);
        let is_dash_o = str_eq(arg, "-o");
        let res;
        let ghost new_words: Seq<Seq<char>>;
        if is_dash_o && i + 1 < args.len() {
            res = apply_csv_mount_options(&mut out, args[i + 1].as_str());
            proof { new_words = csv_words(args@[i + 1]@); }
            i = i + 2;
        } else if is_dash_o {
            res = apply_one_word(&mut out, arg);
            proof { new_words = seq![rest[0]]; }
            i = i + 1;
            proof { assert(all.skip(i as int) =~= Seq::<Seq<char>>::empty()); }
        } else {
            let stripped = strip_prefix(arg, "-o");
            match stripped {
                Some(list) if list.unicode_len() > 0 => {
                    res = apply_csv_mount_options(&mut out, list.as_str());
                    proof { new_words = csv_words(rest[0].skip(2)); }
                },
                _ => {
                    res = apply_one_word(&mut out, arg);
                    proof { new_words = seq![rest[0]]; }
                },
            }
            i = i + 1;
        }
        proof {
            assert(arg_words(rest) == new_words + arg_words(all.skip(i as int)));
            assert(arg_words(all) == (done + new_words) + arg_words(all.skip(i as int)));
            lemma_apply_words_concat(init, done, new_words);
        }
        if res.is_err() {
            proof {
                lemma_apply_words_concat(init, done + new_words, arg_words(all.skip(i as int)));
            }
            return Err(OptionError::AclConflict);
        }
        proof {
            done = done + new_words;
        }
    }
    proof {
        assert(all.skip(i as int) =~= Seq::<Seq<char>>::empty());
        assert(done + Seq::<Seq<char>>::empty() =~= done);
    }
    validate_mount_options(&out.mount_options)?;
    Ok(out)
}

/// The option lists of command-line style arguments where every argument is a list: `-o LIST`,
/// `-oLIST`, or `LIST`; `true` when the last argument is a lone `-o`.
pub open spec fn strict_arg_words(args: Seq<Seq<char>>) -> (Seq<Seq<char>>, bool)
    decreases args.len(),
{
    if args.len() == 0 {
        (Seq::empty(), false)
    } else if args[0] == "-o"@ {
        if args.len() >= 2 {
            let (w, m) = strict_arg_words(args.skip(2));
            (csv_words(args[1]) + w, m)
        } else {
            (Seq::empty(), true)
        }
    } else if has_prefix(args[0], "-o"@) {
        let (w, m) = strict_arg_words(args.skip(1));
        (csv_words(args[0].skip(2)) + w, m)
    } else {
        let (w, m) = strict_arg_words(args.skip(1));
        (csv_words(args[0]) + w, m)
    }
}

/// Parses arguments where every argument is an option list (`-o LIST`, `-oLIST` or `LIST`);
/// a final lone `-o` is an error. The options are then validated.
pub fn parse_mount_options_from_args(args: &Vec<String>) -> (r: Result<Config, OptionError>)
    ensures
        match parse_outcome(strict_arg_words(string_seq_views(args@)).0, strict_arg_words(string_seq_views(args@)).1) {
            Ok(st) => r matches Ok(c) && config_state(c) == st && c.n_threads is None && !c.clone_fd,
            Err(e) => r == Err::<Config, OptionError>(e),
        },
{
    let mut out = Config::default_config();
    let ghost all = string_seq_views(args@);
    let ghost init: OptionState = (Seq::empty(), SessionACL::Owner);
    let ghost mut done: Seq<Seq<char>> = Seq::empty();
    let mut i: usize = 0;
    proof {
        reveal_strlit("-o");
        assert(opts_view(out.mount_options@) =~= Seq::<(int, Seq<char>)>::empty());
        assert(all.skip(0) =~= all);
    }
    while i < args.len()
        invariant
            all == string_seq_views(args@),
            i <= args@.len(),
            strict_arg_words(all).0 == done + strict_arg_words(all.skip(i as int)).0,
            strict_arg_words(all).1 == strict_arg_words(all.skip(i as int)).1,
            apply_words(init, done) == (config_state(out), true),
            init == (Seq::<(int, Seq<char>)>::empty(), SessionACL::Owner),
            out.n_threads is None,
            !out.clone_fd,
            "-o"@ == seq!['-', 'o'],
        decreases args@.len() - i,
    {
        let ghost rest = all.skip(i as int);
        proof {
            assert(rest[0] == args@[i as int]@);
            assert(rest.skip(1) =~= all.skip(i + 1));
            if i + 1 < args@.len() {
                assert(rest.skip(2) =~= all.skip(i + 2));
                assert(rest[1] == args@[i + 1]@);
            }
        }
        let arg = args[i].as_str();
        if str_eq(arg, "-o") && i + 1 >= args.len() {
            proof {
                assert(strict_arg_words(rest) == (Seq::<Seq<char>>::empty(), true));
                assert(done + Seq::<Seq<char>>::empty() =~= done);
            }
            return Err(OptionError::MissingOptionValue);
        }
        let res;
        let ghost new_words: Seq<Seq<char>>;
        if str_eq(arg, "-o") {
            res = apply_csv_mount_options(&mut out, args[i + 1].as_str());
            proof { new_words = csv_words(args@[i + 1]@); }
            i = i + 2;
        } else {
            match strip_prefix(arg, "-o") {
                Some(list) => {
                    res = apply_csv_mount_options(&mut out, list.as_str());
                    proof { new_words = csv_words(rest[0].skip(2)); }
                },
                None => {
                    res = apply_csv_mount_options(&mut out, arg);
                    proof { new_words = csv_words(rest[0]); }
                },
            }
            i = i + 1;
        }
        proof {
            assert(strict_arg_words(rest).0 == new_words + strict_arg_words(all.skip(i as int)).0);
            assert(strict_arg_words(all).0 == (done + new_words) + strict_arg_words(all.skip(i as int)).0);
            lemma_apply_words_concat(init, done, new_words);
        }
        if res.is_err() {
            proof {
                lemma_apply_words_concat(init, done + new_words, strict_arg_words(all.skip(i as int)).0);
            }
            return Err(OptionError::AclConflict);
        }
        proof {
            done = done + new_words;
        }
    }
    proof {
        assert(all.skip(i as int) =~= Seq::<Seq<char>>::empty());
        assert(done + Seq::<Seq<char>>::empty() =~= done);
    }
    validate_mount_options(&out.mount_options)?;
    Ok(out)
}

} // verus!
