//! Windows-style path handling: splitting into components, normalising to cache keys,
//! joining, and re-rooting keys after a rename.
use vstd::prelude::*;
use vstd::string::*;
use crate::text::{chars_of, has_prefix, lowercase, push_char, push_str, str_eq, string_from_chars, strip_prefix, to_lowercase};

verus! {

/// Path separators: backslash and slash.
pub open spec fn is_sep(c: char) -> bool {
    c == '\\' || c == '/'
}

/// The pieces of `s` between separators, as `str::split` on both separators gives them
/// (empty pieces included; always at least one piece).
pub open spec fn split_parts(s: Seq<char>) -> Seq<Seq<char>>
    decreases s.len(),
{
    if s.len() == 0 {
        seq![Seq::<char>::empty()]
    } else {
        let p = split_parts(s.drop_last());
        if is_sep(s.last()) {
            p.push(Seq::<char>::empty())
        } else {
            p.update(p.len() - 1, p.last().push(s.last()))
        }
    }
}

/// A piece that names something: non-empty and not a drive or stream prefix ending in `:`.
pub open spec fn is_named_part(p: Seq<char>) -> bool {
    p.len() > 0 && p.last() != ':'
}

/// One step of the component fold: without `resolve_dots` every named piece is kept;
/// with it, `.` is dropped and `..` removes the previous component.
pub open spec fn fold_step(acc: Seq<Seq<char>>, p: Seq<char>, resolve_dots: bool) -> Seq<Seq<char>> {
    if !is_named_part(p) {
        acc
    } else if resolve_dots && p == seq!['.'] {
        acc
    } else if resolve_dots && p == seq!['.', '.'] {
        if acc.len() > 0 { acc.drop_last() } else { acc }
    } else {
        acc.push(p)
    }
}

pub open spec fn fold_parts(parts: Seq<Seq<char>>, resolve_dots: bool) -> Seq<Seq<char>>
    decreases parts.len(),
{
    if parts.len() == 0 {
        Seq::empty()
    } else {
        fold_step(fold_parts(parts.drop_last(), resolve_dots), parts.last(), resolve_dots)
    }
}

/// The named pieces of a path, in order.
pub open spec fn named_parts(path: Seq<char>) -> Seq<Seq<char>> {
    fold_parts(split_parts(path), false)
}

/// The components of a path after `.` and `..` are resolved.
pub open spec fn normalized_components_spec(path: Seq<char>) -> Seq<Seq<char>> {
    fold_parts(split_parts(path), true)
}

/// `\c1\c2...\cn`; empty for no components.
pub open spec fn prefixed_join(parts: Seq<Seq<char>>) -> Seq<char>
    decreases parts.len(),
{
    if parts.len() == 0 {
        Seq::empty()
    } else {
        prefixed_join(parts.drop_last()) + seq!['\\'] + parts.last()
    }
}

/// The cache key of a path: its resolved components, lower-cased, joined under `\`;
/// the root `\` when nothing is left.
pub open spec fn normalize_path_spec(path: Seq<char>) -> Seq<char> {
    let parts = normalized_components_spec(path);
    if parts.len() == 0 {
        seq!['\\']
    } else {
        prefixed_join(parts.map_values(|p: Seq<char>| lowercase(p)))
    }
}

/// Parent path and leaf name of a path, from its named pieces.
pub open spec fn split_parent_and_name_spec(path: Seq<char>) -> (Seq<char>, Seq<char>) {
    let parts = named_parts(path);
    if parts.len() == 0 {
        (Seq::empty(), Seq::empty())
    } else if parts.len() == 1 {
        (seq!['\\'], parts.last())
    } else {
        (prefixed_join(parts.drop_last()), parts.last())
    }
}

pub open spec fn views_of(v: Seq<Vec<char>>) -> Seq<Seq<char>> {
    v.map_values(|x: Vec<char>| x@)
}

pub open spec fn string_views(v: Seq<String>) -> Seq<Seq<char>> {
    v.map_values(|x: String| x@)
}

proof fn lemma_split_parts_nonempty(s: Seq<char>)
    ensures
        split_parts(s).len() >= 1,
    decreases s.len(),
{
    if s.len() > 0 {
        lemma_split_parts_nonempty(s.drop_last());
    }
}

/// The pieces of `chars`, folded as `fold_parts` says.
fn fold_path_parts(chars: &Vec<char>, resolve_dots: bool) -> (r: Vec<Vec<char>>)
    ensures
        views_of(r@) == fold_parts(split_parts(chars@), resolve_dots),
{
    let mut acc: Vec<Vec<char>> = Vec::new();
    let mut current: Vec<char> = Vec::new();
    let mut i: usize = 0;
    proof {
        assert(chars@.take(0) =~= Seq::<char>::empty());
        assert(views_of(acc@) =~= Seq::<Seq<char>>::empty());
    }
    while i < chars.len()
        invariant
            i <= chars@.len(),
            split_parts(chars@.take(i as int)).len() >= 1,
            views_of(acc@) == fold_parts(split_parts(chars@.take(i as int)).drop_last(), resolve_dots),
            current@ == split_parts(chars@.take(i as int)).last(),
        decreases chars@.len() - i,
    {
        let ghost before = split_parts(chars@.take(i as int));
        let c = chars[i];
        proof {
            assert(chars@.take(i + 1).drop_last() =~= chars@.take(i as int));
            assert(chars@.take(i + 1).last() == c);
        }
        if c == '\\' || c == '/' {
            let ghost acc_before = views_of(acc@);
            proof {
                let after = split_parts(chars@.take(i + 1));
                assert(after == before.push(Seq::<char>::empty()));
                assert(after.drop_last() =~= before);
                assert(before =~= before.drop_last().push(before.last()));
                assert(fold_parts(before, resolve_dots) == fold_step(fold_parts(before.drop_last(), resolve_dots), before.last(), resolve_dots));
            }
            let keep = current.len() > 0 && current[current.len() - 1] != ':';
            if !keep {
            } else if resolve_dots && current.len() == 1 && current[0] == '.' {
                assert(current@ =~= seq!['.']);
            } else if resolve_dots && current.len() == 2 && current[0] == '.' && current[1] == '.' {
                assert(current@ =~= seq!['.', '.']);
                if acc.len() > 0 {
                    acc.pop();
                    assert(views_of(acc@) =~= acc_before.drop_last());
                }
            } else {
                proof {
                    if resolve_dots {
                        assert(current@ != seq!['.']) by {
                            if current@ == seq!['.'] { assert(current@.len() == 1); }
                        }
                        assert(current@ != seq!['.', '.']) by {
                            if current@ == seq!['.', '.'] { assert(current@.len() == 2); }
                        }
                    }
                }
                acc.push(current);
                assert(views_of(acc@) =~= acc_before.push(before.last()));
            }
            current = Vec::new();
            proof {
                let after = split_parts(chars@.take(i + 1));
                assert(current@ =~= after.last());
            }
        } else {
            current.push(c);
            proof {
                let after = split_parts(chars@.take(i + 1));
                assert(after == before.update(before.len() - 1, before.last().push(c)));
                assert(after.drop_last() =~= before.drop_last());
                assert(current@ =~= after.last());
            }
        }
        i = i + 1;
    }
    proof {
        assert(chars@.take(i as int) =~= chars@);
    }
    let ghost parts = split_parts(chars@);
    let ghost acc_before = views_of(acc@);
    proof {
        assert(parts =~= parts.drop_last().push(parts.last()));
    }
    let keep = current.len() > 0 && current[current.len() - 1] != ':';
    if !keep {
    } else if resolve_dots && current.len() == 1 && current[0] == '.' {
        assert(current@ =~= seq!['.']);
    } else if resolve_dots && current.len() == 2 && current[0] == '.' && current[1] == '.' {
        assert(current@ =~= seq!['.', '.']);
        if acc.len() > 0 {
            acc.pop();
            assert(views_of(acc@) =~= acc_before.drop_last());
        }
    } else {
        proof {
            if resolve_dots {
                assert(current@ != seq!['.']) by {
                    if current@ == seq!['.'] { assert(current@.len() == 1); }
                }
                assert(current@ != seq!['.', '.']) by {
                    if current@ == seq!['.', '.'] { assert(current@.len() == 2); }
                }
            }
        }
        acc.push(current);
        assert(views_of(acc@) =~= acc_before.push(parts.last()));
    }
    acc
}

fn strings_of(parts: Vec<Vec<char>>) -> (r: Vec<String>)
    ensures
        string_views(r@) == views_of(parts@),
{
    let mut out: Vec<String> = Vec::new();
    let mut i: usize = 0;
    while i < parts.len()
        invariant
            i <= parts@.len(),
            out@.len() == i,
            forall|j: int| 0 <= j < i ==> (#[trigger] out@[j])@ == parts@[j]@,
        decreases parts@.len() - i,
    {
        let s = string_from_chars(&parts[i]);
        out.push(s);
        i = i + 1;
    }
    assert(string_views(out@) =~= views_of(parts@));
    out
}

/// The components of `path` after splitting on `\` and `/`, dropping empty pieces,
/// drive or stream prefixes ending in `:` and `.`, and letting `..` remove the previous component.
pub fn normalized_components(path: &str) -> (r: Vec<String>)
    ensures
        string_views(r@) == normalized_components_spec(path@),
{
    let chars = chars_of(path);
    let parts = fold_path_parts(&chars, true);
    strings_of(parts)
}

/// `\` followed by the given pieces, separated by `\`.
pub fn join_components(parts: &Vec<String>) -> (r: String)
    ensures
        r@ == prefixed_join(string_views(parts@)),
{
    let ghost views = string_views(parts@);
    let mut out = String::new();
    let mut i: usize = 0;
    while i < parts.len()
        invariant
            i <= parts@.len(),
            views == string_views(parts@),
            out@ == prefixed_join(views.take(i as int)),
        decreases parts@.len() - i,
    {
        push_char(&mut out, '\\');
        push_str(&mut out, parts[i].as_str());
        proof {
            assert(views.take(i + 1).drop_last() =~= views.take(i as int));
        }
        i = i + 1;
        assert(out@ =~= prefixed_join(views.take(i as int)));
    }
    assert(views.take(i as int) =~= views);
    out
}

/// `\` followed by the given pieces, each lower-cased, separated by `\`.
fn join_lowercased(parts: &Vec<String>) -> (r: String)
    ensures
        r@ == prefixed_join(string_views(parts@).map_values(|p: Seq<char>| lowercase(p))),
{
    let ghost lowered = string_views(parts@).map_values(|p: Seq<char>| lowercase(p));
    let mut lower: Vec<String> = Vec::new();
    let mut i: usize = 0;
    while i < parts.len()
        invariant
            i <= parts@.len(),
            lowered == string_views(parts@).map_values(|p: Seq<char>| lowercase(p)),
            string_views(lower@) == lowered.take(i as int),
        decreases parts@.len() - i,
    {
        let l = to_lowercase(parts[i].as_str());
        let ghost before = lower@;
        lower.push(l);
        proof {
            assert(lowered[i as int] == lowercase(parts@[i as int]@));
            assert(string_views(lower@) =~= string_views(before).push(lowercase(parts@[i as int]@)));
            assert(string_views(lower@) =~= lowered.take(i + 1));
        }
        i = i + 1;
    }
    assert(lowered.take(i as int) =~= lowered);
    join_components(&lower)
}

/// The cache key of `path`: its normalised components lower-cased and joined as
/// `\a\b`, or `\` when no component is left.
pub fn normalize_path(path: &str) -> (r: String)
    ensures
        r@ == normalize_path_spec(path@),
{
    let parts = normalized_components(path);
    if parts.len() == 0 {
        let mut out = String::new();
        push_char(&mut out, '\\');
        assert(out@ =~= seq!['\\']);
        out
    } else {
        join_lowercased(&parts)
    }
}

/// `\` followed by the given pieces separated by `\`.
fn join_prefixed(parts: &Vec<Vec<char>>, n: usize) -> (r: String)
    requires
        n <= parts@.len(),
    ensures
        r@ == prefixed_join(views_of(parts@).take(n as int)),
{
    let mut out = String::new();
    let mut i: usize = 0;
    assert(views_of(parts@).take(0) =~= Seq::<Seq<char>>::empty());
    while i < n
        invariant
            i <= n <= parts@.len(),
            out@ == prefixed_join(views_of(parts@).take(i as int)),
        decreases n - i,
    {
        push_char(&mut out, '\\');
        let piece = string_from_chars(&parts[i]);
        push_str(&mut out, piece.as_str());
        proof {
            assert(views_of(parts@).take(i + 1).drop_last() =~= views_of(parts@).take(i as int));
        }
        i = i + 1;
        assert(out@ =~= prefixed_join(views_of(parts@).take(i as int)));
    }
    out
}

/// Splits a path into its parent path and leaf name. Pieces are separated by `\` or `/`;
/// empty pieces and pieces ending in `:` are skipped. A single piece has parent `\`;
/// a path with no piece gives two empty strings.
pub fn split_parent_and_name(path: &str) -> (r: (String, String))
    ensures
        r.0@ == split_parent_and_name_spec(path@).0,
        r.1@ == split_parent_and_name_spec(path@).1,
{
    let chars = chars_of(path);
    let parts = fold_path_parts(&chars, false);
    let n = parts.len();
    if n == 0 {
        (String::new(), String::new())
    } else {
        let leaf = string_from_chars(&parts[n - 1]);
        if n == 1 {
            let mut parent = String::new();
            push_char(&mut parent, '\\');
            assert(parent@ =~= seq!['\\']);
            (parent, leaf)
        } else {
            let parent = join_prefixed(&parts, n - 1);
            assert(views_of(parts@).take(n - 1) =~= views_of(parts@).drop_last());
            (parent, leaf)
        }
    }
}

/// Whether the last character of `s` is `c`.
pub open spec fn ends_with_char(s: Seq<char>, c: char) -> bool {
    s.len() > 0 && s.last() == c
}

/// `s`, with a `\` appended unless it already ends with one.
pub open spec fn with_trailing_sep(s: Seq<char>) -> Seq<char> {
    if ends_with_char(s, '\\') { s } else { s.push('\\') }
}

pub(crate) fn last_char_is(s: &str, c: char) -> (r: bool)
    ensures
        r == ends_with_char(s@, c),
{
    let n = s.unicode_len();
    n > 0 && s.get_char(n - 1) == c
}

pub(crate) fn with_trailing_separator(s: &str) -> (r: String)
    ensures
        r@ == with_trailing_sep(s@),
{
    let mut out = String::from_str(s);
    if !last_char_is(s, '\\') {
        push_char(&mut out, '\\');
    }
    out
}

/// The path of `name` inside `parent`: `parent`, a `\` unless it already ends with one, then `name`.
pub fn join_child_path(parent: &str, name: &str) -> (r: String)
    ensures
        r@ == with_trailing_sep(parent@) + name@,
{
    let mut out = with_trailing_separator(parent);
    push_str(&mut out, name);
    out
}

/// The path of a component under an already normalised parent path.
pub open spec fn child_path_spec(parent: Seq<char>, component: Seq<char>) -> Seq<char> {
    if parent == seq!['\\'] {
        seq!['\\'] + component
    } else {
        parent + seq!['\\'] + component
    }
}

/// `\component` under the root, `parent\component` elsewhere.
pub fn child_path_from_parent(parent: &str, component: &str) -> (r: String)
    ensures
        r@ == child_path_spec(parent@, component@),
{
    let mut out = String::from_str(parent);
    proof {
        reveal_strlit("\\");
        assert("\\"@ =~= seq!['\\']);
    }
    let root = str_eq(parent, "\\");
    if root {
        assert(parent@ == seq!['\\']);
        push_str(&mut out, component);
        assert(out@ =~= seq!['\\'] + component@);
    } else {
        assert(parent@ != seq!['\\']);
        push_char(&mut out, '\\');
        push_str(&mut out, component);
        assert(out@ =~= parent@ + seq!['\\'] + component@);
    }
    out
}

/// Where `key` goes when the subtree at `old_root` is moved to `new_root`: the root itself
/// goes to `new_root`; a key under `old_root` (prefix `old_root` with a trailing `\`) keeps its
/// rest under `new_root` with a trailing `\`; any other key is not moved.
pub open spec fn rename_key_spec(old_root: Seq<char>, new_root: Seq<char>, key: Seq<char>) -> Option<Seq<char>> {
    if key == old_root {
        Some(new_root)
    } else if has_prefix(key, with_trailing_sep(old_root)) {
        Some(with_trailing_sep(new_root) + key.subrange(with_trailing_sep(old_root).len() as int, key.len() as int))
    } else {
        None
    }
}

pub fn rename_descendant_path_key(old_root: &str, new_root: &str, key: &str) -> (r: Option<String>)
    ensures
        r is Some <==> rename_key_spec(old_root@, new_root@, key@) is Some,
        r matches Some(k) ==> k@ == rename_key_spec(old_root@, new_root@, key@)->0,
{
    if str_eq(key, old_root) {
        return Some(String::from_str(new_root));
    }
    let old_prefix = with_trailing_separator(old_root);
    match strip_prefix(key, old_prefix.as_str()) {
        Some(rest) => {
            let mut next = with_trailing_separator(new_root);
            push_str(&mut next, rest.as_str());
            Some(next)
        },
        None => None,
    }
}

/// Moving a subtree and moving it back gives every moved key its old value back,
/// provided neither root ends with `\`.
pub proof fn lemma_rename_key_round_trip(old_root: Seq<char>, new_root: Seq<char>, key: Seq<char>)
    requires
        !ends_with_char(old_root, '\\'),
        !ends_with_char(new_root, '\\'),
        rename_key_spec(old_root, new_root, key) is Some,
    ensures
        rename_key_spec(new_root, old_root, rename_key_spec(old_root, new_root, key)->0) == Some(key),
{
    let moved = rename_key_spec(old_root, new_root, key)->0;
    if key == old_root {
        assert(moved == new_root);
    } else {
        let op = old_root.push('\\');
        let np = new_root.push('\\');
        let rest = key.subrange(op.len() as int, key.len() as int);
        assert(moved == np + rest);
        assert(moved.subrange(0, np.len() as int) =~= np);
        assert(has_prefix(moved, np));
        if moved == new_root {
            assert(moved.len() >= np.len());
            assert(false);
        }
        assert(moved.subrange(np.len() as int, moved.len() as int) =~= rest);
        assert(op + rest =~= key) by {
            assert(key.subrange(0, op.len() as int) == op);
        }
    }
}

/// A component as a cache key holds it: it names something, is neither `.`
/// nor `..`, and has no separator in it.
pub open spec fn clean_part(p: Seq<char>) -> bool {
    &&& is_named_part(p)
    &&& p != seq!['.']
    &&& p != seq!['.', '.']
    &&& forall|i: int| 0 <= i < p.len() ==> !is_sep(#[trigger] p[i])
}

proof fn lemma_split_parts_have_no_sep(s: Seq<char>)
    ensures
        forall|k: int, i: int| 0 <= k < split_parts(s).len() && 0 <= i < split_parts(s)[k].len()
            ==> !is_sep(#[trigger] split_parts(s)[k][i]),
    decreases s.len(),
{
    if s.len() > 0 {
        lemma_split_parts_have_no_sep(s.drop_last());
        lemma_split_parts_nonempty(s.drop_last());
        let p = split_parts(s.drop_last());
        if !is_sep(s.last()) {
            let q = p.update(p.len() - 1, p.last().push(s.last()));
            assert forall|k: int, i: int| 0 <= k < q.len() && 0 <= i < q[k].len() implies !is_sep(#[trigger] q[k][i]) by {
                if k == p.len() - 1 && i == p.last().len() {
                } else if k == p.len() - 1 {
                    assert(q[k][i] == p[k][i]);
                }
            }
        } else {
            let q = p.push(Seq::<char>::empty());
            assert forall|k: int, i: int| 0 <= k < q.len() && 0 <= i < q[k].len() implies !is_sep(#[trigger] q[k][i]) by {
                if k < p.len() {
                    assert(q[k] == p[k]);
                }
            }
        }
    }
}

proof fn lemma_fold_keeps_clean(parts: Seq<Seq<char>>)
    requires
        forall|k: int, i: int| 0 <= k < parts.len() && 0 <= i < parts[k].len() ==> !is_sep(#[trigger] parts[k][i]),
    ensures
        forall|k: int| 0 <= k < fold_parts(parts, true).len() ==> clean_part(#[trigger] fold_parts(parts, true)[k]),
    decreases parts.len(),
{
    if parts.len() > 0 {
        let rest = parts.drop_last();
        assert forall|k: int, i: int| 0 <= k < rest.len() && 0 <= i < rest[k].len() implies !is_sep(#[trigger] rest[k][i]) by {
            assert(rest[k] == parts[k]);
        }
        lemma_fold_keeps_clean(rest);
        let acc = fold_parts(rest, true);
        let c = parts.last();
        assert forall|i: int| 0 <= i < c.len() implies !is_sep(#[trigger] c[i]) by {
            assert(c == parts[parts.len() - 1]);
        }
    }
}

/// Every component of a normalised path is clean.
pub proof fn lemma_normalized_components_are_clean(path: Seq<char>)
    ensures
        forall|k: int| 0 <= k < normalized_components_spec(path).len()
            ==> clean_part(#[trigger] normalized_components_spec(path)[k]),
{
    lemma_split_parts_have_no_sep(path);
    lemma_fold_keeps_clean(split_parts(path));
}

proof fn lemma_split_append_plain(s: Seq<char>, c: Seq<char>)
    requires
        forall|i: int| 0 <= i < c.len() ==> !is_sep(#[trigger] c[i]),
    ensures
        split_parts(s + c) == split_parts(s).update(split_parts(s).len() - 1, split_parts(s).last() + c),
    decreases c.len(),
{
    lemma_split_parts_nonempty(s);
    if c.len() == 0 {
        assert(s + c =~= s);
        assert(split_parts(s).last() + c =~= split_parts(s).last());
        assert(split_parts(s).update(split_parts(s).len() - 1, split_parts(s).last()) =~= split_parts(s));
    } else {
        let c0 = c.drop_last();
        assert forall|i: int| 0 <= i < c0.len() implies !is_sep(#[trigger] c0[i]) by {
            assert(c0[i] == c[i]);
        }
        lemma_split_append_plain(s, c0);
        assert((s + c).drop_last() =~= s + c0);
        assert((s + c).last() == c.last());
        assert(!is_sep(c[c.len() - 1]));
        let p = split_parts(s);
        let q = p.update(p.len() - 1, p.last() + c0);
        assert(q.last() == p.last() + c0);
        assert(q.update(q.len() - 1, q.last().push(c.last())) =~= p.update(p.len() - 1, p.last() + c)) by {
            assert((p.last() + c0).push(c.last()) =~= p.last() + c);
        }
    }
}

proof fn lemma_split_prefixed_join(q: Seq<Seq<char>>)
    requires
        forall|k: int| 0 <= k < q.len() ==> clean_part(#[trigger] q[k]),
    ensures
        split_parts(prefixed_join(q)) == seq![Seq::<char>::empty()] + q,
    decreases q.len(),
{
    if q.len() == 0 {
        assert(seq![Seq::<char>::empty()] + q =~= seq![Seq::<char>::empty()]);
    } else {
        let r = q.drop_last();
        assert forall|k: int| 0 <= k < r.len() implies clean_part(#[trigger] r[k]) by {
            assert(r[k] == q[k]);
        }
        lemma_split_prefixed_join(r);
        let base = prefixed_join(r) + seq!['\\'];
        assert(base.drop_last() =~= prefixed_join(r));
        assert(split_parts(base) == split_parts(prefixed_join(r)).push(Seq::<char>::empty()));
        let c = q.last();
        assert(clean_part(q[q.len() - 1]));
        lemma_split_append_plain(base, c);
        assert(prefixed_join(q) == base + c);
        let p = split_parts(base);
        assert(p.last() + c =~= c);
        assert(p.update(p.len() - 1, c) =~= seq![Seq::<char>::empty()] + q);
    }
}

proof fn lemma_fold_clean_parts(q: Seq<Seq<char>>)
    requires
        forall|k: int| 0 <= k < q.len() ==> clean_part(#[trigger] q[k]),
    ensures
        fold_parts(seq![Seq::<char>::empty()] + q, true) == q,
    decreases q.len(),
{
    let e = seq![Seq::<char>::empty()];
    if q.len() == 0 {
        assert(e + q =~= e);
        assert(e.drop_last() =~= Seq::<Seq<char>>::empty());
        assert(fold_parts(e.drop_last(), true) == Seq::<Seq<char>>::empty());
        assert(!is_named_part(e.last()));
        assert(fold_parts(e, true) == fold_step(fold_parts(e.drop_last(), true), e.last(), true));
    } else {
        let r = q.drop_last();
        assert forall|k: int| 0 <= k < r.len() implies clean_part(#[trigger] r[k]) by {
            assert(r[k] == q[k]);
        }
        lemma_fold_clean_parts(r);
        let x = e + q;
        assert(x.drop_last() =~= e + r);
        assert(x.last() == q.last());
        let c = q.last();
        assert(clean_part(q[q.len() - 1]));
        assert(is_named_part(c) && c != seq!['.'] && c != seq!['.', '.']);
        assert(fold_parts(x, true) == fold_step(fold_parts(x.drop_last(), true), x.last(), true));
        assert(fold_step(r, c, true) == r.push(c));
        assert(r.push(c) =~= q);
    }
}

/// Joining clean components under `\` and normalising gives them back.
pub proof fn lemma_normalized_components_of_join(q: Seq<Seq<char>>)
    requires
        forall|k: int| 0 <= k < q.len() ==> clean_part(#[trigger] q[k]),
    ensures
        normalized_components_spec(prefixed_join(q)) == q,
{
    lemma_split_prefixed_join(q);
    lemma_fold_clean_parts(q);
}

/// Normalising a cache key again gives the same key, for paths whose
/// components lower-case to clean components that lower-casing keeps as they
/// are (every ASCII path, for one).
pub proof fn lemma_normalize_path_idempotent(path: Seq<char>)
    requires
        forall|k: int| 0 <= k < normalized_components_spec(path).len() ==> {
            let c = #[trigger] normalized_components_spec(path)[k];
            &&& clean_part(lowercase(c))
            &&& lowercase(lowercase(c)) == lowercase(c)
        },
    ensures
        normalize_path_spec(normalize_path_spec(path)) == normalize_path_spec(path),
{
    let parts = normalized_components_spec(path);
    if parts.len() == 0 {
        let root = seq!['\\'];
        let e = Seq::<char>::empty();
        assert(root.drop_last() =~= e);
        assert(is_sep(root.last()));
        assert(split_parts(root) == split_parts(e).push(e));
        let sp = split_parts(root);
        assert(sp =~= seq![e, e]);
        assert(sp.drop_last() =~= seq![e]);
        assert(seq![e].drop_last() =~= Seq::<Seq<char>>::empty());
        assert(fold_parts(seq![e].drop_last(), true) == Seq::<Seq<char>>::empty());
        assert(fold_parts(seq![e], true) == fold_step(Seq::<Seq<char>>::empty(), e, true));
        assert(fold_parts(sp, true) == fold_step(fold_parts(seq![e], true), e, true));
        assert(normalized_components_spec(root) =~= Seq::<Seq<char>>::empty());
    } else {
        let lowered = parts.map_values(|p: Seq<char>| lowercase(p));
        assert forall|k: int| 0 <= k < lowered.len() implies clean_part(#[trigger] lowered[k]) by {
            assert(lowered[k] == lowercase(parts[k]));
        }
        lemma_normalized_components_of_join(lowered);
        assert(lowered.map_values(|p: Seq<char>| lowercase(p)) =~= lowered) by {
            assert forall|k: int| 0 <= k < lowered.len() implies #[trigger] lowercase(lowered[k]) == lowered[k] by {
                assert(lowered[k] == lowercase(parts[k]));
            }
        }
    }
}

} // verus!
