//! The path resolver. A module reference is resolved against the directory
//! that holds the manifest, by the text of the two paths alone: nothing here
//! looks at the file system or at the process's working directory.
//!
//! Paths are written with `/`. Normalizing a path drops empty segments and
//! `.` segments; `..` is kept as written, since what it names depends on the
//! file system.

use vstd::prelude::*;
use vstd::string::*;
use crate::error::CompileError;
use crate::text::{
    chars_of, joined, lemma_joined_words, lemma_word_alone, lemma_words_are_runs,
    lemma_words_concat, split_words, words,
};

verus! {

/// Whether `://` stands at position `i` of `raw`.
pub open spec fn scheme_separator_at(raw: Seq<char>, i: int) -> bool {
    &&& 0 <= i
    &&& i + 3 <= raw.len()
    &&& raw[i] == ':'
    &&& raw[i + 1] == '/'
    &&& raw[i + 2] == '/'
}

/// Whether `raw` is a remote reference: it holds the scheme separator `://`.
pub open spec fn is_remote(raw: Seq<char>) -> bool {
    exists|i: int| scheme_separator_at(raw, i)
}

/// Whether `path` starts at the root.
pub open spec fn is_absolute(path: Seq<char>) -> bool {
    path.len() > 0 && path[0] == '/'
}

/// Whether `segment` is `.`, which names the directory it stands in.
pub open spec fn is_dot(segment: Seq<char>) -> bool {
    segment.len() == 1 && segment[0] == '.'
}

/// `parts` without its `.` segments.
pub open spec fn without_dots(parts: Seq<Seq<char>>) -> Seq<Seq<char>>
    decreases parts.len(),
{
    if parts.len() == 0 {
        Seq::empty()
    } else if is_dot(parts.last()) {
        without_dots(parts.drop_last())
    } else {
        without_dots(parts.drop_last()).push(parts.last())
    }
}

/// The segments of `path` that name something: the runs between its
/// slashes, but for `.`.
pub open spec fn segments(path: Seq<char>) -> Seq<Seq<char>> {
    without_dots(words(path, set!['/']))
}

/// The path made of `segs`: from the root where `absolute`, and `.` where
/// it is relative and has no segment.
pub open spec fn assembled(absolute: bool, segs: Seq<Seq<char>>) -> Seq<char> {
    if absolute {
        seq!['/'] + joined(segs, '/')
    } else if segs.len() == 0 {
        seq!['.']
    } else {
        joined(segs, '/')
    }
}

/// `path` in normal form.
pub open spec fn normalized(path: Seq<char>) -> Seq<char> {
    assembled(is_absolute(path), segments(path))
}

/// The directory that holds the file at `manifest_path`, or `None` where
/// the path has no segment that could name a file.
pub open spec fn containing_dir(manifest_path: Seq<char>) -> Option<Seq<char>> {
    let segs = segments(manifest_path);
    if segs.len() == 0 {
        None
    } else {
        Some(assembled(is_absolute(manifest_path), segs.drop_last()))
    }
}

/// What the module reference `raw` resolves to in the directory `base`: a
/// remote reference stays as written, an absolute path is normalized, and a
/// relative one is joined to `base` and normalized. An empty `base` stands
/// for no directory at all.
pub open spec fn resolved(raw: Seq<char>, base: Seq<char>) -> Seq<char> {
    if is_remote(raw) {
        raw
    } else if is_absolute(raw) || base.len() == 0 {
        normalized(raw)
    } else {
        normalized(base + seq!['/'] + raw)
    }
}

/// A normal form is never empty.
pub proof fn lemma_assembled_nonempty(absolute: bool, segs: Seq<Seq<char>>)
    requires
        forall|i: int| 0 <= i < segs.len() ==> (#[trigger] segs[i]).len() > 0,
    ensures
        assembled(absolute, segs).len() > 0,
{
    if !absolute && segs.len() > 0 {
        if segs.len() == 1 {
        } else {
            assert(joined(segs, '/') == joined(segs.drop_last(), '/').push('/') + segs.last());
        }
    }
}

/// The segments of a path are non-empty.
pub proof fn lemma_segments_nonempty(path: Seq<char>)
    ensures
        forall|i: int| 0 <= i < segments(path).len() ==> (#[trigger] segments(path)[i]).len() > 0,
{
    let ws = words(path, set!['/']);
    lemma_words_are_runs(path, set!['/']);
    lemma_without_dots_keeps(ws);
}

/// Every element of `without_dots(parts)` is an element of `parts`.
pub proof fn lemma_without_dots_keeps(parts: Seq<Seq<char>>)
    ensures
        forall|i: int|
            0 <= i < without_dots(parts).len() ==> parts.contains(
                #[trigger] without_dots(parts)[i],
            ) && !is_dot(without_dots(parts)[i]),
    decreases parts.len(),
{
    if parts.len() > 0 {
        let init = parts.drop_last();
        lemma_without_dots_keeps(init);
        let kept = without_dots(parts);
        assert forall|i: int| 0 <= i < kept.len() implies parts.contains(#[trigger] kept[i])
            && !is_dot(kept[i]) by {
            if i < without_dots(init).len() {
                let w = without_dots(init)[i];
                assert(kept[i] == w);
                assert(init.contains(w));
                let k = choose|k: int| 0 <= k < init.len() && init[k] == w;
                assert(parts[k] == w);
            } else {
                assert(kept[i] == parts.last());
                assert(parts[parts.len() - 1] == parts.last());
            }
        }
    }
}

/// `without_dots` leaves alone what has no `.` segment.
pub proof fn lemma_without_dots_fixed(parts: Seq<Seq<char>>)
    requires
        forall|i: int| 0 <= i < parts.len() ==> !is_dot(#[trigger] parts[i]),
    ensures
        without_dots(parts) == parts,
    decreases parts.len(),
{
    if parts.len() > 0 {
        let init = parts.drop_last();
        assert forall|i: int| 0 <= i < init.len() implies !is_dot(#[trigger] init[i]) by {
            assert(init[i] == parts[i]);
        }
        lemma_without_dots_fixed(init);
        assert(init.push(parts.last()) =~= parts);
    } else {
        assert(without_dots(parts) =~= parts);
    }
}

/// A normal form is normal: it starts at the root exactly where the path
/// does, it has the path's segments, and normalizing it changes nothing.
pub proof fn lemma_normalized_is_normal(path: Seq<char>)
    ensures
        is_absolute(normalized(path)) == is_absolute(path),
        segments(normalized(path)) == segments(path),
        normalized(normalized(path)) == normalized(path),
{
    let slash = set!['/'];
    let segs = segments(path);
    let all = words(path, slash);
    lemma_words_are_runs(path, slash);
    lemma_without_dots_keeps(all);
    assert forall|i: int| 0 <= i < segs.len() implies (#[trigger] segs[i]).len() > 0 && !is_dot(
        segs[i],
    ) && (forall|j: int| 0 <= j < segs[i].len() ==> !slash.contains(#[trigger] segs[i][j])) by {
        let k = choose|k: int| 0 <= k < all.len() && all[k] == segs[i];
        assert(all[k].len() > 0);
        assert forall|j: int| 0 <= j < segs[i].len() implies !slash.contains(
            #[trigger] segs[i][j],
        ) by {
            assert(!slash.contains(all[k][j]));
        }
    }
    lemma_joined_words(segs, '/', slash);
    lemma_without_dots_fixed(segs);
    let body = joined(segs, '/');
    if is_absolute(path) {
        let empty: Seq<char> = Seq::empty();
        assert(normalized(path) =~= empty + seq!['/'] + body);
        lemma_words_concat(empty, '/', body, slash);
        assert(words(empty, slash) + words(body, slash) =~= words(body, slash));
        assert(normalized(path)[0] == '/');
    } else if segs.len() == 0 {
        let dot = seq!['.'];
        assert(normalized(path) == dot);
        lemma_word_alone(dot, slash);
        assert(words(dot, slash) == seq![dot]);
        assert(is_dot(seq![dot].last()));
        assert(seq![dot].drop_last() =~= Seq::<Seq<char>>::empty());
        assert(without_dots(seq![dot]) =~= Seq::<Seq<char>>::empty());
        assert(segments(dot) =~= segs);
    } else {
        assert(normalized(path) == body);
        lemma_body_is_relative(segs);
    }
}

/// Segments joined by slashes start with the first segment's first
/// character.
proof fn lemma_body_is_relative(segs: Seq<Seq<char>>)
    requires
        segs.len() > 0,
        forall|i: int| 0 <= i < segs.len() ==> (#[trigger] segs[i]).len() > 0,
    ensures
        joined(segs, '/').len() > 0,
        joined(segs, '/')[0] == segs[0][0],
    decreases segs.len(),
{
    if segs.len() > 1 {
        let init = segs.drop_last();
        assert(init[0] == segs[0]);
        lemma_body_is_relative(init);
        assert(joined(segs, '/') == joined(init, '/').push('/') + segs.last());
    }
}

/// A module reference that is not empty resolves to a path that is not
/// empty.
pub proof fn lemma_resolved_nonempty(raw: Seq<char>, base: Seq<char>)
    requires
        raw.len() > 0,
    ensures
        resolved(raw, base).len() > 0,
{
    if !is_remote(raw) {
        let p = if is_absolute(raw) || base.len() == 0 {
            raw
        } else {
            base + seq!['/'] + raw
        };
        lemma_segments_nonempty(p);
        lemma_assembled_nonempty(is_absolute(p), segments(p));
    }
}

/// Whether `raw` is a remote reference.
pub fn check_remote(raw: &str) -> (b: bool)
    ensures
        b == is_remote(raw@),
{
    let chars = chars_of(raw);
    let n = chars.len();
    if n < 3 {
        return false;
    }
    let mut i: usize = 0;
    while i <= n - 3
        invariant
            chars@ == raw@,
            n == chars.len(),
            n >= 3,
            forall|j: int| 0 <= j < i ==> !scheme_separator_at(raw@, j),
        decreases n - i,
    {
        if chars[i] == ':' && chars[i + 1] == '/' && chars[i + 2] == '/' {
            assert(scheme_separator_at(raw@, i as int));
            return true;
        }
        i += 1;
    }
    false
}

/// Whether `path` starts at the root.
pub fn check_absolute(path: &str) -> (b: bool)
    ensures
        b == is_absolute(path@),
{
    path.unicode_len() > 0 && path.get_char(0) == '/'
}

/// The segments of `path`.
pub fn split_segments(path: &str) -> (segs: Vec<String>)
    ensures
        segs.deep_view() == segments(path@),
{
    let slash: [char; 1] = ['/'];
    let mut parts = split_words(path, &slash);
    assert(slash@.to_set() =~= set!['/']);
    let ghost all = parts.deep_view();
    let mut segs: Vec<String> = Vec::new();
    let n = parts.len();
    let mut i: usize = 0;
    while i < n
        invariant
            n == parts.len(),
            i <= n,
            parts.deep_view() == all,
            segs.deep_view() == without_dots(all.take(i as int)),
        decreases n - i,
    {
        let part = &parts[i];
        let ghost before = segs.deep_view();
        assert(all.take(i + 1).drop_last() == all.take(i as int));
        assert(all.take(i + 1).last() == part@);
        let dot = part.as_str().unicode_len() == 1 && part.as_str().get_char(0) == '.';
        if !dot {
            let kept = part.clone();
            segs.push(kept);
            assert(segs.deep_view() == before.push(part@));
        }
        i += 1;
    }
    assert(all.take(n as int) == all);
    segs
}

/// The path made of `segs`.
pub fn assemble_path(absolute: bool, segs: &Vec<String>) -> (path: String)
    ensures
        path@ == assembled(absolute, segs.deep_view()),
{
    let ghost parts = segs.deep_view();
    proof {
        reveal_strlit("/");
        reveal_strlit(".");
    }
    if !absolute && segs.len() == 0 {
        let dot = String::from_str(".");
        assert(dot@ == seq!['.']);
        return dot;
    }
    let mut path = String::new();
    let ghost root: Seq<char> = if absolute {
        seq!['/']
    } else {
        Seq::empty()
    };
    if absolute {
        path.append("/");
    }
    assert(path@ == root);
    let n = segs.len();
    let mut i: usize = 0;
    assert(root + joined(parts.take(0), '/') == root);
    while i < n
        invariant
            n == segs.len(),
            i <= n,
            parts == segs.deep_view(),
            "/"@ == seq!['/'],
            path@ == root + joined(parts.take(i as int), '/'),
        decreases n - i,
    {
        let ghost so_far = joined(parts.take(i as int), '/');
        let ghost next = parts.take(i + 1);
        assert(next.drop_last() == parts.take(i as int));
        assert(next.last() == segs[i as int]@);
        if i > 0 {
            path.append("/");
            path.append(segs[i].as_str());
            assert(path@ == root + (so_far.push('/') + next.last()));
        } else {
            path.append(segs[i].as_str());
            assert(so_far.len() == 0);
            assert(path@ == root + next[0]);
        }
        i += 1;
    }
    assert(parts.take(n as int) == parts);
    path
}

/// `path` in normal form.
pub fn normalize(path: &str) -> (r: String)
    ensures
        r@ == normalized(path@),
{
    let segs = split_segments(path);
    assemble_path(check_absolute(path), &segs)
}

/// Resolves the module reference `raw` against the directory `base_dir`.
/// The result depends on the two texts alone.
pub fn resolve(raw: &str, base_dir: &str) -> (r: String)
    ensures
        r@ == resolved(raw@, base_dir@),
{
    if check_remote(raw) {
        String::from_str(raw)
    } else if check_absolute(raw) || base_dir.unicode_len() == 0 {
        normalize(raw)
    } else {
        proof {
            reveal_strlit("/");
        }
        let mut whole = String::from_str(base_dir);
        whole.append("/");
        whole.append(raw);
        assert(whole@ == base_dir@ + seq!['/'] + raw@);
        normalize(whole.as_str())
    }
}

/// The directory that holds the manifest at `manifest_path`. Fails with
/// `InvalidManifestLocation` exactly where the path has no segment that
/// could name a file.
pub fn manifest_dir(manifest_path: &str) -> (r: Result<String, CompileError>)
    ensures
        match r {
            Ok(dir) => containing_dir(manifest_path@) == Some(dir@),
            Err(e) => e == CompileError::InvalidManifestLocation && containing_dir(manifest_path@)
                is None,
        },
{
    let mut segs = split_segments(manifest_path);
    if segs.len() == 0 {
        return Err(CompileError::InvalidManifestLocation);
    }
    let ghost all = segs.deep_view();
    segs.pop();
    assert(segs.deep_view() == all.drop_last());
    Ok(assemble_path(check_absolute(manifest_path), &segs))
}

} // verus!
