//! Mapping an untrusted, percent-encoded request path onto the server root.
//!
//! Resolution runs in two steps around the filesystem. `target_path` decodes
//! the request path and joins it onto the root, refusing any `..` that by
//! its text would climb above the root, and keeping the others. The caller
//! then asks the filesystem what the target is (canonicalizing it, so that
//! symlinks are followed before `..` is resolved) and hands
//! the answer to `classify`, which refuses a canonical path outside the root.

use vstd::prelude::*;
use crate::text::{split_on, char_views, split_chars, take_chars, chars_of, chars_equal, string_of_chars, lemma_split_nonempty};

verus! {

/// Why a request path is refused.
#[derive(Debug, Clone, Copy, PartialEq, Eq, Structural)]
pub enum ResolveError {
    /// The path leads outside the server root.
    AccessDenied,
}

/// What a percent-encoded string decodes to (invalid UTF-8 replaced lossily).
pub uninterp spec fn percent_decoded(s: Seq<char>) -> Seq<char>;

/// Relies on `url_escape::decode`: percent-decoding, one pass, lossy UTF-8.
#[verifier::external_body]
fn url_decode(s: &str) -> (r: String)
    ensures
        r@ == percent_decoded(s@),
{
    url_escape::decode(s).into_owned()
}

pub open spec fn is_dot(s: Seq<char>) -> bool {
    s == seq!['.']
}

pub open spec fn is_dot_dot(s: Seq<char>) -> bool {
    s == seq!['.', '.']
}

/// Lexical normalization of path segments: empty and `.` segments vanish,
/// `..` removes the segment before it; `None` when a `..` has nothing to remove.
pub open spec fn normalized(segs: Seq<Seq<char>>) -> Option<Seq<Seq<char>>>
    decreases segs.len(),
{
    if segs.len() == 0 {
        Some(Seq::empty())
    } else {
        match normalized(segs.drop_last()) {
            None => None,
            Some(st) => {
                let s = segs.last();
                if s.len() == 0 || is_dot(s) {
                    Some(st)
                } else if is_dot_dot(s) {
                    if st.len() == 0 {
                        None
                    } else {
                        Some(st.drop_last())
                    }
                } else {
                    Some(st.push(s))
                }
            },
        }
    }
}

/// `base` followed by each segment, each introduced by one `/`.
pub open spec fn join_path(base: Seq<char>, segs: Seq<Seq<char>>) -> Seq<char>
    decreases segs.len(),
{
    if segs.len() == 0 {
        base
    } else {
        let p = join_path(base, segs.drop_last());
        if p.len() > 0 && p.last() == '/' {
            p + segs.last()
        } else {
            p.push('/') + segs.last()
        }
    }
}

/// Whether `p` is `root` or lies below it, compared by whole path components.
pub open spec fn within_root(root: Seq<char>, p: Seq<char>) -> bool {
    p == root || (root.len() > 0 && p.len() > root.len() && p.take(root.len() as int) == root && (
    root.last() == '/' || p[root.len() as int] == '/'))
}

/// The segments that name something: empty and `.` segments vanish, `..`
/// is kept for the filesystem to resolve after it has followed symlinks.
pub open spec fn kept_segments(segs: Seq<Seq<char>>) -> Seq<Seq<char>>
    decreases segs.len(),
{
    if segs.len() == 0 {
        Seq::empty()
    } else if segs.last().len() == 0 || is_dot(segs.last()) {
        kept_segments(segs.drop_last())
    } else {
        kept_segments(segs.drop_last()).push(segs.last())
    }
}

/// The target of a decoded request path below `root`: refused when its `..`
/// segments, taken by text, climb above `root`; else `root` joined with its
/// segments, `..` included.
pub open spec fn decoded_target(root: Seq<char>, decoded: Seq<char>) -> Result<Seq<char>, ResolveError> {
    let segs = split_on(decoded, '/');
    match normalized(segs) {
        None => Err(ResolveError::AccessDenied),
        Some(_) => Ok(join_path(root, kept_segments(segs))),
    }
}

/// The lexical target of a raw request path below `root`.
pub open spec fn request_target(root: Seq<char>, raw: Seq<char>) -> Result<Seq<char>, ResolveError> {
    decoded_target(root, percent_decoded(raw))
}

/// What resolving a request path against a root yields.
#[derive(Debug, Clone, Copy, PartialEq, Eq, Structural)]
pub enum Kind {
    File,
    Directory,
    Missing,
}

/// What the filesystem reports of a target: absent, or present with its
/// canonical path (symlinks followed) and its kind.
#[derive(Debug, Clone)]
pub enum Probe {
    Missing,
    File(String),
    Directory(String),
}

/// A path under the server root with what it is.
#[derive(Debug, Clone)]
pub struct ResolvedPath {
    pub absolute_path: String,
    pub kind: Kind,
}

/// The model of a probe: the kind, and the canonical path when present.
pub open spec fn probe_model(p: Probe) -> (Kind, Seq<char>) {
    match p {
        Probe::Missing => (Kind::Missing, Seq::empty()),
        Probe::File(c) => (Kind::File, c@),
        Probe::Directory(c) => (Kind::Directory, c@),
    }
}

/// The outcome of classifying a probe of `target`: a missing target keeps its
/// lexical path; a present one its canonical path, if that is under `root`.
pub open spec fn classified(root: Seq<char>, target: Seq<char>, probe: (Kind, Seq<char>)) -> Result<(Seq<char>, Kind), ResolveError> {
    if probe.0 == Kind::Missing {
        Ok((target, Kind::Missing))
    } else if within_root(root, probe.1) {
        Ok((probe.1, probe.0))
    } else {
        Err(ResolveError::AccessDenied)
    }
}

proof fn lemma_normalized_step(segs: Seq<Seq<char>>, i: int)
    requires
        0 <= i < segs.len(),
    ensures
        normalized(segs.take(i + 1)) == match normalized(segs.take(i)) {
            None => None,
            Some(st) => {
                let s = segs[i];
                if s.len() == 0 || is_dot(s) {
                    Some(st)
                } else if is_dot_dot(s) {
                    if st.len() == 0 { None } else { Some(st.drop_last()) }
                } else {
                    Some(st.push(s))
                }
            },
        },
{
    assert(segs.take(i + 1).drop_last() =~= segs.take(i));
}

proof fn lemma_escape_persists(segs: Seq<Seq<char>>, i: int)
    requires
        0 <= i <= segs.len(),
        normalized(segs.take(i)) is None,
    ensures
        normalized(segs) is None,
    decreases segs.len() - i,
{
    if i == segs.len() {
        assert(segs.take(i) =~= segs);
    } else {
        lemma_normalized_step(segs, i);
        lemma_escape_persists(segs, i + 1);
    }
}

fn is_dot_exec(s: &Vec<char>) -> (r: bool)
    ensures
        r == is_dot(s@),
{
    let r = s.len() == 1 && s[0] == '.';
    assert(r ==> s@ =~= seq!['.']);
    r
}

fn is_dot_dot_exec(s: &Vec<char>) -> (r: bool)
    ensures
        r == is_dot_dot(s@),
{
    let r = s.len() == 2 && s[0] == '.' && s[1] == '.';
    assert(r ==> s@ =~= seq!['.', '.']);
    r
}

/// Lexically normalizes the segments of a path.
fn normalize_segments(segs: &Vec<Vec<char>>) -> (r: Option<Vec<Vec<char>>>)
    ensures
        match r {
            None => normalized(char_views(segs@)) is None,
            Some(st) => normalized(char_views(segs@)) == Some(char_views(st@)),
        },
{
    let ghost sv = char_views(segs@);
    let mut stack: Vec<Vec<char>> = Vec::new();
    let mut i: usize = 0;
    assert(sv.take(0) =~= Seq::<Seq<char>>::empty());
    while i < segs.len()
        invariant
            sv == char_views(segs@),
            i <= segs@.len(),
            normalized(sv.take(i as int)) == Some(char_views(stack@)),
        decreases segs@.len() - i,
    {
        proof {
            lemma_normalized_step(sv, i as int);
        }
        let s = &segs[i];
        assert(sv[i as int] == s@);
        if s.len() == 0 || is_dot_exec(s) {
        } else if is_dot_dot_exec(s) {
            if stack.len() == 0 {
                proof {
                    lemma_escape_persists(sv, i + 1);
                }
                return None;
            }
            let ghost before = char_views(stack@);
            stack.pop();
            assert(char_views(stack@) =~= before.drop_last());
        } else {
            let ghost before = char_views(stack@);
            let copy = take_chars(s, s.len());
            assert(copy@ =~= s@);
            stack.push(copy);
            assert(char_views(stack@) =~= before.push(s@));
        }
        assert(sv.take(i + 1) == sv.take(i as int + 1));
        i = i + 1;
    }
    assert(sv.take(segs@.len() as int) =~= sv);
    Some(stack)
}

/// Drops the empty and `.` segments.
fn keep_segments(segs: &Vec<Vec<char>>) -> (r: Vec<Vec<char>>)
    ensures
        char_views(r@) == kept_segments(char_views(segs@)),
{
    let ghost sv = char_views(segs@);
    let mut out: Vec<Vec<char>> = Vec::new();
    let mut i: usize = 0;
    assert(sv.take(0) =~= Seq::<Seq<char>>::empty());
    while i < segs.len()
        invariant
            sv == char_views(segs@),
            i <= segs@.len(),
            char_views(out@) == kept_segments(sv.take(i as int)),
        decreases segs@.len() - i,
    {
        let s = &segs[i];
        assert(sv[i as int] == s@);
        assert(sv.take(i + 1).drop_last() =~= sv.take(i as int));
        if s.len() == 0 || is_dot_exec(s) {
        } else {
            let ghost before = char_views(out@);
            let copy = take_chars(s, s.len());
            assert(copy@ =~= s@);
            out.push(copy);
            assert(char_views(out@) =~= before.push(s@));
        }
        i = i + 1;
    }
    assert(sv.take(segs@.len() as int) =~= sv);
    out
}

/// Appends `/` (unless `base` already ends in one) and each segment in turn.
fn join_segments(root: &str, st: &Vec<Vec<char>>) -> (r: String)
    ensures
        r@ == join_path(root@, char_views(st@)),
{
    let ghost sv = char_views(st@);
    let mut out = chars_of(root);
    let mut i: usize = 0;
    assert(sv.take(0) =~= Seq::<Seq<char>>::empty());
    while i < st.len()
        invariant
            sv == char_views(st@),
            i <= st@.len(),
            out@ == join_path(root@, sv.take(i as int)),
        decreases st@.len() - i,
    {
        let seg = &st[i];
        assert(sv[i as int] == seg@);
        assert(sv.take(i + 1).drop_last() =~= sv.take(i as int));
        if out.len() > 0 && out[out.len() - 1] == '/' {
        } else {
            out.push('/');
        }
        let ghost base = out@;
        let mut j: usize = 0;
        while j < seg.len()
            invariant
                j <= seg@.len(),
                out@ == base + seg@.take(j as int),
            decreases seg@.len() - j,
        {
            out.push(seg[j]);
            j = j + 1;
            assert(out@ =~= base + seg@.take(j as int));
        }
        assert(seg@.take(seg@.len() as int) =~= seg@);
        i = i + 1;
        assert(out@ =~= join_path(root@, sv.take(i as int)));
    }
    assert(sv.take(st@.len() as int) =~= sv);
    string_of_chars(&out)
}

/// Whether `path` is `root` or lies below it, by whole path components.
pub fn is_within_root(root: &str, path: &str) -> (r: bool)
    ensures
        r == within_root(root@, path@),
{
    let rc = chars_of(root);
    let pc = chars_of(path);
    if chars_equal(&rc, &pc) {
        return true;
    }
    if rc.len() == 0 || pc.len() <= rc.len() {
        return false;
    }
    let mut i: usize = 0;
    while i < rc.len()
        invariant
            rc@ == root@,
            pc@ == path@,
            rc@.len() < pc@.len(),
            i <= rc@.len(),
            forall|k: int| 0 <= k < i ==> rc@[k] == pc@[k],
        decreases rc@.len() - i,
    {
        if rc[i] != pc[i] {
            assert(pc@.take(rc@.len() as int)[i as int] != rc@[i as int]);
            return false;
        }
        i = i + 1;
    }
    assert(pc@.take(rc@.len() as int) =~= rc@);
    rc[rc.len() - 1] == '/' || pc[rc.len()] == '/'
}

/// Joins an already decoded request path onto `root`, dropping empty and `.`
/// segments and keeping `..` for the filesystem to resolve after symlinks;
/// refuses a path whose `..` segments, taken by text, climb above `root`.
pub fn join_decoded(root: &str, decoded: &str) -> (r: Result<String, ResolveError>)
    ensures
        match r {
            Ok(t) => decoded_target(root@, decoded@) == Ok::<_, ResolveError>(t@),
            Err(e) => decoded_target(root@, decoded@) == Err::<Seq<char>, _>(e),
        },
{
    let chars = chars_of(decoded);
    let segs = split_chars(&chars, '/');
    match normalize_segments(&segs) {
        None => Err(ResolveError::AccessDenied),
        Some(_) => {
            let kept = keep_segments(&segs);
            Ok(join_segments(root, &kept))
        },
    }
}

/// Decodes a raw request path and joins it onto `root` (see `join_decoded`).
pub fn target_path(root: &str, raw: &str) -> (r: Result<String, ResolveError>)
    ensures
        match r {
            Ok(t) => request_target(root@, raw@) == Ok::<_, ResolveError>(t@),
            Err(e) => request_target(root@, raw@) == Err::<Seq<char>, _>(e),
        },
{
    let decoded = url_decode(raw);
    join_decoded(root, decoded.as_str())
}

/// Classifies what the filesystem reported of `target`, refusing a canonical
/// path that lies outside `root`.
pub fn classify(root: &str, target: &str, probe: Probe) -> (r: Result<ResolvedPath, ResolveError>)
    ensures
        match r {
            Ok(p) => classified(root@, target@, probe_model(probe)) == Ok::<_, ResolveError>((p.absolute_path@, p.kind)),
            Err(e) => classified(root@, target@, probe_model(probe)) == Err::<(Seq<char>, Kind), _>(e),
        },
{
    match probe {
        Probe::Missing => Ok(ResolvedPath { absolute_path: String::from_str(target), kind: Kind::Missing }),
        Probe::File(c) => {
            if is_within_root(root, c.as_str()) {
                Ok(ResolvedPath { absolute_path: c, kind: Kind::File })
            } else {
                Err(ResolveError::AccessDenied)
            }
        },
        Probe::Directory(c) => {
            if is_within_root(root, c.as_str()) {
                Ok(ResolvedPath { absolute_path: c, kind: Kind::Directory })
            } else {
                Err(ResolveError::AccessDenied)
            }
        },
    }
}

proof fn lemma_join_within(root: Seq<char>, segs: Seq<Seq<char>>)
    requires
        root.len() > 0,
    ensures
        within_root(root, join_path(root, segs)),
        join_path(root, segs).len() >= root.len(),
        join_path(root, segs).take(root.len() as int) == root,
    decreases segs.len(),
{
    if segs.len() == 0 {
        assert(root.take(root.len() as int) =~= root);
    } else {
        lemma_join_within(root, segs.drop_last());
        let p = join_path(root, segs.drop_last());
        let q = join_path(root, segs);
        if p.len() > 0 && p.last() == '/' {
            assert(q == p + segs.last());
        } else {
            assert(q == p.push('/') + segs.last());
        }
        assert(q.take(root.len() as int) =~= p.take(root.len() as int));
        if p.len() > root.len() {
            assert(q[root.len() as int] == p[root.len() as int]);
        } else {
            assert(p =~= root);
        }
    }
}

/// No request path, however it is encoded, and whatever symlinks its
/// target passes through, resolves to an existing file or directory outside a
/// non-empty root. A path whose `..` segments climb above the root by their
/// text is refused before the filesystem is asked; any other target starts
/// with the root; an existing target is judged by its canonical path (links
/// followed, then `..` resolved) and refused when that lies outside the
/// root; a missing target keeps its joined path, and nothing is read there.
pub proof fn law_resolution_stays_under_root(root: Seq<char>, raw: Seq<char>, probe: (Kind, Seq<char>))
    requires
        root.len() > 0,
    ensures
        normalized(split_on(percent_decoded(raw), '/')) is None ==> request_target(root, raw)
            == Err::<Seq<char>, _>(ResolveError::AccessDenied),
        match request_target(root, raw) {
            Ok(t) => {
                &&& within_root(root, t)
                &&& match classified(root, t, probe) {
                    Ok(p) => if p.1 == Kind::Missing {
                        p.0 == t
                    } else {
                        p.0 == probe.1 && within_root(root, p.0)
                    },
                    Err(e) => e == ResolveError::AccessDenied && !within_root(root, probe.1),
                }
            },
            Err(e) => e == ResolveError::AccessDenied,
        },
{
    lemma_join_within(root, kept_segments(split_on(percent_decoded(raw), '/')));
}

} // verus!
