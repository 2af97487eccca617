//! Paths as text, with `/` between their segments.
use crate::seqs::lemma_take_all;
use crate::text::{cat2, cat3, ends, ends_with, join, joined, owned, pieces, same, split};
use vstd::prelude::*;

verus! {

/// The path begins at the root.
pub open spec fn rooted(path: Seq<char>) -> bool {
    path.len() > 0 && path[0] == '/'
}

/// `Path::is_absolute`.
pub fn is_rooted(path: &str) -> (r: bool)
    ensures
        r == rooted(path@),
{
    !path.is_empty() && path.get_char(0) == '/'
}

/// `Path::join`: `path` under `base`, or `path` itself where it is absolute.
pub open spec fn path_joined(base: Seq<char>, path: Seq<char>) -> Seq<char> {
    if rooted(path) || base.len() == 0 {
        path
    } else if ends(base, '/') {
        base + path
    } else {
        base + "/"@ + path
    }
}

/// `Path::join`.
pub fn join_path(base: &str, path: &str) -> (r: String)
    ensures
        r@ == path_joined(base@, path@),
{
    if is_rooted(path) || base.is_empty() {
        owned(path)
    } else if ends_with(base, '/') {
        cat2(base, path)
    } else {
        cat3(base, "/", path)
    }
}

// ── normal form ──────────────────────────────────────────────────────────────

/// A path that is walked: whether it begins at the root, and the segments
/// that are left.
#[verifier::ext_equal]
pub struct Walk {
    pub rooted: bool,
    pub segments: Seq<Seq<char>>,
}

impl Walk {
    /// One segment further: nothing for an empty segment or a dot, one up for
    /// two dots, and to the root from where there is nothing above.
    pub open spec fn step(self, segment: Seq<char>) -> Walk {
        if segment.len() == 0 || segment == "."@ {
            self
        } else if segment == ".."@ {
            if self.segments.len() > 0 {
                Walk { segments: self.segments.drop_last(), ..self }
            } else {
                Walk { rooted: true, ..self }
            }
        } else {
            Walk { segments: self.segments.push(segment), ..self }
        }
    }

    /// The path that was walked.
    pub open spec fn path(self) -> Seq<char> {
        (if self.rooted {
            "/"@
        } else {
            Seq::empty()
        }) + joined(self.segments, "/"@)
    }
}

/// The walk along segments.
pub open spec fn walked(from_root: bool, segments: Seq<Seq<char>>) -> Walk
    decreases segments.len(),
{
    if segments.len() == 0 {
        Walk { rooted: from_root, segments: Seq::empty() }
    } else {
        walked(from_root, segments.drop_last()).step(segments.last())
    }
}

/// The path without dots, as far as its text shows.
pub open spec fn normal_path(path: Seq<char>) -> Seq<char> {
    walked(rooted(path), pieces(path, "/"@)).path()
}

/// The path without dots, as far as its text shows.
pub fn normalize_lexical_path(path: &str) -> (r: String)
    ensures
        r@ == normal_path(path@),
{
    let parts = split(path, "/");
    let ghost pv = parts.deep_view();
    let from_root = is_rooted(path);
    let mut at_root = from_root;
    let mut left: Vec<String> = Vec::new();
    let mut i: usize = 0;
    assert(left.deep_view() =~= Seq::<Seq<char>>::empty());
    while i < parts.len()
        invariant
            i <= parts@.len(),
            pv == parts.deep_view(),
            walked(from_root, pv.take(i as int)) == (Walk {
                rooted: at_root,
                segments: left.deep_view(),
            }),
        decreases parts@.len() - i,
    {
        let segment = parts[i].as_str();
        let ghost before = left.deep_view();
        proof {
            assert(pv.take(i + 1).drop_last() =~= pv.take(i as int));
            assert(pv.take(i + 1).last() == segment@);
        }
        if segment.is_empty() || same(segment, ".") {
        } else if same(segment, "..") {
            if left.len() > 0 {
                let _ = left.pop();
                assert(left.deep_view() =~= before.drop_last());
            } else {
                at_root = true;
                assert(left.deep_view() =~= before);
            }
        } else {
            left.push(owned(segment));
            assert(left.deep_view() =~= before.push(segment@));
        }
        i = i + 1;
    }
    proof {
        lemma_take_all(pv);
    }
    let body = join(&left, "/");
    let mut out = if at_root {
        owned("/")
    } else {
        String::new()
    };
    out.append(body.as_str());
    out
}

/// A path in normal form holds neither empty segments nor dots, and walking it
/// leads nowhere else.
pub proof fn law_walk_leaves_no_dots(from_root: bool, segments: Seq<Seq<char>>, i: int)
    requires
        0 <= i < walked(from_root, segments).segments.len(),
    ensures
        walked(from_root, segments).segments[i].len() > 0,
        walked(from_root, segments).segments[i] != "."@,
        walked(from_root, segments).segments[i] != ".."@,
        from_root ==> walked(from_root, segments).rooted,
    decreases segments.len(),
{
    if segments.len() > 0 {
        let before = walked(from_root, segments.drop_last());
        if i < before.segments.len() {
            law_walk_leaves_no_dots(from_root, segments.drop_last(), i);
        } else {
            lemma_root_kept(from_root, segments);
        }
    }
}

proof fn lemma_root_kept(from_root: bool, segments: Seq<Seq<char>>)
    ensures
        from_root ==> walked(from_root, segments).rooted,
    decreases segments.len(),
{
    if segments.len() > 0 {
        lemma_root_kept(from_root, segments.drop_last());
    }
}

// ── the parent ───────────────────────────────────────────────────────────────

/// The segment at `i` names something: it is not empty, and a dot only where
/// the path begins with it.
pub open spec fn names(segments: Seq<Seq<char>>, i: int) -> bool {
    segments[i].len() > 0 && (segments[i] != "."@ || i == 0)
}

/// The last of the first `n` segments that names something, or -1.
pub open spec fn last_name(segments: Seq<Seq<char>>, n: int) -> int
    decreases n,
{
    if n <= 0 {
        -1
    } else if names(segments, n - 1) {
        n - 1
    } else {
        last_name(segments, n - 1)
    }
}

/// `Path::parent`: the path without its last name; nothing where there is no
/// name.
pub open spec fn parent_path(path: Seq<char>) -> Option<Seq<char>> {
    let segments = pieces(path, "/"@);
    let last = last_name(segments, segments.len() as int);
    if last < 0 {
        None
    } else {
        let above = last_name(segments, last);
        Some(
            if above >= 0 {
                joined(segments.take(above + 1), "/"@)
            } else if rooted(path) {
                "/"@
            } else {
                Seq::empty()
            },
        )
    }
}

fn last_name_of(segments: &Vec<String>, n: usize) -> (r: Option<usize>)
    requires
        n <= segments@.len(),
    ensures
        match r {
            Some(k) => last_name(segments.deep_view(), n as int) == k && k < n,
            None => last_name(segments.deep_view(), n as int) < 0,
        },
{
    let ghost sv = segments.deep_view();
    let mut i: usize = n;
    while i > 0
        invariant
            i <= n <= segments@.len(),
            sv == segments.deep_view(),
            last_name(sv, i as int) == last_name(sv, n as int),
        decreases i,
    {
        let s = segments[i - 1].as_str();
        assert(sv[i - 1] == s@);
        if !s.is_empty() && (!same(s, ".") || i == 1) {
            return Some(i - 1);
        }
        i = i - 1;
    }
    None
}

/// `Path::parent`.
pub fn parent_of(path: &str) -> (r: Option<String>)
    ensures
        r.deep_view() == parent_path(path@),
{
    let segments = split(path, "/");
    let ghost sv = segments.deep_view();
    let n: usize = segments.len();
    match last_name_of(&segments, n) {
        Some(last) => match last_name_of(&segments, last) {
            Some(above) => {
                let mut kept: Vec<String> = Vec::new();
                let mut i: usize = 0;
                assert(kept.deep_view() =~= sv.take(0));
                let stop: usize = above + 1;
                while i < stop
                    invariant
                        i <= stop <= segments@.len(),
                        sv == segments.deep_view(),
                        kept.deep_view() == sv.take(i as int),
                    decreases stop - i,
                {
                    let ghost before = kept.deep_view();
                    kept.push(segments[i].clone());
                    assert(kept.deep_view() =~= before.push(sv[i as int]));
                    assert(kept.deep_view() =~= sv.take(i + 1));
                    i = i + 1;
                }
                Some(join(&kept, "/"))
            },
            None => if is_rooted(path) {
                Some(owned("/"))
            } else {
                Some(String::new())
            },
        },
        None => None,
    }
}

} // verus!
