//! Which files fit what was typed, the best first.
use crate::app::{FileIndexEntryLite, FileIndexEntryLiteView};
use crate::seqs::{least, sort_stable, stable_sort, total_preorder};
use crate::text::{
    byte_len, bytes, contains, has, has_prefix, lowercase, ordered, pieces, split, starts, text_le,
    to_lower,
};
use vstd::prelude::*;

verus! {

/// The score that skim's fuzzy matching gives a pattern in a text, or nothing
/// where it does not match.
pub uninterp spec fn fuzzy_score(choice: Seq<char>, pattern: Seq<char>) -> Option<i64>;

/// `fuzzy_matcher::skim::SkimMatcherV2::fuzzy_match` of a matcher with default
/// settings: a function of the two texts; an empty pattern matches with 0.
#[verifier::external_body]
pub(crate) fn fuzzy_match(choice: &str, pattern: &str) -> (r: Option<i64>)
    ensures
        r == fuzzy_score(choice@, pattern@),
        pattern@.len() == 0 ==> r == Some(0i64),
{
    fuzzy_matcher::FuzzyMatcher::fuzzy_match(
        &fuzzy_matcher::skim::SkimMatcherV2::default(),
        choice,
        pattern,
    )
}

/// A file with what it is ranked by.
pub struct Ranked {
    pub score: i128,
    pub is_dir: bool,
    pub len: usize,
    pub entry: FileIndexEntryLite,
}

#[verifier::ext_equal]
pub struct RankedView {
    pub score: int,
    pub is_dir: bool,
    pub len: int,
    pub entry: FileIndexEntryLiteView,
}

impl DeepView for Ranked {
    type V = RankedView;

    open spec fn deep_view(&self) -> RankedView {
        RankedView {
            score: self.score as int,
            is_dir: self.is_dir,
            len: self.len as int,
            entry: self.entry.deep_view(),
        }
    }
}

/// The order of ranks: higher scores first, then directories, then shorter
/// paths, then by the path.
pub open spec fn rank_order() -> spec_fn(RankedView, RankedView) -> bool {
    |a: RankedView, b: RankedView|
        if a.score != b.score {
            a.score > b.score
        } else if a.is_dir != b.is_dir {
            a.is_dir
        } else if a.len != b.len {
            a.len < b.len
        } else {
            ordered(a.entry.path, b.entry.path)
        }
}

fn ranked_before(a: &Ranked, b: &Ranked) -> (r: bool)
    ensures
        r == rank_order()(a.deep_view(), b.deep_view()),
{
    if a.score != b.score {
        a.score > b.score
    } else if a.is_dir != b.is_dir {
        a.is_dir
    } else if a.len != b.len {
        a.len < b.len
    } else {
        text_le(a.entry.path.as_str(), b.entry.path.as_str())
    }
}

/// What stands behind the last slash.
pub open spec fn file_name(path: Seq<char>) -> Seq<char> {
    pieces(path, "/"@).last()
}

/// What stands behind the last slash.
pub fn file_name_of(path: &str) -> (r: String)
    ensures
        r@ == file_name(path@),
{
    let parts = split(path, "/");
    let n: usize = parts.len();
    assert(parts.deep_view().last() == parts@[n - 1]@);
    parts[n - 1].clone()
}

/// What a path gains over its fuzzy score: when it, or its file name, starts
/// with the query, or it contains the query, in lower case.
pub open spec fn boost(path: Seq<char>, query: Seq<char>) -> int {
    let p = lowercase(path);
    let f = lowercase(file_name(path));
    let q = lowercase(query);
    (if starts(p, q) {
        10_000int
    } else {
        0
    }) + (if starts(f, q) {
        7_500int
    } else {
        0
    }) + (if contains(p, q) {
        3_000int
    } else {
        0
    })
}

fn boost_of(path: &str, query: &str) -> (r: i128)
    ensures
        r == boost(path@, query@),
        0 <= r <= 20_500,
{
    let name = file_name_of(path);
    let p = to_lower(path);
    let f = to_lower(name.as_str());
    let q = to_lower(query);
    let a: i128 = if has_prefix(p.as_str(), q.as_str()) {
        10_000
    } else {
        0
    };
    let b: i128 = if has_prefix(f.as_str(), q.as_str()) {
        7_500
    } else {
        0
    };
    let c: i128 = if has(p.as_str(), q.as_str()) {
        3_000
    } else {
        0
    };
    a + b + c
}

/// The rank of a file, when its fuzzy score is known; an empty query ranks all
/// files level.
pub open spec fn ranked(
    entry: FileIndexEntryLiteView,
    fuzzy: i64,
    query: Seq<char>,
) -> RankedView {
    RankedView {
        score: if query.len() == 0 {
            0
        } else {
            fuzzy + boost(entry.path, query)
        },
        is_dir: entry.is_dir,
        len: bytes(entry.path) as int,
        entry,
    }
}

/// The ranks of the files that match.
pub open spec fn ranks(
    entries: Seq<FileIndexEntryLiteView>,
    fuzzy: Seq<Option<i64>>,
    query: Seq<char>,
) -> Seq<RankedView>
    decreases entries.len(),
{
    if entries.len() == 0 {
        Seq::empty()
    } else {
        let before = ranks(entries.drop_last(), fuzzy, query);
        match fuzzy[entries.len() - 1] {
            Some(f) => before.push(ranked(entries.last(), f, query)),
            None => before,
        }
    }
}

/// The first `limit` of the files that match, the best first.
pub open spec fn best(
    entries: Seq<FileIndexEntryLiteView>,
    fuzzy: Seq<Option<i64>>,
    query: Seq<char>,
    limit: nat,
) -> Seq<FileIndexEntryLiteView> {
    let sorted = stable_sort(ranks(entries, fuzzy, query), rank_order());
    sorted.take(least(limit as int, sorted.len() as int)).map_values(|r: RankedView| r.entry)
}

/// The first `limit` of the files that match, the best first, when the fuzzy
/// score of each is known.
pub fn rank_entries(
    entries: &Vec<FileIndexEntryLite>,
    fuzzy: &Vec<Option<i64>>,
    query: &str,
    limit: usize,
) -> (r: Vec<FileIndexEntryLite>)
    requires
        entries@.len() == fuzzy@.len(),
    ensures
        r.deep_view() == best(entries.deep_view(), fuzzy@, query@, limit as nat),
{
    let ghost ev = entries.deep_view();
    let mut list: Vec<Ranked> = Vec::new();
    let mut i: usize = 0;
    assert(list.deep_view() =~= ranks(ev.take(0), fuzzy@, query@));
    while i < entries.len()
        invariant
            i <= entries@.len(),
            entries@.len() == fuzzy@.len(),
            ev == entries.deep_view(),
            list.deep_view() == ranks(ev.take(i as int), fuzzy@, query@),
        decreases entries@.len() - i,
    {
        let ghost before = list.deep_view();
        proof {
            assert(ev.take(i + 1).drop_last() =~= ev.take(i as int));
            assert(ev.take(i + 1).last() == ev[i as int]);
            assert(ev[i as int] == entries@[i as int].deep_view());
        }
        if let Some(f) = fuzzy[i] {
            let path = entries[i].path.as_str();
            let score: i128 = if query.is_empty() {
                0
            } else {
                f as i128 + boost_of(path, query)
            };
            let item = Ranked {
                score,
                is_dir: entries[i].is_dir,
                len: byte_len(path),
                entry: entries[i].clone(),
            };
            assert(item.deep_view() =~= ranked(ev[i as int], f, query@));
            list.push(item);
            assert(list.deep_view() =~= before.push(item.deep_view()));
        }
        i = i + 1;
    }
    assert(ev.take(ev.len() as int) =~= ev);
    let sorted = sort_stable(list, ranked_before, Ghost(rank_order()));
    let ghost sv = sorted.deep_view();
    let n: usize = if limit <= sorted.len() {
        limit
    } else {
        sorted.len()
    };
    let ghost goal = best(ev, fuzzy@, query@, limit as nat);
    let mut out: Vec<FileIndexEntryLite> = Vec::new();
    let mut j: usize = 0;
    assert(out.deep_view() =~= goal.take(0));
    while j < n
        invariant
            j <= n <= sorted@.len(),
            sv == sorted.deep_view(),
            goal == sv.take(n as int).map_values(|r: RankedView| r.entry),
            out.deep_view() == goal.take(j as int),
        decreases n - j,
    {
        let ghost before = out.deep_view();
        let e = sorted[j].entry.clone();
        assert(goal[j as int] == e.deep_view());
        out.push(e);
        assert(out.deep_view() =~= before.push(goal[j as int]));
        assert(out.deep_view() =~= goal.take(j + 1));
        j = j + 1;
    }
    assert(out.deep_view() =~= goal);
    out
}

// ── laws ─────────────────────────────────────────────────────────────────────

pub proof fn lemma_ordered_total(a: Seq<char>, b: Seq<char>)
    ensures
        ordered(a, b) || ordered(b, a),
    decreases a.len(),
{
    if a.len() > 0 && b.len() > 0 && a[0] == b[0] {
        lemma_ordered_total(a.drop_first(), b.drop_first());
    }
}

pub proof fn lemma_ordered_transitive(a: Seq<char>, b: Seq<char>, c: Seq<char>)
    requires
        ordered(a, b),
        ordered(b, c),
    ensures
        ordered(a, c),
    decreases a.len(),
{
    if a.len() > 0 && a[0] == b[0] && b[0] == c[0] {
        lemma_ordered_transitive(a.drop_first(), b.drop_first(), c.drop_first());
    }
}

/// The order of ranks compares any two files, so the best come first: of two
/// files in the result, the one that comes first does not rank lower.
pub proof fn law_best_first(
    entries: Seq<FileIndexEntryLiteView>,
    fuzzy: Seq<Option<i64>>,
    query: Seq<char>,
)
    ensures
        total_preorder(rank_order()),
        crate::seqs::in_order(stable_sort(ranks(entries, fuzzy, query), rank_order()), rank_order()),
        stable_sort(ranks(entries, fuzzy, query), rank_order()).to_multiset() == ranks(
            entries,
            fuzzy,
            query,
        ).to_multiset(),
{
    let le = rank_order();
    assert forall|a: RankedView, b: RankedView| #[trigger] le(a, b) || #[trigger] le(b, a) by {
        lemma_ordered_total(a.entry.path, b.entry.path);
    }
    assert forall|a: RankedView, b: RankedView, c: RankedView| #[trigger]
        le(a, b) && #[trigger] le(b, c) implies le(a, c) by {
        if ordered(a.entry.path, b.entry.path) && ordered(b.entry.path, c.entry.path) {
            lemma_ordered_transitive(a.entry.path, b.entry.path, c.entry.path);
        }
    }
    crate::seqs::law_stable_sort(ranks(entries, fuzzy, query), le);
}

} // verus!
