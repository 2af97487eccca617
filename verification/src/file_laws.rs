//! What holds of files: which ones are found, how their paths read, and what is
//! shown of them.
use crate::app::{AppView, FileIndexEntryLiteView, Popup};
use crate::card_laws::{lemma_text_of_one, lemma_text_of_two};
use crate::diff::{spans_text, without_newlines, write_rows};
use crate::editor::{command_in, command_of, first_command, words};
use crate::highlight::{code_row, code_rows, ended_lines, PieceView};
use crate::input::word_end;
use crate::paths::{last_name, normal_path, parent_path, path_joined, walked, Walk};
use crate::protocol::SessionGroupView;
use crate::ranking::{best, law_best_first, rank_order, ranked, ranks, RankedView};
use crate::seqs::{lemma_first_index, stable_sort};
use crate::session::{
    completion_scores, completions, dir_in_group, is_directory, MAX_COMPLETIONS,
};
use crate::style::LineView;
use crate::text::{
    blank, bytes, contains, decimal, is_char, joined, lines, lowercase, ordered, pieces,
    right_aligned, spaces, starts, trimmed, white,
};
use crate::theme::Theme;
use vstd::prelude::*;

verus! {

// ── finding files ────────────────────────────────────────────────────────────

/// What the rank of a file counts: its fuzzy score, and more where its path or its
/// name begins with the query, or its path holds it, whatever the case of letters.
pub open spec fn worth(path: Seq<char>, fuzzy: int, query: Seq<char>) -> int {
    let name = pieces(path, "/"@).last();
    let all: int = if starts(lowercase(path), lowercase(query)) {
        10_000
    } else {
        0
    };
    let own: int = if starts(lowercase(name), lowercase(query)) {
        7_500
    } else {
        0
    };
    let part: int = if contains(lowercase(path), lowercase(query)) {
        3_000
    } else {
        0
    };
    fuzzy + all + own + part
}

/// Of two files the one that is worth more comes first; of two that are worth the
/// same the directory, then the shorter path, then the path that is first in the
/// order of texts.  Without a query only the last three count.
pub proof fn law_better_files_come_first(
    a: FileIndexEntryLiteView,
    b: FileIndexEntryLiteView,
    fa: i64,
    fb: i64,
    query: Seq<char>,
)
    ensures
        ({
            let before = rank_order()(ranked(a, fa, query), ranked(b, fb, query));
            let (wa, wb) = if query.len() == 0 {
                (0, 0)
            } else {
                (worth(a.path, fa as int, query), worth(b.path, fb as int, query))
            };
            &&& wa > wb ==> before
            &&& wa < wb ==> !before
            &&& wa == wb ==> {
                &&& a.is_dir && !b.is_dir ==> before
                &&& !a.is_dir && b.is_dir ==> !before
                &&& a.is_dir == b.is_dir ==> {
                    &&& bytes(a.path) < bytes(b.path) ==> before
                    &&& bytes(a.path) > bytes(b.path) ==> !before
                    &&& bytes(a.path) == bytes(b.path) ==> before == ordered(a.path, b.path)
                }
            }
        }),
{
}

/// The file of a rank is a file that matches.
pub open spec fn matches_at(
    entries: Seq<FileIndexEntryLiteView>,
    fuzzy: Seq<Option<i64>>,
    i: int,
    entry: FileIndexEntryLiteView,
) -> bool {
    0 <= i < entries.len() && fuzzy[i] is Some && entries[i] == entry
}

proof fn lemma_rank_matches(
    entries: Seq<FileIndexEntryLiteView>,
    fuzzy: Seq<Option<i64>>,
    query: Seq<char>,
    k: int,
)
    requires
        0 <= k < ranks(entries, fuzzy, query).len(),
    ensures
        exists|i: int|
            #[trigger] matches_at(entries, fuzzy, i, ranks(entries, fuzzy, query)[k].entry),
    decreases entries.len(),
{
    let all = ranks(entries, fuzzy, query);
    let d = entries.drop_last();
    let before = ranks(d, fuzzy, query);
    if k < before.len() {
        lemma_rank_matches(d, fuzzy, query, k);
        let i = choose|i: int| #[trigger] matches_at(d, fuzzy, i, before[k].entry);
        assert(matches_at(entries, fuzzy, i, all[k].entry));
    } else {
        assert(matches_at(entries, fuzzy, entries.len() - 1, all[k].entry));
    }
}

proof fn lemma_match_is_ranked(
    entries: Seq<FileIndexEntryLiteView>,
    fuzzy: Seq<Option<i64>>,
    query: Seq<char>,
    i: int,
) -> (k: int)
    requires
        0 <= i < entries.len(),
        fuzzy[i] is Some,
    ensures
        0 <= k < ranks(entries, fuzzy, query).len(),
        ranks(entries, fuzzy, query)[k] == ranked(entries[i], fuzzy[i]->0, query),
    decreases entries.len(),
{
    let d = entries.drop_last();
    if i < d.len() {
        lemma_match_is_ranked(d, fuzzy, query, i)
    } else {
        ranks(d, fuzzy, query).len() as int
    }
}

proof fn lemma_same_items(a: Seq<RankedView>, b: Seq<RankedView>, x: RankedView)
    requires
        a.to_multiset() == b.to_multiset(),
        a.contains(x),
    ensures
        b.contains(x),
        a.len() == b.len(),
{
    broadcast use vstd::seq_lib::group_to_multiset_ensures;

    assert(a.len() == a.to_multiset().len());
    assert(b.len() == b.to_multiset().len());
    assert(a.to_multiset().count(x) > 0);
    assert(b.to_multiset().count(x) > 0);
}

/// Only files that match are found.
pub proof fn law_files_found_match(
    entries: Seq<FileIndexEntryLiteView>,
    fuzzy: Seq<Option<i64>>,
    query: Seq<char>,
    limit: nat,
    k: int,
)
    requires
        0 <= k < best(entries, fuzzy, query, limit).len(),
    ensures
        exists|i: int|
            #[trigger] matches_at(entries, fuzzy, i, best(entries, fuzzy, query, limit)[k]),
        best(entries, fuzzy, query, limit).len() <= limit,
{
    law_best_first(entries, fuzzy, query);
    let all = ranks(entries, fuzzy, query);
    let sorted = stable_sort(all, rank_order());
    assert(sorted.contains(sorted[k]));
    lemma_same_items(sorted, all, sorted[k]);
    let j = choose|j: int| 0 <= j < all.len() && all[j] == sorted[k];
    lemma_rank_matches(entries, fuzzy, query, j);
    let i = choose|i: int| #[trigger] matches_at(entries, fuzzy, i, all[j].entry);
    assert(best(entries, fuzzy, query, limit)[k] == sorted[k].entry);
    assert(matches_at(entries, fuzzy, i, best(entries, fuzzy, query, limit)[k]));
}

/// Every file that matches is found, as long as there is room for it.
pub proof fn law_files_that_match_are_found(
    entries: Seq<FileIndexEntryLiteView>,
    fuzzy: Seq<Option<i64>>,
    query: Seq<char>,
    limit: nat,
    i: int,
)
    requires
        0 <= i < entries.len(),
        fuzzy[i] is Some,
        entries.len() <= limit,
    ensures
        best(entries, fuzzy, query, limit).contains(entries[i]),
{
    law_best_first(entries, fuzzy, query);
    lemma_no_more_ranks(entries, fuzzy, query);
    let all = ranks(entries, fuzzy, query);
    let sorted = stable_sort(all, rank_order());
    let r = ranked(entries[i], fuzzy[i]->0, query);
    let at = lemma_match_is_ranked(entries, fuzzy, query, i);
    assert(all[at] == r);
    lemma_same_items(all, sorted, r);
    let k = choose|k: int| 0 <= k < sorted.len() && sorted[k] == r;
    assert(best(entries, fuzzy, query, limit)[k] == entries[i]);
}

proof fn lemma_no_more_ranks(
    entries: Seq<FileIndexEntryLiteView>,
    fuzzy: Seq<Option<i64>>,
    query: Seq<char>,
)
    ensures
        ranks(entries, fuzzy, query).len() <= entries.len(),
    decreases entries.len(),
{
    if entries.len() > 0 {
        lemma_no_more_ranks(entries.drop_last(), fuzzy, query);
    }
}

// ── paths ────────────────────────────────────────────────────────────────────

/// A path that begins at the root stands alone; any other stands under the base,
/// with one slash between them.
pub proof fn law_relative_paths_stand_under_the_base(base: Seq<char>, path: Seq<char>)
    ensures
        path.len() > 0 && path[0] == '/' ==> path_joined(base, path) == path,
        base.len() > 0 && base.last() != '/' && (path.len() == 0 || path[0] != '/')
            ==> path_joined(base, path) == base + "/"@ + path,
        base.len() > 0 && base.last() == '/' && (path.len() == 0 || path[0] != '/')
            ==> path_joined(base, path) == base + path,
        base.len() == 0 ==> path_joined(base, path) == path,
{
}

/// A segment that is a name: neither empty, nor one or two dots.
pub open spec fn plain_name(s: Seq<char>) -> bool {
    s.len() > 0 && s != "."@ && s != ".."@
}

/// Walking along names keeps them all.
pub proof fn law_names_are_kept(from_root: bool, segments: Seq<Seq<char>>)
    requires
        forall|i: int| 0 <= i < segments.len() ==> plain_name(#[trigger] segments[i]),
    ensures
        walked(from_root, segments) == (Walk { rooted: from_root, segments }),
    decreases segments.len(),
{
    if segments.len() > 0 {
        let d = segments.drop_last();
        assert forall|i: int| 0 <= i < d.len() implies plain_name(#[trigger] d[i]) by {
            assert(d[i] == segments[i]);
        }
        law_names_are_kept(from_root, d);
        assert(plain_name(segments[segments.len() - 1]));
        assert(d.push(segments.last()) =~= segments);
    }
}

/// Two dots behind a name lead back to where it stands; a dot and an empty segment
/// lead nowhere.
pub proof fn law_two_dots_lead_back(from_root: bool, segments: Seq<Seq<char>>, name: Seq<char>)
    requires
        plain_name(name),
    ensures
        walked(from_root, segments.push(name).push(".."@)) == walked(from_root, segments),
        walked(from_root, segments.push("."@)) == walked(from_root, segments),
        walked(from_root, segments.push(Seq::empty())) == walked(from_root, segments),
{
    reveal_strlit(".");
    reveal_strlit("..");
    let s = segments.push(name);
    assert(s.push(".."@).drop_last() =~= s);
    assert(s.drop_last() =~= segments);
    assert(segments.push("."@).drop_last() =~= segments);
    assert(segments.push(Seq::<char>::empty()).drop_last() =~= segments);
    assert(".."@ != "."@) by {
        assert(".."@.len() == 2);
        assert("."@.len() == 1);
    }
    let w = walked(from_root, segments);
    assert(walked(from_root, s).segments.drop_last() =~= w.segments);
}

/// The text of a path in normal form: a slash where it begins at the root, and its
/// segments with a slash between any two.
pub proof fn law_walks_read_as_paths(w: Walk)
    ensures
        w.rooted ==> w.path() == "/"@ + joined(w.segments, "/"@),
        !w.rooted ==> w.path() == joined(w.segments, "/"@),
{
    assert(!w.rooted ==> w.path() =~= joined(w.segments, "/"@));
}

/// The parent of a path whose last two segments are names is the path without the
/// last one.
pub proof fn law_parent_drops_the_last_name(path: Seq<char>)
    requires
        pieces(path, "/"@).len() >= 2,
        plain_name(pieces(path, "/"@).last()),
        plain_name(pieces(path, "/"@)[pieces(path, "/"@).len() - 2]),
    ensures
        parent_path(path) == Some(joined(pieces(path, "/"@).drop_last(), "/"@)),
{
    let s = pieces(path, "/"@);
    let n = s.len() as int;
    assert(last_name(s, n) == n - 1);
    assert(last_name(s, n - 1) == n - 2);
    assert(s.take(n - 1) =~= s.drop_last());
}

// ── the directory of a new session ───────────────────────────────────────────

/// A path stands for itself where it begins at the root, for one in the home directory
/// where it begins with a tilde, and otherwise for one in the directory that the program
/// was started in; in normal form each.
pub proof fn law_new_session_starts_where_the_path_leads(app: AppView, input: Seq<char>)
    requires
        trimmed(input).len() > 0,
    ensures
        ({
            let t = trimmed(input);
            let base = match app.launch_cwd {
                Some(d) => d,
                None => "."@,
            };
            &&& t[0] == '/' ==> app.session_path(input) == Some(normal_path(t))
            &&& t[0] != '/' && t[0] != '~' ==> app.session_path(input) == Some(
                normal_path(path_joined(base, t)),
            )
            &&& app.home_dir matches Some(home) ==> (home.len() > 0 && home[0] == '/' ==> {
                &&& t == "~"@ ==> app.session_path(input) == Some(normal_path(home))
                &&& t.len() > 2 && t[0] == '~' && t[1] == '/' && t[2] != '/' ==> app.session_path(
                    input,
                ) == Some(normal_path(path_joined(home, t.skip(2))))
            })
        }),
{
    reveal_strlit("~");
    reveal_strlit("~/");
    reveal_strlit("/");
    let t = trimmed(input);
    if t.len() > 2 && t[0] == '~' && t[1] == '/' {
        assert(t.take(2) =~= "~/"@);
        match app.home_dir {
            Some(home) => if home.len() > 0 && home[0] == '/' && t[2] != '/' {
                assert(t.skip(2)[0] == t[2]);
                assert(path_joined(home, t.skip(2))[0] == '/');
            },
            None => {},
        }
    }
    if t[0] != '~' {
        assert("~/"@[0] == '~');
        assert(starts(t, "~/"@) ==> t.take(2)[0] == '~');
    }
}

/// Without a path a new session starts in the directory of the open session, or else in
/// the one that the program was started in.
pub proof fn law_new_session_starts_where_one_is(app: AppView, input: Seq<char>)
    requires
        trimmed(input).len() == 0,
    ensures
        app.session_path(input) == match app.default_dir() {
            Some(d) => Some(normal_path(d)),
            None => None,
        },
        app.session_id is None ==> app.default_dir() == match app.launch_cwd {
            Some(d) => if blank(d) {
                None
            } else {
                Some(d)
            },
            None => None,
        },
{
}

proof fn lemma_dir_in_group(g: SessionGroupView, sid: Seq<char>, i: int, k: int, d: Seq<char>)
    requires
        0 <= i <= k < g.sessions.len(),
        g.sessions[k].session_id == sid,
        g.sessions[k].cwd == Some(d),
        !blank(d),
        forall|j: int| 0 <= j < k ==> (#[trigger] g.sessions[j]).session_id != sid,
    ensures
        dir_in_group(g, sid, i) == Some(d),
    decreases k - i,
{
    if i < k {
        lemma_dir_in_group(g, sid, i + 1, k, d);
    }
}

/// The directory of the open session is its own, where it has one.
pub proof fn law_open_session_gives_the_directory(
    app: AppView,
    sid: Seq<char>,
    k: int,
    d: Seq<char>,
)
    requires
        app.session_id == Some(sid),
        app.session_groups.len() > 0,
        0 <= k < app.session_groups[0].sessions.len(),
        app.session_groups[0].sessions[k].session_id == sid,
        app.session_groups[0].sessions[k].cwd == Some(d),
        !blank(d),
        forall|j: int|
            0 <= j < k ==> (#[trigger] app.session_groups[0].sessions[j]).session_id != sid,
    ensures
        app.default_dir() == Some(d),
        app.new_session_opened().new_session_path == d,
        app.new_session_opened().popup == Popup::NewSession,
{
    lemma_dir_in_group(app.session_groups[0], sid, 0, k, d);
}

/// Only directories are offered to complete a path.
pub proof fn law_only_directories_complete(
    entries: Seq<FileIndexEntryLiteView>,
    query: Seq<char>,
    k: int,
)
    requires
        0 <= k < completions(entries, query).len(),
    ensures
        completions(entries, query)[k].is_dir,
        entries.contains(completions(entries, query)[k]),
{
    let dirs = entries.filter(is_directory());
    let q = trimmed(query);
    let scores = completion_scores(dirs, q);
    law_files_found_match(dirs, scores, q, MAX_COMPLETIONS as nat, k);
    let e = completions(entries, query)[k];
    let i = choose|i: int| #[trigger] matches_at(dirs, scores, i, e);
    entries.lemma_filter_contains_rev(is_directory(), e);
    assert(dirs[i] == e);
}

/// A completion that is taken is the path then, with a slash at its end where it is a
/// directory, and the cursor at its end; nothing is offered any more.
pub proof fn law_completion_is_taken(app: AppView)
    requires
        app.new_session_completion is Some,
        app.new_session_completion->0.selected_index
            < app.new_session_completion->0.results.len(),
    ensures
        ({
            let c = app.new_session_completion->0;
            let e = c.results[c.selected_index as int];
            let next = app.completion_accepted();
            let path = match app.session_path(e.path) {
                Some(p) => p,
                None => e.path,
            };
            &&& next.new_session_path == path || next.new_session_path == path.push('/')
            &&& e.is_dir ==> next.new_session_path.len() > 0 && next.new_session_path.last() == '/'
            &&& !e.is_dir ==> next.new_session_path == path
            &&& bytes(next.new_session_path) <= usize::MAX ==> next.new_session_cursor == bytes(
                next.new_session_path,
            )
            &&& next.new_session_completion is None
        }),
{
}

/// The selection among the completions goes round.
pub proof fn law_completions_go_round(app: AppView)
    requires
        app.new_session_completion is Some,
        app.new_session_completion->0.selected_index
            < app.new_session_completion->0.results.len(),
    ensures
        ({
            let c = app.new_session_completion->0;
            let n = c.results.len() as int;
            let down = app.completion_moved(1).new_session_completion->0;
            let up = app.completion_moved(-1).new_session_completion->0;
            &&& n <= usize::MAX ==> down.selected_index == (if c.selected_index + 1 == n {
                0
            } else {
                c.selected_index + 1
            })
            &&& n <= usize::MAX ==> up.selected_index == (if c.selected_index == 0 {
                n - 1
            } else {
                c.selected_index - 1
            })
            &&& down.results == c.results && up.results == c.results
        }),
{
    let c = app.new_session_completion->0;
    let n = c.results.len() as int;
    let at = c.selected_index as int;
    if at + 1 == n {
        assert((at + 1) % n == 0) by (nonlinear_arith)
            requires
                at + 1 == n,
                n > 0,
        ;
    } else {
        vstd::arithmetic::div_mod::lemma_small_mod((at + 1) as nat, n as nat);
    }
    if at == 0 {
        vstd::arithmetic::div_mod::lemma_mod_add_multiples_vanish(-1, n);
        vstd::arithmetic::div_mod::lemma_small_mod((n - 1) as nat, n as nat);
    } else {
        vstd::arithmetic::div_mod::lemma_small_mod((at - 1) as nat, n as nat);
    }
}

/// Another session counts as active for five seconds after its last event.
pub proof fn law_other_sessions_count_for_a_while(app: AppView, id: Seq<char>)
    ensures
        app.other_active_sessions().contains(id) <==> {
            &&& app.session_activity.contains_key(id)
            &&& app.session_id != Some(id)
            &&& app.now_ns <= app.session_activity[id].last_event_at + 5_000_000_000
        },
{
}

// ── what is shown of files ───────────────────────────────────────────────────

/// Of a file that is written the first twenty lines are shown, each with its
/// number and as an addition; where there are more, a last row says how many.
pub proof fn law_new_file_is_shown(theme: Theme, content: Seq<char>)
    ensures
        ({
            let rows = write_rows(theme, content);
            let all = lines(content);
            let columns = decimal(all.len()).len();
            &&& all.len() <= 20 ==> rows.len() == all.len()
            &&& all.len() > 20 ==> rows.len() == 21
            &&& forall|i: int|
                0 <= i < all.len() && i < 20 ==> spans_text(#[trigger] rows[i]) == "  "@
                    + right_aligned(decimal((i + 1) as nat), columns) + " "@ + ("+ "@ + all[i])
            &&& all.len() > 20 ==> spans_text(rows[20]) == "  "@ + spaces(columns) + "   ... ("@
                + decimal((all.len() - 20) as nat) + " more lines)"@
        }),
{
    let rows = write_rows(theme, content);
    let all = lines(content);
    assert forall|i: int| 0 <= i < all.len() && i < 20 implies spans_text(#[trigger] rows[i])
        == "  "@ + right_aligned(decimal((i + 1) as nat), decimal(all.len()).len()) + " "@ + ("+ "@
        + all[i]) by {
        lemma_text_of_two(rows[i][0], rows[i][1]);
    }
    if all.len() > 20 {
        lemma_text_of_one(rows[20][0]);
    }
}

/// The texts of pieces, one behind the other.
pub open spec fn pieces_text(found: Seq<PieceView>) -> Seq<char>
    decreases found.len(),
{
    if found.len() == 0 {
        Seq::empty()
    } else {
        pieces_text(found.drop_last()) + found.last().text
    }
}

proof fn lemma_code_text(head: LineView, spans: LineView, found: Seq<PieceView>)
    requires
        spans.len() == found.len(),
        forall|i: int| 0 <= i < spans.len() ==> (#[trigger] spans[i]).content == found[i].text,
    ensures
        spans_text(head + spans) == spans_text(head) + pieces_text(found),
    decreases spans.len(),
{
    if spans.len() == 0 {
        assert(head + spans =~= head);
        assert(spans_text(head) + pieces_text(found) =~= spans_text(head));
    } else {
        assert forall|i: int| 0 <= i < spans.drop_last().len() implies (
        #[trigger] spans.drop_last()[i]).content == found.drop_last()[i].text by {
            assert(spans.drop_last()[i] == spans[i]);
        }
        lemma_code_text(head, spans.drop_last(), found.drop_last());
        assert((head + spans).drop_last() =~= head + spans.drop_last());
        assert((head + spans).last() == spans.last());
        assert(spans.last() == spans[spans.len() - 1]);
        assert(spans_text(head) + pieces_text(found.drop_last()) + found.last().text
            =~= spans_text(head) + pieces_text(found));
    }
}

/// Every line of a code block has a row of its own, in order: a blank, its number,
/// and the pieces that were found in it, or the line itself where it could not be
/// read.
pub proof fn law_code_lines_are_numbered(
    theme: Theme,
    code: Seq<Seq<char>>,
    found: Seq<Option<Seq<PieceView>>>,
    i: int,
)
    requires
        0 <= i < code.len(),
    ensures
        code_rows(theme, code, found).len() == code.len(),
        spans_text(code_rows(theme, code, found)[i]) == " "@ + (right_aligned(
            decimal((i + 1) as nat),
            decimal(code.len()).len(),
        ) + " "@) + match found[i] {
            Some(p) => pieces_text(p),
            None => without_newlines(code[i]),
        },
{
    let row = code_row(theme, code, found, i);
    let head = seq![row[0], row[1]];
    lemma_text_of_two(row[0], row[1]);
    match found[i] {
        Some(p) => {
            lemma_code_text(head, row.skip(2), p);
            assert(row =~= head + row.skip(2));
        },
        None => {
            assert(row =~= head.push(row[2]));
            assert(head.push(row[2]).drop_last() =~= head);
        },
    }
}

/// The lines of a code block make up the code, and a line feed stands at the end of
/// each but perhaps the last, and nowhere else.
pub proof fn law_code_lines_make_up_the_code(code: Seq<char>)
    ensures
        joined(ended_lines(code), Seq::empty()) == code,
        forall|i: int|
            0 <= i < ended_lines(code).len() ==> (#[trigger] ended_lines(code)[i]).len() > 0,
        forall|i: int, k: int|
            0 <= i < ended_lines(code).len() && 0 <= k < ended_lines(code)[i].len() - 1 ==> (
            #[trigger] ended_lines(code)[i][k]) != '\n',
        forall|i: int|
            0 <= i < ended_lines(code).len() - 1 ==> (#[trigger] ended_lines(code)[i]).last()
                == '\n',
    decreases code.len(),
{
    let all = ended_lines(code);
    if code.len() > 0 {
        lemma_first_index(code, is_char('\n'));
        match crate::seqs::first_index(code, is_char('\n')) {
            Some(k) => {
                let rest = code.skip(k + 1);
                law_code_lines_make_up_the_code(rest);
                let tail = ended_lines(rest);
                assert(all == seq![code.take(k + 1)] + tail);
                lemma_joined_front(code.take(k + 1), tail);
                assert(code.take(k + 1) + rest =~= code);
                assert forall|i: int| 0 <= i < all.len() implies (#[trigger] all[i]).len() > 0 by {
                    if i > 0 {
                        assert(all[i] == tail[i - 1]);
                    }
                }
                assert forall|i: int, j: int|
                    0 <= i < all.len() && 0 <= j < all[i].len() - 1 implies (
                #[trigger] all[i][j]) != '\n' by {
                    if i > 0 {
                        assert(all[i] == tail[i - 1]);
                        assert(tail[i - 1][j] != '\n');
                    } else {
                        assert(all[i][j] == code[j]);
                        assert(!is_char('\n')(code[j]));
                    }
                }
                assert forall|i: int| 0 <= i < all.len() - 1 implies (#[trigger] all[i]).last()
                    == '\n' by {
                    if i > 0 {
                        assert(all[i] == tail[i - 1]);
                    }
                }
            },
            None => {
                assert(all =~= seq![code]);
                assert forall|i: int, j: int|
                    0 <= i < all.len() && 0 <= j < all[i].len() - 1 implies (
                #[trigger] all[i][j]) != '\n' by {
                    assert(!is_char('\n')(code[j]));
                }
            },
        }
    }
}

proof fn lemma_joined_front(first: Seq<char>, rest: Seq<Seq<char>>)
    ensures
        joined(seq![first] + rest, Seq::empty()) == first + joined(rest, Seq::empty()),
    decreases rest.len(),
{
    let all = seq![first] + rest;
    let none = Seq::<char>::empty();
    if rest.len() == 0 {
        assert(all =~= seq![first]);
        assert(first + joined(rest, none) =~= first);
    } else {
        lemma_joined_front(first, rest.drop_last());
        assert(all.drop_last() =~= seq![first] + rest.drop_last());
        assert(all.last() == rest.last());
        if rest.len() == 1 {
            assert(rest.drop_last() =~= Seq::<Seq<char>>::empty());
            assert(joined(all, none) =~= first + rest[0]);
        } else {
            assert(joined(all, none) =~= first + joined(rest, none));
        }
    }
}

// ── an editor for the prompt ─────────────────────────────────────────────────

proof fn lemma_word_end(s: Seq<char>, i: int)
    requires
        0 <= i <= s.len(),
    ensures
        i <= word_end(s, i) <= s.len(),
        forall|k: int| i <= k < word_end(s, i) ==> !white(#[trigger] s[k]),
        word_end(s, i) < s.len() ==> white(s[word_end(s, i)]),
    decreases s.len() - i,
{
    if i < s.len() && !white(s[i]) {
        lemma_word_end(s, i + 1);
    }
}

/// The words of a command are not empty and hold no white space.
pub proof fn law_words_hold_no_white_space(s: Seq<char>, from: int, i: int, k: int)
    requires
        0 <= from,
        0 <= i < words(s, from).len(),
        0 <= k < words(s, from)[i].len(),
    ensures
        !white(words(s, from)[i][k]),
        s.contains(words(s, from)[i][k]),
    decreases s.len() - from,
{
    if from < s.len() {
        if white(s[from]) {
            law_words_hold_no_white_space(s, from + 1, i, k);
        } else {
            lemma_word_end(s, from);
            let e = word_end(s, from);
            assert(from < e);
            if i == 0 {
                assert(words(s, from)[0][k] == s[from + k]);
            } else {
                assert(words(s, from)[i] == words(s, e)[i - 1]);
                law_words_hold_no_white_space(s, e, i - 1, k);
            }
        }
    }
}

/// A command without white space is a program without arguments; what stands
/// behind it and white space are its arguments.
pub proof fn law_first_word_is_the_program(program: Seq<char>, rest: Seq<char>, blank: char)
    requires
        program.len() > 0,
        forall|k: int| 0 <= k < program.len() ==> !white(#[trigger] program[k]),
        white(blank),
    ensures
        command_in(program) matches Some(c) && c.program == program && c.args.len() == 0,
        command_in(program.push(blank) + rest) matches Some(c) && c.program == program && c.args
            == words(program.push(blank) + rest, program.len() as int),
{
    let n = program.len() as int;
    lemma_word_end(program, 0);
    assert(word_end(program, 0) == n) by {
        if word_end(program, 0) < n {
            assert(white(program[word_end(program, 0)]));
        }
    }
    assert(program.subrange(0, n) =~= program);
    assert(words(program, n) =~= Seq::<Seq<char>>::empty());
    assert(words(program, 0) =~= seq![program]);
    let s = program.push(blank) + rest;
    lemma_word_end(s, 0);
    assert(word_end(s, 0) == n) by {
        let e = word_end(s, 0);
        if e < n {
            assert(s[e] == program[e]);
        } else if e > n {
            assert(s[n] == blank);
        }
    }
    assert(!white(s[0])) by {
        assert(s[0] == program[0]);
    }
    assert(s.subrange(0, n) =~= program);
    assert(words(s, 0) =~= seq![program] + words(s, n));
    assert(words(s, 0).drop_first() =~= words(s, n));
}

/// The first variable that holds a command decides.
pub proof fn law_first_variable_decides(env: Seq<(Seq<char>, Option<Seq<char>>)>, k: int)
    requires
        0 <= k < env.len(),
        command_of(env[k].1) is Some,
        forall|i: int| 0 <= i < k ==> command_of((#[trigger] env[i]).1) is None,
    ensures
        first_command(env) == command_of(env[k].1),
    decreases k,
{
    if k > 0 {
        let d = env.drop_first();
        assert forall|i: int| 0 <= i < k - 1 implies command_of((#[trigger] d[i]).1) is None by {
            assert(d[i] == env[i + 1]);
        }
        assert(command_of(env[0].1) is None);
        law_first_variable_decides(d, k - 1);
    }
}

/// What comes out of the editor is the new prompt, with the cursor at its end; the
/// conversation stays.
pub proof fn law_edited_prompt_is_taken_over(app: AppView, text: Seq<char>)
    requires
        bytes(text) <= usize::MAX,
    ensures
        app.editor_done(Ok(Some(text))).input == text,
        app.editor_done(Ok(Some(text))).input_cursor == bytes(text),
        app.editor_done(Ok(Some(text))).messages == app.messages,
        app.editor_done(Ok(Some(text))).status == "loaded prompt from external editor"@,
        app.editor_done(Ok(None)).status == "external editor cancelled"@,
{
}

} // verus!
