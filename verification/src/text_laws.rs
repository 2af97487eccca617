//! What holds of cutting, joining and writing texts.
use crate::seqs::{final_index, lemma_final_index};
use crate::text::{
    all_digits, blank, bytes, char_pos, clipped, decimal, digit, digits_value, is_char, is_digit,
    joined, lemma_char_pos, lines, ordered, pieces, right_aligned, short_form,
    strip_cr, trim_end, trim_start, trimmed, white,
};
use vstd::prelude::*;

verus! {

// ── white space ──────────────────────────────────────────────────────────────

proof fn lemma_trim_start_skips(s: Seq<char>)
    ensures
        ({
            let a = s.len() - trim_start(s).len();
            &&& 0 <= a
            &&& trim_start(s) == s.skip(a)
            &&& blank(s.take(a))
            &&& trim_start(s).len() > 0 ==> !white(trim_start(s)[0])
        }),
    decreases s.len(),
{
    if s.len() > 0 && white(s[0]) {
        lemma_trim_start_skips(s.drop_first());
        let a = s.len() - trim_start(s).len();
        assert(s.skip(a) =~= s.drop_first().skip(a - 1));
        assert forall|i: int| 0 <= i < a implies white(#[trigger] s.take(a)[i]) by {
            if i > 0 {
                assert(s.drop_first().take(a - 1)[i - 1] == s.take(a)[i]);
            }
        }
    } else {
        assert(s.skip(0) =~= s);
    }
}

proof fn lemma_trim_end_takes(s: Seq<char>)
    ensures
        ({
            let b = trim_end(s).len() as int;
            &&& b <= s.len()
            &&& trim_end(s) == s.take(b)
            &&& blank(s.skip(b))
            &&& b > 0 ==> !white(s[b - 1])
        }),
    decreases s.len(),
{
    if s.len() > 0 && white(s.last()) {
        lemma_trim_end_takes(s.drop_last());
        let b = trim_end(s).len() as int;
        assert(s.take(b) =~= s.drop_last().take(b));
        assert forall|i: int| 0 <= i < s.skip(b).len() implies white(
            #[trigger] s.skip(b)[i],
        ) by {
            if i < s.skip(b).len() - 1 {
                assert(s.drop_last().skip(b)[i] == s.skip(b)[i]);
            }
        }
    } else {
        assert(s.take(s.len() as int) =~= s);
    }
}

/// A trimmed text is the text without white space at its ends: what goes is white, what
/// stays neither starts nor ends with white space.
pub proof fn law_trimming_takes_white_space_only(s: Seq<char>)
    ensures
        ({
            let t = trimmed(s);
            &&& exists|a: int|
                0 <= a && a + t.len() <= s.len() && t == #[trigger] s.subrange(a, a + t.len())
                    && blank(s.take(a)) && blank(s.skip(a + t.len()))
            &&& t.len() > 0 ==> !white(t[0]) && !white(t.last())
        }),
{
    let u = trim_start(s);
    let t = trimmed(s);
    lemma_trim_start_skips(s);
    lemma_trim_end_takes(u);
    let a = s.len() - u.len();
    assert(t =~= s.subrange(a, a + t.len()));
    assert(s.skip(a + t.len()) =~= u.skip(t.len() as int));
}

// ── cutting and joining ──────────────────────────────────────────────────────

proof fn lemma_joined_push(parts: Seq<Seq<char>>, last: Seq<char>, sep: Seq<char>)
    requires
        parts.len() > 0,
    ensures
        joined(parts.push(last), sep) == joined(parts, sep) + sep + last,
{
    assert(parts.push(last).drop_last() =~= parts);
}

/// Cutting a text at a character and joining the pieces with it again gives the text
/// back, and no piece holds the character.
pub proof fn law_pieces_join_to_the_text(s: Seq<char>, c: char)
    ensures
        pieces(s, seq![c]).len() > 0,
        joined(pieces(s, seq![c]), seq![c]) == s,
        forall|i: int|
            0 <= i < pieces(s, seq![c]).len() ==> !(#[trigger] pieces(s, seq![c])[i]).contains(c),
    decreases s.len(),
{
    let sep = seq![c];
    let p = pieces(s, sep);
    if s.len() > 0 {
        law_pieces_join_to_the_text(s.drop_last(), c);
        let before = pieces(s.drop_last(), sep);
        assert(sep[0] == c);
        if sep.contains(s.last()) {
            assert(s.last() == c);
            lemma_joined_push(before, Seq::empty(), sep);
            assert(joined(p, sep) =~= s);
        } else {
            assert(s.last() != c) by {
                if s.last() == c {
                    assert(sep[0] == s.last());
                }
            }
            let grown = before.last().push(s.last());
            if before.len() == 1 {
                assert(p =~= seq![grown]);
                assert(joined(before, sep) == before[0]);
                assert(before.last() == s.drop_last());
                assert(grown =~= s);
                assert(joined(p, sep) == p[0]);
            } else {
                let lead = before.drop_last();
                assert(before =~= lead.push(before.last()));
                lemma_joined_push(lead, before.last(), sep);
                lemma_joined_push(lead, grown, sep);
                assert(s =~= s.drop_last().push(s.last()));
                assert(joined(lead, sep) + sep + grown =~= (joined(lead, sep) + sep
                    + before.last()).push(s.last()));
                assert(p == lead.push(grown));
                assert(joined(p, sep) =~= s);
            }
            assert forall|i: int| 0 <= i < p.len() implies !(#[trigger] p[i]).contains(c) by {
                if i < before.len() - 1 {
                    assert(p[i] == before[i]);
                } else {
                    assert(p[i] == grown);
                    if grown.contains(c) {
                        let j = choose|j: int| 0 <= j < grown.len() && grown[j] == c;
                        assert(before.last()[j] == c);
                        assert(before.last().contains(c));
                        assert(before[before.len() - 1] == before.last());
                    }
                }
            }
        }
    }
}

proof fn lemma_pieces_of_one(s: Seq<char>, c: char)
    requires
        !s.contains(c),
    ensures
        pieces(s, seq![c]) == seq![s],
    decreases s.len(),
{
    if s.len() > 0 {
        let sep = seq![c];
        let lead = s.drop_last();
        assert(s[s.len() - 1] == s.last());
        assert(!lead.contains(c)) by {
            if lead.contains(c) {
                let j = choose|j: int| 0 <= j < lead.len() && lead[j] == c;
                assert(s[j] == c);
            }
        }
        lemma_pieces_of_one(lead, c);
        assert(!sep.contains(s.last())) by {
            if sep.contains(s.last()) {
                assert(s.last() == c);
                assert(s.contains(c));
            }
        }
        assert(lead.push(s.last()) =~= s);
        assert(pieces(s, sep) =~= seq![s]);
    } else {
        assert(s =~= Seq::empty());
    }
}

proof fn lemma_pieces_cut(a: Seq<char>, c: char, b: Seq<char>)
    requires
        !a.contains(c),
    ensures
        pieces(a.push(c) + b, seq![c]) == seq![a] + pieces(b, seq![c]),
    decreases b.len(),
{
    let sep = seq![c];
    let s = a.push(c) + b;
    if b.len() == 0 {
        assert(s =~= a.push(c));
        assert(s.drop_last() =~= a);
        assert(s.last() == c && sep[0] == c);
        assert(sep.contains(s.last()));
        lemma_pieces_of_one(a, c);
        assert(b =~= Seq::empty());
        assert(pieces(s, sep) =~= seq![a] + pieces(b, sep));
    } else {
        lemma_pieces_cut(a, c, b.drop_last());
        crate::text::lemma_pieces_nonempty(b.drop_last(), sep);
        assert(s.drop_last() =~= a.push(c) + b.drop_last());
        assert(s.last() == b.last());
        assert(pieces(s, sep) =~= seq![a] + pieces(b, sep));
    }
}

/// The lines of a text are what stands between its line feeds, in their order, each
/// without the carriage return before its line feed; a line feed at the end adds none.
pub proof fn law_lines_stand_between_line_feeds(first: Seq<char>, rest: Seq<char>)
    requires
        !first.contains('\n'),
    ensures
        lines(Seq::empty()).len() == 0,
        first.len() > 0 ==> lines(first) == seq![first],
        lines(first.push('\n') + rest) == seq![strip_cr(first)] + lines(rest),
        lines(first.push('\n')) == seq![strip_cr(first)],
{
    let sep = seq!['\n'];
    lemma_pieces_of_one(first, '\n');
    lemma_pieces_cut(first, '\n', rest);
    lemma_pieces_cut(first, '\n', Seq::empty());
    crate::text::lemma_pieces_nonempty(rest, sep);
    let p = pieces(rest, sep);
    let all = pieces(first.push('\n') + rest, sep);
    assert(all =~= seq![first] + p);
    assert(all.last() == p.last());
    assert(lines(first.push('\n') + rest) =~= seq![strip_cr(first)] + lines(rest));
    assert(first.push('\n') + Seq::<char>::empty() =~= first.push('\n'));
    assert(pieces(Seq::<char>::empty(), sep) =~= seq![Seq::<char>::empty()]);
    assert(lines(Seq::empty()) =~= Seq::<Seq<char>>::empty());
    assert(lines(first.push('\n')) =~= seq![strip_cr(first)]);
    if first.len() > 0 {
        assert(lines(first) =~= seq![first]);
    }
}

// ── numbers ──────────────────────────────────────────────────────────────────

/// The decimal form of a number is its digits: they read as the number, and the first is
/// no zero unless it is the only one.
pub proof fn law_decimals_read_as_the_number(n: nat)
    ensures
        all_digits(decimal(n)),
        digits_value(decimal(n)) == n,
        decimal(n).len() > 1 ==> decimal(n)[0] != '0',
        n < 10 ==> decimal(n).len() == 1,
        n >= 10 ==> decimal(n).len() > 1,
    decreases n,
{
    let d = decimal(n);
    if n < 10 {
        assert(d.drop_last() =~= Seq::empty());
        assert(digits_value(d.drop_last()) == 0);
        assert(is_digit(d[0]));
    } else {
        law_decimals_read_as_the_number(n / 10);
        assert(d.drop_last() =~= decimal(n / 10));
        assert(n == 10 * (n / 10) + n % 10) by (nonlinear_arith);
        assert forall|i: int| 0 <= i < d.len() implies is_digit(#[trigger] d[i]) by {
            if i < d.len() - 1 {
                assert(decimal(n / 10)[i] == d[i]);
            }
        }
        if decimal(n / 10).len() == 1 {
            assert(n / 10 < 10);
            assert(decimal(n / 10)[0] == digit(n / 10));
        }
        assert(d[0] == decimal(n / 10)[0]);
    }
}

/// A text that is set to the right has blanks before it, as many as it needs to be as
/// wide as asked, and is never cut.
pub proof fn law_right_aligned_is_padded(s: Seq<char>, w: nat)
    ensures
        ({
            let r = right_aligned(s, w);
            &&& r.len() >= w
            &&& r.len() >= s.len()
            &&& r.len() == w || r.len() == s.len()
            &&& r.skip(r.len() - s.len()) == s
            &&& forall|i: int| 0 <= i < r.len() - s.len() ==> #[trigger] r[i] == ' '
        }),
{
    let r = right_aligned(s, w);
    assert(r.skip(r.len() - s.len()) =~= s);
}

// ── shortening ───────────────────────────────────────────────────────────────

/// A text that fits is not shortened; of another its start stays, as many characters as
/// it takes to fill the limit, with a mark behind it.
pub proof fn law_clipped_texts_keep_their_start(s: Seq<char>, limit: nat, mark: Seq<char>)
    ensures
        bytes(s) <= limit ==> clipped(s, limit, mark) == s,
        bytes(s) > limit ==> exists|k: int|
            0 <= k <= s.len() && #[trigger] bytes(s.take(k)) >= limit && (k > 0 ==> bytes(
                s.take(k - 1),
            ) < limit) && clipped(s, limit, mark) == s.take(k) + mark,
{
    if bytes(s) > limit {
        lemma_char_pos(s, limit as int);
        let k = char_pos(s, limit as int);
        assert(clipped(s, limit, mark) == s.take(k) + mark);
        if k >= s.len() {
            assert(s.take(k) =~= s);
        }
        assert(bytes(s.take(k)) >= limit);
        if k > 0 {
            assert(bytes(s.take(k - 1)) < limit);
        }
    }
}

/// The short form of a path is its end, with its last two names at most.
pub proof fn law_short_paths_are_ends(path: Seq<char>)
    ensures
        ({
            let r = short_form(path);
            &&& r.len() <= path.len()
            &&& path.skip(path.len() - r.len()) == r
            &&& r == path || path[path.len() - r.len() - 1] == '/'
            &&& r != path ==> exists|b: int|
                0 <= b < r.len() && r[b] == '/' && forall|j: int|
                    #![trigger r[j]]
                    0 <= j < r.len() && j != b ==> r[j] != '/'
        }),
{
    let p = is_char('/');
    let r = short_form(path);
    lemma_final_index(path, p);
    if let Some(b) = final_index(path, p) {
        lemma_final_index(path.take(b), p);
        if let Some(a) = final_index(path.take(b), p) {
            assert(path.skip(path.len() - r.len()) =~= r);
            assert(path.take(b)[a] == path[a]);
            let at = b - a - 1;
            assert(r[at] == path[b]);
            assert forall|j: int| #![trigger r[j]] 0 <= j < r.len() && j != at implies r[j]
                != '/' by {
                assert(r[j] == path[a + 1 + j]);
                if j < at {
                    assert(path.take(b)[a + 1 + j] == path[a + 1 + j]);
                    assert(!p(path.take(b)[a + 1 + j]));
                } else {
                    assert(!p(path[a + 1 + j]));
                }
            }
        } else {
            assert(path.skip(0) =~= path);
        }
    } else {
        assert(path.skip(0) =~= path);
    }
}

// ── order ────────────────────────────────────────────────────────────────────

/// Texts are ordered by the first character in which they differ; a text comes before
/// any that it starts.
pub proof fn law_texts_are_ordered_by_their_first_difference(a: Seq<char>, b: Seq<char>, k: int)
    requires
        0 <= k <= a.len(),
        k <= b.len(),
        a.take(k) == b.take(k),
    ensures
        k < a.len() && k < b.len() && a[k] != b[k] ==> (ordered(a, b) <==> a[k] < b[k]),
        k == a.len() ==> ordered(a, b),
        k == b.len() && k < a.len() ==> !ordered(a, b),
    decreases k,
{
    if k > 0 {
        assert(a.take(k)[0] == b.take(k)[0]);
        let a1 = a.drop_first();
        let b1 = b.drop_first();
        assert forall|i: int| 0 <= i < k - 1 implies #[trigger] a1.take(k - 1)[i] == b1.take(
            k - 1,
        )[i] by {
            assert(a.take(k)[i + 1] == b.take(k)[i + 1]);
            assert(a1.take(k - 1)[i] == a[i + 1] && b1.take(k - 1)[i] == b[i + 1]);
            assert(a.take(k)[i + 1] == a[i + 1] && b.take(k)[i + 1] == b[i + 1]);
        }
        assert(a1.take(k - 1) =~= b1.take(k - 1));
        law_texts_are_ordered_by_their_first_difference(a1, b1, k - 1);
        assert(a.take(k)[0] == a[0] && b.take(k)[0] == b[0]);
        if k < a.len() && k < b.len() {
            assert(a1[k - 1] == a[k] && b1[k - 1] == b[k]);
        }
    }
}

} // verus!
