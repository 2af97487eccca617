//! Facts about sequences: first matches, filters, stable sorting.
use vstd::prelude::*;

verus! {

/// The position of the first item that meets `p`.
pub open spec fn first_index<T>(s: Seq<T>, p: spec_fn(T) -> bool) -> Option<int>
    decreases s.len(),
{
    if s.len() == 0 {
        None
    } else if p(s[0]) {
        Some(0int)
    } else {
        match first_index(s.drop_first(), p) {
            Some(k) => Some(k + 1),
            None => None,
        }
    }
}

/// The first item that meets `p`.
pub open spec fn first<T>(s: Seq<T>, p: spec_fn(T) -> bool) -> Option<T> {
    match first_index(s, p) {
        Some(k) => Some(s[k]),
        None => None,
    }
}

pub proof fn lemma_first_is<T>(s: Seq<T>, p: spec_fn(T) -> bool, k: int)
    requires
        0 <= k < s.len(),
        p(s[k]),
        forall|j: int| 0 <= j < k ==> !p(#[trigger] s[j]),
    ensures
        first_index(s, p) == Some(k),
    decreases k,
{
    if k > 0 {
        let d = s.drop_first();
        assert(!p(s[0]));
        assert forall|j: int| 0 <= j < k - 1 implies !p(#[trigger] d[j]) by {
            assert(!p(s[j + 1]));
        }
        lemma_first_is(d, p, k - 1);
    }
}

pub proof fn lemma_first_none<T>(s: Seq<T>, p: spec_fn(T) -> bool)
    requires
        forall|j: int| 0 <= j < s.len() ==> !p(#[trigger] s[j]),
    ensures
        first_index(s, p) is None,
    decreases s.len(),
{
    if s.len() > 0 {
        let d = s.drop_first();
        assert(!p(s[0]));
        assert forall|j: int| 0 <= j < d.len() implies !p(#[trigger] d[j]) by {
            assert(!p(s[j + 1]));
        }
        lemma_first_none(d, p);
    }
}

/// What `first_index` gives is the first match, and nothing comes out only
/// where there is none.
pub proof fn lemma_first_index<T>(s: Seq<T>, p: spec_fn(T) -> bool)
    ensures
        match first_index(s, p) {
            Some(k) => 0 <= k < s.len() && p(s[k]) && forall|j: int|
                0 <= j < k ==> !p(#[trigger] s[j]),
            None => forall|j: int| 0 <= j < s.len() ==> !p(#[trigger] s[j]),
        },
    decreases s.len(),
{
    if s.len() > 0 && !p(s[0]) {
        let d = s.drop_first();
        lemma_first_index(d, p);
        match first_index(s, p) {
            Some(k) => {
                assert forall|j: int| 0 <= j < k implies !p(#[trigger] s[j]) by {
                    if j > 0 {
                        assert(!p(d[j - 1]));
                    }
                }
            },
            None => {
                assert forall|j: int| 0 <= j < s.len() implies !p(#[trigger] s[j]) by {
                    if j > 0 {
                        assert(!p(d[j - 1]));
                    }
                }
            },
        }
    }
}

/// The last item that meets `p`.
pub open spec fn final_match<T>(s: Seq<T>, p: spec_fn(T) -> bool) -> Option<T>
    decreases s.len(),
{
    if s.len() == 0 {
        None
    } else if p(s.last()) {
        Some(s.last())
    } else {
        final_match(s.drop_last(), p)
    }
}

/// The position of the last item that meets `p`.
pub open spec fn final_index<T>(s: Seq<T>, p: spec_fn(T) -> bool) -> Option<int>
    decreases s.len(),
{
    if s.len() == 0 {
        None
    } else if p(s.last()) {
        Some(s.len() - 1)
    } else {
        final_index(s.drop_last(), p)
    }
}

pub proof fn lemma_final_index_is<T>(s: Seq<T>, p: spec_fn(T) -> bool, k: int)
    requires
        0 <= k < s.len(),
        p(s[k]),
        forall|j: int| k < j < s.len() ==> !p(#[trigger] s[j]),
    ensures
        final_index(s, p) == Some(k),
    decreases s.len(),
{
    if k < s.len() - 1 {
        assert(!p(s[s.len() - 1]));
        lemma_final_index_is(s.drop_last(), p, k);
    }
}

pub proof fn lemma_final_index_none<T>(s: Seq<T>, p: spec_fn(T) -> bool)
    requires
        forall|j: int| 0 <= j < s.len() ==> !p(#[trigger] s[j]),
    ensures
        final_index(s, p) is None,
    decreases s.len(),
{
    if s.len() > 0 {
        lemma_final_index_none(s.drop_last(), p);
    }
}

/// What `final_index` gives is the last match, and nothing comes out only where there
/// is none.
pub proof fn lemma_final_index<T>(s: Seq<T>, p: spec_fn(T) -> bool)
    ensures
        match final_index(s, p) {
            Some(k) => {
                &&& 0 <= k < s.len()
                &&& p(s[k])
                &&& forall|j: int| k < j < s.len() ==> !p(#[trigger] s[j])
            },
            None => forall|j: int| 0 <= j < s.len() ==> !p(#[trigger] s[j]),
        },
        final_match(s, p) == (match final_index(s, p) {
            Some(k) => Some(s[k]),
            None => None,
        }),
    decreases s.len(),
{
    if s.len() > 0 && !p(s.last()) {
        lemma_final_index(s.drop_last(), p);
        assert forall|j: int| 0 <= j < s.len() - 1 implies s.drop_last()[j] == #[trigger] s[j] by {}
    }
}

/// How a filter grows with one more item.
pub proof fn lemma_filter_step<T>(s: Seq<T>, p: spec_fn(T) -> bool, i: int)
    requires
        0 <= i < s.len(),
    ensures
        s.take(i + 1).filter(p) == (if p(s[i]) {
            s.take(i).filter(p).push(s[i])
        } else {
            s.take(i).filter(p)
        }),
{
    reveal(Seq::filter);
    assert(s.take(i + 1).drop_last() =~= s.take(i));
    assert(s.take(i + 1).last() == s[i]);
}

pub proof fn lemma_take_all<T>(s: Seq<T>)
    ensures
        s.take(s.len() as int) == s,
{
    assert(s.take(s.len() as int) =~= s);
}

/// The smaller of two numbers.
pub open spec fn least(a: int, b: int) -> int {
    if a <= b {
        a
    } else {
        b
    }
}

/// `a - b`, and not below zero.
pub open spec fn monus(a: int, b: int) -> int {
    if a >= b {
        a - b
    } else {
        0
    }
}

// ── stable sorting ───────────────────────────────────────────────────────────

/// `s` with `x` put behind every item that need not come after it.
pub open spec fn sorted_insert<T>(s: Seq<T>, x: T, le: spec_fn(T, T) -> bool) -> Seq<T>
    decreases s.len(),
{
    if s.len() == 0 || le(s.last(), x) {
        s.push(x)
    } else {
        sorted_insert(s.drop_last(), x, le).push(s.last())
    }
}

/// The items in the order of `le`, items that are level in the order in which
/// they came.
pub open spec fn stable_sort<T>(s: Seq<T>, le: spec_fn(T, T) -> bool) -> Seq<T>
    decreases s.len(),
{
    if s.len() == 0 {
        s
    } else {
        sorted_insert(stable_sort(s.drop_last(), le), s.last(), le)
    }
}

/// `le` compares any two items, and carries over.
pub open spec fn total_preorder<T>(le: spec_fn(T, T) -> bool) -> bool {
    &&& forall|a: T, b: T| #[trigger] le(a, b) || #[trigger] le(b, a)
    &&& forall|a: T, b: T, c: T| #[trigger] le(a, b) && #[trigger] le(b, c) ==> le(a, c)
}

/// No item comes after one that it has to come before.
pub open spec fn in_order<T>(s: Seq<T>, le: spec_fn(T, T) -> bool) -> bool {
    forall|i: int, j: int| 0 <= i < j < s.len() ==> le(#[trigger] s[i], #[trigger] s[j])
}

pub proof fn lemma_sorted_insert<T>(s: Seq<T>, x: T, le: spec_fn(T, T) -> bool)
    ensures
        sorted_insert(s, x, le).len() == s.len() + 1,
        sorted_insert(s, x, le).to_multiset() == s.to_multiset().insert(x),
        total_preorder(le) && in_order(s, le) ==> in_order(sorted_insert(s, x, le), le),
    decreases s.len(),
{
    broadcast use vstd::seq_lib::group_to_multiset_ensures;

    let r = sorted_insert(s, x, le);
    if s.len() == 0 || le(s.last(), x) {
        assert(r =~= s.push(x));
        if total_preorder(le) && in_order(s, le) {
            assert forall|i: int, j: int| 0 <= i < j < r.len() implies le(
                #[trigger] r[i],
                #[trigger] r[j],
            ) by {
                if j == s.len() && i < s.len() - 1 {
                    assert(le(s[i], s[s.len() - 1]));
                }
            }
        }
    } else {
        let d = s.drop_last();
        lemma_sorted_insert(d, x, le);
        let q = sorted_insert(d, x, le);
        assert(s =~= d.push(s.last()));
        assert(r.to_multiset() =~= s.to_multiset().insert(x));
        if total_preorder(le) && in_order(s, le) {
            assert forall|i: int, j: int| 0 <= i < j < d.len() implies le(
                #[trigger] d[i],
                #[trigger] d[j],
            ) by {
                assert(le(s[i], s[j]));
            }
            assert forall|i: int| 0 <= i < q.len() implies le(#[trigger] q[i], s.last()) by {
                assert(q.to_multiset().count(q[i]) > 0) by {
                    assert(q.contains(q[i]));
                }
                if q[i] != x {
                    assert(d.to_multiset().count(q[i]) > 0);
                    assert(d.contains(q[i]));
                    let k = choose|k: int| 0 <= k < d.len() && d[k] == q[i];
                    assert(le(s[k], s[s.len() - 1]));
                } else {
                    assert(le(x, s.last()) || le(s.last(), x));
                }
            }
            assert forall|i: int, j: int| 0 <= i < j < r.len() implies le(
                #[trigger] r[i],
                #[trigger] r[j],
            ) by {
                if j < q.len() {
                    assert(le(q[i], q[j]));
                } else {
                    assert(le(q[i], s.last()));
                }
            }
        }
    }
}

/// Being level with `x`: neither has to come before the other.
pub open spec fn level<T>(le: spec_fn(T, T) -> bool, x: T) -> spec_fn(T) -> bool {
    |y: T| le(x, y) && le(y, x)
}

/// Items that are level with each other stand in the same order in both.
pub open spec fn same_order_of_level<T>(a: Seq<T>, b: Seq<T>, le: spec_fn(T, T) -> bool) -> bool {
    forall|x: T| #[trigger] a.filter(level(le, x)) == b.filter(level(le, x))
}

proof fn lemma_filter_push<T>(s: Seq<T>, x: T, p: spec_fn(T) -> bool)
    ensures
        s.push(x).filter(p) == (if p(x) {
            s.filter(p).push(x)
        } else {
            s.filter(p)
        }),
{
    reveal(Seq::filter);
    assert(s.push(x).drop_last() =~= s);
}

proof fn lemma_sorted_insert_is_stable<T>(s: Seq<T>, x: T, le: spec_fn(T, T) -> bool, z: T)
    requires
        total_preorder(le),
    ensures
        sorted_insert(s, x, le).filter(level(le, z)) == s.push(x).filter(level(le, z)),
    decreases s.len(),
{
    let p = level(le, z);
    if s.len() > 0 && !le(s.last(), x) {
        let d = s.drop_last();
        lemma_sorted_insert_is_stable(d, x, le, z);
        lemma_filter_push(sorted_insert(d, x, le), s.last(), p);
        lemma_filter_push(d, x, p);
        assert(s =~= d.push(s.last()));
        lemma_filter_push(d, s.last(), p);
        lemma_filter_push(s, x, p);
        if p(s.last()) && p(x) {
            assert(le(s.last(), z) && le(z, x));
        }
    }
}

/// Sorting keeps the items, puts them in order, and leaves those that are level in
/// the order in which they came.
pub proof fn law_stable_sort<T>(s: Seq<T>, le: spec_fn(T, T) -> bool)
    ensures
        stable_sort(s, le).len() == s.len(),
        stable_sort(s, le).to_multiset() == s.to_multiset(),
        total_preorder(le) ==> in_order(stable_sort(s, le), le),
        total_preorder(le) ==> same_order_of_level(stable_sort(s, le), s, le),
    decreases s.len(),
{
    broadcast use vstd::seq_lib::group_to_multiset_ensures;

    if s.len() > 0 {
        let d = s.drop_last();
        law_stable_sort(d, le);
        lemma_sorted_insert(stable_sort(d, le), s.last(), le);
        assert(s =~= d.push(s.last()));
        if total_preorder(le) {
            assert forall|x: T| #[trigger]
                stable_sort(s, le).filter(level(le, x)) == s.filter(level(le, x)) by {
                lemma_sorted_insert_is_stable(stable_sort(d, le), s.last(), le, x);
                lemma_filter_push(stable_sort(d, le), s.last(), level(le, x));
                lemma_filter_push(d, s.last(), level(le, x));
                assert(stable_sort(d, le).filter(level(le, x)) == d.filter(level(le, x)));
            }
        }
    }
}


proof fn lemma_sorted_insert_at<T>(s: Seq<T>, x: T, le: spec_fn(T, T) -> bool, j: int)
    requires
        0 <= j <= s.len(),
        j > 0 ==> le(s[j - 1], x),
        forall|k: int| j <= k < s.len() ==> !le(#[trigger] s[k], x),
    ensures
        sorted_insert(s, x, le) == s.insert(j, x),
    decreases s.len(),
{
    if j == s.len() {
        assert(s.insert(j, x) =~= s.push(x));
    } else {
        assert(!le(s[s.len() - 1], x));
        let d = s.drop_last();
        lemma_sorted_insert_at(d, x, le, j);
        assert(d.insert(j, x).push(s.last()) =~= s.insert(j, x));
    }
}

/// Sorts by `f`, which decides `le`; items that are level keep their order.
pub fn sort_stable<T: DeepView, F: Fn(&T, &T) -> bool>(
    v: Vec<T>,
    f: F,
    Ghost(le): Ghost<spec_fn(T::V, T::V) -> bool>,
) -> (r: Vec<T>)
    requires
        forall|a: &T, b: &T| call_requires(f, (a, b)),
        forall|a: &T, b: &T, c: bool|
            call_ensures(f, (a, b), c) ==> c == le(a.deep_view(), b.deep_view()),
    ensures
        r.deep_view() == stable_sort(v.deep_view(), le),
{
    let ghost all = v.deep_view();
    let ghost total = v@;
    let mut rest = crate::json::reversed(v);
    let mut out: Vec<T> = Vec::new();
    let n: usize = rest.len();
    let mut i: usize = 0;
    assert(out.deep_view() =~= stable_sort(all.take(0), le));
    while i < n
        invariant
            i <= n,
            n == total.len(),
            all.len() == n,
            forall|k: int| 0 <= k < n ==> #[trigger] all[k] == total[k].deep_view(),
            rest@ == total.skip(i as int).reverse(),
            forall|a: &T, b: &T| call_requires(f, (a, b)),
            forall|a: &T, b: &T, c: bool|
                call_ensures(f, (a, b), c) ==> c == le(a.deep_view(), b.deep_view()),
            out.deep_view() == stable_sort(all.take(i as int), le),
        decreases n - i,
    {
        let x = rest.pop().unwrap();
        proof {
            assert(x == total[i as int]);
            assert(rest@ =~= total.skip(i + 1).reverse());
            assert(all.take(i + 1).drop_last() =~= all.take(i as int));
            assert(all.take(i + 1).last() == all[i as int]);
        }
        let ghost ov = out.deep_view();
        let mut j: usize = out.len();
        let mut go = true;
        while j > 0 && go
            invariant
                j <= out@.len(),
                ov == out.deep_view(),
                forall|a: &T, b: &T| call_requires(f, (a, b)),
                forall|a: &T, b: &T, c: bool|
                    call_ensures(f, (a, b), c) ==> c == le(a.deep_view(), b.deep_view()),
                forall|k: int| j <= k < ov.len() ==> !le(#[trigger] ov[k], x.deep_view()),
                !go ==> j > 0 && le(ov[j - 1], x.deep_view()),
            decreases j + (if go {
                1nat
            } else {
                0nat
            }),
        {
            assert(ov[j - 1] == out@[j - 1].deep_view());
            if f(&out[j - 1], &x) {
                go = false;
            } else {
                j = j - 1;
            }
        }
        proof {
            lemma_sorted_insert_at(ov, x.deep_view(), le, j as int);
        }
        out.insert(j, x);
        assert(out.deep_view() =~= ov.insert(j as int, x.deep_view()));
        i = i + 1;
    }
    assert(all.take(n as int) =~= all);
    out
}

} // verus!
