//! Orders: texts by their characters, and rows by rank.

use vstd::prelude::*;

use crate::text::chars_of;

verus! {

/// Whether a text comes strictly before another, character by character; a text comes
/// before its own extensions.
pub open spec fn text_before(a: Seq<char>, b: Seq<char>) -> bool
    decreases a.len(),
{
    if b.len() == 0 {
        false
    } else if a.len() == 0 {
        true
    } else if a[0] != b[0] {
        a[0] < b[0]
    } else {
        text_before(a.skip(1), b.skip(1))
    }
}

/// The order of texts is a strict total order: no text comes before itself, of two
/// different texts one comes before the other, and what comes before what comes before
/// a text comes before it.
pub proof fn lemma_text_order(a: Seq<char>, b: Seq<char>, c: Seq<char>)
    ensures
        !text_before(a, a),
        !(text_before(a, b) && text_before(b, a)),
        a != b ==> text_before(a, b) || text_before(b, a),
        text_before(a, b) && text_before(b, c) ==> text_before(a, c),
    decreases a.len() + b.len() + c.len(),
{
    if a.len() > 0 && b.len() > 0 && c.len() > 0 {
        lemma_text_order(a.skip(1), b.skip(1), c.skip(1));
    } else if a.len() > 0 && b.len() > 0 {
        lemma_text_order(a.skip(1), b.skip(1), c);
    } else if a.len() > 0 {
        lemma_text_order(a.skip(1), b, c);
    }
    if a.len() > 0 && b.len() > 0 && a[0] == b[0] && a.skip(1) == b.skip(1) {
        assert(a =~= seq![a[0]] + a.skip(1));
        assert(b =~= seq![b[0]] + b.skip(1));
    }
    if a.len() == 0 && b.len() == 0 {
        assert(a =~= b);
    }
}

/// What the order of texts asks of ranked rows.
pub proof fn lemma_text_rank(a: Seq<char>, b: Seq<char>, c: Seq<char>)
    ensures
        !(text_before(a, b) && text_before(b, a)),
        text_before(a, b) && text_before(b, c) ==> text_before(a, c),
        !text_before(a, b) && !text_before(b, c) ==> !text_before(a, c),
{
    lemma_text_order(a, b, c);
    lemma_text_order(c, b, a);
    lemma_text_order(b, c, a);
    lemma_text_order(a, c, b);
}

/// Whether a text comes strictly before another.
pub fn text_precedes(a: &str, b: &str) -> (r: bool)
    ensures
        r == text_before(a@, b@),
{
    let x = chars_of(a);
    let y = chars_of(b);
    let mut i: usize = 0;
    assert(x@.skip(0) =~= x@);
    assert(y@.skip(0) =~= y@);
    while i < x.len() && i < y.len()
        invariant
            i <= x@.len(),
            i <= y@.len(),
            x@ == a@,
            y@ == b@,
            text_before(x@, y@) == text_before(x@.skip(i as int), y@.skip(i as int)),
        decreases x.len() - i,
    {
        assert(x@.skip(i as int).skip(1) =~= x@.skip(i as int + 1));
        assert(y@.skip(i as int).skip(1) =~= y@.skip(i as int + 1));
        if x[i] != y[i] {
            return x[i] < y[i];
        }
        i = i + 1;
    }
    i < y.len()
}

/// Rows with a rank: `before` is a strict order, and rows of one rank are told apart by
/// nothing else that the order knows.
pub trait Ranked: Sized {
    /// Whether a row comes strictly before another.
    spec fn before(&self, other: &Self) -> bool;

    /// Whether a row comes strictly before another.
    fn precedes(&self, other: &Self) -> (r: bool)
        ensures
            r == self.before(other),
    ;

    /// The order is strict, and what is not before a row that is not before another is
    /// not before that one either.
    proof fn lemma_order(a: &Self, b: &Self, c: &Self)
        ensures
            !(a.before(b) && b.before(a)),
            a.before(b) && b.before(c) ==> a.before(c),
            !a.before(b) && !b.before(c) ==> !a.before(c),
    ;
}

/// No row comes before one that stands ahead of it.
pub open spec fn sorted_by_rank<T: Ranked>(s: Seq<T>) -> bool {
    forall|i: int, j: int|
        #![trigger s[i], s[j]]
        0 <= i < j < s.len() ==> !s[j].before(&s[i])
}

/// The place of a row among sorted rows: behind every row that it does not come before.
pub open spec fn place<T: Ranked>(s: Seq<T>, row: T) -> int
    decreases s.len(),
{
    if s.len() == 0 || !row.before(&s.last()) {
        s.len() as int
    } else {
        place(s.drop_last(), row)
    }
}

/// Rows sorted by rank; rows of one rank keep their order.
pub open spec fn stable_sort<T: Ranked>(s: Seq<T>) -> Seq<T>
    decreases s.len(),
{
    if s.len() == 0 {
        Seq::empty()
    } else {
        let rest = stable_sort(s.drop_last());
        rest.insert(place(rest, s.last()), s.last())
    }
}

proof fn lemma_place<T: Ranked>(s: Seq<T>, row: T)
    ensures
        0 <= place(s, row) <= s.len(),
        forall|j: int|
            #![trigger s[j]]
            place(s, row) <= j < s.len() ==> row.before(&s[j]),
        place(s, row) > 0 ==> !row.before(&s[place(s, row) - 1]),
    decreases s.len(),
{
    if s.len() > 0 && row.before(&s.last()) {
        let rest = s.drop_last();
        lemma_place(rest, row);
        assert forall|j: int| #![trigger s[j]] place(s, row) <= j < s.len() implies row.before(
            &s[j],
        ) by {
            if j < rest.len() {
                assert(rest[j] == s[j]);
            }
        }
    }
}

proof fn lemma_insert_keeps_sorted<T: Ranked>(s: Seq<T>, row: T)
    requires
        sorted_by_rank(s),
    ensures
        0 <= place(s, row) <= s.len(),
        sorted_by_rank(s.insert(place(s, row), row)),
{
    let at = place(s, row);
    lemma_place(s, row);
    assert forall|j: int| #![trigger s[j]] 0 <= j < at implies !row.before(&s[j]) by {
        let last = s[at - 1];
        if j < at - 1 {
            assert(!last.before(&s[j]));
            T::lemma_order(&row, &last, &s[j]);
        }
    }
    assert forall|j: int| at <= j < s.len() implies !(#[trigger] s[j]).before(&row) by {
        T::lemma_order(&row, &s[j], &row);
    }
    let t = s.insert(at, row);
    assert forall|i: int, j: int| #![trigger t[i], t[j]] 0 <= i < j < t.len() implies !t[j].before(
        &t[i],
    ) by {
        let bi = if i < at {
            i
        } else {
            i - 1
        };
        let bj = if j < at {
            j
        } else {
            j - 1
        };
        if i == at {
            assert(t[j] == s[bj]);
        } else if j == at {
            assert(t[i] == s[bi]);
        } else {
            assert(t[i] == s[bi]);
            assert(t[j] == s[bj]);
        }
    }
}

/// Sorting orders the rows, and neither loses nor repeats one.
pub proof fn law_sorting_is_a_sorted_rearrangement<T: Ranked>(s: Seq<T>)
    ensures
        sorted_by_rank(stable_sort(s)),
        stable_sort(s).len() == s.len(),
        stable_sort(s).to_multiset() == s.to_multiset(),
    decreases s.len(),
{
    if s.len() > 0 {
        let rest = stable_sort(s.drop_last());
        law_sorting_is_a_sorted_rearrangement(s.drop_last());
        lemma_insert_keeps_sorted(rest, s.last());
        vstd::seq_lib::to_multiset_insert(rest, place(rest, s.last()), s.last());
        vstd::seq_lib::to_multiset_build(s.drop_last(), s.last());
        assert(s.drop_last().push(s.last()) =~= s);
    } else {
        assert(s =~= Seq::<T>::empty());
    }
}

/// Rows that are sorted stay as they are.
pub proof fn law_sorting_keeps_sorted_rows<T: Ranked>(s: Seq<T>)
    requires
        sorted_by_rank(s),
    ensures
        stable_sort(s) == s,
    decreases s.len(),
{
    if s.len() > 0 {
        let rest = s.drop_last();
        assert forall|i: int, j: int|
            #![trigger rest[i], rest[j]]
            0 <= i < j < rest.len() implies !rest[j].before(&rest[i]) by {
            assert(rest[i] == s[i] && rest[j] == s[j]);
        }
        law_sorting_keeps_sorted_rows(rest);
        if rest.len() > 0 {
            assert(rest.last() == s[s.len() - 2]);
            assert(s.last() == s[s.len() - 1]);
        }
        assert(rest.insert(rest.len() as int, s.last()) =~= s);
    }
}

/// Puts a row in its place.
pub fn insert_sorted<T: Ranked>(v: &mut Vec<T>, row: T)
    requires
        sorted_by_rank(old(v)@),
    ensures
        sorted_by_rank(final(v)@),
        0 <= place(old(v)@, row) <= old(v)@.len(),
        final(v)@ == old(v)@.insert(place(old(v)@, row), row),
{
    let ghost before = v@;
    let mut at: usize = v.len();
    assert(before.take(at as int) =~= before);
    while at > 0 && row.precedes(&v[at - 1])
        invariant
            at <= v@.len(),
            v@ == before,
            place(before, row) == place(before.take(at as int), row),
        decreases at,
    {
        assert(before.take(at as int).drop_last() =~= before.take(at - 1));
        at = at - 1;
    }
    assert(place(before, row) == at);
    proof {
        lemma_insert_keeps_sorted(before, row);
    }
    v.insert(at, row);
}

/// Sorts rows by rank; rows of one rank keep their order.
pub fn sort_by_rank<T: Ranked>(rows: Vec<T>) -> (r: Vec<T>)
    ensures
        r@ == stable_sort(rows@),
        sorted_by_rank(r@),
{
    let ghost whole = rows@;
    let mut rest = rows;
    let mut out: Vec<T> = Vec::new();
    let n: usize = rest.len();
    let mut i: usize = 0;
    assert(whole.skip(0) =~= whole);
    while i < n
        invariant
            i <= n,
            n == whole.len(),
            rest@ == whole.skip(i as int),
            sorted_by_rank(out@),
            out@ == stable_sort(whole.take(i as int)),
        decreases n - i,
    {
        let row = rest.remove(0);
        proof {
            assert(rest@ =~= whole.skip(i as int + 1));
            assert(whole.take(i as int + 1).drop_last() =~= whole.take(i as int));
            assert(whole.take(i as int + 1).last() == row);
        }
        insert_sorted(&mut out, row);
        i = i + 1;
    }
    assert(whole.take(n as int) =~= whole);
    out
}

impl Ranked for String {
    open spec fn before(&self, other: &Self) -> bool {
        text_before(self@, other@)
    }

    fn precedes(&self, other: &Self) -> (r: bool) {
        text_precedes(self.as_str(), other.as_str())
    }

    proof fn lemma_order(a: &Self, b: &Self, c: &Self) {
        lemma_text_rank(a@, b@, c@);
    }
}

/// Texts are ordered at their first difference: a text that ends there comes first, and
/// otherwise the one whose character is the lesser. `k` is how many characters they share.
pub proof fn law_texts_are_ordered_at_their_first_difference(a: &str, b: &str, k: int, r: bool)
    requires
        call_ensures(text_precedes, (a, b), r),
        0 <= k <= a@.len(),
        k <= b@.len(),
        a@.take(k) == b@.take(k),
    ensures
        k == b@.len() ==> !r,
        k == a@.len() && k < b@.len() ==> r,
        k < a@.len() && k < b@.len() && a@[k] != b@[k] ==> r == (a@[k] < b@[k]),
{
    lemma_text_before_at(a@, b@, k);
}

/// The order of texts at their first difference.
pub proof fn lemma_text_before_at(a: Seq<char>, b: Seq<char>, k: int)
    requires
        0 <= k <= a.len(),
        k <= b.len(),
        a.take(k) == b.take(k),
    ensures
        k == b.len() ==> !text_before(a, b),
        k == a.len() && k < b.len() ==> text_before(a, b),
        k < a.len() && k < b.len() && a[k] != b[k] ==> text_before(a, b) == (a[k] < b[k]),
    decreases k,
{
    if k > 0 {
        assert(a.take(k)[0] == a[0] && b.take(k)[0] == b[0]);
        assert(a[0] == b[0]);
        assert(a.skip(1).take(k - 1) =~= a.take(k).skip(1));
        assert(b.skip(1).take(k - 1) =~= b.take(k).skip(1));
        lemma_text_before_at(a.skip(1), b.skip(1), k - 1);
    }
}

/// Sorting neither loses nor repeats a row, puts no row ahead of one that comes before it,
/// and leaves rows that tie in the order in which they came: `tied` picks rows none of which
/// comes before another.
pub proof fn law_sorting_keeps_ties<T: Ranked>(rows: Vec<T>, r: Vec<T>, tied: spec_fn(T) -> bool)
    requires
        call_ensures(sort_by_rank::<T>, (rows,), r),
        forall|x: T, y: T| #[trigger] tied(x) && #[trigger] tied(y) ==> !x.before(&y),
    ensures
        r@.to_multiset() == rows@.to_multiset(),
        forall|i: int, j: int|
            #![trigger r@[i], r@[j]]
            0 <= i < j < r@.len() ==> !r@[j].before(&r@[i]),
        r@.filter(tied) == rows@.filter(tied),
{
    law_sorting_is_a_sorted_rearrangement(rows@);
    lemma_sort_is_stable(rows@, tied);
}

proof fn lemma_sort_is_stable<T: Ranked>(s: Seq<T>, tied: spec_fn(T) -> bool)
    requires
        forall|x: T, y: T| #[trigger] tied(x) && #[trigger] tied(y) ==> !x.before(&y),
    ensures
        stable_sort(s).filter(tied) == s.filter(tied),
    decreases s.len(),
{
    reveal(Seq::filter);
    if s.len() == 0 {
        assert(s =~= Seq::<T>::empty());
    } else {
        let front = s.drop_last();
        let x = s.last();
        let rest = stable_sort(front);
        lemma_sort_is_stable(front, tied);
        lemma_place(rest, x);
        let at = place(rest, x);
        let ahead = rest.take(at);
        let behind = rest.skip(at);
        assert(rest =~= ahead + behind);
        assert(rest.insert(at, x) =~= ahead.push(x) + behind);
        Seq::filter_distributes_over_add(ahead, behind, tied);
        Seq::filter_distributes_over_add(ahead.push(x), behind, tied);
        assert(ahead.push(x).drop_last() =~= ahead);
        if tied(x) {
            assert forall|j: int| 0 <= j < behind.len() implies !tied(#[trigger] behind[j]) by {
                assert(behind[j] == rest[at + j]);
                assert(x.before(&rest[at + j]));
            }
            lemma_none_kept(behind, tied);
            assert(ahead.filter(tied) + behind.filter(tied) =~= ahead.filter(tied));
            assert(ahead.push(x).filter(tied) + behind.filter(tied) =~= ahead.filter(tied).push(x));
        }
    }
}

proof fn lemma_none_kept<T>(s: Seq<T>, p: spec_fn(T) -> bool)
    requires
        forall|j: int| 0 <= j < s.len() ==> !p(#[trigger] s[j]),
    ensures
        s.filter(p) == Seq::<T>::empty(),
    decreases s.len(),
{
    reveal(Seq::filter);
    if s.len() > 0 {
        let front = s.drop_last();
        assert forall|j: int| 0 <= j < front.len() implies !p(#[trigger] front[j]) by {
            assert(front[j] == s[j]);
        }
        lemma_none_kept(front, p);
        assert(!p(s[s.len() - 1]));
    }
}

/// Where each row of sorted rows came from: every row comes from a place of its own, and
/// every place is come from.
pub proof fn lemma_sort_permutes<T: Ranked>(s: Seq<T>) -> (from: Seq<int>)
    ensures
        from.len() == s.len(),
        stable_sort(s).len() == s.len(),
        forall|k: int|
            0 <= k < s.len() ==> 0 <= #[trigger] from[k] < s.len() && stable_sort(s)[k]
                == s[from[k]],
        forall|j: int, k: int| 0 <= j < k < s.len() ==> from[j] != from[k],
        forall|i: int| 0 <= i < s.len() ==> #[trigger] from.contains(i),
        forall|j: int, k: int|
            #![trigger from[j], from[k]]
            0 <= j < k < s.len() && !stable_sort(s)[j].before(&stable_sort(s)[k]) ==> from[j]
                < from[k],
    decreases s.len(),
{
    if s.len() == 0 {
        Seq::empty()
    } else {
        let front = s.drop_last();
        let n = s.len() - 1;
        let rest = stable_sort(front);
        let before = lemma_sort_permutes(front);
        lemma_place(rest, s.last());
        let at = place(rest, s.last());
        let from = before.insert(at, n);
        let sorted = stable_sort(s);
        assert forall|k: int| 0 <= k < s.len() implies 0 <= #[trigger] from[k] < s.len()
            && sorted[k] == s[from[k]] by {
            if k < at {
                assert(from[k] == before[k]);
                assert(sorted[k] == rest[k]);
            } else if k > at {
                assert(from[k] == before[k - 1]);
                assert(sorted[k] == rest[k - 1]);
            }
        }
        assert forall|i: int| 0 <= i < s.len() implies #[trigger] from.contains(i) by {
            if i < n {
                assert(before.contains(i));
                let k = choose|k: int| 0 <= k < before.len() && before[k] == i;
                if k < at {
                    assert(from[k] == i);
                } else {
                    assert(from[k + 1] == i);
                }
            } else {
                assert(from[at] == i);
            }
        }
        assert forall|j: int, k: int| 0 <= j < k < s.len() implies from[j] != from[k] by {
            let x = if j < at {
                j
            } else {
                j - 1
            };
            let y = if k < at {
                k
            } else {
                k - 1
            };
            if j == at {
                assert(from[k] == before[y]);
            } else if k == at {
                assert(from[j] == before[x]);
            } else {
                assert(from[j] == before[x] && from[k] == before[y]);
            }
        }
        assert forall|j: int, k: int|
            #![trigger from[j], from[k]]
            0 <= j < k < s.len() && !sorted[j].before(&sorted[k]) implies from[j] < from[k] by {
            let x = if j < at {
                j
            } else {
                j - 1
            };
            let y = if k < at {
                k
            } else {
                k - 1
            };
            if j == at {
                assert(sorted[k] == rest[y]);
                assert(s.last().before(&rest[y]));
            } else if k == at {
                assert(from[j] == before[x]);
            } else {
                assert(from[j] == before[x] && from[k] == before[y]);
                assert(sorted[j] == rest[x] && sorted[k] == rest[y]);
            }
        }
        from
    }
}

/// Where each kept item of a sequence came from, in order.
pub proof fn lemma_filter_picks<A>(s: Seq<A>, p: spec_fn(A) -> bool) -> (at: Seq<int>)
    ensures
        at.len() == s.filter(p).len(),
        forall|k: int|
            0 <= k < at.len() ==> 0 <= #[trigger] at[k] < s.len() && p(s[at[k]]) && s.filter(p)[k]
                == s[at[k]],
        forall|j: int, k: int| 0 <= j < k < at.len() ==> at[j] < at[k],
        forall|i: int| 0 <= i < s.len() && p(#[trigger] s[i]) ==> at.contains(i),
    decreases s.len(),
{
    reveal(Seq::filter);
    if s.len() == 0 {
        Seq::empty()
    } else {
        let n = s.len() - 1;
        let front = s.drop_last();
        let at = lemma_filter_picks(front, p);
        let all = if p(s[n]) {
            at.push(n)
        } else {
            at
        };
        assert forall|i: int| 0 <= i < s.len() && p(#[trigger] s[i]) implies all.contains(i) by {
            if i < n {
                assert(front[i] == s[i]);
                let k = choose|k: int| 0 <= k < at.len() && at[k] == i;
                assert(all[k] == i);
            } else {
                assert(all[at.len() as int] == n);
            }
        }
        all
    }
}

/// Where each row of sorted, kept items came from.
pub proof fn lemma_sorted_picks<A, T: Ranked>(
    s: Seq<A>,
    p: spec_fn(A) -> bool,
    rows: Seq<T>,
) -> (at: Seq<int>)
    requires
        rows.len() == s.filter(p).len(),
    ensures
        at.len() == rows.len(),
        stable_sort(rows).len() == rows.len(),
        forall|k: int|
            0 <= k < at.len() ==> 0 <= #[trigger] at[k] < s.len() && p(s[at[k]]) && exists|j: int|
                0 <= j < rows.len() && #[trigger] rows[j] == stable_sort(rows)[k] && s.filter(p)[j]
                    == s[at[k]],
        forall|j: int, k: int| 0 <= j < k < at.len() ==> at[j] != at[k],
        forall|i: int| 0 <= i < s.len() && p(#[trigger] s[i]) ==> at.contains(i),
{
    let from = lemma_sort_permutes(rows);
    let picks = lemma_filter_picks(s, p);
    let at = Seq::new(rows.len(), |k: int| picks[from[k]]);
    assert forall|k: int| 0 <= k < at.len() implies 0 <= #[trigger] at[k] < s.len() && p(s[at[k]])
        && exists|j: int|
        0 <= j < rows.len() && #[trigger] rows[j] == stable_sort(rows)[k] && s.filter(p)[j]
            == s[at[k]] by {
        let j = from[k];
        assert(at[k] == picks[j]);
        assert(rows[j] == stable_sort(rows)[k]);
    }
    assert forall|j: int, k: int| 0 <= j < k < at.len() implies at[j] != at[k] by {
        let a = from[j];
        let b = from[k];
        assert(a != b);
        if a < b {
            assert(picks[a] < picks[b]);
        } else {
            assert(picks[b] < picks[a]);
        }
    }
    assert forall|i: int| 0 <= i < s.len() && p(#[trigger] s[i]) implies at.contains(i) by {
        assert(picks.contains(i));
        let j = choose|j: int| 0 <= j < picks.len() && picks[j] == i;
        assert(from.contains(j));
        let k = choose|k: int| 0 <= k < from.len() && from[k] == j;
        assert(at[k] == i);
    }
    at
}

} // verus!
