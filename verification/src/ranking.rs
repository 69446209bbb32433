//! The order in which listings are shown, and sorting by it.

use vstd::prelude::*;
use crate::text::chars_of;

verus! {

/// Whether `a` comes strictly before `b` in the order of code points, which
/// is also the order of the strings' UTF-8 bytes.
pub open spec fn text_less(a: Seq<char>, b: Seq<char>) -> bool
    decreases a.len(),
{
    if b.len() == 0 {
        false
    } else if a.len() == 0 {
        true
    } else if a[0] != b[0] {
        a[0] < b[0]
    } else {
        text_less(a.drop_first(), b.drop_first())
    }
}

/// What a row is sorted by: a number, then two texts.
pub type Rank = (int, Seq<char>, Seq<char>);

/// Whether rank `a` comes strictly before rank `b`.
pub open spec fn rank_less(a: Rank, b: Rank) -> bool {
    ||| a.0 < b.0
    ||| a.0 == b.0 && text_less(a.1, b.1)
    ||| a.0 == b.0 && a.1 == b.1 && text_less(a.2, b.2)
}

/// Exactly one of `a < b`, `a == b`, `b < a` holds.
pub proof fn lemma_text_trichotomy(a: Seq<char>, b: Seq<char>)
    ensures
        a == b ==> !text_less(a, b) && !text_less(b, a),
        a != b ==> text_less(a, b) != text_less(b, a),
    decreases a.len(),
{
    if a.len() == 0 || b.len() == 0 {
        if a.len() == 0 && b.len() == 0 {
            assert(a == b);
        }
    } else if a[0] == b[0] {
        lemma_text_trichotomy(a.drop_first(), b.drop_first());
        if a.drop_first() == b.drop_first() {
            assert(a == seq![a[0]] + a.drop_first());
            assert(b == seq![b[0]] + b.drop_first());
        }
    }
}

/// The order of texts is transitive.
pub proof fn lemma_text_transitive(a: Seq<char>, b: Seq<char>, c: Seq<char>)
    requires
        text_less(a, b),
        text_less(b, c),
    ensures
        text_less(a, c),
    decreases a.len(),
{
    if a.len() > 0 && a[0] == b[0] && b[0] == c[0] {
        lemma_text_transitive(a.drop_first(), b.drop_first(), c.drop_first());
    }
}

/// Exactly one of `a < b`, `a == b`, `b < a` holds.
pub proof fn lemma_rank_trichotomy(a: Rank, b: Rank)
    ensures
        a == b ==> !rank_less(a, b) && !rank_less(b, a),
        a != b ==> rank_less(a, b) != rank_less(b, a),
{
    lemma_text_trichotomy(a.1, b.1);
    lemma_text_trichotomy(a.2, b.2);
}

/// The order of ranks is transitive.
pub proof fn lemma_rank_transitive(a: Rank, b: Rank, c: Rank)
    requires
        rank_less(a, b),
        rank_less(b, c),
    ensures
        rank_less(a, c),
{
    lemma_text_trichotomy(a.1, b.1);
    lemma_text_trichotomy(b.1, c.1);
    if a.0 == b.0 && b.0 == c.0 {
        if text_less(a.1, b.1) && text_less(b.1, c.1) {
            lemma_text_transitive(a.1, b.1, c.1);
        }
        if a.1 == b.1 && b.1 == c.1 {
            lemma_text_transitive(a.2, b.2, c.2);
        }
    }
}

/// Whether `a` comes strictly before `b` in the order of code points.
pub fn text_before(a: &str, b: &str) -> (res: bool)
    ensures
        res == text_less(a@, b@),
{
    let x = chars_of(a);
    let y = chars_of(b);
    let mut i: usize = 0;
    assert(a@.skip(0) == a@);
    assert(b@.skip(0) == b@);
    while i < x.len() && i < y.len() && x[i] == y[i]
        invariant
            i <= x.len(),
            i <= y.len(),
            x@ == a@,
            y@ == b@,
            text_less(a@, b@) == text_less(a@.skip(i as int), b@.skip(i as int)),
        decreases x.len() - i,
    {
        proof {
            assert(a@.skip(i as int).drop_first() == a@.skip(i + 1));
            assert(b@.skip(i as int).drop_first() == b@.skip(i + 1));
        }
        i += 1;
    }
    if i >= y.len() {
        false
    } else if i >= x.len() {
        true
    } else {
        x[i] < y[i]
    }
}

/// A row of a listing, which has a rank.
pub trait Ranked: View + Sized {
    /// What a row is sorted by.
    spec fn rank(row: Self::V) -> Rank;

    /// What this row is sorted by.
    fn key(&self) -> (key: (i128, &str, &str))
        ensures
            (key.0 as int, key.1@, key.2@) == Self::rank(self@),
    ;
}

/// The views of a sequence of rows.
pub open spec fn views<R: View>(rows: Seq<R>) -> Seq<R::V> {
    rows.map_values(|r: R| r@)
}

/// No row comes after a row that it ranks before.
pub open spec fn ranked<R: Ranked>(rows: Seq<R::V>) -> bool {
    forall|i: int, j: int|
        0 <= i < j < rows.len() ==> !rank_less(
            R::rank(#[trigger] rows[j]),
            R::rank(#[trigger] rows[i]),
        )
}

/// `out` holds the rows of `rows`, each as often, in the order of their ranks.
pub open spec fn sorted_rows<R: Ranked>(rows: Seq<R::V>, out: Seq<R::V>) -> bool {
    &&& out.to_multiset() == rows.to_multiset()
    &&& ranked::<R>(out)
}

/// Whether row `a` ranks strictly before row `b`.
fn ranks_before<R: Ranked>(a: &R, b: &R) -> (res: bool)
    ensures
        res == rank_less(R::rank(a@), R::rank(b@)),
{
    let x = a.key();
    let y = b.key();
    if x.0 != y.0 {
        x.0 < y.0
    } else if text_before(x.1, y.1) {
        true
    } else if text_before(y.1, x.1) {
        proof {
            lemma_text_trichotomy(x.1@, y.1@);
        }
        false
    } else {
        proof {
            lemma_text_trichotomy(x.1@, y.1@);
        }
        text_before(x.2, y.2)
    }
}

/// The rows in the order of their ranks.
pub fn sort_rows<R: Ranked>(rows: Vec<R>) -> (out: Vec<R>)
    ensures
        sorted_rows::<R>(views(rows@), views(out@)),
{
    let mut rest = rows;
    let mut out: Vec<R> = Vec::new();
    proof {
        assert(views(out@) == Seq::<R::V>::empty());
        assert(views(rest@) == views(rows@));
        broadcast use vstd::seq_lib::group_to_multiset_ensures;

        assert(views(rows@).to_multiset() =~= views(rest@).to_multiset().add(
            views(out@).to_multiset(),
        ));
    }
    loop
        invariant
            ranked::<R>(views(out@)),
            views(rows@).to_multiset() == views(rest@).to_multiset().add(views(out@).to_multiset()),
        ensures
            ranked::<R>(views(out@)),
            views(rows@).to_multiset() == views(out@).to_multiset(),
        decreases rest.len(),
    {
        let ghost before = rest@;
        let next = rest.pop();
        let Some(row) = next else {
            proof {
                broadcast use vstd::seq_lib::group_to_multiset_ensures;

                assert(views(before) == Seq::<R::V>::empty());
                assert(views(before).to_multiset().len() == 0);
                assert(views(rows@).to_multiset() =~= views(out@).to_multiset());
            }
            break;
        };
        let mut at: usize = 0;
        while at < out.len() && ranks_before(&out[at], &row)
            invariant
                at <= out.len(),
                forall|i: int| 0 <= i < at ==> rank_less(R::rank((#[trigger] out@[i])@), R::rank(row@)),
            decreases out.len() - at,
        {
            at += 1;
        }
        let ghost sorted = out@;
        out.insert(at, row);
        proof {
            assert(before == rest@.push(row));
            assert(views(before) == views(rest@).push(row@));
            assert(views(out@) == views(sorted).insert(at as int, row@));
            vstd::seq_lib::to_multiset_build(views(rest@), row@);
            vstd::seq_lib::to_multiset_insert(views(sorted), at as int, row@);
            assert(views(rows@).to_multiset() =~= views(rest@).to_multiset().add(
                views(out@).to_multiset(),
            ));
            lemma_insert_ranked::<R>(views(sorted), at as int, row@);
        }
    }
    out
}

proof fn lemma_insert_ranked<R: Ranked>(rows: Seq<R::V>, at: int, row: R::V)
    requires
        ranked::<R>(rows),
        0 <= at <= rows.len(),
        forall|i: int| 0 <= i < at ==> rank_less(R::rank(#[trigger] rows[i]), R::rank(row)),
        at < rows.len() ==> !rank_less(R::rank(rows[at]), R::rank(row)),
    ensures
        ranked::<R>(rows.insert(at, row)),
{
    let out = rows.insert(at, row);
    assert forall|i: int, j: int| 0 <= i < j < out.len() implies !rank_less(
        R::rank(#[trigger] out[j]),
        R::rank(#[trigger] out[i]),
    ) by {
        if j == at {
            lemma_rank_trichotomy(R::rank(rows[i]), R::rank(row));
        } else if i == at {
            let later = rows[j - 1];
            lemma_rank_trichotomy(R::rank(later), R::rank(row));
            lemma_rank_trichotomy(R::rank(rows[at]), R::rank(row));
            if rank_less(R::rank(later), R::rank(row)) && j - 1 != at {
                lemma_rank_trichotomy(R::rank(rows[at]), R::rank(later));
                if R::rank(rows[at]) != R::rank(row) {
                    lemma_rank_transitive(R::rank(later), R::rank(row), R::rank(rows[at]));
                }
            }
        } else {
            let x = if i < at { i } else { i - 1 };
            let y = if j < at { j } else { j - 1 };
            assert(out[i] == rows[x] && out[j] == rows[y]);
        }
    }
}

/// Two sorted listings of the same rows are the same listing, where rows of
/// equal rank are equal.
pub proof fn lemma_sorted_unique<R: Ranked>(rows: Seq<R::V>, a: Seq<R::V>, b: Seq<R::V>)
    requires
        sorted_rows::<R>(rows, a),
        sorted_rows::<R>(rows, b),
        forall|x: R::V, y: R::V|
            rows.contains(x) && rows.contains(y) && #[trigger] R::rank(x) == #[trigger] R::rank(y)
                ==> x == y,
    ensures
        a == b,
    decreases rows.len(),
{
    broadcast use vstd::seq_lib::group_to_multiset_ensures;

    assert(a.len() == a.to_multiset().len());
    assert(b.len() == b.to_multiset().len());
    assert(rows.len() == rows.to_multiset().len());
    if rows.len() == 0 {
        assert(a == b);
    } else {
        let x = a[0];
        let y = b[0];
        assert(a.to_multiset().count(x) > 0);
        assert(b.to_multiset().count(y) > 0);
        assert(rows.contains(x) && rows.contains(y));
        assert(b.contains(x) && a.contains(y));
        let i = choose|i: int| 0 <= i < b.len() && b[i] == x;
        let j = choose|j: int| 0 <= j < a.len() && a[j] == y;
        lemma_rank_trichotomy(R::rank(x), R::rank(y));
        assert(!rank_less(R::rank(b[i]), R::rank(b[0])) || i == 0);
        assert(!rank_less(R::rank(a[j]), R::rank(a[0])) || j == 0);
        assert(x == y);
        let k = choose|k: int| 0 <= k < rows.len() && rows[k] == x;
        let fewer = rows.remove(k);
        vstd::seq_lib::to_multiset_remove(rows, k);
        vstd::seq_lib::to_multiset_remove(a, 0);
        vstd::seq_lib::to_multiset_remove(b, 0);
        assert(a.remove(0) == a.drop_first());
        assert(b.remove(0) == b.drop_first());
        assert forall|u: R::V, v: R::V|
            fewer.contains(u) && fewer.contains(v) && #[trigger] R::rank(u) == #[trigger] R::rank(
                v,
            ) implies u == v by {
            assert(fewer.to_multiset().count(u) > 0 && fewer.to_multiset().count(v) > 0);
            assert(rows.to_multiset().count(u) > 0 && rows.to_multiset().count(v) > 0);
        }
        lemma_sorted_unique::<R>(fewer, a.drop_first(), b.drop_first());
        assert(a == seq![x] + a.drop_first());
        assert(b == seq![y] + b.drop_first());
    }
}

} // verus!
