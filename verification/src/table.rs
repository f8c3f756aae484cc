//! Tables: sequences of rows that are searched, counted and thinned by a
//! condition on their plain values.

use vstd::prelude::*;

verus! {

/// The plain values of a sequence of rows.
pub open spec fn views<T: View>(rows: Seq<T>) -> Seq<T::V> {
    rows.map_values(|row: T| row@)
}

/// A condition on the rows of a table that can be decided on a row.
pub trait Selector<T: View> {
    /// The condition, on plain values.
    spec fn admits(&self) -> spec_fn(T::V) -> bool;

    /// Decides the condition on a row.
    fn picks(&self, row: &T) -> (picked: bool)
        ensures
            picked == (self.admits())(row@),
    ;
}

/// A row type whose rows are told apart by an identity.
pub trait Keyed: View + Sized {
    /// What an identity is made of.
    type Key;

    /// The identity of a row, on plain values.
    spec fn identity() -> spec_fn(Self::V) -> Self::Key;

    /// Decides whether two rows have the same identity.
    fn same_identity(&self, other: &Self) -> (same: bool)
        ensures
            same == ((Self::identity())(self@) == (Self::identity())(other@)),
    ;
}

/// The condition that holds of every row.
pub open spec fn any_row<V>() -> spec_fn(V) -> bool {
    |row: V| true
}

/// The selector that picks every row.
pub struct Everything;

impl<T: View> Selector<T> for Everything {
    open spec fn admits(&self) -> spec_fn(T::V) -> bool {
        any_row::<T::V>()
    }

    fn picks(&self, row: &T) -> (picked: bool) {
        true
    }
}

/// The opposite of the condition `hit`.
pub open spec fn not_hit<V>(hit: spec_fn(V) -> bool) -> spec_fn(V) -> bool {
    |row: V| !hit(row)
}

/// The rows of `rows` on which `hit` fails, in their order.
pub open spec fn without<V>(rows: Seq<V>, hit: spec_fn(V) -> bool) -> Seq<V> {
    rows.filter(not_hit(hit))
}

/// The place of the first row on which `hit` holds.
pub open spec fn first_index<V>(rows: Seq<V>, hit: spec_fn(V) -> bool) -> Option<int>
    decreases rows.len(),
{
    if rows.len() == 0 {
        None
    } else if hit(rows[0]) {
        Some(0)
    } else {
        match first_index(rows.drop_first(), hit) {
            Some(at) => Some(at + 1),
            None => None,
        }
    }
}

/// No two rows of `rows` have the same `key`.
pub open spec fn distinct_by<V, K>(rows: Seq<V>, key: spec_fn(V) -> K) -> bool {
    forall|i: int, j: int|
        0 <= i < j < rows.len() ==> key(#[trigger] rows[i]) != key(#[trigger] rows[j])
}

/// `first_index` finds a row on which `hit` holds and none before it, or
/// there is no such row.
pub proof fn lemma_first_index<V>(rows: Seq<V>, hit: spec_fn(V) -> bool)
    ensures
        match first_index(rows, hit) {
            Some(at) => 0 <= at < rows.len() && hit(rows[at]) && forall|j: int|
                0 <= j < at ==> !hit(#[trigger] rows[j]),
            None => forall|j: int| 0 <= j < rows.len() ==> !hit(#[trigger] rows[j]),
        },
    decreases rows.len(),
{
    if rows.len() > 0 && !hit(rows[0]) {
        let rest = rows.drop_first();
        lemma_first_index(rest, hit);
        match first_index(rest, hit) {
            Some(at) => {
                assert forall|j: int| 0 <= j < at + 1 implies !hit(#[trigger] rows[j]) by {
                    if j > 0 {
                        assert(rows[j] == rest[j - 1]);
                    }
                }
            },
            None => {
                assert forall|j: int| 0 <= j < rows.len() implies !hit(#[trigger] rows[j]) by {
                    if j > 0 {
                        assert(rows[j] == rest[j - 1]);
                    }
                }
            },
        }
    }
}

/// The first row on which `hit` holds is where `first_index` points.
pub proof fn lemma_first_index_at<V>(rows: Seq<V>, hit: spec_fn(V) -> bool, at: int)
    requires
        0 <= at < rows.len(),
        hit(rows[at]),
        forall|j: int| 0 <= j < at ==> !hit(#[trigger] rows[j]),
    ensures
        first_index(rows, hit) == Some(at),
{
    lemma_first_index(rows, hit);
}

/// Where `hit` holds of no row, `first_index` finds nothing.
pub proof fn lemma_first_index_none<V>(rows: Seq<V>, hit: spec_fn(V) -> bool)
    requires
        forall|j: int| 0 <= j < rows.len() ==> !hit(#[trigger] rows[j]),
    ensures
        first_index(rows, hit).is_none(),
{
    lemma_first_index(rows, hit);
}

/// Every row passes the filter of the condition that holds of every row.
pub proof fn lemma_filter_any_row<V>(rows: Seq<V>)
    ensures
        rows.filter(any_row::<V>()) == rows,
    decreases rows.len(),
{
    reveal(Seq::filter);
    if rows.len() > 0 {
        lemma_filter_any_row(rows.drop_last());
        assert(rows.drop_last().push(rows.last()) =~= rows);
    }
}

/// Rows that are distinct by a key stay so when some of them are filtered
/// out.
pub proof fn lemma_filter_distinct<V, K>(
    rows: Seq<V>,
    keep: spec_fn(V) -> bool,
    key: spec_fn(V) -> K,
)
    requires
        distinct_by(rows, key),
    ensures
        distinct_by(rows.filter(keep), key),
    decreases rows.len(),
{
    reveal(Seq::filter);
    if rows.len() > 0 {
        let head = rows.drop_last();
        assert(distinct_by(head, key)) by {
            assert forall|i: int, j: int| 0 <= i < j < head.len() implies key(#[trigger] head[i])
                != key(#[trigger] head[j]) by {
                assert(head[i] == rows[i] && head[j] == rows[j]);
            }
        }
        lemma_filter_distinct(head, keep, key);
        let kept = head.filter(keep);
        if keep(rows.last()) {
            let all = kept.push(rows.last());
            assert forall|i: int, j: int| 0 <= i < j < all.len() implies key(#[trigger] all[i])
                != key(#[trigger] all[j]) by {
                if j == kept.len() {
                    assert(kept.contains(kept[i]));
                    head.lemma_filter_contains_rev(keep, kept[i]);
                    let m = choose|m: int| 0 <= m < head.len() && head[m] == kept[i];
                    assert(rows[m] == kept[i]);
                    assert(key(rows[m]) != key(rows[rows.len() - 1]));
                } else {
                    assert(all[i] == kept[i] && all[j] == kept[j]);
                }
            }
        }
    }
}

/// Rows that are distinct by a key stay so when those on which `hit` holds
/// are dropped.
pub proof fn lemma_without_distinct<V, K>(
    rows: Seq<V>,
    hit: spec_fn(V) -> bool,
    key: spec_fn(V) -> K,
)
    requires
        distinct_by(rows, key),
    ensures
        distinct_by(without(rows, hit), key),
{
    lemma_filter_distinct(rows, not_hit(hit), key);
}

/// After the rows on which `hit` holds are dropped, `hit` holds of none.
pub proof fn lemma_without_misses<V>(rows: Seq<V>, hit: spec_fn(V) -> bool)
    ensures
        forall|i: int| 0 <= i < without(rows, hit).len() ==> !hit(#[trigger] without(rows, hit)[i]),
{
    assert forall|i: int| 0 <= i < without(rows, hit).len() implies !hit(
        #[trigger] without(rows, hit)[i],
    ) by {
        rows.lemma_filter_pred(not_hit(hit), i);
    }
}

/// Finds the first row that `selector` picks.
pub fn position<T: View, S: Selector<T>>(rows: &Vec<T>, selector: &S) -> (found: Option<usize>)
    ensures
        match found {
            Some(at) => at < rows.len() && first_index(views(rows@), selector.admits()) == Some(
                at as int,
            ),
            None => first_index(views(rows@), selector.admits()).is_none(),
        },
{
    let mut i: usize = 0;
    while i < rows.len()
        invariant
            i <= rows.len(),
            forall|j: int| 0 <= j < i ==> !(selector.admits())(#[trigger] views(rows@)[j]),
        decreases rows.len() - i,
    {
        if selector.picks(&rows[i]) {
            proof {
                lemma_first_index_at(views(rows@), selector.admits(), i as int);
            }
            return Some(i);
        }
        i = i + 1;
    }
    proof {
        lemma_first_index_none(views(rows@), selector.admits());
    }
    None
}

/// Decides whether no two rows have the same identity.
pub fn all_distinct<T: Keyed>(rows: &Vec<T>) -> (distinct: bool)
    ensures
        distinct == distinct_by(views(rows@), T::identity()),
{
    let ghost plain = views(rows@);
    let mut j: usize = 0;
    while j < rows.len()
        invariant
            j <= rows.len(),
            plain == views(rows@),
            forall|a: int, b: int|
                0 <= a < b < j ==> (T::identity())(#[trigger] plain[a]) != (T::identity())(
                    #[trigger] plain[b],
                ),
        decreases rows.len() - j,
    {
        let mut i: usize = 0;
        while i < j
            invariant
                i <= j,
                j < rows.len(),
                plain == views(rows@),
                forall|a: int|
                    0 <= a < i ==> (T::identity())(#[trigger] plain[a]) != (T::identity())(
                        plain[j as int],
                    ),
            decreases j - i,
        {
            if rows[i].same_identity(&rows[j]) {
                proof {
                    assert((T::identity())(plain[i as int]) == (T::identity())(plain[j as int]));
                }
                return false;
            }
            i = i + 1;
        }
        j = j + 1;
    }
    true
}

/// Counts the rows that `selector` picks.
pub fn count_where<T: View, S: Selector<T>>(rows: &Vec<T>, selector: &S) -> (count: usize)
    ensures
        count == views(rows@).filter(selector.admits()).len(),
{
    let mut count: usize = 0;
    let mut i: usize = 0;
    proof {
        assert(views(rows@).take(0) =~= Seq::<T::V>::empty());
        assert(views(rows@).take(0).filter(selector.admits()).len() == 0) by {
            reveal(Seq::filter);
        }
    }
    while i < rows.len()
        invariant
            i <= rows.len(),
            count <= i,
            count == views(rows@).take(i as int).filter(selector.admits()).len(),
        decreases rows.len() - i,
    {
        proof {
            let head = views(rows@).take(i as int);
            assert(views(rows@).take(i + 1) =~= head.push(rows@[i as int]@));
            head.lemma_filter_push(rows@[i as int]@, selector.admits());
        }
        if selector.picks(&rows[i]) {
            count = count + 1;
        }
        i = i + 1;
    }
    proof {
        assert(views(rows@).take(rows.len() as int) =~= views(rows@));
    }
    count
}

/// Drops every row that `selector` picks and keeps the others in their
/// order.
pub fn remove_where<T: View, S: Selector<T>>(rows: &mut Vec<T>, selector: &S)
    ensures
        views(final(rows)@) == without(views(old(rows)@), selector.admits()),
{
    let ghost before = views(rows@);
    let ghost keep = not_hit(selector.admits());
    let ghost done: int = 0;
    let mut i: usize = 0;
    proof {
        assert(before.take(0) =~= Seq::<T::V>::empty());
        assert(before.take(0).filter(keep) =~= Seq::<T::V>::empty()) by {
            reveal(Seq::filter);
        }
        assert(views(rows@).take(0) =~= Seq::<T::V>::empty());
        assert(views(rows@).skip(0) =~= before.skip(0));
    }
    while i < rows.len()
        invariant
            i <= rows.len(),
            0 <= done <= before.len(),
            keep == not_hit(selector.admits()),
            views(rows@).take(i as int) == before.take(done).filter(keep),
            views(rows@).skip(i as int) == before.skip(done),
        decreases rows.len() - i,
    {
        let ghost now = views(rows@);
        proof {
            assert(now.skip(i as int).len() == now.len() - i);
            assert(before.skip(done).len() == before.len() - done);
            assert(now[i as int] == now.skip(i as int)[0]);
            assert(before[done] == before.skip(done)[0]);
            assert(before.take(done + 1) =~= before.take(done).push(before[done]));
            before.take(done).lemma_filter_push(before[done], keep);
        }
        if selector.picks(&rows[i]) {
            let _ = rows.remove(i);
            proof {
                assert(views(rows@) =~= now.remove(i as int));
                assert(views(rows@).take(i as int) =~= now.take(i as int));
                assert(views(rows@).skip(i as int) =~= now.skip(i as int).skip(1));
                assert(before.skip(done + 1) =~= before.skip(done).skip(1));
            }
        } else {
            proof {
                assert(now.take(i + 1) =~= now.take(i as int).push(now[i as int]));
                assert(now.skip(i + 1) =~= now.skip(i as int).skip(1));
                assert(before.skip(done + 1) =~= before.skip(done).skip(1));
            }
            i = i + 1;
        }
        proof {
            done = done + 1;
        }
    }
    proof {
        assert(views(rows@).take(rows.len() as int) =~= views(rows@));
        assert(before.skip(done).len() == 0);
        assert(before.take(done) =~= before);
    }
}

} // verus!
