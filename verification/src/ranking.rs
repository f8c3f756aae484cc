//! Ranked listings: arranging the rows of a table in the order in which a
//! query reports them.

use crate::table::{lemma_filter_any_row, views, Everything, Selector};
use vstd::prelude::*;

verus! {

/// A row type whose listings have a fixed order.
///
/// `outranks` is a strict order on plain values: the two lemmas are what an
/// implementation owes for listings to be well defined.
pub trait Ranked: View + Sized {
    /// Whether a row with plain value `a` must be listed before one with plain
    /// value `b`.
    spec fn outranks(a: Self::V, b: Self::V) -> bool;

    /// Of two rows at most one outranks the other.
    proof fn lemma_outranks_asymmetric(a: Self::V, b: Self::V)
        requires
            Self::outranks(a, b),
        ensures
            !Self::outranks(b, a),
    ;

    /// A row outranks whatever is outranked by a row that it outranks.
    proof fn lemma_outranks_transitive(a: Self::V, b: Self::V, c: Self::V)
        requires
            Self::outranks(a, b),
            Self::outranks(b, c),
        ensures
            Self::outranks(a, c),
    ;

    /// Decides `outranks` on two rows.
    fn ranks_before(&self, other: &Self) -> (before: bool)
        ensures
            before == Self::outranks(self@, other@),
    ;

    /// A second row with the same plain value.
    fn duplicate(&self) -> (copy: Self)
        ensures
            copy@ == self@,
    ;
}

/// No row of `listing` stands behind a row that it outranks.
pub open spec fn in_rank_order<T: Ranked>(listing: Seq<T::V>) -> bool {
    forall|i: int, j: int|
        0 <= i < j < listing.len() ==> !T::outranks(#[trigger] listing[j], #[trigger] listing[i])
}

/// `listing` holds the rows of `rows`, each as often as `rows` holds it, in
/// rank order.
pub open spec fn is_ranking<T: Ranked>(listing: Seq<T::V>, rows: Seq<T::V>) -> bool {
    &&& listing.to_multiset() == rows.to_multiset()
    &&& in_rank_order::<T>(listing)
}

/// `listing` is the head of a ranking of `rows`, cut after `limit` rows.
pub open spec fn is_top_ranking<T: Ranked>(listing: Seq<T::V>, rows: Seq<T::V>, limit: nat) -> bool {
    exists|full: Seq<T::V>|
        #![trigger is_ranking::<T>(full, rows)]
        is_ranking::<T>(full, rows) && listing == full.take(
            if limit <= full.len() {
                limit as int
            } else {
                full.len() as int
            },
        )
}

/// `listing` is the tail of a ranking of `rows`: its last `limit` rows.
pub open spec fn is_bottom_ranking<T: Ranked>(listing: Seq<T::V>, rows: Seq<T::V>, limit: nat)
    -> bool {
    exists|full: Seq<T::V>|
        #![trigger is_ranking::<T>(full, rows)]
        is_ranking::<T>(full, rows) && listing == full.skip(
            if limit <= full.len() {
                full.len() - limit
            } else {
                0
            },
        )
}

/// Puts `row` into a listing that is in rank order, behind the rows that it
/// does not outrank.
pub fn insert_ranked<T: Ranked>(listing: &mut Vec<T>, row: T)
    requires
        in_rank_order::<T>(views(old(listing)@)),
    ensures
        in_rank_order::<T>(views(final(listing)@)),
        views(final(listing)@).to_multiset() == views(old(listing)@).to_multiset().insert(row@),
{
    let mut at: usize = 0;
    while at < listing.len() && !row.ranks_before(&listing[at])
        invariant
            at <= listing.len(),
            forall|k: int| 0 <= k < at ==> !T::outranks(row@, #[trigger] listing@[k]@),
        decreases listing.len() - at,
    {
        at = at + 1;
    }
    let ghost before = views(listing@);
    let ghost value = row@;
    listing.insert(at, row);
    proof {
        let after = views(listing@);
        assert(after =~= before.insert(at as int, value));
        vstd::seq_lib::to_multiset_insert(before, at as int, value);
        assert forall|i: int, j: int| 0 <= i < j < after.len() implies !T::outranks(
            #[trigger] after[j],
            #[trigger] after[i],
        ) by {
            if j == at {
                assert(after[i] == before[i]);
            } else if i == at {
                assert(after[j] == before[j - 1]);
                if T::outranks(after[j], value) {
                    if j - 1 == at {
                        T::lemma_outranks_asymmetric(after[j], value);
                    } else {
                        T::lemma_outranks_transitive(after[j], value, before[at as int]);
                        assert(!T::outranks(before[j - 1], before[at as int]));
                    }
                }
            } else {
                let bi = if i < at { i } else { i - 1 };
                let bj = if j < at { j } else { j - 1 };
                assert(after[i] == before[bi]);
                assert(after[j] == before[bj]);
                assert(!T::outranks(before[bj], before[bi]));
            }
        }
    }
}

/// Lists the rows that `selector` picks, in rank order.
pub fn select_ranked<T: Ranked, S: Selector<T>>(rows: &Vec<T>, selector: &S) -> (listing: Vec<T>)
    ensures
        is_ranking::<T>(views(listing@), views(rows@).filter(selector.admits())),
{
    let mut listing: Vec<T> = Vec::new();
    let mut i: usize = 0;
    proof {
        assert(views(rows@).take(0) =~= Seq::<T::V>::empty());
        assert(views(rows@).take(0).filter(selector.admits()) =~= Seq::<T::V>::empty()) by {
            reveal(Seq::filter);
        }
        assert(views(listing@) =~= Seq::<T::V>::empty());
    }
    while i < rows.len()
        invariant
            i <= rows.len(),
            in_rank_order::<T>(views(listing@)),
            views(listing@).to_multiset() == views(rows@).take(i as int).filter(
                selector.admits(),
            ).to_multiset(),
        decreases rows.len() - i,
    {
        let ghost head = views(rows@).take(i as int);
        proof {
            assert(views(rows@).take(i + 1) =~= head.push(rows@[i as int]@));
            head.lemma_filter_push(rows@[i as int]@, selector.admits());
        }
        if selector.picks(&rows[i]) {
            let copy = rows[i].duplicate();
            proof {
                vstd::seq_lib::to_multiset_build(head.filter(selector.admits()), rows@[i as int]@);
            }
            insert_ranked(&mut listing, copy);
        }
        i = i + 1;
    }
    proof {
        assert(views(rows@).take(rows.len() as int) =~= views(rows@));
    }
    listing
}

/// Lists all rows in rank order.
pub fn ranked<T: Ranked>(rows: &Vec<T>) -> (listing: Vec<T>)
    ensures
        is_ranking::<T>(views(listing@), views(rows@)),
{
    let listing = select_ranked(rows, &Everything);
    proof {
        lemma_filter_any_row(views(rows@));
    }
    listing
}

/// Lists the first `limit` rows of a ranking of all rows.
pub fn top_ranked<T: Ranked>(rows: &Vec<T>, limit: usize) -> (listing: Vec<T>)
    ensures
        is_top_ranking::<T>(views(listing@), views(rows@), limit as nat),
{
    let mut listing = ranked(rows);
    let ghost full = views(listing@);
    listing.truncate(limit);
    proof {
        let cut = if limit <= full.len() { limit as int } else { full.len() as int };
        assert(views(listing@) =~= full.take(cut));
        assert(is_ranking::<T>(full, views(rows@)));
    }
    listing
}

/// Lists the last `limit` rows of a ranking of the rows that `selector`
/// picks.
pub fn select_bottom_ranked<T: Ranked, S: Selector<T>>(rows: &Vec<T>, selector: &S, limit: usize)
    -> (listing: Vec<T>)
    ensures
        is_bottom_ranking::<T>(
            views(listing@),
            views(rows@).filter(selector.admits()),
            limit as nat,
        ),
{
    let mut listing = select_ranked(rows, selector);
    let ghost full = views(listing@);
    if limit < listing.len() {
        let cut = listing.len() - limit;
        let tail = listing.split_off(cut);
        proof {
            assert(views(tail@) =~= full.skip(cut as int));
            assert(is_ranking::<T>(full, views(rows@).filter(selector.admits())));
        }
        tail
    } else {
        proof {
            assert(full.skip(0) =~= full);
            assert(is_ranking::<T>(full, views(rows@).filter(selector.admits())));
        }
        listing
    }
}

} // verus!
