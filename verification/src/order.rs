//! Sorting the numbers of matches by the rows they stand for. The sorting
//! itself is the standard library's; what is proved here is the comparison
//! it is given.

use vstd::prelude::*;
use core::cmp::Ordering;
use crate::engine::{all_matched, matched_row, matched_rows, nth_row};
use crate::snapped::{front, front_sorted, placed, rest, row_views, rows_sorted};
use crate::item::{row_le, sort_key, Item, Rank};

verus! {

/// How the rows of the matches `a` and `b` stand in a listing without a
/// query.
pub(crate) fn ordering_of(snap: &nucleo::Snapshot<Item>, a: u32, b: u32) -> (o: Ordering)
    requires
        a < matched_rows(*snap).len(),
        b < matched_rows(*snap).len(),
    ensures
        o == Ordering::Greater <==> !row_le(nth_row(*snap, a), nth_row(*snap, b)),
        o == Ordering::Equal <==> sort_key(nth_row(*snap, a)) == sort_key(nth_row(*snap, b)),
{
    match (matched_row(snap, a), matched_row(snap, b)) {
        (Some(x), Some(y)) => match x.rank(y) {
            Rank::Before => Ordering::Less,
            Rank::Same => Ordering::Equal,
            Rank::After => Ordering::Greater,
        },
        _ => Ordering::Equal,
    }
}

/// `sort_unstable_by` of slices, on the first `upto` numbers of `order`,
/// with `ordering_of` to compare: they are put in the order of their rows,
/// the others stay where they are. The order is total, as the standard
/// library asks.
#[verifier::external_body]
pub(crate) fn sort_front(order: &mut Vec<u32>, upto: usize, snap: &nucleo::Snapshot<Item>)
    requires
        upto <= old(order)@.len(),
        all_matched(*snap, old(order)@),
    ensures
        final(order)@.len() == old(order)@.len(),
        final(order)@.to_multiset() == old(order)@.to_multiset(),
        front(final(order)@, upto).to_multiset() == front(old(order)@, upto).to_multiset(),
        rest(final(order)@, upto) == rest(old(order)@, upto),
        front_sorted(matched_rows(*snap), final(order)@, upto),
{
    order[..upto].sort_unstable_by(|a, b| ordering_of(snap, *a, *b));
}

/// `select_nth_unstable_by` of slices, with `ordering_of` to compare: the
/// numbers are rearranged so that the one at `nth` stands where a full sort
/// would put it. It panics where `nth` is no index of the slice.
#[verifier::external_body]
pub(crate) fn place_nth(order: &mut Vec<u32>, nth: usize, snap: &nucleo::Snapshot<Item>)
    requires
        nth < old(order)@.len(),
        all_matched(*snap, old(order)@),
    ensures
        final(order)@.len() == old(order)@.len(),
        final(order)@.to_multiset() == old(order)@.to_multiset(),
        placed(matched_rows(*snap), final(order)@, nth),
{
    order.select_nth_unstable_by(nth, |a, b| ordering_of(snap, *a, *b));
}

/// How two rows stand in a listing without a query.
pub(crate) fn row_ordering(a: &Item, b: &Item) -> (o: Ordering)
    ensures
        o == Ordering::Greater <==> !row_le(a@, b@),
        o == Ordering::Equal <==> sort_key(a@) == sort_key(b@),
{
    match a.rank(b) {
        Rank::Before => Ordering::Less,
        Rank::Same => Ordering::Equal,
        Rank::After => Ordering::Greater,
    }
}

/// `sort_unstable_by` of slices, with `row_ordering` to compare: the rows
/// are put in the order of a listing without a query, and none is lost or
/// added.
#[verifier::external_body]
pub(crate) fn sort_rows(rows: &mut Vec<Item>)
    ensures
        final(rows)@.len() == old(rows)@.len(),
        row_views(final(rows)@).to_multiset() == row_views(old(rows)@).to_multiset(),
        rows_sorted(final(rows)@),
{
    rows.sort_unstable_by(|a, b| row_ordering(a, b));
}

} // verus!
