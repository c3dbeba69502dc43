//! The window of rows that the screen shows: a stretch of the matches, by
//! relevance while a query is set, else directories first and by name. The
//! second order is kept from frame to frame and sorted only as far as the
//! windows asked for have reached.

use vstd::prelude::*;
use crate::engine::{
    item_count, matched_item_count, matched_range, matched_row, matched_rows, row_count,
};
use crate::item::{
    lemma_row_le_both_ways, lemma_row_le_reflexive, lemma_row_le_transitive, row_le, same_row,
    sort_key, Item, ItemView,
};
use crate::order::{place_nth, sort_front};
use crate::ui_state::Ui;
use vstd::relations::injective;
use vstd::set_lib::{lemma_int_range, lemma_len_subset, lemma_subset_equality, set_int_range};

verus! {

/// The row that stands at place `i` of `order`.
pub open spec fn row_of(rows: Seq<Item>, order: Seq<u32>, i: int) -> ItemView {
    rows[order[i] as int]@
}

/// Among the first `until` of `order`, and between each of them and all
/// that follow it, the rows stand as the listing places them.
pub open spec fn sorted_upto(rows: Seq<Item>, order: Seq<u32>, until: int) -> bool {
    forall|i: int, j: int|
        0 <= i < until && i < j < order.len() ==> row_le(
            #[trigger] row_of(rows, order, i),
            #[trigger] row_of(rows, order, j),
        )
}

/// The row at `nth` stands where a full sort would put it: none before it
/// must follow it, none after it must precede it.
pub open spec fn placed_at(rows: Seq<Item>, order: Seq<u32>, nth: int) -> bool {
    &&& forall|i: int|
        0 <= i < nth ==> row_le(#[trigger] row_of(rows, order, i), row_of(rows, order, nth))
    &&& forall|j: int|
        nth < j < order.len() ==> row_le(row_of(rows, order, nth), #[trigger] row_of(rows, order, j))
}

/// `sorted_upto` of the first `upto` numbers alone.
pub open spec fn front_sorted(rows: Seq<Item>, order: Seq<u32>, upto: usize) -> bool {
    sorted_upto(rows, order.take(upto as int), upto as int)
}

/// `placed_at` for an index of a vector.
pub open spec fn placed(rows: Seq<Item>, order: Seq<u32>, nth: usize) -> bool {
    placed_at(rows, order, nth as int)
}

/// The rows in `rows`, as the contracts see them.
pub open spec fn row_views(rows: Seq<Item>) -> Seq<ItemView> {
    Seq::new(rows.len(), |i: int| rows[i]@)
}

/// Each row stands before those that follow it, as the listing places
/// them.
pub open spec fn rows_sorted(rows: Seq<Item>) -> bool {
    forall|i: int, j: int| 0 <= i < j < rows.len() ==> row_le(#[trigger] rows[i]@, #[trigger] rows[j]@)
}

/// The first `n` of `s`.
pub open spec fn front(s: Seq<u32>, n: usize) -> Seq<u32> {
    s.take(n as int)
}

/// What follows the first `n` of `s`.
pub open spec fn rest(s: Seq<u32>, n: usize) -> Seq<u32> {
    s.skip(n as int)
}

/// Beyond this many rows a window is no longer sorted.
pub const SORT_LIMIT: u32 = 100_000;

/// An arrangement of the matches, sorted up to a mark.
pub struct SortedItems {
    /// Numbers of matches, each once.
    pub items: Vec<u32>,
    /// How many of them, from the front, stand in their sorted place.
    pub until: u32,
}

impl SortedItems {
    /// The numbers held are those below their count, each once, and the
    /// mark lies among them.
    pub open spec fn is_arrangement(&self) -> bool {
        &&& self.items@.no_duplicates()
        &&& forall|i: int| 0 <= i < self.items@.len() ==> self.items@[i] < self.items@.len()
        &&& self.until <= self.items@.len()
        &&& self.until <= SORT_LIMIT
    }

    /// The arrangement is one of matches among `rows`.
    pub open spec fn fits(&self, rows: Seq<Item>) -> bool {
        &&& self.is_arrangement()
        &&& self.items@.len() <= rows.len()
    }

    /// The arrangement is one of matches among `rows`, and up to the mark
    /// it is sorted.
    pub open spec fn settled(&self, rows: Seq<Item>) -> bool {
        &&& self.is_arrangement()
        &&& self.items@.len() <= rows.len()
        &&& sorted_upto(rows, self.items@, self.until as int)
    }

    /// Whether the arrangement is one of matches of `snap`. It is as long as
    /// it is changed by the functions of this crate only, and forgotten
    /// whenever the matches are replaced by others.
    pub fn fits_snapshot(&self, snap: &nucleo::Snapshot<Item>) -> (yes: bool)
        ensures
            yes == self.fits(matched_rows(*snap)),
    {
        let n: usize = self.items.len();
        let matched: u32 = matched_item_count(snap);
        if n > matched as usize || self.until as usize > n || self.until > SORT_LIMIT {
            return false;
        }
        let mut seen: Vec<bool> = Vec::new();
        let mut k: usize = 0;
        while k < n
            invariant
                k <= n,
                seen@.len() == k,
                forall|v: int| 0 <= v < k ==> !seen@[v],
            decreases n - k,
        {
            seen.push(false);
            k = k + 1;
        }
        let mut i: usize = 0;
        while i < n
            invariant
                i <= n,
                n == self.items@.len(),
                seen@.len() == n,
                forall|a: int| 0 <= a < i ==> self.items@[a] < n,
                forall|a: int, b: int| 0 <= a < b < i ==> self.items@[a] != self.items@[b],
                forall|v: int|
                    0 <= v < n ==> (#[trigger] seen@[v] <==> exists|a: int|
                        0 <= a < i && self.items@[a] == v),
            decreases n - i,
        {
            let x: usize = self.items[i] as usize;
            if x >= n {
                return false;
            }
            if seen[x] {
                proof {
                    let a = choose|a: int| 0 <= a < i && self.items@[a] == x;
                    assert(self.items@[a] == self.items@[i as int]);
                }
                return false;
            }
            let ghost before = seen@;
            seen.set(x, true);
            proof {
                assert forall|v: int| 0 <= v < n implies (#[trigger] seen@[v] <==> exists|a: int|
                    0 <= a < i + 1 && self.items@[a] == v) by {
                    if v == x {
                        assert(self.items@[i as int] == v);
                    } else {
                        if before[v] {
                            let a = choose|a: int| 0 <= a < i && self.items@[a] == v;
                            assert(0 <= a < i + 1 && self.items@[a] == v);
                        }
                        if exists|a: int| 0 <= a < i + 1 && self.items@[a] == v {
                            let a = choose|a: int| 0 <= a < i + 1 && self.items@[a] == v;
                            assert(a != i);
                            assert(before[v]);
                        }
                    }
                }
                assert forall|a: int, b: int| 0 <= a < b < i + 1 implies self.items@[a]
                    != self.items@[b] by {
                    if b == i && self.items@[a] == self.items@[b] {
                        assert(before[x as int]);
                    }
                }
            }
            i = i + 1;
        }
        true
    }

    /// Forgets the arrangement: the next window is sorted afresh.
    pub fn clear(&mut self)
        ensures
            final(self).items@ == Seq::<u32>::empty(),
            final(self).until == 0,
            final(self).is_arrangement(),
    {
        self.items.clear();
        self.until = 0;
    }
}

impl Default for SortedItems {
    fn default() -> (s: Self)
        ensures
            s.items@ == Seq::<u32>::empty(),
            s.until == 0,
            s.is_arrangement(),
    {
        SortedItems { items: Vec::new(), until: 0 }
    }
}

/// A window of rows.
pub struct Snapped<'i> {
    pub items: Vec<&'i Item>,
    /// The place of the first row of the window among the matches.
    pub start: u32,
    /// How many rows match.
    pub matched: u32,
    /// How many rows there are.
    pub total: u32,
}

/// The row whose number stands at place `i` of `order`.
pub open spec fn row_at(rows: Seq<Item>, order: Seq<u32>, i: int) -> Item {
    rows[order[i] as int]
}

/// Where a window of `len` rows from `start` ends among `matched` rows.
pub open spec fn window_end(start: u32, len: u32, matched: nat) -> nat {
    if start + len <= matched {
        (start + len) as nat
    } else {
        matched
    }
}

/// Whether a window that ends at `end` has the arrangement brought up to
/// the `matched` rows and sorted again: it does where the window reaches
/// beyond the mark, and where rows have come in since and either the
/// window reaches into the second half of the arrangement or the number of
/// rows is a multiple of 64.
pub open spec fn sorts_again(held: nat, until: nat, end: nat, matched: nat) -> bool {
    end > until || (matched > held && (end * 2 > held || matched % 64 == 0))
}

/// The mark after sorting for a window that ends at `end`, where the mark
/// stood at `until` before: the end of the window, `SORT_LIMIT` at most, and
/// never less than the mark was.
pub open spec fn mark_for(end: nat, until: nat) -> nat {
    let reach = if end <= SORT_LIMIT {
        end
    } else {
        SORT_LIMIT as nat
    };
    if reach >= until {
        reach
    } else {
        until
    }
}

proof fn lemma_same_numbers(a: Seq<u32>, b: Seq<u32>)
    requires
        a.to_multiset() == b.to_multiset(),
        b.no_duplicates(),
    ensures
        a.len() == b.len(),
        a.no_duplicates(),
        forall|i: int| 0 <= i < a.len() ==> b.contains(#[trigger] a[i]),
{
    broadcast use vstd::seq_lib::group_to_multiset_ensures;

    a.to_multiset_ensures();
    b.to_multiset_ensures();
    b.lemma_multiset_has_no_duplicates();
    a.lemma_multiset_has_no_duplicates_conv();
    assert forall|i: int| 0 <= i < a.len() implies b.contains(#[trigger] a[i]) by {
        assert(a.contains(a[i]));
        assert(a.to_multiset().count(a[i]) > 0);
    }
}

/// After the row at `mark` was placed and the rows before it were sorted,
/// the arrangement is sorted up to `mark`.
proof fn lemma_sorted_after(rows: Seq<Item>, mid: Seq<u32>, after: Seq<u32>, mark: int)
    requires
        0 <= mark <= mid.len(),
        mid.len() == after.len(),
        mark < mid.len() ==> placed_at(rows, mid, mark),
        after.take(mark).to_multiset() == mid.take(mark).to_multiset(),
        after.skip(mark) == mid.skip(mark),
        sorted_upto(rows, after.take(mark), mark),
        mid.no_duplicates(),
    ensures
        sorted_upto(rows, after, mark),
{
    assert forall|i: int, j: int| 0 <= i < mark && i < j < after.len() implies row_le(
        #[trigger] row_of(rows, after, i),
        #[trigger] row_of(rows, after, j),
    ) by {
        let head = after.take(mark);
        assert(row_of(rows, after, i) == row_of(rows, head, i));
        if j < mark {
            assert(row_of(rows, after, j) == row_of(rows, head, j));
        } else {
            assert(after[j] == after.skip(mark)[j - mark]);
            assert(mid[j] == mid.skip(mark)[j - mark]);
            assert(mid.take(mark).no_duplicates());
            lemma_same_numbers(head, mid.take(mark));
            assert(mid.take(mark).contains(head[i]));
            let k = choose|k: int| 0 <= k < mark && mid.take(mark)[k] == head[i];
            assert(row_of(rows, mid, k) == row_of(rows, after, i));
            assert(row_le(row_of(rows, mid, k), row_of(rows, mid, mark)));
            if j > mark {
                assert(row_le(row_of(rows, mid, mark), row_of(rows, mid, j)));
                lemma_row_le_transitive(
                    row_of(rows, mid, k),
                    row_of(rows, mid, mark),
                    row_of(rows, mid, j),
                );
            }
            assert(row_of(rows, mid, j) == row_of(rows, after, j));
        }
    }
}

/// The rows of the matches from `start` up to `end`, in the order of a
/// listing without a query. The arrangement that gives the order is
/// brought up to the matches and sorted as far as the window reaches, and
/// no less far than it was sorted before, where `sorts_again` says so, and
/// is used as it stands where not. The mark up to which it is sorted never
/// falls.
pub fn item_range_sorted<'s>(
    snap: &'s nucleo::Snapshot<Item>,
    start: u32,
    end: u32,
    sorted_items: &mut SortedItems,
) -> (window: Vec<&'s Item>)
    requires
        start <= end <= matched_rows(*snap).len(),
        old(sorted_items).fits(matched_rows(*snap)),
    ensures
        final(sorted_items).fits(matched_rows(*snap)),
        final(sorted_items).until >= old(sorted_items).until,
        end <= final(sorted_items).items@.len(),
        window@.len() == end - start,
        forall|k: int|
            0 <= k < window@.len() ==> *(#[trigger] window@[k]) == row_at(
                matched_rows(*snap),
                final(sorted_items).items@,
                start + k,
            ),
        sorts_again(
            old(sorted_items).items@.len(),
            old(sorted_items).until as nat,
            end as nat,
            matched_rows(*snap).len(),
        ) ==> {
            &&& final(sorted_items).items@.len() == matched_rows(*snap).len()
            &&& final(sorted_items).until == mark_for(end as nat, old(sorted_items).until as nat)
            &&& final(sorted_items).settled(matched_rows(*snap))
        },
        !sorts_again(
            old(sorted_items).items@.len(),
            old(sorted_items).until as nat,
            end as nat,
            matched_rows(*snap).len(),
        ) ==> {
            &&& final(sorted_items).items@ == old(sorted_items).items@
            &&& final(sorted_items).until == old(sorted_items).until
        },
{
    let real_end: u32 = matched_item_count(snap);
    let cache_end: u32 = sorted_items.items.len() as u32;
    let could_extend: bool = real_end > cache_end;
    let should_extend: bool = (end as u64) * 2 > cache_end as u64 || real_end % 64 == 0;
    let should_sort: bool = end > sorted_items.until;
    let ghost rows = matched_rows(*snap);

    if should_sort || (could_extend && should_extend) {
        let mut next: u32 = cache_end;
        while next < real_end
            invariant
                cache_end <= next <= real_end,
                real_end == rows.len(),
                sorted_items.items@.len() == next,
                sorted_items.items@.no_duplicates(),
                forall|i: int| 0 <= i < next ==> sorted_items.items@[i] < next,
                sorted_items.until == old(sorted_items).until,
            decreases real_end - next,
        {
            sorted_items.items.push(next);
            next = next + 1;
        }
        let reach: u32 = if end < SORT_LIMIT {
            end
        } else {
            SORT_LIMIT
        };
        let target_until: u32 = if reach >= sorted_items.until {
            reach
        } else {
            sorted_items.until
        };
        let ghost whole = sorted_items.items@;
        if target_until < real_end {
            place_nth(&mut sorted_items.items, target_until as usize, snap);
        }
        let ghost mid = sorted_items.items@;
        proof {
            lemma_same_numbers(mid, whole);
        }
        sort_front(&mut sorted_items.items, target_until as usize, snap);
        sorted_items.until = target_until;
        proof {
            let after = sorted_items.items@;
            lemma_same_numbers(after, mid);
            assert forall|i: int| 0 <= i < after.len() implies after[i] < after.len() by {
                assert(mid.contains(after[i]));
                assert(whole.contains(after[i]));
            }
            lemma_sorted_after(rows, mid, after, target_until as int);
        }
    }
    let mut window: Vec<&'s Item> = Vec::new();
    let mut k: u32 = start;
    while k < end
        invariant
            start <= k <= end,
            end <= sorted_items.items@.len(),
            sorted_items.items@.len() <= rows.len(),
            rows == matched_rows(*snap),
            forall|i: int|
                0 <= i < sorted_items.items@.len() ==> sorted_items.items@[i]
                    < sorted_items.items@.len(),
            window@.len() == k - start,
            forall|i: int|
                0 <= i < window@.len() ==> *(#[trigger] window@[i]) == rows[sorted_items.items@[start
                    + i] as int],
        decreases end - k,
    {
        let number: u32 = sorted_items.items[k as usize];
        match matched_row(snap, number) {
            Some(row) => {
                window.push(row);
            },
            None => {
                proof {
                    assert(false);
                }
            },
        }
        k = k + 1;
    }
    window
}

/// What a window from `start` leaves of the arrangement `before`: where it
/// is empty, or follows the matches, the arrangement as it was; else the
/// arrangement brought up to the matches and sorted as far as the window
/// reaches where `sorts_again` says so, and as it was where not.
pub open spec fn window_leaves(
    rows: Seq<Item>,
    start: u32,
    len: u32,
    sort: bool,
    before: SortedItems,
    after: SortedItems,
) -> bool {
    let end = window_end(start, len, rows.len());
    if start >= end || !sort {
        after == before
    } else {
        &&& end <= after.items@.len()
        &&& sorts_again(before.items@.len(), before.until as nat, end, rows.len()) ==> {
            &&& after.items@.len() == rows.len()
            &&& after.until == mark_for(end, before.until as nat)
            &&& after.settled(rows)
        }
        &&& !sorts_again(before.items@.len(), before.until as nat, end, rows.len()) ==> {
            &&& after.items@ == before.items@
            &&& after.until == before.until
        }
        &&& after.until >= before.until
    }
}

/// What a window from `start` shows of `rows`, where `order` is the
/// arrangement that it leaves.
pub open spec fn window_shows(
    rows: Seq<Item>,
    start: u32,
    len: u32,
    sort: bool,
    order: Seq<u32>,
    window: Snapped,
) -> bool {
    let end = window_end(start, len, rows.len());
    &&& window.matched == rows.len()
    &&& if start >= end {
        &&& window.items@.len() == 0
        &&& window.start == 0
    } else {
        &&& window.start == start
        &&& window.items@.len() == end - start
        &&& forall|k: int|
            0 <= k < end - start ==> *(#[trigger] window.items@[k]) == shown_row(
                rows,
                sort,
                order,
                start + k,
            )
    }
}

/// What `item_range` hands out for `rows`, and what it leaves of the
/// arrangement `before`.
pub open spec fn is_window(
    rows: Seq<Item>,
    start: u32,
    len: u32,
    sort: bool,
    before: SortedItems,
    after: SortedItems,
    window: Snapped,
) -> bool {
    &&& window_leaves(rows, start, len, sort, before, after)
    &&& window_shows(rows, start, len, sort, after.items@, window)
}

/// The window of up to `len` rows from place `start` of the matches: by
/// relevance, or, where `sort` is set, directories first and by name. A
/// window that would begin beyond the matches is empty and says that it
/// starts at 0.
pub fn item_range<'s>(
    snap: &'s nucleo::Snapshot<Item>,
    start: u32,
    len: u32,
    sort: bool,
    sorted_items: &mut SortedItems,
) -> (window: Snapped<'s>)
    requires
        sort ==> old(sorted_items).fits(matched_rows(*snap)),
    ensures
        old(sorted_items).fits(matched_rows(*snap)) ==> final(sorted_items).fits(
            matched_rows(*snap),
        ),
        final(sorted_items).until >= old(sorted_items).until,
        window.total == row_count(*snap),
        is_window(
            matched_rows(*snap),
            start,
            len,
            sort,
            *old(sorted_items),
            *final(sorted_items),
            window,
        ),
{
    let matched: u32 = matched_item_count(snap);
    let total: u32 = item_count(snap);
    let mut end: u32 = if len > u32::MAX - start {
        u32::MAX
    } else {
        start + len
    };
    if end > matched {
        end = matched;
    }
    if start >= end {
        return Snapped { items: Vec::new(), start: 0, matched, total };
    }
    let items: Vec<&'s Item> = if !sort {
        matched_range(snap, start, end)
    } else {
        item_range_sorted(snap, start, end, sorted_items)
    };
    Snapped { items, start, matched, total }
}

/// Whether the listing is in the order without a query: it is where no
/// query is set.
pub fn should_sort(ui: &Ui) -> (sort: bool)
    ensures
        sort == (ui.query@.len() == 0),
{
    ui.query.as_str().is_empty()
}

/// The rows that the screen shows: `len` rows from where the view starts.
pub fn ui_item_range<'s>(ui: &mut Ui, snap: &'s nucleo::Snapshot<Item>, len: u32) -> (window:
    Snapped<'s>)
    requires
        old(ui).query@.len() == 0 ==> old(ui).sorted_items.fits(matched_rows(*snap)),
    ensures
        old(ui).sorted_items.fits(matched_rows(*snap)) ==> final(ui).sorted_items.fits(
            matched_rows(*snap),
        ),
        final(ui).sorted_items.until >= old(ui).sorted_items.until,
        *final(ui) == (Ui { sorted_items: final(ui).sorted_items, ..*old(ui) }),
        window.total == row_count(*snap),
        is_window(
            matched_rows(*snap),
            old(ui).view_start,
            len,
            old(ui).query@.len() == 0,
            old(ui).sorted_items,
            final(ui).sorted_items,
            window,
        ),
{
    let sort: bool = should_sort(ui);
    item_range(snap, ui.view_start, len, sort, &mut ui.sorted_items)
}

/// The row at place `idx` of the listing, `None` beyond the matches.
pub fn one_item<'s>(idx: u32, ui: &mut Ui, snap: &'s nucleo::Snapshot<Item>) -> (row: Option<
    &'s Item,
>)
    requires
        old(ui).query@.len() == 0 ==> old(ui).sorted_items.fits(matched_rows(*snap)),
    ensures
        old(ui).sorted_items.fits(matched_rows(*snap)) ==> final(ui).sorted_items.fits(
            matched_rows(*snap),
        ),
        final(ui).sorted_items.until >= old(ui).sorted_items.until,
        *final(ui) == (Ui { sorted_items: final(ui).sorted_items, ..*old(ui) }),
        window_leaves(
            matched_rows(*snap),
            idx,
            1,
            old(ui).query@.len() == 0,
            old(ui).sorted_items,
            final(ui).sorted_items,
        ),
        idx >= matched_rows(*snap).len() ==> row is None,
        idx < matched_rows(*snap).len() ==> {
            &&& row matches Some(r)
            &&& *r == shown_row(
                matched_rows(*snap),
                old(ui).query@.len() == 0,
                final(ui).sorted_items.items@,
                idx as int,
            )
        },
{
    let sort: bool = should_sort(ui);
    let mut window = item_range(snap, idx, 1, sort, &mut ui.sorted_items);
    window.items.pop()
}

/// The row at place `i` of the listing: of the matches by relevance, or of
/// the arrangement `order` where `sort` is set.
pub open spec fn shown_row(rows: Seq<Item>, sort: bool, order: Seq<u32>, i: int) -> Item {
    if sort {
        row_at(rows, order, i)
    } else {
        rows[i]
    }
}

/// Where a move by `by` rows from `pos` ends among the rows up to
/// `list_end`: at the first or the last row where it would lead beyond.
pub open spec fn moved(pos: u32, by: isize, list_end: u32) -> u32 {
    if pos + by < 0 {
        0
    } else if pos + by > list_end {
        list_end
    } else {
        (pos + by) as u32
    }
}

/// Moves a cursor by `by` rows and keeps it among the rows.
pub fn move_cursor(pos: u32, by: isize, list_end: u32) -> (to: u32)
    ensures
        to == moved(pos, by, list_end),
{
    let target: i128 = pos as i128 + by as i128;
    if target < 0 {
        0
    } else if target > list_end as i128 {
        list_end
    } else {
        target as u32
    }
}

/// Where the view starts once the cursor stands at `pos`: at the cursor
/// where that lies above the view; two rows below `pos - len` where the
/// cursor has reached the last row of the view; else where it was.
pub open spec fn view_after(pos: u32, view_start: u32, len: u32) -> u32 {
    if pos < view_start {
        pos
    } else if pos + 1 >= view_start + len {
        let top = if pos >= len {
            pos - len + 2
        } else {
            2
        };
        if top > u32::MAX {
            u32::MAX
        } else {
            top as u32
        }
    } else {
        view_start
    }
}

/// Moves the view so that it holds the cursor.
pub fn follow_cursor(pos: u32, view_start: u32, len: u32) -> (start: u32)
    ensures
        start == view_after(pos, view_start, len),
{
    if pos < view_start {
        pos
    } else if pos as u64 + 1 >= view_start as u64 + len as u64 {
        let top: u64 = if pos >= len {
            (pos - len) as u64 + 2
        } else {
            2
        };
        if top > u32::MAX as u64 {
            u32::MAX
        } else {
            top as u32
        }
    } else {
        view_start
    }
}

/// How far the row under the cursor is looked for beyond the mark up to
/// which the listing is sorted.
pub const LOOKAHEAD: u32 = 64;

/// The first `upto` rows of the listing, in its order.
pub open spec fn listing(rows: Seq<Item>, sort: bool, order: Seq<u32>, upto: int) -> Seq<ItemView> {
    Seq::new(upto as nat, |i: int| shown_row(rows, sort, order, i)@)
}

/// The place of the first row from `from` on that is taken for the same
/// as `target`.
pub open spec fn first_same_from(shown: Seq<ItemView>, from: int, target: ItemView) -> Option<int>
    decreases shown.len() - from,
{
    if from < 0 || from >= shown.len() {
        None
    } else if same_row(shown[from], target) {
        Some(from)
    } else {
        first_same_from(shown, from + 1, target)
    }
}

/// Where the cursor goes when the row it showed does not stand at its
/// place any more: to the first row of `shown` that is taken for the same,
/// or to the first row of all where there is none.
pub open spec fn found_again(shown: Seq<ItemView>, showing: Option<Item>) -> int {
    match showing {
        Some(c) => match first_same_from(shown, 0, c@) {
            Some(at) => at,
            None => 0,
        },
        None => 0,
    }
}

/// Whether the cursor stays where it was: it does where the row that stands
/// there is taken for the same as the row it showed.
pub open spec fn cursor_stays(
    rows: Seq<Item>,
    sort: bool,
    order: Seq<u32>,
    last_pos: u32,
    showing: Option<Item>,
) -> bool {
    &&& last_pos < rows.len()
    &&& showing matches Some(c)
    &&& same_row(shown_row(rows, sort, order, last_pos as int)@, c@)
}

/// What `revalidate_cursor` makes of `before`, where `first` is the
/// arrangement after the look at the place of the cursor and `second` the
/// arrangement after the search for its row. The cursor stays at its place,
/// or goes where `found_again` says, among the rows up to `LOOKAHEAD` beyond
/// the mark of `first`; then it makes the pending move; and the view
/// follows it.
pub open spec fn is_revalidated(
    rows: Seq<Item>,
    len: u32,
    before: Ui,
    first: SortedItems,
    second: SortedItems,
    after: Ui,
) -> bool {
    let sort = before.query@.len() == 0;
    let last_pos = before.cursor.last_pos;
    let stays = cursor_stays(rows, sort, first.items@, last_pos, before.cursor_showing);
    let upto = window_end(0, lookahead(first.until), rows.len()) as int;
    let found = if stays {
        last_pos as int
    } else {
        found_again(listing(rows, sort, second.items@, upto), before.cursor_showing)
    };
    let pos = match before.cursor.pending_move {
        Some(by) => moved(found as u32, by, list_end(rows.len())),
        None => found as u32,
    };
    &&& after == (Ui {
        sorted_items: after.sorted_items,
        cursor: after.cursor,
        cursor_showing: after.cursor_showing,
        view_start: after.view_start,
        ..before
    })
    &&& window_leaves(rows, last_pos, 1, sort, before.sorted_items, first)
    &&& if stays {
        second == first
    } else {
        window_leaves(rows, 0, lookahead(first.until), sort, first, second)
    }
    &&& window_leaves(rows, pos, 1, sort, second, after.sorted_items)
    &&& 0 <= found <= list_end(rows.len())
    &&& after.cursor.last_pos == pos
    &&& after.cursor.pending_move is None
    &&& if pos < rows.len() {
        &&& after.cursor_showing matches Some(row)
        &&& row@ == shown_row(rows, sort, after.sorted_items.items@, pos as int)@
    } else {
        after.cursor_showing is None
    }
    &&& after.view_start == view_after(pos, before.view_start, len)
}

/// The place of the first row of `window` that is taken for the same as
/// `target`, or 0.
fn first_same(window: &Vec<&Item>, target: &Item) -> (p: usize)
    ensures
        p as int == match first_same_from(row_views_of(window@), 0, target@) {
            Some(at) => at,
            None => 0,
        },
        p == 0 || p < window@.len(),
{
    let mut i: usize = 0;
    while i < window.len()
        invariant
            i <= window@.len(),
            first_same_from(row_views_of(window@), 0, target@) == first_same_from(
                row_views_of(window@),
                i as int,
                target@,
            ),
        decreases window@.len() - i,
    {
        if window[i].same(target) {
            return i;
        }
        i = i + 1;
    }
    0
}

/// The rows that a window shows, as the contracts see them.
pub open spec fn row_views_of(window: Seq<&Item>) -> Seq<ItemView> {
    Seq::new(window.len(), |i: int| (*window[i])@)
}

/// Finds the cursor again among the matches, makes the move that is
/// pending, and moves the view so that it holds the cursor. The cursor
/// stays on the row it showed where that row still stands at its place;
/// else it goes to the first row taken for the same among those up to
/// `LOOKAHEAD` beyond the sorted mark, or to the first row of all. A
/// pending move is applied to that place and ends among the matches.
pub fn revalidate_cursor(ui: &mut Ui, snap: &nucleo::Snapshot<Item>, len: u32)
    requires
        old(ui).query@.len() == 0 ==> old(ui).sorted_items.fits(matched_rows(*snap)),
    ensures
        old(ui).sorted_items.fits(matched_rows(*snap)) ==> final(ui).sorted_items.fits(
            matched_rows(*snap),
        ),
        final(ui).sorted_items.until >= old(ui).sorted_items.until,
        final(ui).cursor.pending_move is None,
        final(ui).cursor.last_pos <= list_end(matched_rows(*snap).len()),
        matched_rows(*snap).len() == 0 ==> final(ui).cursor_showing is None,
        matched_rows(*snap).len() > 0 ==> final(ui).cursor_showing is Some,
        old(ui).query@.len() > 0 ==> final(ui).sorted_items == old(ui).sorted_items,
        exists|first: SortedItems, second: SortedItems| #[trigger]
            is_revalidated(matched_rows(*snap), len, *old(ui), first, second, *final(ui)),
{
    let ghost rows = matched_rows(*snap);
    let sort: bool = should_sort(ui);
    let last_pos: u32 = ui.cursor.last_pos;
    let stays: bool = match one_item(last_pos, ui, snap) {
        Some(row) => match &ui.cursor_showing {
            Some(shown) => row.same(shown),
            None => false,
        },
        None => false,
    };
    let ghost first = ui.sorted_items;
    let ghost upto = window_end(0, lookahead(first.until), rows.len()) as int;
    let mut pos: u32 = if stays {
        last_pos
    } else {
        let reach: u32 = if ui.sorted_items.until > u32::MAX - LOOKAHEAD {
            u32::MAX
        } else {
            ui.sorted_items.until + LOOKAHEAD
        };
        let window = item_range(snap, 0, reach, sort, &mut ui.sorted_items);
        proof {
            assert(row_views_of(window.items@) =~= listing(
                rows,
                sort,
                ui.sorted_items.items@,
                upto,
            ));
        }
        match &ui.cursor_showing {
            Some(shown) => first_same(&window.items, shown) as u32,
            None => 0,
        }
    };
    let ghost second = ui.sorted_items;
    let ghost found = pos;
    let matched: u32 = matched_item_count(snap);
    let list_end: u32 = if matched > 0 {
        matched - 1
    } else {
        0
    };
    let pending: Option<isize> = ui.cursor.pending_move;
    ui.cursor.pending_move = None;
    match pending {
        Some(by) => {
            pos = move_cursor(pos, by, list_end);
        },
        None => {},
    }
    ui.cursor.last_pos = pos;
    ui.cursor_showing = match one_item(pos, ui, snap) {
        Some(row) => Some(row.duplicate()),
        None => None,
    };
    ui.view_start = follow_cursor(pos, ui.view_start, len);
    proof {
        assert(is_revalidated(rows, len, *old(ui), first, second, *ui));
    }
}

/// The place of the last row among `matched` rows, 0 where there is none.
pub open spec fn list_end(matched: nat) -> u32 {
    if matched > 0 {
        (matched - 1) as u32
    } else {
        0
    }
}

/// The number of rows among which the cursor is looked for.
pub open spec fn lookahead(until: u32) -> u32 {
    if until + LOOKAHEAD > u32::MAX {
        u32::MAX
    } else {
        (until + LOOKAHEAD) as u32
    }
}

/// An arrangement holds every number below its length.
pub proof fn lemma_arrangement_holds_all(order: Seq<u32>)
    requires
        order.no_duplicates(),
        forall|i: int| 0 <= i < order.len() ==> order[i] < order.len(),
    ensures
        forall|x: u32| x < order.len() ==> order.contains(x),
{
    let widen = |x: u32| x as int;
    let wide = order.map_values(widen);
    let below = set_int_range(0, order.len() as int);
    assert(injective(widen));
    order.lemma_no_duplicates_injective(widen);
    wide.unique_seq_to_set();
    lemma_int_range(0, order.len() as int);
    assert(wide.to_set().subset_of(below)) by {
        assert forall|v: int| wide.to_set().contains(v) implies below.contains(v) by {
            let i = choose|i: int| 0 <= i < wide.len() && wide[i] == v;
            assert(wide[i] == order[i] as int);
        }
    }
    lemma_len_subset(wide.to_set(), below);
    lemma_subset_equality(wide.to_set(), below);
    assert forall|x: u32| x < order.len() implies order.contains(x) by {
        assert(below.contains(x as int));
        assert(wide.to_set().contains(x as int));
        let i = choose|i: int| 0 <= i < wide.len() && wide[i] == x as int;
        assert(order[i] == x);
    }
}

/// In two arrangements of one length that are both sorted beyond place
/// `k`, the row at `k` of the one need not follow the row at `k` of the
/// other.
proof fn lemma_place_bounded(rows: Seq<Item>, a: SortedItems, b: SortedItems, k: int)
    requires
        a.settled(rows),
        b.settled(rows),
        a.items@.len() == b.items@.len(),
        0 <= k < a.until,
        k < b.until,
    ensures
        row_le(row_of(rows, a.items@, k), row_of(rows, b.items@, k)),
{
    let x = a.items@;
    let y = b.items@;
    let ax = row_of(rows, x, k);
    let by = row_of(rows, y, k);
    if !row_le(ax, by) {
        // the k + 1 numbers up to place k of y all stand before place k of x
        let small = y.take(k + 1);
        let room = x.take(k);
        lemma_arrangement_holds_all(x);
        assert(small.to_set().subset_of(room.to_set())) by {
            assert forall|v: u32| small.to_set().contains(v) implies room.to_set().contains(v) by {
                let i = choose|i: int| 0 <= i < small.len() && small[i] == v;
                assert(y[i] == v);
                assert(v < x.len());
                assert(x.contains(v));
                let j = choose|j: int| 0 <= j < x.len() && x[j] == v;
                assert(row_of(rows, x, j) == row_of(rows, y, i));
                if i < k {
                    assert(row_le(row_of(rows, y, i), row_of(rows, y, k)));
                } else {
                    lemma_row_le_reflexive(by);
                }
                if j >= k {
                    if j > k {
                        assert(row_le(row_of(rows, x, k), row_of(rows, x, j)));
                    } else {
                        lemma_row_le_reflexive(ax);
                    }
                    lemma_row_le_transitive(ax, row_of(rows, x, j), by);
                    assert(false);
                }
                assert(room[j] == v);
                assert(room.contains(v));
            }
        }
        assert(small.no_duplicates());
        assert(room.no_duplicates());
        small.unique_seq_to_set();
        room.unique_seq_to_set();
        lemma_len_subset(small.to_set(), room.to_set());
        assert(false);
    }
}

/// Asking for more leaves what was shown where it was: in two
/// arrangements of the same matches that are both sorted beyond place `k`,
/// the rows at `k` are of one group and have one name, or one message.
pub proof fn lemma_prefix_stable(rows: Seq<Item>, first: SortedItems, later: SortedItems, k: int)
    requires
        first.settled(rows),
        later.settled(rows),
        first.items@.len() == later.items@.len(),
        0 <= k < first.until,
        k < later.until,
    ensures
        sort_key(row_of(rows, first.items@, k)) == sort_key(row_of(rows, later.items@, k)),
{
    lemma_place_bounded(rows, first, later, k);
    lemma_place_bounded(rows, later, first, k);
    lemma_row_le_both_ways(row_of(rows, first.items@, k), row_of(rows, later.items@, k));
}

/// The mark up to which the arrangement is sorted never falls.
pub proof fn lemma_mark_never_falls(
    rows: Seq<Item>,
    start: u32,
    len: u32,
    sort: bool,
    before: SortedItems,
    after: SortedItems,
)
    requires
        window_leaves(rows, start, len, sort, before, after),
    ensures
        after.until >= before.until,
{
}

/// A window leaves a settled arrangement settled.
pub proof fn lemma_window_keeps_settled(
    rows: Seq<Item>,
    start: u32,
    len: u32,
    sort: bool,
    before: SortedItems,
    after: SortedItems,
    window: Snapped,
)
    requires
        before.settled(rows),
        is_window(rows, start, len, sort, before, after, window),
    ensures
        after.settled(rows),
{
}

/// Windows that grow keep their prefix. Where one window from the top is
/// asked for after another over the same matches, with no query set, the
/// second reaching at least as far as the first, and the first no further
/// than `SORT_LIMIT`, the rows of the first stand at the same places of the
/// second, up to rows of one group and one name.
pub proof fn lemma_windows_agree(
    rows: Seq<Item>,
    len: u32,
    more: u32,
    start_state: SortedItems,
    mid_state: SortedItems,
    end_state: SortedItems,
    first: Snapped,
    second: Snapped,
    k: int,
)
    requires
        start_state.settled(rows),
        is_window(rows, 0, len, true, start_state, mid_state, first),
        is_window(rows, 0, more, true, mid_state, end_state, second),
        len <= more,
        len <= SORT_LIMIT,
        mid_state.items@.len() == end_state.items@.len(),
        0 <= k < first.items@.len(),
    ensures
        k < second.items@.len(),
        sort_key((*first.items@[k])@) == sort_key((*second.items@[k])@),
{
    lemma_window_keeps_settled(rows, 0, len, true, start_state, mid_state, first);
    lemma_window_keeps_settled(rows, 0, more, true, mid_state, end_state, second);
    lemma_prefix_stable(rows, mid_state, end_state, k);
}

/// No two of `rows` have one key and differ.
pub open spec fn told_apart_by_key(rows: Seq<Item>) -> bool {
    forall|i: int, j: int|
        0 <= i < rows.len() && 0 <= j < rows.len() && sort_key(#[trigger] rows[i]@) == sort_key(
            #[trigger] rows[j]@,
        ) ==> rows[i]@ == rows[j]@
}

/// Where the key tells the rows apart, asking for more leaves the very
/// rows that were shown where they were.
pub proof fn lemma_prefix_stable_rows(
    rows: Seq<Item>,
    first: SortedItems,
    later: SortedItems,
    k: int,
)
    requires
        told_apart_by_key(rows),
        first.settled(rows),
        later.settled(rows),
        first.items@.len() == later.items@.len(),
        0 <= k < first.until,
        k < later.until,
    ensures
        row_of(rows, first.items@, k) == row_of(rows, later.items@, k),
{
    lemma_prefix_stable(rows, first, later, k);
    let i = first.items@[k] as int;
    let j = later.items@[k] as int;
    assert(sort_key(rows[i]@) == sort_key(rows[j]@));
}

/// Rows that come in behind the others leave a settled arrangement
/// settled.
pub proof fn lemma_settled_survives_growth(held: SortedItems, before: Seq<Item>, after: Seq<Item>)
    requires
        held.settled(before),
        before.len() <= after.len(),
        after.take(before.len() as int) == before,
    ensures
        held.settled(after),
{
    let order = held.items@;
    assert forall|i: int, j: int| 0 <= i < held.until && i < j < order.len() implies row_le(
        #[trigger] row_of(after, order, i),
        #[trigger] row_of(after, order, j),
    ) by {
        assert(after.take(before.len() as int)[order[i] as int] == after[order[i] as int]);
        assert(after.take(before.len() as int)[order[j] as int] == after[order[j] as int]);
        assert(row_of(after, order, i) == row_of(before, order, i));
        assert(row_of(after, order, j) == row_of(before, order, j));
    }
}

} // verus!
