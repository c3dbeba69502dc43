//! The match engine, as far as this crate looks into it: the snapshot of
//! its last finished match, and the handle that rows are pushed through.
//! Nothing here is proved: each contract says what the engine's source
//! shows.

use vstd::prelude::*;
use crate::item::{Item, ItemView};

verus! {

/// nucleo's `Snapshot`: the result of a match.
#[verifier::external_type_specification]
#[verifier::external_body]
#[verifier::reject_recursive_types(T)]
pub struct ExSnapshot<T: Sync + Send + 'static>(nucleo::Snapshot<T>);

/// nucleo's `Injector`: a handle that rows are pushed through.
#[verifier::external_type_specification]
#[verifier::external_body]
#[verifier::reject_recursive_types(T)]
pub struct ExInjector<T>(nucleo::Injector<T>);

/// nucleo's `Nucleo`: the engine, with its workers.
#[verifier::external_type_specification]
#[verifier::external_body]
#[verifier::reject_recursive_types(T)]
pub struct ExNucleo<T: Sync + Send + 'static>(nucleo::Nucleo<T>);

/// The number of columns that the engine matches a row by.
pub uninterp spec fn engine_columns(engine: nucleo::Nucleo<Item>) -> nat;

/// The rows that matched in the snapshot that the engine holds, best
/// match first.
pub uninterp spec fn engine_matched(engine: nucleo::Nucleo<Item>) -> Seq<Item>;

/// The number of rows that the snapshot of the engine was matched over.
pub uninterp spec fn engine_rows(engine: nucleo::Nucleo<Item>) -> nat;

/// How an atom of a pattern is matched, as nucleo's `AtomKind` has it.
pub enum AtomKindView {
    Fuzzy,
    Substring,
    Prefix,
    Postfix,
    Exact,
}

/// One word of a pattern, as nucleo's `Atom` holds it.
pub struct AtomView {
    /// Whether rows that match the word are left out.
    pub negative: bool,
    pub kind: AtomKindView,
    /// The text that is looked for.
    pub needle: Seq<char>,
    pub ignore_case: bool,
    pub normalize: bool,
}

/// The atoms of the pattern that the engine holds for `column`: what the
/// rows are matched against from the next `tick` on.
pub uninterp spec fn engine_pattern(engine: nucleo::Nucleo<Item>, column: usize) -> Seq<AtomView>;

/// The atoms that nucleo's `Pattern::reparse` reads from `text` with
/// smart case matching and smart normalization.
pub uninterp spec fn smart_atoms(text: Seq<char>) -> Seq<AtomView>;

/// The number of columns that a row pushed through the handle has.
pub uninterp spec fn injector_columns(handle: nucleo::Injector<Item>) -> nat;

/// `Nucleo::new` with the default configuration, nothing to notify, one
/// worker for each hardware thread, and `columns` columns. The snapshot of
/// a new engine is empty, and so is the pattern of each of its columns. It
/// panics where it is asked for no column.
#[verifier::external_body]
pub(crate) fn new_engine(columns: u32) -> (engine: nucleo::Nucleo<Item>)
    requires
        columns >= 1,
    ensures
        engine_columns(engine) == columns,
        engine_matched(engine).len() == 0,
        engine_rows(engine) == 0,
        forall|c: usize| c < columns ==> (#[trigger] engine_pattern(engine, c)).len() == 0,
{
    nucleo::Nucleo::new(nucleo::Config::DEFAULT, std::sync::Arc::new(|| {}), None, columns)
}

/// `Nucleo::injector`: a handle that pushes into the rows the engine holds
/// now, with the engine's number of columns.
#[verifier::external_body]
pub(crate) fn injector(engine: &nucleo::Nucleo<Item>) -> (handle: nucleo::Injector<Item>)
    ensures
        injector_columns(handle) == engine_columns(*engine),
{
    engine.injector()
}

/// `Nucleo::restart(true)`: the engine starts on an empty list of rows, and
/// its snapshot is emptied at once. The number of columns stays, and so do
/// the patterns.
#[verifier::external_body]
pub(crate) fn restart(engine: &mut nucleo::Nucleo<Item>)
    ensures
        engine_columns(*final(engine)) == engine_columns(*old(engine)),
        engine_matched(*final(engine)).len() == 0,
        engine_rows(*final(engine)) == 0,
        forall|c: usize| #[trigger]
            engine_pattern(*final(engine), c) == engine_pattern(*old(engine), c),
{
    engine.restart(true);
}

/// `Nucleo::tick`: lets the engine take in what its workers have done,
/// waiting up to `timeout` milliseconds for them, and sets them to work
/// again where a pattern or the rows have changed. What the snapshot holds
/// afterwards depends on how far the workers have come. The patterns
/// stay.
#[verifier::external_body]
pub(crate) fn tick(engine: &mut nucleo::Nucleo<Item>, timeout: u64)
    ensures
        engine_columns(*final(engine)) == engine_columns(*old(engine)),
        forall|c: usize| #[trigger]
            engine_pattern(*final(engine), c) == engine_pattern(*old(engine), c),
{
    let _ = engine.tick(timeout);
}

/// `Nucleo::snapshot`: the result of the last match that was taken in.
#[verifier::external_body]
pub(crate) fn snapshot(engine: &nucleo::Nucleo<Item>) -> (snap: &nucleo::Snapshot<Item>)
    ensures
        matched_rows(*snap) == engine_matched(*engine),
        row_count(*snap) == engine_rows(*engine),
{
    engine.snapshot()
}

/// `MultiPattern::reparse` of one column with smart case matching and
/// normalization, not as an addition to the text before: the pattern of
/// that column becomes what `Pattern::reparse` reads from `query`, the
/// patterns of the other columns stay. The snapshot stays as it is until
/// the next `tick`. It panics where the engine has no such column.
#[verifier::external_body]
pub(crate) fn reparse(engine: &mut nucleo::Nucleo<Item>, column: usize, query: &str)
    requires
        column < engine_columns(*old(engine)),
    ensures
        engine_columns(*final(engine)) == engine_columns(*old(engine)),
        engine_matched(*final(engine)) == engine_matched(*old(engine)),
        engine_rows(*final(engine)) == engine_rows(*old(engine)),
        engine_pattern(*final(engine), column) == smart_atoms(query@),
        forall|c: usize|
            c != column ==> #[trigger] engine_pattern(*final(engine), c) == engine_pattern(
                *old(engine),
                c,
            ),
{
    engine.pattern.reparse(
        column,
        query,
        nucleo::pattern::CaseMatching::Smart,
        nucleo::pattern::Normalization::Smart,
        false,
    );
}

/// The rows that matched the pattern of the snapshot, best match first.
pub uninterp spec fn matched_rows(snap: nucleo::Snapshot<Item>) -> Seq<Item>;

/// The number of rows that the snapshot was matched over.
pub uninterp spec fn row_count(snap: nucleo::Snapshot<Item>) -> nat;

/// `Snapshot::matched_item_count`: the length of the snapshot's list of
/// matches, which nucleo holds as a `u32`.
#[verifier::external_body]
pub(crate) fn matched_item_count(snap: &nucleo::Snapshot<Item>) -> (n: u32)
    ensures
        n == matched_rows(*snap).len(),
{
    snap.matched_item_count()
}

/// `Snapshot::item_count`: the number of rows the match ran over.
#[verifier::external_body]
pub(crate) fn item_count(snap: &nucleo::Snapshot<Item>) -> (n: u32)
    ensures
        n == row_count(*snap),
{
    snap.item_count()
}

/// `Snapshot::get_matched_item`: the row of the `n`th match. The source
/// looks `n` up in the list of matches and returns `None` beyond its end; a
/// row that a match refers to has been written, so it is found.
#[verifier::external_body]
pub(crate) fn matched_row(snap: &nucleo::Snapshot<Item>, n: u32) -> (row: Option<&Item>)
    ensures
        n < matched_rows(*snap).len() ==> row == Some(&matched_rows(*snap)[n as int]),
        n >= matched_rows(*snap).len() ==> row is None,
{
    snap.get_matched_item(n).map(|item| item.data)
}

/// `Snapshot::matched_items` over `start..end`: the rows of these matches
/// in their order. It panics where the range does not lie within the
/// matches.
#[verifier::external_body]
pub(crate) fn matched_range(snap: &nucleo::Snapshot<Item>, start: u32, end: u32) -> (rows: Vec<&Item>)
    requires
        start <= end <= matched_rows(*snap).len(),
    ensures
        rows@.len() == end - start,
        forall|k: int| 0 <= k < rows@.len() ==> *rows@[k] == matched_rows(*snap)[start + k],
{
    snap.matched_items(start..end).map(|item| item.data).collect()
}

/// The row of the `n`th match, as the contracts see it.
pub open spec fn nth_row(snap: nucleo::Snapshot<Item>, n: u32) -> ItemView {
    matched_rows(snap)[n as int]@
}

/// Every number in `order` is the number of a match of `snap`.
pub open spec fn all_matched(snap: nucleo::Snapshot<Item>, order: Seq<u32>) -> bool {
    forall|i: int| 0 <= i < order.len() ==> order[i] < matched_rows(snap).len()
}

} // verus!
