//! The handle through which a scan pushes rows into the match index, and
//! by which it is told to stop.

use vstd::prelude::*;
use std::sync::atomic::AtomicBool;
use std::sync::atomic::Ordering;
use std::sync::Arc;
use crate::engine::injector_columns;
use crate::item::Item;
use crate::store::TEXT_COLUMN;

verus! {

/// A handle on the match index for the worker of a scan.
pub struct AddItem {
    pub inner: nucleo::Injector<Item>,
    /// Set once the scan is to stop, and never reset.
    pub cancelled: Arc<AtomicBool>,
}

/// `Injector::clone`: one more handle on the same match index.
#[verifier::external_body]
fn same_injector(inner: &nucleo::Injector<Item>) -> (other: nucleo::Injector<Item>)
    ensures
        injector_columns(other) == injector_columns(*inner),
{
    inner.clone()
}

/// `Arc::clone`: one more handle on the same flag.
#[verifier::external_body]
pub(crate) fn same_flag(flag: &Arc<AtomicBool>) -> (other: Arc<AtomicBool>) {
    Arc::clone(flag)
}

/// `Injector::push`, with the text of the row as what the query is matched
/// against in column `column`. Other handles push at the same time, so
/// nothing is said of where the row comes to stand.
#[verifier::external_body]
fn push_row(inner: &nucleo::Injector<Item>, item: Item, column: usize)
    requires
        column < injector_columns(*inner),
{
    inner.push(item, |row, columns| columns[column] = row.text().into());
}

impl AddItem {
    /// The rows pushed have a column for their text.
    pub open spec fn wf(&self) -> bool {
        injector_columns(self.inner) >= 1
    }

    /// A handle that pushes into `inner`, with a flag of its own that is
    /// not set.
    pub fn new(inner: nucleo::Injector<Item>) -> (tx: Self)
        ensures
            tx.inner == inner,
    {
        AddItem { inner, cancelled: Arc::new(AtomicBool::new(false)) }
    }

    /// A handle that pushes into `inner` and stops with `cancelled`.
    pub fn with_flag(inner: nucleo::Injector<Item>, cancelled: Arc<AtomicBool>) -> (tx: Self)
        ensures
            tx.inner == inner,
            tx.cancelled == cancelled,
    {
        AddItem { inner, cancelled }
    }

    /// Tells every holder of a copy of this handle to stop.
    pub fn cancel(&self) {
        self.cancelled.store(true, Ordering::Relaxed);
    }

    /// Whether the scan was told to stop.
    pub fn is_cancelled(&self) -> (yes: bool) {
        self.cancelled.load(Ordering::Relaxed)
    }

    /// Pushes `item`, unless the scan was told to stop: then nothing is
    /// pushed and the answer is `Err`. Whether it was told to stop is read
    /// from the flag, which other threads set.
    pub fn send(&self, item: Item) -> (sent: Result<(), ()>)
        requires
            self.wf(),
    {
        let cancelled: bool = self.is_cancelled();
        self.send_unless(cancelled, item)
    }

    /// Pushes `item` unless `cancelled`; the answer is `Err` where nothing
    /// was pushed.
    pub fn send_unless(&self, cancelled: bool, item: Item) -> (sent: Result<(), ()>)
        requires
            self.wf(),
        ensures
            sent is Err <==> cancelled,
    {
        if cancelled {
            return Err(());
        }
        push_row(&self.inner, item, TEXT_COLUMN);
        Ok(())
    }

    /// One more handle for the same scan.
    pub fn duplicate(&self) -> (tx: Self)
        ensures
            self.wf() ==> tx.wf(),
    {
        AddItem { inner: same_injector(&self.inner), cancelled: same_flag(&self.cancelled) }
    }
}

} // verus!
