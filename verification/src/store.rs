//! The life of a scan: one at a time, started after the one before was
//! told to stop and its rows were thrown away. Threads are the caller's
//! part: it starts the worker of a scan, joins the worker of a scan that
//! was cancelled, and says when a worker has ended.

use vstd::prelude::*;
use std::sync::atomic::AtomicBool;
use std::sync::atomic::Ordering;
use std::sync::Arc;
use crate::engine::{
    engine_columns, engine_matched, engine_pattern, engine_rows, injector, matched_rows, new_engine,
    reparse, restart, row_count, smart_atoms, snapshot, tick, AtomView,
};
use crate::fuzz::{same_flag, AddItem};
use crate::item::Item;

verus! {

/// A scan or a preview job that has run for less than this many
/// milliseconds is not yet shown as running.
pub const FLICKER_MS: u64 = 100;

/// The column of the engine that holds the text of a row.
pub const TEXT_COLUMN: usize = 0;

/// The scan that is under way.
pub struct CurrentScan {
    started: u64,
    finished: bool,
    ticket: u64,
    cancellation: Arc<AtomicBool>,
}

/// What the contracts say of a scan.
pub struct ScanView {
    /// When it was started, in milliseconds.
    pub started: u64,
    /// Whether its worker was seen to have ended.
    pub finished: bool,
    /// The number under which it was handed out.
    pub ticket: u64,
}

/// The match engine, and the scan that feeds it.
pub struct Store {
    pub nucleo: nucleo::Nucleo<Item>,
    current_scan: Option<CurrentScan>,
    next_ticket: u64,
}

/// What a worker is to be started with.
pub struct ScanStart {
    /// The handle through which the worker pushes its rows.
    pub tx: AddItem,
    /// The number of the scan.
    pub ticket: u64,
    /// The number of the scan that was under way and was cancelled, if
    /// there was one: its worker is to be joined before the new worker is
    /// started.
    pub join_first: Option<u64>,
}

/// Whether painting a scan as running at `now` would flash.
pub open spec fn flickers(scan: Option<ScanView>, now: u64) -> bool {
    scan matches Some(s) && !s.finished && (now < s.started || now - s.started < FLICKER_MS)
}

/// `AtomicBool::new(false)` behind a new `Arc`: a flag that nobody has set.
fn fresh_flag() -> (flag: Arc<AtomicBool>) {
    Arc::new(AtomicBool::new(false))
}

impl Store {
    /// The scan under way, if there is one.
    pub closed spec fn scan(&self) -> Option<ScanView> {
        match self.current_scan {
            Some(s) => Some(ScanView { started: s.started, finished: s.finished, ticket: s.ticket }),
            None => None,
        }
    }

    /// The number that the next scan gets.
    pub closed spec fn next_ticket(&self) -> u64 {
        self.next_ticket
    }

    /// The rows that matched in the snapshot, best match first.
    pub closed spec fn matched(&self) -> Seq<Item> {
        engine_matched(self.nucleo)
    }

    /// The number of rows that the snapshot was matched over.
    pub closed spec fn rows(&self) -> nat {
        engine_rows(self.nucleo)
    }

    /// The query that the rows are matched against from the next `tick`
    /// on, as the words that the engine has read from it.
    pub closed spec fn live_query(&self) -> Seq<AtomView> {
        engine_pattern(self.nucleo, TEXT_COLUMN)
    }

    /// The engine matches by at least one column.
    pub closed spec fn wf(&self) -> bool {
        engine_columns(self.nucleo) >= 1
    }

    /// A store around `nucleo`, with no scan under way.
    pub fn new(nucleo: nucleo::Nucleo<Item>) -> (store: Self)
        requires
            engine_columns(nucleo) >= 1,
        ensures
            store.wf(),
            store.scan() is None,
            store.next_ticket() == 0,
            store.matched() == engine_matched(nucleo),
            store.rows() == engine_rows(nucleo),
            store.live_query() == engine_pattern(nucleo, TEXT_COLUMN),
    {
        Store { nucleo, current_scan: None, next_ticket: 0 }
    }

    /// A store around a new engine with one column.
    pub fn with_engine() -> (store: Self)
        ensures
            store.wf(),
            store.scan() is None,
            store.next_ticket() == 0,
            store.matched().len() == 0,
            store.rows() == 0,
            store.live_query().len() == 0,
    {
        Store::new(new_engine(1))
    }

    /// Tells the scan under way to stop, forgets it, and throws away the
    /// rows of the engine and its snapshot, whether a scan was under way or
    /// not. The number handed out is that of the scan whose worker is now
    /// to be joined; `None` says that no scan was under way. The handles
    /// that were given out go on to work, and reach nothing.
    pub fn cancel_scan(&mut self) -> (ticket: Option<u64>)
        requires
            old(self).wf(),
        ensures
            final(self).wf(),
            final(self).scan() is None,
            final(self).matched().len() == 0,
            final(self).rows() == 0,
            final(self).next_ticket() == old(self).next_ticket(),
            final(self).live_query() == old(self).live_query(),
            ticket == match old(self).scan() {
                Some(s) => Some(s.ticket),
                None => None,
            },
    {
        let ticket: Option<u64> = match self.current_scan.take() {
            Some(scan) => {
                scan.cancellation.store(true, Ordering::Relaxed);
                Some(scan.ticket)
            },
            None => None,
        };
        restart(&mut self.nucleo);
        ticket
    }

    /// Starts a scan anew: a scan that is under way is cancelled as
    /// `cancel_scan` cancels it, the rows of the engine and its snapshot are
    /// thrown away, and a new scan is entered, with a flag of its own that
    /// is not set. What is handed out is what the worker of the new scan is
    /// to be started with, and the number of the scan that was cancelled:
    /// its worker is to be joined before the new one is started, so that
    /// never two of them run.
    pub fn start_scan(&mut self, now: u64) -> (start: ScanStart)
        requires
            old(self).wf(),
        ensures
            final(self).wf(),
            start.tx.wf(),
            start.ticket == old(self).next_ticket(),
            start.join_first == match old(self).scan() {
                Some(s) => Some(s.ticket),
                None => None,
            },
            final(self).scan() == Some(
                ScanView { started: now, finished: false, ticket: start.ticket },
            ),
            final(self).next_ticket() == if start.ticket < u64::MAX {
                (start.ticket + 1) as u64
            } else {
                0
            },
            final(self).matched().len() == 0,
            final(self).rows() == 0,
            final(self).live_query() == old(self).live_query(),
    {
        let join_first: Option<u64> = self.cancel_scan();
        let cancellation = fresh_flag();
        let tx = AddItem::with_flag(injector(&self.nucleo), same_flag(&cancellation));
        let ticket: u64 = self.next_ticket;
        self.next_ticket = if ticket < u64::MAX {
            ticket + 1
        } else {
            0
        };
        self.current_scan = Some(CurrentScan { started: now, finished: false, ticket, cancellation });
        ScanStart { tx, ticket, join_first }
    }

    /// Records that the worker of the scan `ticket` has ended. A scan that
    /// is no longer the one under way is not looked for.
    pub fn note_finished(&mut self, ticket: u64)
        requires
            old(self).wf(),
        ensures
            final(self).wf(),
            final(self).next_ticket() == old(self).next_ticket(),
            final(self).matched() == old(self).matched(),
            final(self).rows() == old(self).rows(),
            final(self).live_query() == old(self).live_query(),
            final(self).scan() == match old(self).scan() {
                Some(s) => if s.ticket == ticket {
                    Some(ScanView { finished: true, ..s })
                } else {
                    Some(s)
                },
                None => None,
            },
    {
        match self.current_scan.take() {
            Some(mut scan) => {
                if scan.ticket == ticket {
                    scan.finished = true;
                }
                self.current_scan = Some(scan);
            },
            None => {},
        }
    }

    /// Whether a scan is under way whose worker has not been seen to end.
    pub fn is_scanning(&self) -> (yes: bool)
        ensures
            yes == (self.scan() matches Some(s) && !s.finished),
    {
        match &self.current_scan {
            Some(scan) => !scan.finished,
            None => false,
        }
    }

    /// Whether painting now would show a scan as running that was started
    /// less than `FLICKER_MS` ago: the caller then waits a moment first.
    pub fn would_flicker(&self, now: u64) -> (yes: bool)
        ensures
            yes == flickers(self.scan(), now),
    {
        match &self.current_scan {
            Some(scan) => !scan.finished && (now < scan.started || now - scan.started
                < FLICKER_MS),
            None => false,
        }
    }

    /// Lets the engine take in what its workers have done, and sets them
    /// to work again where the query or the rows have changed. What the
    /// snapshot holds afterwards depends on how far the workers have come;
    /// the query stays.
    pub fn tick(&mut self, timeout: u64)
        requires
            old(self).wf(),
        ensures
            final(self).wf(),
            final(self).scan() == old(self).scan(),
            final(self).next_ticket() == old(self).next_ticket(),
            final(self).live_query() == old(self).live_query(),
    {
        tick(&mut self.nucleo, timeout);
    }

    /// Sets the query that the rows are matched against: the engine reads
    /// its words from `query`, with smart case matching and normalization,
    /// and matches against them from the next `tick` on. The snapshot stays
    /// as it is until then.
    pub fn reparse(&mut self, query: &str)
        requires
            old(self).wf(),
        ensures
            final(self).wf(),
            final(self).live_query() == smart_atoms(query@),
            final(self).scan() == old(self).scan(),
            final(self).next_ticket() == old(self).next_ticket(),
            final(self).matched() == old(self).matched(),
            final(self).rows() == old(self).rows(),
    {
        reparse(&mut self.nucleo, TEXT_COLUMN, query);
    }

    /// The result of the last match that the engine has taken in.
    pub fn snapshot(&self) -> (snap: &nucleo::Snapshot<Item>)
        ensures
            matched_rows(*snap) == self.matched(),
            row_count(*snap) == self.rows(),
    {
        snapshot(&self.nucleo)
    }
}

/// Only a scan that is under way, has not ended and was started less
/// than `FLICKER_MS` ago holds up the painting.
pub proof fn lemma_flicker_window(scan: ScanView, now: u64)
    ensures
        !flickers(None, now),
        scan.finished ==> !flickers(Some(scan), now),
        now >= scan.started + FLICKER_MS ==> !flickers(Some(scan), now),
        !scan.finished && scan.started <= now < scan.started + FLICKER_MS ==> flickers(
            Some(scan),
            now,
        ),
{
}

} // verus!
