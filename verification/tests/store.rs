use rurt::item::Item;
use rurt::store::{Store, FLICKER_MS};

fn row(msg: &str) -> Item {
    Item::WalkError { msg: msg.to_string() }
}

fn settle(store: &mut Store, n: u32) {
    for _ in 0..2000 {
        let status = store.nucleo.tick(10);
        if !status.running && store.snapshot().item_count() == n {
            return;
        }
    }
    panic!("the match engine did not settle");
}

#[test]
fn new_store_is_idle_and_empty() {
    let store = Store::with_engine();
    assert!(!store.is_scanning());
    assert!(!store.would_flicker(0));
    assert_eq!(store.snapshot().item_count(), 0);
    assert_eq!(store.snapshot().matched_item_count(), 0);
}

#[test]
fn scan_is_under_way_until_its_worker_has_ended() {
    let mut store = Store::with_engine();
    let start = store.start_scan(500);
    assert_eq!(start.ticket, 0);
    assert!(store.is_scanning());
    store.note_finished(7);
    assert!(store.is_scanning());
    store.note_finished(start.ticket);
    assert!(!store.is_scanning());
}

#[test]
fn young_scan_flickers() {
    assert_eq!(FLICKER_MS, 100);
    let mut store = Store::with_engine();
    let start = store.start_scan(500);
    assert!(store.would_flicker(500));
    assert!(store.would_flicker(599));
    assert!(!store.would_flicker(600));
    assert!(store.would_flicker(400));
    store.note_finished(start.ticket);
    assert!(!store.would_flicker(500));
}

#[test]
fn cancel_stops_the_pushing() {
    let mut store = Store::with_engine();
    assert_eq!(store.cancel_scan(), None);
    let start = store.start_scan(0);
    assert!(!start.tx.is_cancelled());
    assert!(start.tx.send(row("one")).is_ok());
    let other = start.tx.duplicate();
    assert_eq!(store.cancel_scan(), Some(start.ticket));
    assert!(!store.is_scanning());
    assert!(start.tx.is_cancelled());
    assert!(other.is_cancelled());
    assert!(start.tx.send(row("two")).is_err());
    assert!(other.send(row("three")).is_err());
    // the rows of the scan went with it
    assert_eq!(store.snapshot().item_count(), 0);
    settle(&mut store, 0);
    assert_eq!(store.cancel_scan(), None);
    assert_eq!(store.snapshot().item_count(), 0);
}

#[test]
fn send_unless_goes_by_what_it_is_told() {
    let mut store = Store::with_engine();
    let start = store.start_scan(0);
    assert!(start.tx.send_unless(true, row("dropped")).is_err());
    assert!(start.tx.send_unless(false, row("kept")).is_ok());
    settle(&mut store, 1);
    let snap = store.snapshot();
    assert_eq!(snap.item_count(), 1);
    assert_eq!(snap.get_item(0).map(|i| i.data.text()), Some("kept".to_string()));
}

#[test]
fn handle_can_cancel_itself() {
    let mut store = Store::with_engine();
    let start = store.start_scan(0);
    let other = start.tx.duplicate();
    other.cancel();
    assert!(start.tx.is_cancelled());
    assert!(start.tx.send(row("late")).is_err());
}

#[test]
fn start_scan_ends_the_scan_before() {
    let mut store = Store::with_engine();
    let first = store.start_scan(0);
    assert_eq!(first.join_first, None);
    for msg in ["a", "b"] {
        first.tx.send(row(msg)).unwrap();
    }
    settle(&mut store, 2);
    let second = store.start_scan(700);
    assert_eq!(second.join_first, Some(first.ticket));
    assert_eq!(second.ticket, first.ticket + 1);
    assert!(first.tx.is_cancelled());
    assert!(!second.tx.is_cancelled());
    assert!(store.is_scanning());
    assert!(store.would_flicker(750));
    assert_eq!(store.snapshot().item_count(), 0);
    assert_eq!(store.snapshot().matched_item_count(), 0);
    // the worker of the scan before ends late: it is not this scan's
    store.note_finished(first.ticket);
    assert!(store.is_scanning());
    second.tx.send(row("c")).unwrap();
    settle(&mut store, 1);
    assert_eq!(store.snapshot().get_item(0).map(|i| i.data.text()), Some("c".to_string()));
    store.note_finished(second.ticket);
    assert!(!store.is_scanning());
}

#[test]
fn cancel_keeps_the_query() {
    let mut store = Store::with_engine();
    store.reparse("bet");
    let first = store.start_scan(0);
    first.tx.send(row("alpha")).unwrap();
    assert_eq!(store.cancel_scan(), Some(first.ticket));
    let second = store.start_scan(0);
    for msg in ["alpha", "beta", "gamma"] {
        second.tx.send(row(msg)).unwrap();
    }
    settle(&mut store, 3);
    assert_eq!(store.snapshot().matched_item_count(), 1);
}

#[test]
fn cancel_throws_the_rows_away() {
    let mut store = Store::with_engine();
    let start = store.start_scan(0);
    for msg in ["a", "b", "c"] {
        start.tx.send(row(msg)).unwrap();
    }
    settle(&mut store, 3);
    assert_eq!(store.snapshot().matched_item_count(), 3);
    assert_eq!(store.cancel_scan(), Some(0));
    assert_eq!(store.snapshot().item_count(), 0);
    assert_eq!(store.snapshot().matched_item_count(), 0);
    let next = store.start_scan(10);
    assert_eq!(next.ticket, 1);
    assert!(!next.tx.is_cancelled());
    next.tx.send(row("d")).unwrap();
    settle(&mut store, 1);
    assert_eq!(store.snapshot().matched_item_count(), 1);
    // the handle of the scan before reaches nothing
    assert!(start.tx.send(row("e")).is_err());
}

#[test]
fn reparse_narrows_after_the_next_tick() {
    let mut store = Store::with_engine();
    let start = store.start_scan(0);
    for msg in ["alpha", "beta", "gamma"] {
        start.tx.send(row(msg)).unwrap();
    }
    settle(&mut store, 3);
    assert_eq!(store.snapshot().matched_item_count(), 3);
    store.reparse("bet");
    assert_eq!(store.snapshot().matched_item_count(), 3);
    settle(&mut store, 3);
    assert_eq!(store.snapshot().matched_item_count(), 1);
    store.tick(10);
    assert_eq!(store.snapshot().matched_item_count(), 1);
}
