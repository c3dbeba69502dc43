use rurt::item::{EntryKind, Item, ItemInfo};
use rurt::preview::{Previews, RING_CAPACITY};
use rurt::store::FLICKER_MS;
use rurt::ui_state::{
    fire_preview, matching_preview, quantize, trigger_right_pane, PaneAction, URect, Ui,
    BREAKPOINT,
};
use rurt::view::{
    preview_mode_order, right_pane_order, right_pane_order_hidden, PreviewMode, RightPane,
    ViewOpts,
};
use std::sync::Arc;

fn file(name: &str) -> Item {
    Item::FileEntry {
        name: name.as_bytes().to_vec(),
        info: Arc::new(ItemInfo {
            file_type: EntryKind::File,
            path: format!("/root/{}", name).into_bytes(),
            filename: name.as_bytes().to_vec(),
            link_dest: None,
        }),
    }
}

fn area(width: usize, height: usize) -> URect {
    URect { x: 3, y: 4, width, height }
}

fn ui_showing(name: &str) -> Ui {
    let mut ui = Ui::new("> ".to_string());
    ui.cursor_showing = Some(file(name));
    ui
}

fn opts() -> ViewOpts {
    ViewOpts {
        right_pane_mode: right_pane_order(),
        preview_mode_flag: preview_mode_order(),
        log_pane: false,
        git_info: false,
        input_bottom: false,
    }
}

#[test]
fn fire_preview_rounds_the_height_up() {
    let mut ui = ui_showing("a");
    let job = fire_preview(&mut ui, PreviewMode::Content, area(80, 30), 1000).unwrap();
    // 2 * 30 lines, rounded up to the next breakpoint
    assert_eq!(job.area, URect { x: 3, y: 4, width: 80, height: 400 });
    assert_eq!(job.path, b"/root/a".to_vec());
    assert_eq!(job.mode, PreviewMode::Content);
    assert!(job.coloured);
    assert_eq!(job.job, 0);
    assert_eq!(ui.previews.len(), 1);
    let held = ui.previews.get(0);
    assert_eq!(held.showing, b"/root/a".to_vec());
    assert_eq!(held.target_area.height, 400);
    assert_eq!(held.started, 1000);
    assert!(!held.finished);
    assert_eq!(held.job, 0);
}

#[test]
fn quantized_height_takes_scrolling_into_account() {
    assert_eq!(BREAKPOINT, 400);
    let mut ui = ui_showing("a");
    ui.preview_cursor = 350;
    let job = fire_preview(&mut ui, PreviewMode::Content, area(80, 30), 0).unwrap();
    // 60 + 350 = 410, which lies in the second stretch
    assert_eq!(job.area.height, 800);
    let mut ui = ui_showing("a");
    let job = fire_preview(&mut ui, PreviewMode::Content, area(80, 200), 0).unwrap();
    // a full stretch asks for the next one
    assert_eq!(job.area.height, 800);
    let mut ui = ui_showing("a");
    let job = fire_preview(&mut ui, PreviewMode::Content, area(80, 0), 0).unwrap();
    assert_eq!(job.area.height, 400);
}

#[test]
fn quantized_height_in_numbers() {
    assert_eq!(quantize(0, 0), 400);
    assert_eq!(quantize(30, 0), 400);
    assert_eq!(quantize(199, 1), 400);
    assert_eq!(quantize(200, 0), 800);
    assert_eq!(quantize(0, 399), 400);
    assert_eq!(quantize(0, 400), 800);
    assert_eq!(quantize(65535, 1 << 40), ((131070 + (1usize << 40)) / 400 + 1) * 400);
}

#[test]
fn quantized_height_stops_at_the_greatest() {
    let last = usize::MAX / 400 * 400;
    assert_eq!(quantize(0, last - 1), last);
    assert_eq!(quantize(0, last), usize::MAX);
    assert_eq!(quantize(0, usize::MAX), usize::MAX);
    assert_eq!(quantize(usize::MAX, 0), usize::MAX);
    assert_eq!(quantize(usize::MAX / 2, 400), usize::MAX);
    assert_eq!(quantize(usize::MAX, usize::MAX), usize::MAX);
}

#[test]
fn fire_preview_takes_any_height() {
    let mut ui = ui_showing("a");
    ui.preview_cursor = usize::MAX;
    let job = fire_preview(&mut ui, PreviewMode::Content, area(80, usize::MAX), 0).unwrap();
    assert_eq!(job.area.height, usize::MAX);
    assert_eq!(ui.previews.len(), 1);
    // and takes the same pane for rendered
    assert!(fire_preview(&mut ui, PreviewMode::Content, area(80, usize::MAX), 1).is_none());
    assert_eq!(ui.previews.len(), 1);
}

#[test]
fn fire_preview_twice_starts_one_job() {
    let mut ui = ui_showing("a");
    assert!(fire_preview(&mut ui, PreviewMode::Content, area(80, 30), 0).is_some());
    assert!(fire_preview(&mut ui, PreviewMode::Content, area(80, 30), 5).is_none());
    // a pane a few lines taller asks for the same rendering
    assert!(fire_preview(&mut ui, PreviewMode::Content, area(80, 35), 5).is_none());
    assert_eq!(ui.previews.len(), 1);
}

#[test]
fn fire_preview_starts_a_job_for_each_key() {
    let mut ui = ui_showing("a");
    assert!(fire_preview(&mut ui, PreviewMode::Content, area(80, 30), 0).is_some());
    assert!(fire_preview(&mut ui, PreviewMode::GitLg, area(80, 30), 0).is_some());
    assert!(fire_preview(&mut ui, PreviewMode::Content, area(81, 30), 0).is_some());
    assert!(fire_preview(&mut ui, PreviewMode::Content, area(80, 300), 0).is_some());
    ui.preview_colours = false;
    assert!(fire_preview(&mut ui, PreviewMode::Content, area(80, 30), 0).is_some());
    ui.cursor_showing = Some(file("b"));
    assert!(fire_preview(&mut ui, PreviewMode::Content, area(80, 30), 0).is_some());
    assert_eq!(ui.previews.len(), 6);
    let jobs: Vec<u64> = (0..6).map(|i| ui.previews.get(i).job).collect();
    assert_eq!(jobs, vec![0, 1, 2, 3, 4, 5]);
}

#[test]
fn fire_preview_without_a_path_does_nothing() {
    let mut ui = Ui::new(String::new());
    assert!(fire_preview(&mut ui, PreviewMode::Content, area(80, 30), 0).is_none());
    ui.cursor_showing = Some(Item::WalkError { msg: "broken".to_string() });
    assert!(fire_preview(&mut ui, PreviewMode::Content, area(80, 30), 0).is_none());
    assert_eq!(ui.previews.len(), 0);
}

#[test]
fn ring_holds_sixteen_and_drops_the_oldest() {
    assert_eq!(RING_CAPACITY, 16);
    let mut ui = Ui::new(String::new());
    for i in 0..16 {
        ui.cursor_showing = Some(file(&format!("f{}", i)));
        assert!(fire_preview(&mut ui, PreviewMode::Content, area(80, 30), i).is_some());
    }
    assert_eq!(ui.previews.len(), 16);
    assert_eq!(ui.previews.get(0).showing, b"/root/f0".to_vec());
    ui.cursor_showing = Some(file("f16"));
    assert!(fire_preview(&mut ui, PreviewMode::Content, area(80, 30), 16).is_some());
    assert_eq!(ui.previews.len(), 16);
    assert_eq!(ui.previews.get(0).showing, b"/root/f1".to_vec());
    assert_eq!(ui.previews.get(15).showing, b"/root/f16".to_vec());
    // the job that left is started again when it is asked for
    ui.cursor_showing = Some(file("f0"));
    assert!(fire_preview(&mut ui, PreviewMode::Content, area(80, 30), 17).is_some());
    assert_eq!(ui.previews.len(), 16);
    assert_eq!(ui.previews.get(0).showing, b"/root/f2".to_vec());
}

#[test]
fn ring_by_itself_lets_in_and_finds() {
    let mut ring = Previews::default();
    assert_eq!(ring.len(), 0);
    let a = area(10, 400);
    assert!(!ring.holds(b"/p", a, PreviewMode::Content, true));
    assert_eq!(ring.enter(b"/p".to_vec(), a, PreviewMode::Content, true, 7), 0);
    assert_eq!(ring.enter(b"/p".to_vec(), area(20, 400), PreviewMode::Content, true, 8), 1);
    assert_eq!(ring.enter(b"/q".to_vec(), a, PreviewMode::Content, true, 9), 2);
    assert!(ring.holds(b"/p", a, PreviewMode::Content, true));
    assert!(!ring.holds(b"/p", a, PreviewMode::Content, false));
    assert!(!ring.holds(b"/p", a, PreviewMode::GitShow, true));
    assert!(!ring.holds(b"/r", a, PreviewMode::Content, true));
    // the one started last, whatever its area
    assert_eq!(ring.latest(b"/p", PreviewMode::Content, true), Some(1));
    assert_eq!(ring.latest(b"/q", PreviewMode::Content, true), Some(2));
    assert_eq!(ring.latest(b"/q", PreviewMode::GitLg, true), None);
}

#[test]
fn matching_preview_is_the_latest_for_the_row() {
    let mut ui = ui_showing("a");
    assert_eq!(matching_preview(&ui, PreviewMode::Content), None);
    fire_preview(&mut ui, PreviewMode::Content, area(80, 30), 0);
    fire_preview(&mut ui, PreviewMode::GitLg, area(80, 30), 0);
    fire_preview(&mut ui, PreviewMode::Content, area(90, 30), 0);
    assert_eq!(matching_preview(&ui, PreviewMode::Content), Some(2));
    assert_eq!(matching_preview(&ui, PreviewMode::GitLg), Some(1));
    assert_eq!(matching_preview(&ui, PreviewMode::GitShow), None);
    ui.preview_colours = false;
    assert_eq!(matching_preview(&ui, PreviewMode::Content), None);
    ui.preview_colours = true;
    ui.cursor_showing = None;
    assert_eq!(matching_preview(&ui, PreviewMode::Content), None);
}

#[test]
fn jobs_flicker_while_young_and_unfinished() {
    assert_eq!(FLICKER_MS, 100);
    let mut ring = Previews::new();
    assert!(!ring.is_scanning());
    assert!(!ring.would_flicker(0));
    let job = ring.enter(b"/p".to_vec(), area(1, 400), PreviewMode::Content, true, 1000);
    assert!(ring.is_scanning());
    assert!(ring.would_flicker(1000));
    assert!(ring.would_flicker(1099));
    assert!(!ring.would_flicker(1100));
    assert!(ring.would_flicker(999));
    let other = ring.enter(b"/q".to_vec(), area(1, 400), PreviewMode::Content, true, 1050);
    ring.note_finished(job);
    assert!(ring.get(0).finished);
    assert!(!ring.get(1).finished);
    assert!(ring.is_scanning());
    assert!(ring.would_flicker(1120));
    assert!(!ring.would_flicker(1150));
    ring.note_finished(other);
    assert!(!ring.is_scanning());
    assert!(!ring.would_flicker(1060));
    ring.note_finished(99);
    assert_eq!(ring.len(), 2);
}

#[test]
fn right_pane_without_room_does_nothing() {
    let mut ui = ui_showing("a");
    assert!(matches!(trigger_right_pane(&mut ui, opts(), area(0, 30), 0), PaneAction::Nothing));
    assert!(matches!(trigger_right_pane(&mut ui, opts(), area(80, 0), 0), PaneAction::Nothing));
    assert_eq!(ui.previews.len(), 0);
}

#[test]
fn right_pane_starts_the_preview_once() {
    let mut ui = ui_showing("a");
    match trigger_right_pane(&mut ui, opts(), area(80, 30), 0) {
        PaneAction::Render(job) => {
            assert_eq!(job.path, b"/root/a".to_vec());
            assert_eq!(job.mode, PreviewMode::Content);
        }
        _ => panic!("a job was expected"),
    }
    assert!(matches!(trigger_right_pane(&mut ui, opts(), area(80, 30), 0), PaneAction::Nothing));
}

#[test]
fn hidden_right_pane_does_nothing() {
    let mut ui = ui_showing("a");
    let mut view = opts();
    view.right_pane_mode = right_pane_order_hidden();
    assert_eq!(view.right_pane(), RightPane::Hidden);
    assert!(matches!(trigger_right_pane(&mut ui, view, area(80, 30), 0), PaneAction::Nothing));
    assert_eq!(ui.previews.len(), 0);
}

#[test]
fn git_pane_asks_for_four_commits_a_line() {
    let mut ui = ui_showing("a");
    let mut view = opts();
    view.right_pane_mode =
        [RightPane::InteractiveGitLog, RightPane::Preview, RightPane::Hidden];
    match trigger_right_pane(&mut ui, view, area(80, 30), 0) {
        PaneAction::GitLog { path, max_count } => {
            assert_eq!(path, b"/root/a".to_vec());
            assert_eq!(max_count, 120);
        }
        _ => panic!("a log was expected"),
    }
    assert_eq!(ui.previews.len(), 0);
    ui.cursor_showing = None;
    assert!(matches!(trigger_right_pane(&mut ui, view, area(80, 30), 0), PaneAction::Nothing));
}

#[test]
fn view_options_cycle() {
    let mut view = opts();
    assert_eq!(view.right_pane(), RightPane::Preview);
    assert_eq!(view.preview_mode(), PreviewMode::Content);
    view.toggle_right_pane();
    assert_eq!(view.right_pane(), RightPane::Hidden);
    view.toggle_right_pane();
    assert_eq!(view.right_pane(), RightPane::InteractiveGitLog);
    view.toggle_right_pane();
    assert_eq!(view.right_pane_mode, right_pane_order());
    view.toggle_preview_mode();
    assert_eq!(view.preview_mode(), PreviewMode::GitLg);
    view.toggle_preview_mode();
    assert_eq!(view.preview_mode(), PreviewMode::GitShow);
    view.toggle_preview_mode();
    assert_eq!(view.preview_mode_flag, preview_mode_order());
}
