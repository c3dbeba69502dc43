use rurt::action::{Action, ActionResult};
use rurt::dir_stack::DirStack;
use rurt::handle::{handle_action, ActionError, App, CursorFacts, Effect, Facts, Outcome};
use rurt::item::{EntryKind, Item, ItemInfo};
use rurt::ui_state::Ui;
use rurt::view::{preview_mode_order, right_pane_order, PreviewMode, RightPane, ViewOpts};
use rurt::walk::{Mode, ReadOpts, Recursion};
use rurt::ResultOpts;
use std::sync::Arc;

fn b(s: &str) -> Vec<u8> {
    s.as_bytes().to_vec()
}

fn app() -> App {
    App {
        here: b("/home/me/work"),
        dir_stack: DirStack::new(),
        read_opts: ReadOpts::default(),
        view_opts: ViewOpts {
            right_pane_mode: right_pane_order(),
            preview_mode_flag: preview_mode_order(),
            log_pane: false,
            git_info: false,
            input_bottom: false,
        },
        result_opts: ResultOpts { force_absolute_path: false },
    }
}

fn ui_on(name: &str) -> Ui {
    let mut ui = Ui::new("> ".to_string());
    ui.cursor_showing = Some(Item::FileEntry {
        name: b(name),
        info: Arc::new(ItemInfo {
            file_type: EntryKind::File,
            path: b(&format!("/home/me/work/{}", name)),
            filename: b(name),
            link_dest: None,
        }),
    });
    ui
}

fn cursor(name: &str, dir: Option<&str>) -> CursorFacts {
    CursorFacts {
        joined: b(&format!("/home/me/work/{}", name)),
        dir: dir.map(b),
        parent: Some(b("/home/me/work")),
        shown: name.to_string(),
    }
}

fn facts(cursor: Option<CursorFacts>) -> Facts {
    Facts {
        parent: b("/home/me"),
        cursor,
        home: Some(b("/home/me")),
        preview_lines: None,
        here_shown: ".".to_string(),
        selected_shown: vec![],
    }
}

fn run(action: Action, app: &mut App, ui: &mut Ui, facts: Facts) -> Outcome {
    handle_action(action, app, ui, facts).ok().unwrap()
}

fn is_plain(outcome: &Outcome) -> bool {
    matches!(outcome.effect, Effect::Nothing)
}

#[test]
fn up_enters_the_parent_and_forgets_the_query() {
    let mut app = app();
    let mut ui = ui_on("a");
    ui.query = "typed".to_string();
    let out = run(Action::Up, &mut app, &mut ui, facts(None));
    assert!(matches!(out.result, ActionResult::Navigated));
    assert!(is_plain(&out));
    assert_eq!(app.here, b("/home/me"));
    assert_eq!(ui.query, "");
    assert_eq!(app.dir_stack.len(), 1);
    // back leads where we came from
    let out = run(Action::DirBack, &mut app, &mut ui, facts(None));
    assert!(matches!(out.result, ActionResult::Navigated));
    assert_eq!(app.here, b("/home/me/work"));
    let out = run(Action::DirForward, &mut app, &mut ui, facts(None));
    assert!(matches!(out.result, ActionResult::Navigated));
    assert_eq!(app.here, b("/home/me"));
}

#[test]
fn back_and_forward_without_history_do_nothing() {
    let mut app = app();
    let mut ui = ui_on("a");
    let out = run(Action::DirBack, &mut app, &mut ui, facts(None));
    assert!(matches!(out.result, ActionResult::Ignored));
    assert_eq!(app.here, b("/home/me/work"));
    let out = run(Action::DirForward, &mut app, &mut ui, facts(None));
    assert!(matches!(out.result, ActionResult::Ignored));
    assert_eq!(app.dir_stack.len(), 0);
}

#[test]
fn down_enters_the_directory_under_the_cursor() {
    let mut app = app();
    let mut ui = ui_on("sub");
    let out =
        run(Action::Down, &mut app, &mut ui, facts(Some(cursor("sub", Some("/real/sub")))));
    assert!(matches!(out.result, ActionResult::Navigated));
    assert_eq!(app.here, b("/real/sub"));
    assert_eq!(app.dir_stack.len(), 1);
}

#[test]
fn down_on_a_file_enters_the_directory_that_holds_it() {
    let mut app = app();
    let mut ui = ui_on("deep/file");
    let mut known = cursor("deep/file", None);
    known.parent = Some(b("/home/me/work/deep"));
    let out = run(Action::Down, &mut app, &mut ui, facts(Some(known)));
    assert!(matches!(out.result, ActionResult::Navigated));
    assert_eq!(app.here, b("/home/me/work/deep"));
}

#[test]
fn down_without_a_row_does_nothing() {
    let mut app = app();
    let mut ui = Ui::new(String::new());
    let out = run(Action::Down, &mut app, &mut ui, facts(Some(cursor("x", Some("/x")))));
    assert!(matches!(out.result, ActionResult::Ignored));
    assert_eq!(app.here, b("/home/me/work"));
    let mut ui = ui_on("x");
    let out = run(Action::Down, &mut app, &mut ui, facts(None));
    assert!(matches!(out.result, ActionResult::Ignored));
}

#[test]
fn home_needs_a_home() {
    let mut app = app();
    let mut ui = ui_on("a");
    ui.query = "kept".to_string();
    let out = run(Action::Home, &mut app, &mut ui, facts(None));
    assert!(matches!(out.result, ActionResult::Navigated));
    assert_eq!(app.here, b("/home/me"));
    assert_eq!(ui.query, "kept");
    let mut homeless = facts(None);
    homeless.home = None;
    let err = handle_action(Action::Home, &mut app, &mut ui, homeless).err();
    assert_eq!(err, Some(ActionError::NoHome));
    assert_eq!(ActionError::NoHome.message(), "but you don't even have a home dir");
    assert_eq!(app.here, b("/home/me"));
}

#[test]
fn moves_are_noted_or_made() {
    let mut app = app();
    let mut ui = ui_on("a");
    let out = run(Action::MoveCursor(-3), &mut app, &mut ui, facts(None));
    assert!(matches!(out.result, ActionResult::Configured));
    assert_eq!(ui.cursor.pending_move, Some(-3));
    ui.preview_cursor = 10;
    let mut known = facts(None);
    known.preview_lines = Some(25);
    let out = run(Action::MovePreview(20), &mut app, &mut ui, known);
    assert!(matches!(out.result, ActionResult::Ignored));
    assert_eq!(ui.preview_cursor, 25);
    let out = run(Action::MovePreview(20), &mut app, &mut ui, facts(None));
    assert!(matches!(out.result, ActionResult::Ignored));
    assert_eq!(ui.preview_cursor, 45);
    run(Action::MovePreview(-100), &mut app, &mut ui, facts(None));
    assert_eq!(ui.preview_cursor, 0);
}

#[test]
fn switches_are_thrown() {
    let mut app = app();
    let mut ui = ui_on("a");
    assert!(matches!(
        run(Action::CycleHidden, &mut app, &mut ui, facts(None)).result,
        ActionResult::Navigated
    ));
    assert!(app.read_opts.show_hidden);
    run(Action::CycleHidden, &mut app, &mut ui, facts(None));
    assert!(!app.read_opts.show_hidden);
    run(Action::CycleIgnored, &mut app, &mut ui, facts(None));
    assert!(app.read_opts.show_ignored);
    assert!(matches!(
        run(Action::CycleRecursion, &mut app, &mut ui, facts(None)).result,
        ActionResult::Navigated
    ));
    assert_eq!(app.read_opts.recursion, Recursion::All);
    run(Action::CycleModeSkipping(vec![Mode::Mixed]), &mut app, &mut ui, facts(None));
    assert_eq!(app.read_opts.mode(), Mode::Files);
    run(Action::CycleModeSkipping(vec![Mode::Mixed]), &mut app, &mut ui, facts(None));
    assert_eq!(app.read_opts.mode(), Mode::Dirs);
    run(Action::CycleModeSkipping(vec![Mode::Mixed]), &mut app, &mut ui, facts(None));
    assert_eq!(app.read_opts.mode(), Mode::Files);
    assert!(matches!(
        run(Action::SetMode(Mode::Mixed), &mut app, &mut ui, facts(None)).result,
        ActionResult::Navigated
    ));
    assert_eq!(app.read_opts.mode(), Mode::Mixed);
}

#[test]
fn display_is_configured() {
    let mut app = app();
    let mut ui = ui_on("a");
    assert!(matches!(
        run(Action::TogglePreview, &mut app, &mut ui, facts(None)).result,
        ActionResult::Configured
    ));
    assert_eq!(app.view_opts.right_pane(), RightPane::Hidden);
    assert!(matches!(
        run(Action::TogglePreviewMode, &mut app, &mut ui, facts(None)).result,
        ActionResult::Configured
    ));
    assert_eq!(app.view_opts.preview_mode(), PreviewMode::GitLg);
    assert!(ui.preview_colours);
    assert!(matches!(
        run(Action::TogglePreviewColour, &mut app, &mut ui, facts(None)).result,
        ActionResult::Configured
    ));
    assert!(!ui.preview_colours);
    let out = run(Action::FocusGit, &mut app, &mut ui, facts(None));
    assert!(matches!(out.result, ActionResult::Ignored));
    assert!(matches!(out.effect, Effect::FocusGitLog));
    assert_eq!(app.view_opts.right_pane(), RightPane::InteractiveGitLog);
    let out = run(Action::CyclePalette, &mut app, &mut ui, facts(None));
    assert!(matches!(out.result, ActionResult::Ignored));
    assert!(matches!(out.effect, Effect::TogglePalette));
    let out = run(Action::SetTarget, &mut app, &mut ui, facts(None));
    assert!(matches!(out.result, ActionResult::Configured));
    assert_eq!(app.read_opts.target_dir, b("/home/me/work"));
}

#[test]
fn open_is_left_to_the_caller() {
    let mut app = app();
    let mut ui = ui_on("a.pdf");
    let out = run(Action::Open, &mut app, &mut ui, facts(Some(cursor("a.pdf", None))));
    assert!(matches!(out.result, ActionResult::Ignored));
    match out.effect {
        Effect::Open(path) => assert_eq!(path, b("/home/me/work/a.pdf")),
        _ => panic!("a path to open was expected"),
    }
    let mut ui = Ui::new(String::new());
    let out = run(Action::Open, &mut app, &mut ui, facts(None));
    assert!(is_plain(&out));
}

#[test]
fn expand_rescans_once() {
    let mut app = app();
    let mut ui = ui_on("sub");
    let out = run(Action::Expand, &mut app, &mut ui, facts(Some(cursor("sub", Some("/s")))));
    assert!(matches!(out.result, ActionResult::JustRescan));
    assert_eq!(app.read_opts.expansions, vec![b("/home/me/work/sub")]);
    let out = run(Action::Expand, &mut app, &mut ui, facts(Some(cursor("sub", Some("/s")))));
    assert!(matches!(out.result, ActionResult::Ignored));
    assert_eq!(app.read_opts.expansions.len(), 1);
    let out = run(Action::Expand, &mut app, &mut ui, facts(None));
    assert!(matches!(out.result, ActionResult::Ignored));
}

#[test]
fn selection_is_toggled_and_the_cursor_moves_on() {
    let mut app = app();
    let mut ui = ui_on("a");
    let out = run(Action::ToggleSelection, &mut app, &mut ui, facts(None));
    assert!(matches!(out.result, ActionResult::Configured));
    assert_eq!(ui.selected_items, vec![b("/home/me/work/a")]);
    assert_eq!(ui.cursor.pending_move, Some(1));
    ui.cursor_showing = ui_on("b").cursor_showing;
    run(Action::ToggleSelection, &mut app, &mut ui, facts(None));
    assert_eq!(ui.selected_items, vec![b("/home/me/work/a"), b("/home/me/work/b")]);
    ui.cursor_showing = ui_on("a").cursor_showing;
    run(Action::ToggleSelection, &mut app, &mut ui, facts(None));
    assert_eq!(ui.selected_items, vec![b("/home/me/work/b")]);
    ui.cursor_showing = None;
    run(Action::ToggleSelection, &mut app, &mut ui, facts(None));
    assert_eq!(ui.selected_items, vec![b("/home/me/work/b")]);
}

fn exit_of(out: Outcome) -> (Option<String>, bool) {
    match out.result {
        ActionResult::Exit(text, success) => (text, success),
        _ => panic!("the end was expected"),
    }
}

#[test]
fn activate_enters_chooses_or_marks() {
    // a directory is entered
    let mut app = app();
    let mut ui = ui_on("sub");
    ui.query = "su".to_string();
    let out = run(Action::Activate, &mut app, &mut ui, facts(Some(cursor("sub", Some("/s")))));
    assert!(matches!(out.result, ActionResult::Navigated));
    assert_eq!(app.here, b("/s"));
    assert_eq!(ui.query, "");
    // a file is chosen
    let mut app = self::app();
    let mut ui = ui_on("a.txt");
    let out = run(Action::Activate, &mut app, &mut ui, facts(Some(cursor("a.txt", None))));
    assert_eq!(exit_of(out), (Some("a.txt".to_string()), true));
    // with marks, the file is marked
    ui.selected_items.push(b("/home/me/work/other"));
    let out = run(Action::Activate, &mut app, &mut ui, facts(Some(cursor("a.txt", None))));
    assert!(matches!(out.result, ActionResult::Configured));
    assert_eq!(ui.selected_items.len(), 2);
    // without a row there is nothing to choose
    let mut ui = Ui::new(String::new());
    let out = run(Action::Activate, &mut app, &mut ui, facts(None));
    assert_eq!(exit_of(out), (None, false));
}

#[test]
fn accepting_prints_what_was_looked_up() {
    let mut app = app();
    let mut ui = ui_on("a");
    let out = run(Action::AcceptCurrentDirectory, &mut app, &mut ui, facts(None));
    assert_eq!(exit_of(out), (Some(".".to_string()), true));
    let out = run(Action::AcceptSelectedItems, &mut app, &mut ui, facts(None));
    assert!(matches!(out.result, ActionResult::Ignored));
    ui.selected_items = vec![b("/home/me/work/a"), b("/home/me/work/b")];
    let mut known = facts(None);
    known.selected_shown = vec!["a".to_string(), "b".to_string()];
    let out = run(Action::AcceptSelectedItems, &mut app, &mut ui, known);
    assert_eq!(exit_of(out), (Some("a\nb".to_string()), true));
    let out = run(Action::Abort, &mut app, &mut ui, facts(None));
    assert_eq!(exit_of(out), (None, false));
    let out = run(Action::Ignore, &mut app, &mut ui, facts(None));
    assert!(matches!(out.result, ActionResult::Ignored));
}
