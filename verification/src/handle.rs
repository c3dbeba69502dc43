//! Carrying out what a key press asks for. What must be looked up in the
//! file system or the environment is looked up by the caller beforehand
//! and handed in; what must be done there is handed back for the caller to
//! do.

use vstd::prelude::*;
use crate::action::{
    cycle_mode_skipping, focus_git, move_preview_cursor, next_mode_index, scrolled, Action,
    ActionResult,
};
use crate::bytes::copy_bytes;
use crate::comms::{join, joined, texts};
use crate::dir_stack::{current_of, pushed, stepped_back, stepped_forward, DirStack};
use crate::ui_state::{marked, query_set, showing_path, toggled, Cursor, Ui};
use crate::view::{RightPane, ViewOpts};
use crate::walk::{mode_at, mode_index, paths, ReadOpts, Recursion};
use crate::ResultOpts;

verus! {

/// Where the finder stands and how it is set up.
pub struct App {
    /// The directory that is listed.
    pub here: Vec<u8>,
    pub dir_stack: DirStack,
    pub read_opts: ReadOpts,
    pub view_opts: ViewOpts,
    pub result_opts: ResultOpts,
}

/// What was found out about the row under the cursor.
pub struct CursorFacts {
    /// Its path, seen from the directory listed.
    pub joined: Vec<u8>,
    /// The directory that the path leads to, resolved, if it leads to
    /// one.
    pub dir: Option<Vec<u8>>,
    /// The directory that holds the path, if there is one.
    pub parent: Option<Vec<u8>>,
    /// The path as it is printed when it is chosen.
    pub shown: String,
}

/// What the caller has looked up for an action.
pub struct Facts {
    /// The directory above the one listed.
    pub parent: Vec<u8>,
    /// What is known of the row under the cursor, if it has a path.
    pub cursor: Option<CursorFacts>,
    /// The home directory, if there is one.
    pub home: Option<Vec<u8>>,
    /// The number of lines of the preview that is shown, if it is
    /// rendered.
    pub preview_lines: Option<usize>,
    /// The directory listed, as it is printed when it is chosen.
    pub here_shown: String,
    /// The marked paths, as they are printed when they are chosen.
    pub selected_shown: Vec<String>,
}

/// What is left for the caller to do.
pub enum Effect {
    Nothing,
    /// Have the desktop open this path.
    Open(Vec<u8>),
    /// Show the palette, or hide it.
    TogglePalette,
    /// Let the keys go to the log of the repository.
    FocusGitLog,
}

/// What an action has led to, and what is left to do.
pub struct Outcome {
    pub result: ActionResult,
    pub effect: Effect,
}

/// Why an action could not be carried out.
#[derive(Copy, Clone, PartialEq, Eq, Structural, Debug)]
pub enum ActionError {
    /// There is no home directory to go to.
    NoHome,
}

impl ActionError {
    /// The error in words.
    pub fn message(&self) -> (text: &'static str)
        ensures
            text@ == "but you don't even have a home dir"@,
    {
        "but you don't even have a home dir"
    }
}

/// `ActionResult`, as the contracts see it.
pub enum Verdict {
    Ignored,
    Navigated,
    JustRescan,
    Configured,
    Exit(Option<Seq<char>>, bool),
}

/// `Effect`, as the contracts see it.
pub enum EffectView {
    Nothing,
    Open(Seq<u8>),
    TogglePalette,
    FocusGitLog,
}

/// What `result` says, as the contracts see it.
pub open spec fn verdict(result: ActionResult) -> Verdict {
    match result {
        ActionResult::Ignored => Verdict::Ignored,
        ActionResult::Navigated => Verdict::Navigated,
        ActionResult::JustRescan => Verdict::JustRescan,
        ActionResult::Configured => Verdict::Configured,
        ActionResult::Exit(Some(text), success) => Verdict::Exit(Some(text@), success),
        ActionResult::Exit(None, success) => Verdict::Exit(None, success),
    }
}

/// What `effect` asks for, as the contracts see it.
pub open spec fn effect_view(effect: Effect) -> EffectView {
    match effect {
        Effect::Nothing => EffectView::Nothing,
        Effect::Open(path) => EffectView::Open(path@),
        Effect::TogglePalette => EffectView::TogglePalette,
        Effect::FocusGitLog => EffectView::FocusGitLog,
    }
}

/// The action went through with this verdict and this effect.
pub open spec fn led_to(out: Result<Outcome, ActionError>, v: Verdict, e: EffectView) -> bool {
    out matches Ok(o) && verdict(o.result) == v && effect_view(o.effect) == e
}

/// The action went through with this verdict, and nothing is left to do.
pub open spec fn plain(out: Result<Outcome, ActionError>, v: Verdict) -> bool {
    led_to(out, v, EffectView::Nothing)
}

/// The directory `dir` was entered: the one that was listed is on the
/// stack, and `dir` is listed.
pub open spec fn entered(before: App, dir: Seq<u8>, after: App) -> bool {
    &&& after.here@ == dir
    &&& after.dir_stack@ == pushed(before.dir_stack@, before.here@)
    &&& after == (App { here: after.here, dir_stack: after.dir_stack, ..before })
}

/// What is known of the row under the cursor, where it has a path and
/// the caller has looked it up.
pub open spec fn cursor_facts(ui: Ui, facts: Facts) -> Option<CursorFacts> {
    if showing_path(ui.cursor_showing) is Some {
        facts.cursor
    } else {
        None
    }
}

/// Where `Down` leads: into the directory under the cursor, or, where the
/// row under the cursor is none, to the directory that holds it.
pub open spec fn down_target(ui: Ui, facts: Facts) -> Option<Seq<u8>> {
    match cursor_facts(ui, facts) {
        Some(c) => match c.dir {
            Some(dir) => Some(dir@),
            None => match c.parent {
                Some(parent) => Some(parent@),
                None => None,
            },
        },
        None => None,
    }
}

/// The mark under the cursor was toggled, and the cursor is to go down
/// by one.
pub open spec fn selection_toggled(before: Ui, after: Ui) -> bool {
    &&& marked(after.selected_items@) == match showing_path(before.cursor_showing) {
        Some(path) => toggled(marked(before.selected_items@), path),
        None => marked(before.selected_items@),
    }
    &&& after.cursor.pending_move == Some(1isize)
    &&& after.cursor.last_pos == before.cursor.last_pos
    &&& after == (Ui { selected_items: after.selected_items, cursor: after.cursor, ..before })
}

/// The right panes after the log of the repository was brought to the
/// front.
pub open spec fn git_in_front(before: Seq<RightPane>) -> Seq<RightPane> {
    if before[0] == RightPane::InteractiveGitLog {
        before
    } else if before[1] == RightPane::InteractiveGitLog {
        seq![before[1], before[2], before[0]]
    } else if before[2] == RightPane::InteractiveGitLog {
        seq![before[2], before[0], before[1]]
    } else {
        before
    }
}

/// What `handle_action` makes of the finder and the screen, and what it
/// answers.
pub open spec fn is_handled(
    action: Action,
    facts: Facts,
    app: App,
    ui: Ui,
    app_after: App,
    ui_after: Ui,
    out: Result<Outcome, ActionError>,
) -> bool {
    let same = app_after == app && ui_after == ui;
    let none = Seq::<char>::empty();
    match action {
        Action::Ignore => same && plain(out, Verdict::Ignored),
        Action::Abort => same && plain(out, Verdict::Exit(None, false)),
        Action::Up => {
            &&& query_set(ui, none, ui_after)
            &&& entered(app, facts.parent@, app_after)
            &&& plain(out, Verdict::Navigated)
        },
        Action::Down => match down_target(ui, facts) {
            Some(dir) => {
                &&& query_set(ui, none, ui_after)
                &&& entered(app, dir, app_after)
                &&& plain(out, Verdict::Navigated)
            },
            None => same && plain(out, Verdict::Ignored),
        },
        Action::Home => {
            &&& ui_after == ui
            &&& match facts.home {
                Some(home) => entered(app, home@, app_after) && plain(out, Verdict::Navigated),
                None => {
                    &&& entered(app, app.here@, app_after)
                    &&& out == Err::<Outcome, ActionError>(ActionError::NoHome)
                },
            }
        },
        Action::MoveCursor(delta) => {
            &&& app_after == app
            &&& ui_after == (Ui {
                cursor: Cursor { pending_move: Some(delta), ..ui.cursor },
                ..ui
            })
            &&& plain(out, Verdict::Configured)
        },
        Action::MovePreview(delta) => {
            &&& app_after == app
            &&& ui_after == (Ui {
                preview_cursor: scrolled(
                    ui.preview_cursor,
                    delta,
                    match facts.preview_lines {
                        Some(lines) => lines,
                        None => usize::MAX,
                    },
                ),
                ..ui
            })
            &&& plain(out, Verdict::Ignored)
        },
        Action::CyclePalette => same && led_to(out, Verdict::Ignored, EffectView::TogglePalette),
        Action::CycleHidden => {
            &&& ui_after == ui
            &&& app_after == (App {
                read_opts: ReadOpts { show_hidden: !app.read_opts.show_hidden, ..app.read_opts },
                ..app
            })
            &&& plain(out, Verdict::Navigated)
        },
        Action::CycleIgnored => {
            &&& ui_after == ui
            &&& app_after == (App {
                read_opts: ReadOpts { show_ignored: !app.read_opts.show_ignored, ..app.read_opts },
                ..app
            })
            &&& plain(out, Verdict::Navigated)
        },
        Action::CycleModeSkipping(skipped) => {
            &&& ui_after == ui
            &&& app_after == (App {
                read_opts: ReadOpts {
                    mode_index: next_mode_index(app.read_opts.mode_index, skipped@),
                    ..app.read_opts
                },
                ..app
            })
            &&& plain(out, Verdict::Navigated)
        },
        Action::SetMode(mode) => {
            &&& ui_after == ui
            &&& mode_at(app_after.read_opts.mode_index) == mode
            &&& app_after.read_opts.mode_index < 3
            &&& app_after == (App {
                read_opts: ReadOpts {
                    mode_index: app_after.read_opts.mode_index,
                    ..app.read_opts
                },
                ..app
            })
            &&& plain(out, Verdict::Navigated)
        },
        Action::CycleRecursion => {
            &&& ui_after == ui
            &&& app_after == (App {
                read_opts: ReadOpts {
                    recursion: match app.read_opts.recursion {
                        Recursion::Flat => Recursion::All,
                        Recursion::All => Recursion::Flat,
                    },
                    ..app.read_opts
                },
                ..app
            })
            &&& plain(out, Verdict::Navigated)
        },
        Action::FocusGit => {
            &&& ui_after == ui
            &&& app_after.view_opts.right_pane_mode@ == git_in_front(
                app.view_opts.right_pane_mode@,
            )
            &&& app_after == (App {
                view_opts: ViewOpts {
                    right_pane_mode: app_after.view_opts.right_pane_mode,
                    ..app.view_opts
                },
                ..app
            })
            &&& led_to(out, Verdict::Ignored, EffectView::FocusGitLog)
        },
        Action::TogglePreview => {
            &&& ui_after == ui
            &&& app_after.view_opts.right_pane_mode@ == seq![
                app.view_opts.right_pane_mode[1],
                app.view_opts.right_pane_mode[2],
                app.view_opts.right_pane_mode[0],
            ]
            &&& app_after == (App {
                view_opts: ViewOpts {
                    right_pane_mode: app_after.view_opts.right_pane_mode,
                    ..app.view_opts
                },
                ..app
            })
            &&& plain(out, Verdict::Configured)
        },
        Action::TogglePreviewMode => {
            &&& ui_after == ui
            &&& app_after.view_opts.preview_mode_flag@ == seq![
                app.view_opts.preview_mode_flag[1],
                app.view_opts.preview_mode_flag[2],
                app.view_opts.preview_mode_flag[0],
            ]
            &&& app_after == (App {
                view_opts: ViewOpts {
                    preview_mode_flag: app_after.view_opts.preview_mode_flag,
                    ..app.view_opts
                },
                ..app
            })
            &&& plain(out, Verdict::Configured)
        },
        Action::TogglePreviewColour => {
            &&& app_after == app
            &&& ui_after == (Ui { preview_colours: !ui.preview_colours, ..ui })
            &&& plain(out, Verdict::Configured)
        },
        Action::ToggleSelection => {
            &&& app_after == app
            &&& selection_toggled(ui, ui_after)
            &&& plain(out, Verdict::Configured)
        },
        Action::SetTarget => {
            &&& ui_after == ui
            &&& app_after.read_opts.target_dir@ == app.here@
            &&& app_after == (App {
                read_opts: ReadOpts {
                    target_dir: app_after.read_opts.target_dir,
                    ..app.read_opts
                },
                ..app
            })
            &&& plain(out, Verdict::Configured)
        },
        Action::Open => {
            &&& same
            &&& match cursor_facts(ui, facts) {
                Some(c) => led_to(out, Verdict::Ignored, EffectView::Open(c.joined@)),
                None => plain(out, Verdict::Ignored),
            }
        },
        Action::Expand => {
            &&& ui_after == ui
            &&& match cursor_facts(ui, facts) {
                Some(c) => if paths(app.read_opts.expansions@).contains(c.joined@) {
                    app_after == app && plain(out, Verdict::Ignored)
                } else {
                    &&& paths(app_after.read_opts.expansions@) == paths(
                        app.read_opts.expansions@,
                    ).push(c.joined@)
                    &&& app_after == (App {
                        read_opts: ReadOpts {
                            expansions: app_after.read_opts.expansions,
                            ..app.read_opts
                        },
                        ..app
                    })
                    &&& plain(out, Verdict::JustRescan)
                },
                None => app_after == app && plain(out, Verdict::Ignored),
            }
        },
        Action::DirBack => {
            &&& ui_after == ui
            &&& if app.dir_stack@.entries.len() == 0 {
                &&& app_after.dir_stack@ == app.dir_stack@
                &&& app_after.here == app.here
                &&& plain(out, Verdict::Ignored)
            } else {
                &&& app_after.dir_stack@ == stepped_back(app.dir_stack@, app.here@)
                &&& app_after.here@ == current_of(app_after.dir_stack@)
                &&& plain(out, Verdict::Navigated)
            }
            &&& app_after == (App { here: app_after.here, dir_stack: app_after.dir_stack, ..app })
        },
        Action::DirForward => {
            &&& ui_after == ui
            &&& if app.dir_stack@.entries.len() == 0 {
                &&& app_after.dir_stack@ == app.dir_stack@
                &&& app_after.here == app.here
                &&& plain(out, Verdict::Ignored)
            } else {
                &&& app_after.dir_stack@ == stepped_forward(app.dir_stack@)
                &&& app_after.here@ == current_of(app_after.dir_stack@)
                &&& plain(out, Verdict::Navigated)
            }
            &&& app_after == (App { here: app_after.here, dir_stack: app_after.dir_stack, ..app })
        },
        Action::Activate => match cursor_facts(ui, facts) {
            None => same && plain(out, Verdict::Exit(None, false)),
            Some(c) => match c.dir {
                Some(dir) => {
                    &&& query_set(ui, none, ui_after)
                    &&& entered(app, dir@, app_after)
                    &&& plain(out, Verdict::Navigated)
                },
                None => if ui.selected_items@.len() > 0 {
                    &&& app_after == app
                    &&& selection_toggled(ui, ui_after)
                    &&& plain(out, Verdict::Configured)
                } else {
                    same && plain(out, Verdict::Exit(Some(c.shown@), true))
                },
            },
        },
        Action::AcceptSelectedItems => {
            &&& same
            &&& if ui.selected_items@.len() > 0 {
                plain(out, Verdict::Exit(Some(joined(texts(facts.selected_shown@), "\n"@)), true))
            } else {
                plain(out, Verdict::Ignored)
            }
        },
        Action::AcceptCurrentDirectory => {
            &&& same
            &&& plain(out, Verdict::Exit(Some(facts.here_shown@), true))
        },
    }
}

/// An outcome with nothing left to do.
fn done(result: ActionResult) -> (out: Result<Outcome, ActionError>)
    ensures
        plain(out, verdict(result)),
{
    Ok(Outcome { result, effect: Effect::Nothing })
}

/// Enters `dir`: what was typed is forgotten where `reset` says so, the
/// directory that was listed goes on the stack, and `dir` is listed.
fn enter(app: &mut App, ui: &mut Ui, dir: Vec<u8>, reset: bool)
    requires
        old(app).dir_stack.wf(),
    ensures
        final(app).dir_stack.wf(),
        entered(*old(app), dir@, *final(app)),
        reset ==> query_set(*old(ui), Seq::<char>::empty(), *final(ui)),
        !reset ==> *final(ui) == *old(ui),
{
    if reset {
        ui.set_query(String::new());
    }
    app.dir_stack.push(copy_bytes(app.here.as_slice()));
    app.here = dir;
}

/// Toggles the mark under the cursor and asks for the cursor to go down
/// by one.
fn toggle_and_move(ui: &mut Ui)
    ensures
        selection_toggled(*old(ui), *final(ui)),
{
    ui.toggle_selection();
    ui.cursor.pending_move = Some(1);
}

/// Carries out `action` on the finder and the screen, with what the
/// caller has looked up in `facts`, and says what has come of it and what
/// is left for the caller to do.
pub fn handle_action(action: Action, app: &mut App, ui: &mut Ui, facts: Facts) -> (out: Result<
    Outcome,
    ActionError,
>)
    requires
        old(app).dir_stack.wf(),
        old(app).read_opts.wf(),
    ensures
        final(app).dir_stack.wf(),
        final(app).read_opts.wf(),
        is_handled(action, facts, *old(app), *old(ui), *final(app), *final(ui), out),
{
    let has_path: bool = ui.cursor_showing_path().is_some();
    let Facts { parent, cursor, home, preview_lines, here_shown, selected_shown } = facts;
    let cursor: Option<CursorFacts> = if has_path {
        cursor
    } else {
        None
    };
    match action {
        Action::Ignore => done(ActionResult::Ignored),
        Action::Abort => done(ActionResult::Exit(None, false)),
        Action::Up => {
            enter(app, ui, parent, true);
            done(ActionResult::Navigated)
        },
        Action::Down => {
            let target: Option<Vec<u8>> = match cursor {
                Some(c) => match c.dir {
                    Some(dir) => Some(dir),
                    None => c.parent,
                },
                None => None,
            };
            match target {
                Some(dir) => {
                    enter(app, ui, dir, true);
                    done(ActionResult::Navigated)
                },
                None => done(ActionResult::Ignored),
            }
        },
        Action::Home => match home {
            Some(home) => {
                enter(app, ui, home, false);
                done(ActionResult::Navigated)
            },
            None => {
                let here: Vec<u8> = copy_bytes(app.here.as_slice());
                enter(app, ui, here, false);
                Err(ActionError::NoHome)
            },
        },
        Action::MoveCursor(delta) => {
            ui.cursor.pending_move = Some(delta);
            done(ActionResult::Configured)
        },
        Action::MovePreview(delta) => {
            let max: usize = match preview_lines {
                Some(lines) => lines,
                None => usize::MAX,
            };
            ui.preview_cursor = move_preview_cursor(ui.preview_cursor, delta, max);
            done(ActionResult::Ignored)
        },
        Action::CyclePalette => Ok(
            Outcome { result: ActionResult::Ignored, effect: Effect::TogglePalette },
        ),
        Action::CycleHidden => {
            app.read_opts.show_hidden = !app.read_opts.show_hidden;
            done(ActionResult::Navigated)
        },
        Action::CycleIgnored => {
            app.read_opts.show_ignored = !app.read_opts.show_ignored;
            done(ActionResult::Navigated)
        },
        Action::CycleModeSkipping(skipped) => {
            app.read_opts.mode_index = cycle_mode_skipping(app.read_opts.mode_index, &skipped);
            done(ActionResult::Navigated)
        },
        Action::SetMode(mode) => {
            app.read_opts.mode_index = mode_index(mode);
            done(ActionResult::Navigated)
        },
        Action::CycleRecursion => {
            app.read_opts.recursion = app.read_opts.recursion.next();
            done(ActionResult::Navigated)
        },
        Action::FocusGit => {
            focus_git(&mut app.view_opts);
            Ok(Outcome { result: ActionResult::Ignored, effect: Effect::FocusGitLog })
        },
        Action::TogglePreview => {
            app.view_opts.toggle_right_pane();
            done(ActionResult::Configured)
        },
        Action::TogglePreviewMode => {
            app.view_opts.toggle_preview_mode();
            done(ActionResult::Configured)
        },
        Action::TogglePreviewColour => {
            ui.preview_colours = !ui.preview_colours;
            done(ActionResult::Configured)
        },
        Action::ToggleSelection => {
            toggle_and_move(ui);
            done(ActionResult::Configured)
        },
        Action::SetTarget => {
            app.read_opts.target_dir = copy_bytes(app.here.as_slice());
            done(ActionResult::Configured)
        },
        Action::Open => match cursor {
            Some(c) => Ok(Outcome { result: ActionResult::Ignored, effect: Effect::Open(c.joined) }),
            None => done(ActionResult::Ignored),
        },
        Action::Expand => match cursor {
            Some(c) => {
                if app.read_opts.expand(c.joined) {
                    done(ActionResult::JustRescan)
                } else {
                    done(ActionResult::Ignored)
                }
            },
            None => done(ActionResult::Ignored),
        },
        Action::DirBack => {
            let here: Vec<u8> = copy_bytes(app.here.as_slice());
            match app.dir_stack.back(here) {
                Some(dir) => {
                    app.here = dir;
                    done(ActionResult::Navigated)
                },
                None => done(ActionResult::Ignored),
            }
        },
        Action::DirForward => match app.dir_stack.forward() {
            Some(dir) => {
                app.here = dir;
                done(ActionResult::Navigated)
            },
            None => done(ActionResult::Ignored),
        },
        Action::Activate => match cursor {
            None => done(ActionResult::Exit(None, false)),
            Some(c) => match c.dir {
                Some(dir) => {
                    enter(app, ui, dir, true);
                    done(ActionResult::Navigated)
                },
                None => {
                    if ui.selected_items.len() > 0 {
                        toggle_and_move(ui);
                        done(ActionResult::Configured)
                    } else {
                        done(ActionResult::Exit(Some(c.shown), true))
                    }
                },
            },
        },
        Action::AcceptSelectedItems => {
            if ui.selected_items.len() > 0 {
                done(ActionResult::Exit(Some(join(&selected_shown, "\n")), true))
            } else {
                done(ActionResult::Ignored)
            }
        },
        Action::AcceptCurrentDirectory => done(ActionResult::Exit(Some(here_shown), true)),
    }
}

} // verus!
