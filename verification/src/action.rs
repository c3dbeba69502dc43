//! What a key press asks for, how it is named in the palette, and the
//! steps of carrying it out that need no look at the file system.

use vstd::prelude::*;
use vstd::string::StringExecFns;
use crate::view::{RightPane, ViewOpts};
use crate::walk::{mode_at, mode_index, Mode};

verus! {

/// What a key press asks for.
#[derive(Clone, PartialEq, Eq, Debug)]
pub enum Action {
    Activate,
    AcceptCurrentDirectory,
    AcceptSelectedItems,
    Ignore,
    Up,
    Down,
    Home,
    /// Moves the cursor by so many rows, towards the bottom of the screen
    /// where positive.
    MoveCursor(isize),
    MovePreview(isize),
    CyclePalette,
    CycleHidden,
    CycleIgnored,
    CycleModeSkipping(Vec<Mode>),
    SetMode(Mode),
    CycleRecursion,
    TogglePreview,
    TogglePreviewMode,
    TogglePreviewColour,
    ToggleSelection,
    SetTarget,
    Expand,
    Open,
    FocusGit,
    DirBack,
    DirForward,
    Abort,
}

/// What carrying out an action has led to.
pub enum ActionResult {
    /// Nothing that matters to the listing.
    Ignored,
    /// The directory or what is listed of it has changed: the state is
    /// cleared and the scan started anew.
    Navigated,
    /// What is scanned has changed: the scan is started anew, the state
    /// stays.
    JustRescan,
    /// The display has changed: nothing is scanned.
    Configured,
    /// The finder ends, with what it prints and whether it succeeded.
    Exit(Option<String>, bool),
}

/// The text of one digit.
fn digit_text(d: usize) -> (text: &'static str)
    requires
        d < 10,
    ensures
        text@ == seq![(48 + d) as u8 as char],
{
    proof {
        reveal_strlit("0");
        reveal_strlit("1");
        reveal_strlit("2");
        reveal_strlit("3");
        reveal_strlit("4");
        reveal_strlit("5");
        reveal_strlit("6");
        reveal_strlit("7");
        reveal_strlit("8");
        reveal_strlit("9");
    }
    let text = if d == 0 {
        "0"
    } else if d == 1 {
        "1"
    } else if d == 2 {
        "2"
    } else if d == 3 {
        "3"
    } else if d == 4 {
        "4"
    } else if d == 5 {
        "5"
    } else if d == 6 {
        "6"
    } else if d == 7 {
        "7"
    } else if d == 8 {
        "8"
    } else {
        "9"
    };
    proof {
        assert(text@ =~= seq![(48 + d) as u8 as char]);
    }
    text
}

/// `n` written to base ten.
pub open spec fn decimal_text(n: nat) -> Seq<char>
    decreases n,
{
    if n < 10 {
        seq![(48 + n) as u8 as char]
    } else {
        decimal_text(n / 10).push((48 + n % 10) as u8 as char)
    }
}

/// Writes `n` to base ten behind `text`.
fn append_decimal(text: &mut String, n: usize)
    ensures
        final(text)@ == old(text)@ + decimal_text(n as nat),
    decreases n,
{
    if n >= 10 {
        append_decimal(text, n / 10);
    }
    let ghost before = text@;
    text.append(digit_text(n % 10));
    proof {
        if n >= 10 {
            assert(text@ =~= old(text)@ + decimal_text((n / 10) as nat).push(
                (48 + n % 10) as u8 as char,
            ));
        } else {
            assert(text@ =~= old(text)@ + decimal_text(n as nat));
        }
    }
}

/// How a move by `delta` rows is named: the least and the greatest value
/// stand for the ends of the list.
pub open spec fn delta_text(delta: isize) -> Seq<char> {
    if delta == isize::MIN {
        "to start"@
    } else if delta == isize::MAX {
        "to end"@
    } else if delta < 0 {
        "up by "@ + decimal_text((-delta) as nat)
    } else {
        "down by "@ + decimal_text(delta as nat)
    }
}

/// Names a move by `delta` rows.
pub fn show_delta(delta: isize) -> (text: String)
    ensures
        text@ == delta_text(delta),
{
    if delta == isize::MIN {
        return "to start".to_owned();
    }
    if delta == isize::MAX {
        return "to end".to_owned();
    }
    let mut text: String = String::new();
    if delta < 0 {
        text.append("up by ");
        append_decimal(&mut text, (-delta) as usize);
    } else {
        text.append("down by ");
        append_decimal(&mut text, delta as usize);
    }
    text
}

/// What `convert_case` makes of `text` in its case `Lower`: the words of
/// the text in small letters, with a blank between each two.
pub uninterp spec fn lower_words(text: Seq<char>) -> Seq<char>;

/// `Casing::to_case` with `Case::Lower`.
#[verifier::external_body]
fn to_lower_words(text: &str) -> (lower: String)
    ensures
        lower@ == lower_words(text@),
{
    convert_case::Casing::to_case(&text, convert_case::Case::Lower)
}

/// The name of a mode as it is written in the program.
pub fn mode_name(mode: Mode) -> (name: &'static str)
    ensures
        name@ == match mode {
            Mode::Mixed => "Mixed"@,
            Mode::Files => "Files"@,
            Mode::Dirs => "Dirs"@,
        },
{
    match mode {
        Mode::Mixed => "Mixed",
        Mode::Files => "Files",
        Mode::Dirs => "Dirs",
    }
}

/// The names of `modes`, with a comma and a blank between each two.
pub open spec fn mode_list(modes: Seq<Mode>) -> Seq<char>
    decreases modes.len(),
{
    if modes.len() == 0 {
        Seq::empty()
    } else if modes.len() == 1 {
        mode_text(modes[0])
    } else {
        mode_list(modes.drop_last()) + ", "@ + mode_text(modes.last())
    }
}

/// The name of a mode as it is written in the program.
pub open spec fn mode_text(mode: Mode) -> Seq<char> {
    match mode {
        Mode::Mixed => "Mixed"@,
        Mode::Files => "Files"@,
        Mode::Dirs => "Dirs"@,
    }
}

/// An action as it is written in the program, where it is not a move.
pub open spec fn written(action: Action) -> Seq<char> {
    match action {
        Action::Activate => "Activate"@,
        Action::AcceptCurrentDirectory => "AcceptCurrentDirectory"@,
        Action::AcceptSelectedItems => "AcceptSelectedItems"@,
        Action::Ignore => "Ignore"@,
        Action::Up => "Up"@,
        Action::Down => "Down"@,
        Action::Home => "Home"@,
        Action::MoveCursor(_) => "MoveCursor"@,
        Action::MovePreview(_) => "MovePreview"@,
        Action::CyclePalette => "CyclePalette"@,
        Action::CycleHidden => "CycleHidden"@,
        Action::CycleIgnored => "CycleIgnored"@,
        Action::CycleModeSkipping(modes) => "CycleModeSkipping(["@ + mode_list(modes@) + "])"@,
        Action::SetMode(mode) => "SetMode("@ + mode_text(mode) + ")"@,
        Action::CycleRecursion => "CycleRecursion"@,
        Action::TogglePreview => "TogglePreview"@,
        Action::TogglePreviewMode => "TogglePreviewMode"@,
        Action::TogglePreviewColour => "TogglePreviewColour"@,
        Action::ToggleSelection => "ToggleSelection"@,
        Action::SetTarget => "SetTarget"@,
        Action::Expand => "Expand"@,
        Action::Open => "Open"@,
        Action::FocusGit => "FocusGit"@,
        Action::DirBack => "DirBack"@,
        Action::DirForward => "DirForward"@,
        Action::Abort => "Abort"@,
    }
}

/// Writes the names of `modes` with a comma and a blank between each two.
fn write_modes(modes: &Vec<Mode>) -> (text: String)
    ensures
        text@ == mode_list(modes@),
{
    let mut text: String = String::new();
    let mut i: usize = 0;
    while i < modes.len()
        invariant
            i <= modes@.len(),
            text@ == mode_list(modes@.take(i as int)),
        decreases modes@.len() - i,
    {
        proof {
            assert(modes@.take(i + 1).drop_last() =~= modes@.take(i as int));
            assert(modes@.take(i + 1).last() == modes@[i as int]);
            if i == 0 {
                assert(modes@.take(1)[0] == modes@[0]);
            }
        }
        if i > 0 {
            text.append(", ");
        }
        text.append(mode_name(modes[i]));
        proof {
            if i == 0 {
                assert(text@ =~= mode_text(modes@[0]));
            }
        }
        i = i + 1;
    }
    proof {
        assert(modes@.take(modes@.len() as int) =~= modes@);
    }
    text
}

impl Action {
    /// The action as it is written in the program, where it is not a move.
    pub fn as_written(&self) -> (text: String)
        ensures
            text@ == written(*self),
    {
        match self {
            Action::Activate => "Activate".to_owned(),
            Action::AcceptCurrentDirectory => "AcceptCurrentDirectory".to_owned(),
            Action::AcceptSelectedItems => "AcceptSelectedItems".to_owned(),
            Action::Ignore => "Ignore".to_owned(),
            Action::Up => "Up".to_owned(),
            Action::Down => "Down".to_owned(),
            Action::Home => "Home".to_owned(),
            Action::MoveCursor(_) => "MoveCursor".to_owned(),
            Action::MovePreview(_) => "MovePreview".to_owned(),
            Action::CyclePalette => "CyclePalette".to_owned(),
            Action::CycleHidden => "CycleHidden".to_owned(),
            Action::CycleIgnored => "CycleIgnored".to_owned(),
            Action::CycleModeSkipping(modes) => {
                let mut text: String = String::new();
                text.append("CycleModeSkipping([");
                let list = write_modes(modes);
                text.append(list.as_str());
                text.append("])");
                proof {
                    assert(text@ =~= "CycleModeSkipping(["@ + mode_list(modes@) + "])"@);
                }
                text
            },
            Action::SetMode(mode) => {
                let mut text: String = String::new();
                text.append("SetMode(");
                text.append(mode_name(*mode));
                text.append(")");
                proof {
                    assert(text@ =~= "SetMode("@ + mode_text(*mode) + ")"@);
                }
                text
            },
            Action::CycleRecursion => "CycleRecursion".to_owned(),
            Action::TogglePreview => "TogglePreview".to_owned(),
            Action::TogglePreviewMode => "TogglePreviewMode".to_owned(),
            Action::TogglePreviewColour => "TogglePreviewColour".to_owned(),
            Action::ToggleSelection => "ToggleSelection".to_owned(),
            Action::SetTarget => "SetTarget".to_owned(),
            Action::Expand => "Expand".to_owned(),
            Action::Open => "Open".to_owned(),
            Action::FocusGit => "FocusGit".to_owned(),
            Action::DirBack => "DirBack".to_owned(),
            Action::DirForward => "DirForward".to_owned(),
            Action::Abort => "Abort".to_owned(),
        }
    }

    /// The name of the action in the palette: a move says where it leads;
    /// every other action is named as it is written in the program, in
    /// small letters and with its words apart.
    pub fn name(&self) -> (name: String)
        ensures
            name@ == match *self {
                Action::MoveCursor(delta) => "move cursor "@ + delta_text(delta),
                Action::MovePreview(delta) => "move preview "@ + delta_text(delta),
                other => lower_words(written(other)),
            },
    {
        match self {
            Action::MoveCursor(delta) => {
                let mut name: String = String::new();
                name.append("move cursor ");
                name.append(show_delta(*delta).as_str());
                name
            },
            Action::MovePreview(delta) => {
                let mut name: String = String::new();
                name.append("move preview ");
                name.append(show_delta(*delta).as_str());
                name
            },
            other => to_lower_words(other.as_written().as_str()),
        }
    }
}

/// Whether `mode` is among `skipped`.
pub open spec fn is_skipped(skipped: Seq<Mode>, mode: Mode) -> bool {
    skipped.contains(mode)
}

/// The place in `modes` of the mode that follows the one at `index`, the
/// modes in `skipped` left out. Where all three are left out, the place
/// stays.
pub open spec fn next_mode_index(index: usize, skipped: Seq<Mode>) -> usize {
    let first = ((index + 1) % 3) as usize;
    let second = ((index + 2) % 3) as usize;
    let third = (index % 3) as usize;
    if !is_skipped(skipped, mode_at(first)) {
        first
    } else if !is_skipped(skipped, mode_at(second)) {
        second
    } else if !is_skipped(skipped, mode_at(third)) {
        third
    } else {
        index
    }
}

/// Whether `mode` is among `skipped`.
fn skips(skipped: &Vec<Mode>, mode: Mode) -> (yes: bool)
    ensures
        yes == is_skipped(skipped@, mode),
{
    let mut i: usize = 0;
    while i < skipped.len()
        invariant
            i <= skipped@.len(),
            forall|k: int| 0 <= k < i ==> skipped@[k] != mode,
        decreases skipped@.len() - i,
    {
        if skipped[i] == mode {
            return true;
        }
        i = i + 1;
    }
    false
}

/// Moves on to the next mode that is not left out.
pub fn cycle_mode_skipping(index: usize, skipped: &Vec<Mode>) -> (next: usize)
    requires
        index < 3,
    ensures
        next == next_mode_index(index, skipped@),
        next < 3,
{
    let first: usize = (index + 1) % 3;
    let second: usize = (index + 2) % 3;
    let modes = crate::walk::modes();
    if !skips(skipped, modes[first]) {
        first
    } else if !skips(skipped, modes[second]) {
        second
    } else {
        index
    }
}

/// Where the preview is scrolled to after a move by `delta` lines: not
/// above its first line, and not below line `max`.
pub open spec fn scrolled(cursor: usize, delta: isize, max: usize) -> usize {
    if cursor + delta < 0 {
        0
    } else if cursor + delta > max {
        max
    } else {
        (cursor + delta) as usize
    }
}

/// Scrolls the preview by `delta` lines.
pub fn move_preview_cursor(cursor: usize, delta: isize, max: usize) -> (to: usize)
    ensures
        to == scrolled(cursor, delta, max),
{
    let target: i128 = cursor as i128 + delta as i128;
    if target < 0 {
        0
    } else if target > max as i128 {
        max
    } else {
        target as usize
    }
}

/// Brings the log of the repository to the front of the right panes,
/// the order of the cycle kept. A cycle without it stays as it is.
pub fn focus_git(view_opts: &mut ViewOpts)
    ensures
        final(view_opts).preview_mode_flag == old(view_opts).preview_mode_flag,
        final(view_opts).log_pane == old(view_opts).log_pane,
        final(view_opts).git_info == old(view_opts).git_info,
        final(view_opts).input_bottom == old(view_opts).input_bottom,
        ({
            let before = old(view_opts).right_pane_mode@;
            let after = final(view_opts).right_pane_mode@;
            if before[0] == RightPane::InteractiveGitLog {
                after == before
            } else if before[1] == RightPane::InteractiveGitLog {
                after == seq![before[1], before[2], before[0]]
            } else if before[2] == RightPane::InteractiveGitLog {
                after == seq![before[2], before[0], before[1]]
            } else {
                after == before
            }
        }),
{
    let m = view_opts.right_pane_mode;
    if m[0] == RightPane::InteractiveGitLog {
    } else if m[1] == RightPane::InteractiveGitLog {
        view_opts.right_pane_mode = [m[1], m[2], m[0]];
    } else if m[2] == RightPane::InteractiveGitLog {
        view_opts.right_pane_mode = [m[2], m[0], m[1]];
    }
}

} // verus!
