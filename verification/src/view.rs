//! What the screen shows beside the listing, and in which preview mode.

use vstd::prelude::*;

verus! {

/// What the pane to the right of the listing holds.
#[derive(Copy, Clone, PartialEq, Eq, Structural, Debug)]
pub enum RightPane {
    Preview,
    Hidden,
    InteractiveGitLog,
}

/// How the entry under the cursor is previewed.
#[derive(Copy, Clone, PartialEq, Eq, Structural, Debug)]
pub enum PreviewMode {
    Content,
    GitLg,
    GitShow,
}

/// The display options. The right pane and the preview mode in use are the
/// first elements of their arrays; the other two follow in cycling order.
#[derive(Copy, Clone)]
pub struct ViewOpts {
    pub right_pane_mode: [RightPane; 3],
    pub preview_mode_flag: [PreviewMode; 3],
    pub log_pane: bool,
    pub git_info: bool,
    pub input_bottom: bool,
}

/// The right-pane cycle that starts with the preview showing.
pub fn right_pane_order() -> (order: [RightPane; 3])
    ensures
        order@ == seq![RightPane::Preview, RightPane::Hidden, RightPane::InteractiveGitLog],
{
    [RightPane::Preview, RightPane::Hidden, RightPane::InteractiveGitLog]
}

/// The right-pane cycle that starts with the pane hidden.
pub fn right_pane_order_hidden() -> (order: [RightPane; 3])
    ensures
        order@ == seq![RightPane::Hidden, RightPane::Preview, RightPane::InteractiveGitLog],
{
    [RightPane::Hidden, RightPane::Preview, RightPane::InteractiveGitLog]
}

/// The preview-mode cycle.
pub fn preview_mode_order() -> (order: [PreviewMode; 3])
    ensures
        order@ == seq![PreviewMode::Content, PreviewMode::GitLg, PreviewMode::GitShow],
{
    [PreviewMode::Content, PreviewMode::GitLg, PreviewMode::GitShow]
}

impl ViewOpts {
    /// The right pane in use.
    pub fn right_pane(&self) -> (pane: RightPane)
        ensures
            pane == self.right_pane_mode[0],
    {
        self.right_pane_mode[0]
    }

    /// The preview mode in use.
    pub fn preview_mode(&self) -> (mode: PreviewMode)
        ensures
            mode == self.preview_mode_flag[0],
    {
        self.preview_mode_flag[0]
    }

    /// Moves on to the next right pane of the cycle.
    pub fn toggle_right_pane(&mut self)
        ensures
            final(self).right_pane_mode@ == seq![
                old(self).right_pane_mode[1],
                old(self).right_pane_mode[2],
                old(self).right_pane_mode[0],
            ],
            final(self).preview_mode_flag == old(self).preview_mode_flag,
            final(self).log_pane == old(self).log_pane,
            final(self).git_info == old(self).git_info,
            final(self).input_bottom == old(self).input_bottom,
    {
        let m = self.right_pane_mode;
        self.right_pane_mode = [m[1], m[2], m[0]];
    }

    /// Moves on to the next preview mode of the cycle.
    pub fn toggle_preview_mode(&mut self)
        ensures
            final(self).preview_mode_flag@ == seq![
                old(self).preview_mode_flag[1],
                old(self).preview_mode_flag[2],
                old(self).preview_mode_flag[0],
            ],
            final(self).right_pane_mode == old(self).right_pane_mode,
            final(self).log_pane == old(self).log_pane,
            final(self).git_info == old(self).git_info,
            final(self).input_bottom == old(self).input_bottom,
    {
        let m = self.preview_mode_flag;
        self.preview_mode_flag = [m[1], m[2], m[0]];
    }
}

} // verus!
