//! The state that the screen keeps between frames, and the preview jobs
//! that it starts.

use vstd::prelude::*;
use crate::bytes::{bytes_eq, copy_bytes};
use crate::item::{Item, ItemView};
use crate::preview::{is_for, let_in, shows, PreviewView, Previews, RING_CAPACITY};
use crate::snapped::SortedItems;
use crate::view::{PreviewMode, RightPane, ViewOpts};

verus! {

/// Where the cursor was last drawn, and a move that is still to be made.
pub struct Cursor {
    pub last_pos: u32,
    /// Rows to move by, down where positive. The least and the greatest
    /// value stand for the first and the last row.
    pub pending_move: Option<isize>,
}

impl Default for Cursor {
    fn default() -> (c: Self)
        ensures
            c.last_pos == 0,
            c.pending_move is None,
    {
        Cursor { last_pos: 0, pending_move: None }
    }
}

/// A rectangle of the screen, in cells.
#[derive(Copy, Clone, PartialEq, Eq, Structural, Debug)]
pub struct URect {
    pub x: usize,
    pub y: usize,
    pub width: usize,
    pub height: usize,
}

/// Preview heights are rounded up to the next multiple of this, so that a
/// pane that grows by a line, or a preview that is scrolled, does not ask
/// for a new rendering.
pub const BREAKPOINT: usize = 400;

/// What the screen shows and where its cursor stands.
pub struct Ui {
    /// The text of the query.
    pub query: String,
    /// The place among the matches of the first row on the screen.
    pub view_start: u32,
    pub cursor: Cursor,
    /// The row that the cursor was last drawn on.
    pub cursor_showing: Option<Item>,
    pub prompt: String,
    /// Whether a scan or a preview job is running.
    pub active: bool,
    pub sorted_items: SortedItems,
    pub previews: Previews,
    /// How many lines the preview is scrolled by.
    pub preview_cursor: usize,
    pub preview_colours: bool,
    /// The paths that were marked, in the order in which they were
    /// marked, none of them twice.
    pub selected_items: Vec<Vec<u8>>,
}

/// What setting the query to `text` makes of `before`: where the text is
/// new, the arrangement of the listing is forgotten.
pub open spec fn query_set(before: Ui, text: Seq<char>, after: Ui) -> bool {
    &&& after.query@ == text
    &&& if text != before.query@ {
        after.sorted_items.items@.len() == 0 && after.sorted_items.until == 0
    } else {
        after.sorted_items == before.sorted_items
    }
    &&& after == (Ui { query: after.query, sorted_items: after.sorted_items, ..before })
}

/// The paths in `s`, each as its bytes.
pub open spec fn marked(s: Seq<Vec<u8>>) -> Seq<Seq<u8>> {
    Seq::new(s.len(), |i: int| s[i]@)
}

/// `paths` without the first of them that is `path`.
pub open spec fn unmarked(paths: Seq<Seq<u8>>, path: Seq<u8>) -> Seq<Seq<u8>>
    decreases paths.len(),
{
    if paths.len() == 0 {
        paths
    } else if paths[0] == path {
        paths.drop_first()
    } else {
        seq![paths[0]] + unmarked(paths.drop_first(), path)
    }
}

/// The marked paths after the mark of `path` was toggled: the path is
/// taken out where it was marked, and put behind the others where not.
pub open spec fn toggled(paths: Seq<Seq<u8>>, path: Seq<u8>) -> Seq<Seq<u8>> {
    if paths.contains(path) {
        unmarked(paths, path)
    } else {
        paths.push(path)
    }
}

proof fn lemma_unmarked_at(paths: Seq<Seq<u8>>, path: Seq<u8>, at: int)
    requires
        0 <= at < paths.len(),
        paths[at] == path,
        forall|k: int| 0 <= k < at ==> paths[k] != path,
    ensures
        unmarked(paths, path) == paths.take(at) + paths.skip(at + 1),
    decreases at,
{
    if at == 0 {
        assert(paths.take(0) + paths.skip(1) =~= paths.drop_first());
    } else {
        let rest = paths.drop_first();
        assert forall|k: int| 0 <= k < at - 1 implies rest[k] != path by {
            assert(rest[k] == paths[k + 1]);
        }
        lemma_unmarked_at(rest, path, at - 1);
        assert(seq![paths[0]] + (rest.take(at - 1) + rest.skip(at)) =~= paths.take(at) + paths.skip(
            at + 1,
        ));
    }
}

/// Twice the lines of a pane of `height` lines and the lines that the
/// preview is scrolled by, rounded up to the next multiple of `BREAKPOINT`
/// beyond them.
pub open spec fn quantized_height(height: nat, scrolled: nat) -> nat {
    (((height * 2 + scrolled) / (BREAKPOINT as nat) + 1) * BREAKPOINT) as nat
}

/// The height that a preview is rendered for where the pane has `height`
/// lines and the preview is scrolled by `scrolled`: `quantized_height`, or
/// the greatest height there is where that cannot be held.
pub open spec fn rendered_height(height: usize, scrolled: usize) -> usize {
    if quantized_height(height as nat, scrolled as nat) <= usize::MAX {
        quantized_height(height as nat, scrolled as nat) as usize
    } else {
        usize::MAX
    }
}

/// The height that a preview is rendered for.
pub fn quantize(height: usize, scrolled: usize) -> (rounded: usize)
    ensures
        rounded == rendered_height(height, scrolled),
{
    let proposal: u128 = height as u128 * 2 + scrolled as u128;
    let rounded: u128 = (proposal / (BREAKPOINT as u128) + 1) * (BREAKPOINT as u128);
    if rounded <= usize::MAX as u128 {
        rounded as usize
    } else {
        usize::MAX
    }
}

/// The path of the row under the cursor, if it has one.
pub open spec fn showing_path(showing: Option<Item>) -> Option<Seq<u8>> {
    match showing {
        Some(item) => match item@ {
            ItemView::FileEntry { info, .. } => Some(info.path),
            ItemView::WalkError { .. } => None,
        },
        None => None,
    }
}

/// Whether `ring` holds a job for this path, area, mode and colouring.
pub open spec fn holds_job(
    ring: Seq<PreviewView>,
    showing: Seq<u8>,
    area: URect,
    mode: PreviewMode,
    coloured: bool,
) -> bool {
    exists|i: int| 0 <= i < ring.len() && is_for(#[trigger] ring[i], showing, area, mode, coloured)
}

/// How many commits of a log are read for a pane of `height` lines: four
/// for each line, as far as the number can be held.
pub open spec fn log_budget(height: usize) -> usize {
    if height * 4 > usize::MAX {
        usize::MAX
    } else {
        (height * 4) as usize
    }
}

/// A rendering that a worker is to be started for.
pub struct PreviewJob {
    pub job: u64,
    pub path: Vec<u8>,
    pub coloured: bool,
    pub mode: PreviewMode,
    pub area: URect,
}

/// What is to be done for the right pane.
pub enum PaneAction {
    Nothing,
    /// Start a worker that renders this preview.
    Render(PreviewJob),
    /// Have the log of `path` read, `max_count` commits at most, unless it
    /// was asked for before.
    GitLog { path: Vec<u8>, max_count: usize },
}

impl Ui {
    /// The screen as it is when the finder starts.
    pub fn new(prompt: String) -> (ui: Ui)
        ensures
            ui.query@.len() == 0,
            ui.view_start == 0,
            ui.cursor.last_pos == 0,
            ui.cursor.pending_move is None,
            ui.cursor_showing is None,
            ui.prompt == prompt,
            ui.active,
            ui.sorted_items.items@.len() == 0,
            ui.sorted_items.until == 0,
            ui.previews.wf(),
            ui.previews.entries().len() == 0,
            ui.preview_cursor == 0,
            ui.preview_colours,
            ui.selected_items@.len() == 0,
    {
        Ui {
            query: String::new(),
            view_start: 0,
            cursor: Cursor::default(),
            cursor_showing: None,
            prompt,
            active: true,
            sorted_items: SortedItems::default(),
            previews: Previews::new(),
            preview_cursor: 0,
            preview_colours: true,
            selected_items: Vec::new(),
        }
    }

    /// Sets the query. Where the text is new, the arrangement of the
    /// listing is forgotten: the matches of another query are other rows.
    /// The result says whether the text is new.
    pub fn set_query(&mut self, text: String) -> (changed: bool)
        ensures
            changed == (text@ != old(self).query@),
            query_set(*old(self), text@, *final(self)),
            old(self).sorted_items.is_arrangement() ==> final(self).sorted_items.is_arrangement(),
    {
        if text == self.query {
            return false;
        }
        self.query = text;
        self.sorted_items.clear();
        true
    }

    /// Marks the path of the row under the cursor, or takes its mark away.
    /// A row without a path is not marked.
    pub fn toggle_selection(&mut self)
        ensures
            *final(self) == (Ui { selected_items: final(self).selected_items, ..*old(self) }),
            marked(final(self).selected_items@) == match showing_path(old(self).cursor_showing) {
                Some(path) => toggled(marked(old(self).selected_items@), path),
                None => marked(old(self).selected_items@),
            },
    {
        let path: Vec<u8> = match self.cursor_showing_path() {
            Some(path) => copy_bytes(path),
            None => {
                return ;
            },
        };
        let ghost before = marked(self.selected_items@);
        let mut i: usize = 0;
        while i < self.selected_items.len()
            invariant
                i <= self.selected_items@.len(),
                *self == *old(self),
                showing_path(old(self).cursor_showing) == Some(path@),
                before == marked(self.selected_items@),
                forall|k: int| 0 <= k < i ==> before[k] != path@,
            decreases self.selected_items@.len() - i,
        {
            if bytes_eq(self.selected_items[i].as_slice(), path.as_slice()) {
                proof {
                    assert(before[i as int] == path@);
                    assert(before.contains(path@));
                    lemma_unmarked_at(before, path@, i as int);
                }
                let _ = self.selected_items.remove(i);
                proof {
                    assert(marked(self.selected_items@) =~= before.take(i as int) + before.skip(
                        i + 1,
                    ));
                }
                return ;
            }
            i = i + 1;
        }
        proof {
            assert(!before.contains(path@));
        }
        self.selected_items.push(path);
        proof {
            assert(marked(self.selected_items@) =~= before.push(path@));
        }
    }

    /// Takes note that another directory is listed, or the same directory
    /// anew: the prompt is set, and the arrangement of the listing is
    /// forgotten.
    pub fn navigated(&mut self, prompt: String)
        ensures
            final(self).prompt == prompt,
            final(self).sorted_items.items@.len() == 0,
            final(self).sorted_items.until == 0,
            final(self).sorted_items.is_arrangement(),
            *final(self) == (Ui {
                prompt: final(self).prompt,
                sorted_items: final(self).sorted_items,
                ..*old(self)
            }),
    {
        self.prompt = prompt;
        self.sorted_items.clear();
    }

    /// Whether a query is set.
    pub fn is_searching(&self) -> (yes: bool)
        ensures
            yes == (self.query@.len() > 0),
    {
        !self.query.as_str().is_empty()
    }

    /// The path of the row under the cursor, if it has one.
    pub fn cursor_showing_path(&self) -> (path: Option<&[u8]>)
        ensures
            match showing_path(self.cursor_showing) {
                Some(bytes) => path matches Some(p) && p@ == bytes,
                None => path is None,
            },
    {
        match &self.cursor_showing {
            Some(item) => item.path(),
            None => None,
        }
    }
}

/// The place in the ring of the preview to draw: the job started last for
/// the row under the cursor in `mode` and the colouring in use, whatever
/// area it was rendered for.
pub fn matching_preview(ui: &Ui, mode: PreviewMode) -> (found: Option<usize>)
    ensures
        match showing_path(ui.cursor_showing) {
            None => found is None,
            Some(path) => match found {
                Some(at) => {
                    &&& at < ui.previews.entries().len()
                    &&& shows(ui.previews.entries()[at as int], path, mode, ui.preview_colours)
                    &&& forall|k: int|
                        at < k < ui.previews.entries().len() ==> !shows(
                            #[trigger] ui.previews.entries()[k],
                            path,
                            mode,
                            ui.preview_colours,
                        )
                },
                None => forall|k: int|
                    0 <= k < ui.previews.entries().len() ==> !shows(
                        #[trigger] ui.previews.entries()[k],
                        path,
                        mode,
                        ui.preview_colours,
                    ),
            },
        },
{
    match ui.cursor_showing_path() {
        Some(path) => ui.previews.latest(path, mode, ui.preview_colours),
        None => None,
    }
}

/// What `fire_preview` makes of `before`, and what it hands out.
pub open spec fn is_fired(
    before: Ui,
    mode: PreviewMode,
    preview_area: URect,
    now: u64,
    after: Ui,
    started: Option<PreviewJob>,
) -> bool {
    &&& after == (Ui { previews: after.previews, ..before })
    &&& match showing_path(before.cursor_showing) {
        None => started is None && after.previews == before.previews,
        Some(path) => {
            let area = URect {
                height: rendered_height(preview_area.height, before.preview_cursor),
                ..preview_area
            };
            let coloured = before.preview_colours;
            let ring = before.previews.entries();
            &&& holds_job(after.previews.entries(), path, area, mode, coloured)
            &&& holds_job(ring, path, area, mode, coloured) ==> {
                &&& started is None
                &&& after.previews == before.previews
            }
            &&& !holds_job(ring, path, area, mode, coloured) ==> {
                &&& started matches Some(job)
                &&& job.job == before.previews.next_job()
                &&& job.path@ == path
                &&& job.coloured == coloured
                &&& job.mode == mode
                &&& job.area == area
                &&& after.previews.entries() == let_in(
                    ring,
                    PreviewView {
                        showing: path,
                        mode,
                        target_area: area,
                        coloured,
                        started: now,
                        finished: false,
                        job: job.job,
                    },
                )
            }
        },
    }
}

/// Sees to it that a preview of the row under the cursor is held for
/// `mode` and for `preview_area` with its height rounded up. Where the row
/// has no path, or such a job is held already, nothing happens and nothing
/// is handed out. Else the job enters the ring, from which the oldest leaves
/// where it is full, and is handed out for a worker to be started.
pub fn fire_preview(ui: &mut Ui, mode: PreviewMode, preview_area: URect, now: u64) -> (started:
    Option<PreviewJob>)
    requires
        old(ui).previews.wf(),
    ensures
        final(ui).previews.wf(),
        is_fired(*old(ui), mode, preview_area, now, *final(ui), started),
{
    let area = URect {
        x: preview_area.x,
        y: preview_area.y,
        width: preview_area.width,
        height: quantize(preview_area.height, ui.preview_cursor),
    };
    let showing: Vec<u8> = match ui.cursor_showing_path() {
        Some(path) => copy_bytes(path),
        None => {
            return None;
        },
    };
    let coloured: bool = ui.preview_colours;
    if ui.previews.holds(showing.as_slice(), area, mode, coloured) {
        return None;
    }
    let path: Vec<u8> = copy_bytes(showing.as_slice());
    let job: u64 = ui.previews.enter(showing, area, mode, coloured, now);
    proof {
        let ring = old(ui).previews.entries();
        let fresh = PreviewView {
            showing: path@,
            mode,
            target_area: area,
            coloured,
            started: now,
            finished: false,
            job,
        };
        lemma_let_in_holds(ring, fresh);
    }
    Some(PreviewJob { job, path, coloured, mode, area })
}

/// Asking twice for the same preview starts one job: whatever the first
/// call did, a second call for the same row, mode, area and colouring
/// hands out nothing and leaves the ring as it is.
pub proof fn lemma_fire_twice(
    first: Ui,
    second: Ui,
    third: Ui,
    mode: PreviewMode,
    preview_area: URect,
    now: u64,
    later: u64,
    started: Option<PreviewJob>,
    again: Option<PreviewJob>,
)
    requires
        is_fired(first, mode, preview_area, now, second, started),
        is_fired(second, mode, preview_area, later, third, again),
    ensures
        again is None,
        third.previews == second.previews,
{
}

/// A job that was let in is held: asking for it again starts nothing.
pub proof fn lemma_let_in_holds(ring: Seq<PreviewView>, p: PreviewView)
    ensures
        holds_job(let_in(ring, p), p.showing, p.target_area, p.mode, p.coloured),
{
    let after = let_in(ring, p);
    assert(is_for(after[after.len() - 1], p.showing, p.target_area, p.mode, p.coloured));
}

/// The ring never holds more than its capacity, and what leaves a full
/// ring is its oldest job: the others stay in their order before the new
/// one.
pub proof fn lemma_let_in_bounded(ring: Seq<PreviewView>, p: PreviewView)
    requires
        ring.len() <= RING_CAPACITY,
    ensures
        let_in(ring, p).len() <= RING_CAPACITY,
        let_in(ring, p).last() == p,
        ring.len() < RING_CAPACITY ==> let_in(ring, p).drop_last() == ring,
        ring.len() == RING_CAPACITY ==> let_in(ring, p).drop_last() == ring.drop_first(),
{
    assert(ring.push(p).drop_last() =~= ring);
    assert(ring.drop_first().push(p).drop_last() =~= ring.drop_first());
}

/// Asking for a preview leaves the ring within its capacity, whatever the
/// pane and the mode, and lets in one job at most. Where a job is started
/// and the ring was full, the oldest job has left it and the others have
/// moved up in their order; where none is started, the ring is as it was.
pub proof fn lemma_fire_bounded(
    before: Ui,
    mode: PreviewMode,
    preview_area: URect,
    now: u64,
    after: Ui,
    started: Option<PreviewJob>,
)
    requires
        before.previews.entries().len() <= RING_CAPACITY,
        is_fired(before, mode, preview_area, now, after, started),
    ensures
        after.previews.entries().len() <= RING_CAPACITY,
        after.previews.entries().len() <= before.previews.entries().len() + 1,
        started is None ==> after.previews == before.previews,
        started is Some && before.previews.entries().len() < RING_CAPACITY
            ==> after.previews.entries().drop_last() == before.previews.entries(),
        started is Some && before.previews.entries().len() == RING_CAPACITY
            ==> after.previews.entries().drop_last() == before.previews.entries().drop_first(),
        started matches Some(job) ==> {
            &&& after.previews.entries().last().job == job.job
            &&& after.previews.entries().last().showing == job.path@
            &&& after.previews.entries().last().mode == job.mode
            &&& after.previews.entries().last().coloured == job.coloured
            &&& after.previews.entries().last().target_area == job.area
            &&& job.area.height == rendered_height(preview_area.height, before.preview_cursor)
        },
{
    if let Some(path) = showing_path(before.cursor_showing) {
        let area = URect {
            height: rendered_height(preview_area.height, before.preview_cursor),
            ..preview_area
        };
        let ring = before.previews.entries();
        if !holds_job(ring, path, area, mode, before.preview_colours) {
            let p = PreviewView {
                showing: path,
                mode,
                target_area: area,
                coloured: before.preview_colours,
                started: now,
                finished: false,
                job: started->0.job,
            };
            lemma_let_in_bounded(ring, p);
        }
    }
}

/// What a frame does for the right pane: nothing where the pane has no
/// room or is hidden; a preview of the row under the cursor, as
/// `fire_preview` starts it; or the log of that row's path, four commits
/// for each line of the pane.
pub fn trigger_right_pane(ui: &mut Ui, view_opts: ViewOpts, pane_area: URect, now: u64) -> (todo:
    PaneAction)
    requires
        old(ui).previews.wf(),
    ensures
        final(ui).previews.wf(),
        *final(ui) == (Ui { previews: final(ui).previews, ..*old(ui) }),
        pane_area.width == 0 || pane_area.height == 0 || view_opts.right_pane_mode[0]
            == RightPane::Hidden ==> todo is Nothing && final(ui).previews == old(ui).previews,
        pane_area.width > 0 && pane_area.height > 0 && view_opts.right_pane_mode[0]
            == RightPane::InteractiveGitLog ==> {
            &&& final(ui).previews == old(ui).previews
            &&& match showing_path(old(ui).cursor_showing) {
                None => todo is Nothing,
                Some(path) => todo matches PaneAction::GitLog { path: p, max_count } && p@ == path
                    && max_count == log_budget(pane_area.height),
            }
        },
        pane_area.width > 0 && pane_area.height > 0 && view_opts.right_pane_mode[0]
            == RightPane::Preview ==> match todo {
            PaneAction::Nothing => is_fired(
                *old(ui),
                view_opts.preview_mode_flag[0],
                pane_area,
                now,
                *final(ui),
                None,
            ),
            PaneAction::Render(job) => is_fired(
                *old(ui),
                view_opts.preview_mode_flag[0],
                pane_area,
                now,
                *final(ui),
                Some(job),
            ),
            PaneAction::GitLog { .. } => false,
        },
{
    if pane_area.width == 0 || pane_area.height == 0 {
        return PaneAction::Nothing;
    }
    match view_opts.right_pane() {
        RightPane::Preview => {
            match fire_preview(ui, view_opts.preview_mode(), pane_area, now) {
                Some(job) => PaneAction::Render(job),
                None => PaneAction::Nothing,
            }
        },
        RightPane::InteractiveGitLog => {
            match ui.cursor_showing_path() {
                Some(path) => PaneAction::GitLog {
                    path: copy_bytes(path),
                    max_count: if pane_area.height > usize::MAX / 4 {
                        usize::MAX
                    } else {
                        pane_area.height * 4
                    },
                },
                None => PaneAction::Nothing,
            }
        },
        RightPane::Hidden => PaneAction::Nothing,
    }
}

} // verus!
