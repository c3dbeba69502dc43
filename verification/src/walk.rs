//! What a scan is asked to do, which walks it is made of, and what of the
//! walker's finds goes on to the match index. The walking itself, which
//! reads the file system, is the caller's part.

use vstd::prelude::*;
use vstd::string::StringExecFns;
use std::sync::Arc;
use crate::bytes::{bytes_eq, copy_bytes};
use crate::snapped::{row_views, rows_sorted};
use crate::fuzz::AddItem;
use crate::item::{EntryKind, Item, ItemInfo, ItemInfoView, ItemView};
use crate::order::sort_rows;

verus! {

/// Which entries a scan lists.
#[derive(Copy, Clone, PartialEq, Eq, Structural, Debug)]
pub enum Mode {
    Mixed,
    Files,
    Dirs,
}

/// The modes, in the order in which they are cycled through.
pub fn modes() -> (all: [Mode; 3])
    ensures
        all@ == seq![Mode::Mixed, Mode::Files, Mode::Dirs],
{
    [Mode::Mixed, Mode::Files, Mode::Dirs]
}

/// The mode at place `index` of `modes`.
pub open spec fn mode_at(index: usize) -> Mode {
    if index == 0 {
        Mode::Mixed
    } else if index == 1 {
        Mode::Files
    } else {
        Mode::Dirs
    }
}

/// The place of `mode` in `modes`.
pub fn mode_index(mode: Mode) -> (index: usize)
    ensures
        index < 3,
        mode_at(index) == mode,
{
    match mode {
        Mode::Mixed => 0,
        Mode::Files => 1,
        Mode::Dirs => 2,
    }
}

/// Whether a walk goes below the directory it starts in.
#[derive(Copy, Clone, PartialEq, Eq, Structural, Debug)]
pub enum Recursion {
    /// The walk lists what lies in the directory itself.
    Flat,
    /// The walk lists all that lies below the directory.
    All,
}

impl Default for Recursion {
    fn default() -> (r: Self)
        ensures
            r == Recursion::Flat,
    {
        Recursion::Flat
    }
}

impl Recursion {
    /// The other of the two.
    pub fn next(&self) -> (r: Self)
        ensures
            r == match *self {
                Recursion::Flat => Recursion::All,
                Recursion::All => Recursion::Flat,
            },
    {
        match self {
            Recursion::Flat => Recursion::All,
            Recursion::All => Recursion::Flat,
        }
    }
}

/// What a scan is asked to do.
pub struct ReadOpts {
    pub show_hidden: bool,
    pub show_ignored: bool,
    /// The place of the mode in `modes`.
    pub mode_index: usize,
    pub recursion: Recursion,
    pub target_dir: Vec<u8>,
    /// Directories whose entries are listed along with those of the
    /// directory scanned, while the scan does not go below it. None is held
    /// twice.
    pub expansions: Vec<Vec<u8>>,
    /// Whether the rows of each walk are to arrive in their sorted order.
    pub sort: bool,
}

/// The paths in `s`, each as its bytes.
pub open spec fn paths(s: Seq<Vec<u8>>) -> Seq<Seq<u8>> {
    Seq::new(s.len(), |i: int| s[i]@)
}

impl ReadOpts {
    /// The mode is one of `modes`, and no expansion is held twice.
    pub open spec fn wf(&self) -> bool {
        &&& self.mode_index < 3
        &&& paths(self.expansions@).no_duplicates()
    }

    /// The mode of the scan.
    pub fn mode(&self) -> (mode: Mode)
        requires
            self.mode_index < 3,
        ensures
            mode == mode_at(self.mode_index),
    {
        modes()[self.mode_index]
    }

    /// Whether `dir` is among the expansions.
    pub fn is_expanded(&self, dir: &[u8]) -> (yes: bool)
        ensures
            yes == paths(self.expansions@).contains(dir@),
    {
        let mut i: usize = 0;
        while i < self.expansions.len()
            invariant
                i <= self.expansions@.len(),
                forall|k: int| 0 <= k < i ==> paths(self.expansions@)[k] != dir@,
            decreases self.expansions@.len() - i,
        {
            if bytes_eq(self.expansions[i].as_slice(), dir) {
                proof {
                    assert(paths(self.expansions@)[i as int] == dir@);
                }
                return true;
            }
            i = i + 1;
        }
        false
    }

    /// Adds `dir` to the expansions and says whether it is new there.
    pub fn expand(&mut self, dir: Vec<u8>) -> (fresh: bool)
        requires
            old(self).wf(),
        ensures
            final(self).wf(),
            fresh == !paths(old(self).expansions@).contains(dir@),
            fresh ==> paths(final(self).expansions@) == paths(old(self).expansions@).push(dir@),
            !fresh ==> final(self).expansions == old(self).expansions,
            *final(self) == (ReadOpts { expansions: final(self).expansions, ..*old(self) }),
    {
        if self.is_expanded(dir.as_slice()) {
            return false;
        }
        let ghost before = paths(self.expansions@);
        self.expansions.push(dir);
        proof {
            assert(paths(self.expansions@) =~= before.push(dir@));
            assert forall|i: int, j: int|
                0 <= i < before.len() + 1 && 0 <= j < before.len() + 1 && i
                    != j implies before.push(dir@)[i] != before.push(dir@)[j] by {
                if i < before.len() && j < before.len() {
                    assert(before[i] != before[j]);
                } else if i < before.len() {
                    assert(before.contains(before[i]));
                } else {
                    assert(before.contains(before[j]));
                }
            }
        }
        true
    }

    /// Keeps the target directory at or above `here`, as far as the
    /// lengths of the two paths tell: where `here` is the shorter path, it
    /// becomes the target.
    pub fn maybe_update_target_dir(&mut self, here: &[u8])
        ensures
            final(self).target_dir@ == if here@.len() < old(self).target_dir@.len() {
                here@
            } else {
                old(self).target_dir@
            },
            *final(self) == (ReadOpts { target_dir: final(self).target_dir, ..*old(self) }),
    {
        if here.len() < self.target_dir.len() {
            self.target_dir = copy_bytes(here);
        }
    }

    /// Forgets the expansions.
    pub fn clear_expansions(&mut self)
        ensures
            final(self).expansions@.len() == 0,
            *final(self) == (ReadOpts { expansions: final(self).expansions, ..*old(self) }),
            old(self).mode_index < 3 ==> final(self).wf(),
    {
        self.expansions.clear();
    }
}

impl Default for ReadOpts {
    fn default() -> (opts: Self)
        ensures
            opts.wf(),
            !opts.show_hidden,
            !opts.show_ignored,
            opts.mode_index == 0,
            opts.recursion == Recursion::Flat,
            opts.target_dir@.len() == 0,
            opts.expansions@.len() == 0,
            !opts.sort,
    {
        ReadOpts {
            show_hidden: false,
            show_ignored: false,
            mode_index: 0,
            recursion: Recursion::Flat,
            target_dir: Vec::new(),
            expansions: Vec::new(),
            sort: false,
        }
    }
}

/// One walk of a scan, as the walker is to be set up for it.
pub struct WalkPlan {
    /// The directory that names are given below.
    pub root: Vec<u8>,
    /// The directory that is walked.
    pub src: Vec<u8>,
    /// How far below `src` the walk goes, `None` for all the way.
    pub max_depth: Option<usize>,
    /// Whether hidden entries are left out.
    pub skip_hidden: bool,
    /// Whether what the ignore files name is left out: the `.ignore`
    /// files, the repository's exclude file, the user's global ignore file
    /// and the `.gitignore` files. One switch sets all four.
    pub ignore: bool,
    pub git_exclude: bool,
    pub git_global: bool,
    pub git_ignore: bool,
    pub follow_links: bool,
    /// Whether the walk runs on one thread and hands on its rows sorted,
    /// or on many, in the order in which they are found.
    pub sorted: bool,
}

/// A walk, as the contracts see it.
pub struct WalkPlanView {
    pub root: Seq<u8>,
    pub src: Seq<u8>,
    pub max_depth: Option<usize>,
    pub skip_hidden: bool,
    pub ignore: bool,
    pub git_exclude: bool,
    pub git_global: bool,
    pub git_ignore: bool,
    pub follow_links: bool,
    pub sorted: bool,
}

impl View for WalkPlan {
    type V = WalkPlanView;

    open spec fn view(&self) -> WalkPlanView {
        WalkPlanView {
            root: self.root@,
            src: self.src@,
            max_depth: self.max_depth,
            skip_hidden: self.skip_hidden,
            ignore: self.ignore,
            git_exclude: self.git_exclude,
            git_global: self.git_global,
            git_ignore: self.git_ignore,
            follow_links: self.follow_links,
            sorted: self.sorted,
        }
    }
}

/// The walk of `src` in a scan of `root`.
pub open spec fn walk_of(root: Seq<u8>, src: Seq<u8>, opts: ReadOpts) -> WalkPlanView {
    WalkPlanView {
        root,
        src,
        max_depth: match opts.recursion {
            Recursion::Flat => Some(1usize),
            Recursion::All => None,
        },
        skip_hidden: !opts.show_hidden,
        ignore: !opts.show_ignored,
        git_exclude: !opts.show_ignored,
        git_global: !opts.show_ignored,
        git_ignore: !opts.show_ignored,
        follow_links: true,
        sorted: opts.sort,
    }
}

/// The walks of a scan of `src`: while the scan does not go below `src`,
/// one of each expansion, and in every case one of `src` itself, last.
pub open spec fn walks_of(src: Seq<u8>, opts: ReadOpts) -> Seq<WalkPlanView> {
    let expanded = if opts.recursion == Recursion::Flat {
        Seq::new(opts.expansions@.len(), |i: int| walk_of(src, opts.expansions@[i]@, opts))
    } else {
        Seq::<WalkPlanView>::empty()
    };
    expanded.push(walk_of(src, src, opts))
}

/// Sets up the walk of `src` in a scan of `root`.
pub fn stream_rel_content(root: &[u8], src: &[u8], read_opts: &ReadOpts) -> (plan: WalkPlan)
    ensures
        plan@ == walk_of(root@, src@, *read_opts),
{
    let ignore_files: bool = !read_opts.show_ignored;
    WalkPlan {
        root: copy_bytes(root),
        src: copy_bytes(src),
        max_depth: match read_opts.recursion {
            Recursion::Flat => Some(1),
            Recursion::All => None,
        },
        skip_hidden: !read_opts.show_hidden,
        ignore: ignore_files,
        git_exclude: ignore_files,
        git_global: ignore_files,
        git_ignore: ignore_files,
        follow_links: true,
        sorted: read_opts.sort,
    }
}

/// The walks that a scan of `src` is made of, in the order in which they
/// are run.
pub fn stream_content(src: &[u8], read_opts: &ReadOpts) -> (plans: Vec<WalkPlan>)
    ensures
        plans@.len() == walks_of(src@, *read_opts).len(),
        forall|i: int| 0 <= i < plans@.len() ==> (#[trigger] plans@[i])@ == walks_of(
            src@,
            *read_opts,
        )[i],
{
    let mut plans: Vec<WalkPlan> = Vec::new();
    if read_opts.recursion == Recursion::Flat {
        let mut i: usize = 0;
        while i < read_opts.expansions.len()
            invariant
                i <= read_opts.expansions@.len(),
                read_opts.recursion == Recursion::Flat,
                plans@.len() == i,
                forall|k: int| 0 <= k < i ==> (#[trigger] plans@[k])@ == walk_of(
                    src@,
                    read_opts.expansions@[k]@,
                    *read_opts,
                ),
            decreases read_opts.expansions@.len() - i,
        {
            plans.push(stream_rel_content(src, read_opts.expansions[i].as_slice(), read_opts));
            i = i + 1;
        }
    }
    plans.push(stream_rel_content(src, src, read_opts));
    plans
}

/// Whether a scan in `mode` lists `item`. A failure is listed in every
/// mode.
pub open spec fn listed(mode: Mode, item: ItemView) -> bool {
    match item {
        ItemView::WalkError { .. } => true,
        ItemView::FileEntry { info, .. } => match mode {
            Mode::Mixed => true,
            Mode::Files => info.file_type == EntryKind::File,
            Mode::Dirs => info.file_type == EntryKind::Dir,
        },
    }
}

/// Whether a scan in `mode` lists `item`.
pub fn is_listed(mode: Mode, item: &Item) -> (yes: bool)
    ensures
        yes == listed(mode, item@),
{
    match item {
        Item::WalkError { .. } => true,
        Item::FileEntry { info, .. } => match mode {
            Mode::Mixed => true,
            Mode::Files => info.file_type.is_file(),
            Mode::Dirs => info.file_type.is_dir(),
        },
    }
}

/// What becomes of a row that the walker found.
#[derive(Copy, Clone, PartialEq, Eq, Structural, Debug)]
pub enum Offer {
    /// The mode does not list it: it is dropped, the walk goes on.
    Skip,
    /// It goes to the match index, the walk goes on.
    Push,
    /// The scan was cancelled: it is dropped, and this branch of the walk
    /// ends.
    Stop,
}

/// What becomes of `item` in a scan in `mode`, where `cancelled` says
/// whether the scan was seen to be cancelled.
pub open spec fn offered(cancelled: bool, mode: Mode, item: ItemView) -> Offer {
    if !listed(mode, item) {
        Offer::Skip
    } else if cancelled {
        Offer::Stop
    } else {
        Offer::Push
    }
}

/// Decides what becomes of a row that the walker found.
pub fn offer(cancelled: bool, mode: Mode, item: &Item) -> (o: Offer)
    ensures
        o == offered(cancelled, mode, item@),
{
    if !is_listed(mode, item) {
        Offer::Skip
    } else if cancelled {
        Offer::Stop
    } else {
        Offer::Push
    }
}

/// Hands `item` on to the match index if the mode lists it and the scan
/// is not cancelled. The result says whether this branch of the walk is
/// to end, which it is only where the scan was found cancelled. Whether it
/// is cancelled is read from the flag of `tx`, which other threads set, and
/// only for a row that the mode lists.
pub fn maybe_send(tx: &AddItem, mode: Mode, item: Item) -> (quit: bool)
    requires
        tx.wf(),
    ensures
        !listed(mode, item@) ==> !quit,
{
    if !is_listed(mode, &item) {
        return false;
    }
    let cancelled: bool = tx.is_cancelled();
    deliver(tx, cancelled, mode, item)
}

/// Does with `item` what `offer` decides: pushes it through `tx`, drops
/// it, or drops it and says that this branch of the walk is to end.
pub fn deliver(tx: &AddItem, cancelled: bool, mode: Mode, item: Item) -> (quit: bool)
    requires
        tx.wf(),
    ensures
        quit == (offered(cancelled, mode, item@) == Offer::Stop),
{
    match offer(cancelled, mode, &item) {
        Offer::Skip => false,
        Offer::Stop => true,
        Offer::Push => {
            let sent = tx.send_unless(false, item);
            sent.is_err()
        },
    }
}

/// The rows of a walk that ran on one thread, in the order in which they
/// are handed on: that of a listing without a query.
pub fn sorted_for_listing(rows: Vec<Item>) -> (sorted: Vec<Item>)
    ensures
        sorted@.len() == rows@.len(),
        row_views(sorted@).to_multiset() == row_views(rows@).to_multiset(),
        rows_sorted(sorted@),
{
    let mut sorted = rows;
    sort_rows(&mut sorted);
    sorted
}

/// What a walk is told after it has handed in a find.
#[derive(Copy, Clone, PartialEq, Eq, Structural, Debug)]
pub enum Step {
    /// Go on.
    Continue,
    /// End: the scan was cancelled.
    Quit,
}

/// How many of `rows` a scan in `mode` lists.
pub open spec fn count_listed(mode: Mode, rows: Seq<Item>) -> nat
    decreases rows.len(),
{
    if rows.len() == 0 {
        0
    } else {
        count_listed(mode, rows.drop_last()) + if listed(mode, rows.last()@) {
            1nat
        } else {
            0nat
        }
    }
}

/// The number of rows sent after one more was sent.
pub open spec fn one_more(sent: u64) -> u64 {
    if sent < u64::MAX {
        (sent + 1) as u64
    } else {
        sent
    }
}

/// What offering `row` makes of the worker `before`, and what the walk is
/// told. A worker that has stopped hands on nothing and says so. A row that
/// the mode does not list is dropped, and the walk goes on. Every other row
/// is either handed on, and the walk goes on, or it finds the scan
/// cancelled: then the worker stops and hands on nothing.
pub open spec fn is_offered(before: Worker, row: ItemView, step: Step, after: Worker) -> bool {
    if before.stopped() {
        &&& step == Step::Quit
        &&& after.stopped()
        &&& after.sent() == before.sent()
    } else if !listed(before.mode(), row) {
        &&& step == Step::Continue
        &&& !after.stopped()
        &&& after.sent() == before.sent()
    } else {
        ||| {
            &&& step == Step::Continue
            &&& !after.stopped()
            &&& after.sent() == one_more(before.sent())
        }
        ||| {
            &&& step == Step::Quit
            &&& after.stopped()
            &&& after.sent() == before.sent()
        }
    }
}

/// One thread of a scan: it takes what the walk finds, and hands on to the
/// match index what the mode lists, until it finds the scan cancelled.
/// From then on it hands on nothing.
pub struct Worker {
    tx: AddItem,
    mode: Mode,
    sent: u64,
    stopped: bool,
}

impl Worker {
    /// The handle of the worker pushes rows with a column for their text.
    pub closed spec fn wf(&self) -> bool {
        self.tx.wf()
    }

    /// The mode of the scan.
    pub closed spec fn mode(&self) -> Mode {
        self.mode
    }

    /// The number of rows that the worker has handed on.
    pub closed spec fn sent(&self) -> u64 {
        self.sent
    }

    /// Whether the worker has found the scan cancelled.
    pub closed spec fn stopped(&self) -> bool {
        self.stopped
    }

    /// A worker that has handed on nothing yet.
    pub fn new(tx: AddItem, mode: Mode) -> (worker: Self)
        requires
            tx.wf(),
        ensures
            worker.wf(),
            worker.mode() == mode,
            worker.sent() == 0,
            !worker.stopped(),
    {
        Worker { tx, mode, sent: 0, stopped: false }
    }

    /// A worker for another thread of the same scan, which has handed on
    /// nothing yet.
    pub fn duplicate(&self) -> (worker: Self)
        requires
            self.wf(),
        ensures
            worker.wf(),
            worker.mode() == self.mode(),
            worker.sent() == 0,
            worker.stopped() == self.stopped(),
    {
        Worker { tx: self.tx.duplicate(), mode: self.mode, sent: 0, stopped: self.stopped }
    }

    /// The number of rows that the worker has handed on.
    pub fn rows_sent(&self) -> (n: u64)
        ensures
            n == self.sent(),
    {
        self.sent
    }

    /// Whether the worker has found the scan cancelled.
    pub fn has_stopped(&self) -> (yes: bool)
        ensures
            yes == self.stopped(),
    {
        self.stopped
    }

    /// Takes a row. A worker that has stopped hands on nothing and says
    /// so. A row that the mode does not list is dropped. Every other row
    /// is handed on, unless the scan is found cancelled now: then the
    /// worker stops.
    pub fn offer_row(&mut self, item: Item) -> (step: Step)
        requires
            old(self).wf(),
        ensures
            final(self).wf(),
            final(self).mode() == old(self).mode(),
            is_offered(*old(self), item@, step, *final(self)),
    {
        if self.stopped {
            return Step::Quit;
        }
        if !is_listed(self.mode, &item) {
            return Step::Continue;
        }
        let cancelled: bool = self.tx.is_cancelled();
        if deliver(&self.tx, cancelled, self.mode, item) {
            self.stopped = true;
            Step::Quit
        } else {
            if self.sent < u64::MAX {
                self.sent = self.sent + 1;
            }
            Step::Continue
        }
    }

    /// Takes what the walk found: nothing is done for the directory walked
    /// itself; of everything else the row that `convert` makes is offered,
    /// as `offer_row` offers it.
    pub fn take(&mut self, walked: Walked) -> (step: Step)
        requires
            old(self).wf(),
        ensures
            final(self).wf(),
            final(self).mode() == old(self).mode(),
            match converted(walked) {
                None => step == Step::Continue && *final(self) == *old(self),
                Some(row) => is_offered(*old(self), row, step, *final(self)),
            },
    {
        match convert(walked) {
            Some(item) => self.offer_row(item),
            None => Step::Continue,
        }
    }

    /// Offers `rows` in their order, until the scan is found cancelled.
    /// The result is the number of rows that were looked at. A worker that
    /// does not stop has looked at all the rows and handed on each that the
    /// mode lists; a worker that had stopped before hands on none.
    pub fn send_all(&mut self, rows: Vec<Item>) -> (looked_at: usize)
        requires
            old(self).wf(),
            old(self).sent() + rows@.len() <= u64::MAX,
        ensures
            final(self).wf(),
            final(self).mode() == old(self).mode(),
            looked_at <= rows@.len(),
            old(self).stopped() ==> final(self).stopped() && final(self).sent() == old(self).sent(),
            final(self).sent() >= old(self).sent(),
            final(self).sent() == old(self).sent() + count_listed(
                old(self).mode(),
                rows@.take(looked_at as int),
            ) - if final(self).stopped() && !old(self).stopped() {
                1int
            } else {
                0int
            },
            !final(self).stopped() ==> looked_at == rows@.len(),
    {
        let ghost all = rows@;
        let ghost mode = self.mode();
        let n: usize = rows.len();
        let mut looked_at: usize = 0;
        if self.stopped {
            return 0;
        }
        proof {
            assert(all.take(0) =~= Seq::<Item>::empty());
        }
        for row in it: rows
            invariant
                self.wf(),
                self.mode() == mode,
                mode == old(self).mode(),
                !old(self).stopped(),
                !self.stopped(),
                it.seq() == all,
                n == all.len(),
                looked_at == it.index(),
                looked_at <= n,
                old(self).sent() + n <= u64::MAX,
                self.sent() == old(self).sent() + count_listed(mode, all.take(looked_at as int)),
        {
            proof {
                assert(all.take(looked_at + 1).drop_last() =~= all.take(looked_at as int));
                assert(all.take(looked_at + 1).last() == row);
                lemma_count_listed_bounded(mode, all.take(looked_at as int));
            }
            looked_at = looked_at + 1;
            match self.offer_row(row) {
                Step::Quit => {
                    return looked_at;
                },
                Step::Continue => {},
            }
        }
        proof {
            assert(all.take(n as int) =~= all);
        }
        looked_at
    }
}

/// No more rows are listed than there are.
pub proof fn lemma_count_listed_bounded(mode: Mode, rows: Seq<Item>)
    ensures
        count_listed(mode, rows) <= rows.len(),
    decreases rows.len(),
{
    if rows.len() > 0 {
        lemma_count_listed_bounded(mode, rows.drop_last());
    }
}

/// How many of `rows` a scan in `mode` lists.
pub open spec fn count_listed_views(mode: Mode, rows: Seq<ItemView>) -> nat
    decreases rows.len(),
{
    if rows.len() == 0 {
        0
    } else {
        count_listed_views(mode, rows.drop_last()) + if listed(mode, rows.last()) {
            1nat
        } else {
            0nat
        }
    }
}

proof fn lemma_count_listed_by_views(mode: Mode, rows: Seq<Item>)
    ensures
        count_listed(mode, rows) == count_listed_views(mode, row_views(rows)),
    decreases rows.len(),
{
    if rows.len() > 0 {
        lemma_count_listed_by_views(mode, rows.drop_last());
        assert(row_views(rows).drop_last() =~= row_views(rows.drop_last()));
    }
}

proof fn lemma_count_without(mode: Mode, rows: Seq<ItemView>, at: int)
    requires
        0 <= at < rows.len(),
    ensures
        count_listed_views(mode, rows) == count_listed_views(mode, rows.remove(at)) + if listed(
            mode,
            rows[at],
        ) {
            1nat
        } else {
            0nat
        },
    decreases rows.len(),
{
    if at == rows.len() - 1 {
        assert(rows.remove(at) =~= rows.drop_last());
    } else {
        lemma_count_without(mode, rows.drop_last(), at);
        assert(rows.remove(at).drop_last() =~= rows.drop_last().remove(at));
        assert(rows.remove(at).last() == rows.last());
    }
}

/// The order of the rows does not change how many of them are listed.
pub proof fn lemma_count_listed_any_order(mode: Mode, a: Seq<ItemView>, b: Seq<ItemView>)
    requires
        a.to_multiset() == b.to_multiset(),
    ensures
        count_listed_views(mode, a) == count_listed_views(mode, b),
    decreases a.len(),
{
    broadcast use vstd::seq_lib::group_to_multiset_ensures;

    a.to_multiset_ensures();
    b.to_multiset_ensures();
    if a.len() > 0 {
        let x = a.last();
        let rest = a.drop_last();
        assert(a =~= rest.push(x));
        assert(a.to_multiset() =~= rest.to_multiset().insert(x));
        assert(b.to_multiset().count(x) > 0);
        assert(b.contains(x));
        let at = choose|at: int| 0 <= at < b.len() && b[at] == x;
        assert(b.remove(at).to_multiset() =~= b.to_multiset().remove(x));
        assert(rest.to_multiset() =~= b.remove(at).to_multiset());
        lemma_count_listed_any_order(mode, rest, b.remove(at));
        lemma_count_without(mode, b, at);
    }
}

/// Hands on the rows of a walk that ran on one thread: in the order of a
/// listing without a query, and only until the scan is found cancelled.
/// The result is the number of rows that were looked at. A worker that
/// does not stop has looked at all the rows and handed on each that the
/// mode lists; no worker hands on more than these, and a worker that had
/// stopped before hands on none.
pub fn send_sorted(worker: &mut Worker, rows: Vec<Item>) -> (looked_at: usize)
    requires
        old(worker).wf(),
        old(worker).sent() + rows@.len() <= u64::MAX,
    ensures
        final(worker).wf(),
        final(worker).mode() == old(worker).mode(),
        looked_at <= rows@.len(),
        old(worker).stopped() ==> final(worker).stopped() && final(worker).sent() == old(
            worker,
        ).sent(),
        final(worker).sent() >= old(worker).sent(),
        final(worker).sent() <= old(worker).sent() + count_listed(old(worker).mode(), rows@),
        !final(worker).stopped() ==> {
            &&& looked_at == rows@.len()
            &&& final(worker).sent() == old(worker).sent() + count_listed(
                old(worker).mode(),
                rows@,
            )
        },
{
    let ghost mode = worker.mode();
    let sorted: Vec<Item> = sorted_for_listing(rows);
    let ghost given = sorted@;
    let looked_at: usize = worker.send_all(sorted);
    proof {
        lemma_count_listed_by_views(mode, rows@);
        lemma_count_listed_by_views(mode, given);
        lemma_count_listed_any_order(mode, row_views(given), row_views(rows@));
        lemma_count_listed_grows(mode, given, looked_at as int);
        if !worker.stopped() {
            assert(given.take(looked_at as int) =~= given);
        }
    }
    looked_at
}

/// Of the first rows no more are listed than of all.
proof fn lemma_count_listed_grows(mode: Mode, rows: Seq<Item>, upto: int)
    requires
        0 <= upto <= rows.len(),
    ensures
        count_listed(mode, rows.take(upto)) <= count_listed(mode, rows),
    decreases rows.len(),
{
    if upto == rows.len() {
        assert(rows.take(upto) =~= rows);
    } else {
        lemma_count_listed_grows(mode, rows.drop_last(), upto);
        assert(rows.drop_last().take(upto) =~= rows.take(upto));
    }
}

/// In a scan of files no directory is pushed, in a scan of directories
/// nothing but directories, and a failure is pushed in every mode.
pub proof fn lemma_mode_filters(cancelled: bool, mode: Mode, item: ItemView)
    ensures
        offered(cancelled, mode, item) == Offer::Push ==> !cancelled && listed(mode, item),
        item matches ItemView::FileEntry { info, .. } && mode == Mode::Files && info.file_type
            == EntryKind::Dir ==> offered(cancelled, mode, item) == Offer::Skip,
        item matches ItemView::FileEntry { info, .. } && mode == Mode::Dirs && info.file_type
            != EntryKind::Dir ==> offered(cancelled, mode, item) == Offer::Skip,
        item is WalkError ==> offered(cancelled, mode, item) != Offer::Skip,
        cancelled ==> offered(cancelled, mode, item) != Offer::Push,
{
}

/// What the walker found, as plain values.
pub enum Walked {
    /// An entry that was read.
    Entry {
        path: Vec<u8>,
        /// The path below the root of the scan, `None` where the path does
        /// not lie below it.
        name: Option<Vec<u8>>,
        file_name: Vec<u8>,
        /// How far below the directory walked the entry lies; that
        /// directory itself lies at 0.
        depth: usize,
        /// `None` where the walker could not tell the kind.
        file_type: Option<EntryKind>,
        /// Where the entry leads, if it is a link that could be resolved.
        link_dest: Option<Vec<u8>>,
    },
    /// A path that the walker failed on, most often a link that leads
    /// nowhere, with what could still be found out about it.
    Broken {
        path: Vec<u8>,
        name: Option<Vec<u8>>,
        /// The last component of the path, `None` where it has none.
        last: Option<Vec<u8>>,
        /// The kind, links not followed; `None` where it could not be
        /// read.
        file_type: Option<EntryKind>,
        link_dest: Option<Vec<u8>>,
    },
    /// Any other failure, with its text.
    Failed { msg: String },
}

/// Why a find of the walker is shown as a failure.
#[derive(Copy, Clone, PartialEq, Eq, Structural, Debug)]
pub enum Trouble {
    /// The path does not lie below the root of the scan.
    NotBelowRoot,
    /// The kind of the entry could not be told.
    NoKind,
    /// The path has no last component.
    NoFileName,
    /// The walker failed, and says why itself.
    Walker,
}

/// What a find of the walker stands for.
pub enum Found {
    /// The directory walked itself, which is not listed.
    Nothing,
    Entry,
    Failure(Trouble),
}

/// What `walked` stands for.
pub open spec fn found(walked: Walked) -> Found {
    match walked {
        Walked::Entry { name, file_type, depth, .. } => if name is None {
            Found::Failure(Trouble::NotBelowRoot)
        } else if file_type is None {
            Found::Failure(Trouble::NoKind)
        } else if depth == 0 {
            Found::Nothing
        } else {
            Found::Entry
        },
        Walked::Broken { name, last, file_type, .. } => if name is None {
            Found::Failure(Trouble::NotBelowRoot)
        } else if last is None {
            Found::Failure(Trouble::NoFileName)
        } else if name->0@.len() == 0 {
            Found::Nothing
        } else if file_type is None {
            Found::Failure(Trouble::NoKind)
        } else {
            Found::Entry
        },
        Walked::Failed { .. } => Found::Failure(Trouble::Walker),
    }
}

/// The text of a failure that this crate finds itself.
pub fn trouble_text(trouble: Trouble) -> (text: &'static str)
    ensures
        text@ == match trouble {
            Trouble::NotBelowRoot => "path does not lie below the directory scanned -- "@,
            Trouble::NoKind => "retrieving the type of the entry failed -- "@,
            Trouble::NoFileName => "unexpected non-regular path in directory walk -- "@,
            Trouble::Walker => "walking the directory failed -- "@,
        },
{
    match trouble {
        Trouble::NotBelowRoot => "path does not lie below the directory scanned -- ",
        Trouble::NoKind => "retrieving the type of the entry failed -- ",
        Trouble::NoFileName => "unexpected non-regular path in directory walk -- ",
        Trouble::Walker => "walking the directory failed -- ",
    }
}

/// The row that is made of what the walker found, if one is made.
pub open spec fn converted(walked: Walked) -> Option<ItemView> {
    match found(walked) {
        Found::Nothing => None,
        Found::Entry => Some(entry_of(walked)),
        Found::Failure(Trouble::Walker) => Some(entry_of(walked)),
        Found::Failure(trouble) => Some(
            ItemView::WalkError { msg: vstd::utf8::encode_utf8(trouble_text_spec(trouble)) },
        ),
    }
}

/// Makes a row of what the walker found: nothing of the directory walked
/// itself, an entry of what could be read, and of everything else a
/// failure to be shown in the listing, so that one unreadable entry does
/// not end the scan.
pub fn convert(walked: Walked) -> (row: Option<Item>)
    ensures
        match converted(walked) {
            Some(made) => row matches Some(item) && item@ == made,
            None => row is None,
        },
        match found(walked) {
            Found::Nothing => row is None,
            Found::Failure(Trouble::Walker) => row matches Some(Item::WalkError { msg })
                && walked matches Walked::Failed { msg: said } && msg@ == said@,
            Found::Failure(trouble) => row matches Some(Item::WalkError { msg }) && msg@
                == trouble_text_spec(trouble),
            Found::Entry => row matches Some(item) && item@ == entry_of(walked),
        },
{
    match walked {
        Walked::Entry { path, name, file_name, depth, file_type, link_dest } => {
            let name: Vec<u8> = match name {
                Some(name) => name,
                None => {
                    return Some(failure(Trouble::NotBelowRoot));
                },
            };
            let file_type: EntryKind = match file_type {
                Some(kind) => kind,
                None => {
                    return Some(failure(Trouble::NoKind));
                },
            };
            if depth == 0 {
                return None;
            }
            Some(
                Item::FileEntry {
                    name,
                    info: Arc::new(ItemInfo { file_type, path, filename: file_name, link_dest }),
                },
            )
        },
        Walked::Broken { path, name, last, file_type, link_dest } => {
            let name: Vec<u8> = match name {
                Some(name) => name,
                None => {
                    return Some(failure(Trouble::NotBelowRoot));
                },
            };
            let file_name: Vec<u8> = match last {
                Some(file_name) => file_name,
                None => {
                    return Some(failure(Trouble::NoFileName));
                },
            };
            if name.len() == 0 {
                return None;
            }
            let file_type: EntryKind = match file_type {
                Some(kind) => kind,
                None => {
                    return Some(failure(Trouble::NoKind));
                },
            };
            Some(
                Item::FileEntry {
                    name,
                    info: Arc::new(ItemInfo { file_type, path, filename: file_name, link_dest }),
                },
            )
        },
        Walked::Failed { msg } => Some(Item::WalkError { msg }),
    }
}

/// The causes of a failure in one text: each cause, outermost first, with
/// ` -- ` behind it.
pub open spec fn flattened(causes: Seq<String>) -> Seq<char>
    decreases causes.len(),
{
    if causes.len() == 0 {
        Seq::empty()
    } else {
        flattened(causes.drop_last()) + causes.last()@ + " -- "@
    }
}

/// Writes the causes of a failure into one text.
pub fn cerialise_error(causes: &Vec<String>) -> (msg: String)
    ensures
        msg@ == flattened(causes@),
{
    let mut msg: String = String::new();
    let mut i: usize = 0;
    while i < causes.len()
        invariant
            i <= causes@.len(),
            msg@ == flattened(causes@.take(i as int)),
        decreases causes@.len() - i,
    {
        proof {
            assert(causes@.take(i + 1).drop_last() =~= causes@.take(i as int));
            assert(causes@.take(i + 1).last() == causes@[i as int]);
        }
        msg.append(causes[i].as_str());
        msg.append(" -- ");
        i = i + 1;
    }
    proof {
        assert(causes@.take(causes@.len() as int) =~= causes@);
    }
    msg
}

/// `trouble_text`, as the contracts see it.
pub open spec fn trouble_text_spec(trouble: Trouble) -> Seq<char> {
    match trouble {
        Trouble::NotBelowRoot => "path does not lie below the directory scanned -- "@,
        Trouble::NoKind => "retrieving the type of the entry failed -- "@,
        Trouble::NoFileName => "unexpected non-regular path in directory walk -- "@,
        Trouble::Walker => "walking the directory failed -- "@,
    }
}

/// The entry that `walked` stands for, where it stands for one.
pub open spec fn entry_of(walked: Walked) -> ItemView {
    match walked {
        Walked::Entry { path, name, file_name, file_type, link_dest, .. } => ItemView::FileEntry {
            name: name->0@,
            info: ItemInfoView {
                file_type: file_type->0,
                path: path@,
                filename: file_name@,
                link_dest: match link_dest {
                    Some(dest) => Some(dest@),
                    None => None,
                },
            },
        },
        Walked::Broken { path, name, last, file_type, link_dest } => ItemView::FileEntry {
            name: name->0@,
            info: ItemInfoView {
                file_type: file_type->0,
                path: path@,
                filename: last->0@,
                link_dest: match link_dest {
                    Some(dest) => Some(dest@),
                    None => None,
                },
            },
        },
        Walked::Failed { msg } => ItemView::WalkError { msg: vstd::utf8::encode_utf8(msg@) },
    }
}

/// The row that shows a failure that this crate found itself.
fn failure(trouble: Trouble) -> (row: Item)
    ensures
        row matches Item::WalkError { msg } && msg@ == trouble_text_spec(trouble),
{
    Item::WalkError { msg: trouble_text(trouble).to_owned() }
}

} // verus!
