//! Preview jobs: the ring that remembers which were started, what a job
//! has read and rendered so far, and the plain steps of rendering.

use vstd::prelude::*;
use std::collections::VecDeque;
use vstd::string::StrSliceExecFns;
use vstd::string::StringExecFns;
use vstd::string::StringSliceAdditionalSpecFns;
use crate::bytes::{bytes_eq, copy_bytes, strip_byte, without};
use crate::item::read_lossy;
use crate::line_stop::{LineStopFmtWrite, LineStopIoWrite};
use crate::store::FLICKER_MS;
use crate::ui_state::URect;
use crate::view::PreviewMode;

verus! {

/// The number of jobs that the ring remembers.
pub const RING_CAPACITY: usize = 16;

/// The most content that is read of a file, in bytes, and of what a
/// command prints.
pub const CONTENT_CAP: usize = 1024 * 1024;

/// One preview job.
pub struct Preview {
    /// The path that is previewed.
    pub showing: Vec<u8>,
    pub mode: PreviewMode,
    /// The area that the preview is rendered for.
    pub target_area: URect,
    pub coloured: bool,
    /// When the job was started, in milliseconds.
    pub started: u64,
    /// Whether its worker has been seen to have ended.
    pub finished: bool,
    /// The number under which the job was handed out.
    pub job: u64,
}

/// A preview job, as the contracts see it.
pub struct PreviewView {
    pub showing: Seq<u8>,
    pub mode: PreviewMode,
    pub target_area: URect,
    pub coloured: bool,
    pub started: u64,
    pub finished: bool,
    pub job: u64,
}

impl View for Preview {
    type V = PreviewView;

    open spec fn view(&self) -> PreviewView {
        PreviewView {
            showing: self.showing@,
            mode: self.mode,
            target_area: self.target_area,
            coloured: self.coloured,
            started: self.started,
            finished: self.finished,
            job: self.job,
        }
    }
}

/// Whether `p` was started for this path, area, mode and colouring.
pub open spec fn is_for(
    p: PreviewView,
    showing: Seq<u8>,
    area: URect,
    mode: PreviewMode,
    coloured: bool,
) -> bool {
    p.showing == showing && p.target_area == area && p.mode == mode && p.coloured == coloured
}

/// Whether `p` shows this path in this mode and colouring, whatever the
/// area.
pub open spec fn shows(p: PreviewView, showing: Seq<u8>, mode: PreviewMode, coloured: bool) -> bool {
    p.showing == showing && p.mode == mode && p.coloured == coloured
}

/// Whether painting `p` as unfinished at `now` would flash.
pub open spec fn flickers(p: PreviewView, now: u64) -> bool {
    !p.finished && (now < p.started || now - p.started < FLICKER_MS)
}

/// `ring` after a job was let in: the oldest has left where the ring was
/// full.
pub open spec fn let_in(ring: Seq<PreviewView>, p: PreviewView) -> Seq<PreviewView> {
    if ring.len() >= RING_CAPACITY {
        ring.drop_first().push(p)
    } else {
        ring.push(p)
    }
}

/// The number that follows `job`.
pub open spec fn job_after(job: u64) -> u64 {
    if job < u64::MAX {
        (job + 1) as u64
    } else {
        0
    }
}

/// The jobs started last, oldest first.
pub struct Previews {
    inner: VecDeque<Preview>,
    next_job: u64,
}

impl Previews {
    /// The jobs held, oldest first.
    pub closed spec fn entries(&self) -> Seq<PreviewView> {
        Seq::new(self.inner@.len(), |i: int| self.inner@[i]@)
    }

    /// The number that the next job gets.
    pub closed spec fn next_job(&self) -> u64 {
        self.next_job
    }

    /// The ring holds no more than its capacity.
    pub open spec fn wf(&self) -> bool {
        self.entries().len() <= RING_CAPACITY
    }

    /// A ring that holds no job.
    pub fn new() -> (ring: Self)
        ensures
            ring.wf(),
            ring.entries() == Seq::<PreviewView>::empty(),
            ring.next_job() == 0,
    {
        let ring = Previews { inner: VecDeque::new(), next_job: 0 };
        proof {
            assert(ring.entries() =~= Seq::<PreviewView>::empty());
        }
        ring
    }

    /// The number of jobs held.
    pub fn len(&self) -> (n: usize)
        ensures
            n == self.entries().len(),
    {
        self.inner.len()
    }

    /// The job at place `i`, the oldest being at 0.
    pub fn get(&self, i: usize) -> (p: &Preview)
        requires
            i < self.entries().len(),
        ensures
            p@ == self.entries()[i as int],
    {
        &self.inner[i]
    }

    /// Whether a job for this path, area, mode and colouring is held.
    pub fn holds(&self, showing: &[u8], area: URect, mode: PreviewMode, coloured: bool) -> (yes:
        bool)
        ensures
            yes == exists|i: int|
                0 <= i < self.entries().len() && is_for(
                    #[trigger] self.entries()[i],
                    showing@,
                    area,
                    mode,
                    coloured,
                ),
    {
        let mut i: usize = 0;
        while i < self.inner.len()
            invariant
                i <= self.entries().len(),
                self.entries().len() == self.inner@.len(),
                forall|k: int|
                    0 <= k < i ==> !is_for(
                        #[trigger] self.entries()[k],
                        showing@,
                        area,
                        mode,
                        coloured,
                    ),
            decreases self.inner@.len() - i,
        {
            let p = &self.inner[i];
            if bytes_eq(p.showing.as_slice(), showing) && p.target_area == area && p.mode == mode
                && p.coloured == coloured {
                proof {
                    assert(is_for(self.entries()[i as int], showing@, area, mode, coloured));
                }
                return true;
            }
            i = i + 1;
        }
        false
    }

    /// The job started last among those that show this path in this mode
    /// and colouring, `None` where there is none.
    pub fn latest(&self, showing: &[u8], mode: PreviewMode, coloured: bool) -> (found: Option<
        usize,
    >)
        ensures
            match found {
                Some(at) => {
                    &&& at < self.entries().len()
                    &&& shows(self.entries()[at as int], showing@, mode, coloured)
                    &&& forall|k: int|
                        at < k < self.entries().len() ==> !shows(
                            #[trigger] self.entries()[k],
                            showing@,
                            mode,
                            coloured,
                        )
                },
                None => forall|k: int|
                    0 <= k < self.entries().len() ==> !shows(
                        #[trigger] self.entries()[k],
                        showing@,
                        mode,
                        coloured,
                    ),
            },
    {
        let mut i: usize = self.inner.len();
        while i > 0
            invariant
                i <= self.entries().len(),
                self.entries().len() == self.inner@.len(),
                forall|k: int|
                    i <= k < self.entries().len() ==> !shows(
                        #[trigger] self.entries()[k],
                        showing@,
                        mode,
                        coloured,
                    ),
            decreases i,
        {
            i = i - 1;
            let p = &self.inner[i];
            if bytes_eq(p.showing.as_slice(), showing) && p.mode == mode && p.coloured
                == coloured {
                return Some(i);
            }
        }
        None
    }

    /// Lets a new job in behind the others and hands out its number. Where
    /// the ring is full, the oldest job leaves it.
    pub fn enter(
        &mut self,
        showing: Vec<u8>,
        area: URect,
        mode: PreviewMode,
        coloured: bool,
        now: u64,
    ) -> (job: u64)
        requires
            old(self).wf(),
        ensures
            final(self).wf(),
            job == old(self).next_job(),
            final(self).next_job() == job_after(job),
            final(self).entries() == let_in(
                old(self).entries(),
                PreviewView {
                    showing: showing@,
                    mode,
                    target_area: area,
                    coloured,
                    started: now,
                    finished: false,
                    job,
                },
            ),
    {
        let job: u64 = self.next_job;
        self.next_job = if job < u64::MAX {
            job + 1
        } else {
            0
        };
        if self.inner.len() >= RING_CAPACITY {
            let _ = self.inner.pop_front();
        }
        self.inner.push_back(
            Preview { showing, mode, target_area: area, coloured, started: now, finished: false, job },
        );
        proof {
            assert(self.entries() =~= let_in(
                old(self).entries(),
                PreviewView {
                    showing: showing@,
                    mode,
                    target_area: area,
                    coloured,
                    started: now,
                    finished: false,
                    job,
                },
            ));
        }
        job
    }

    /// Records that the worker of `job` has ended. A job that has left the
    /// ring is not looked for.
    pub fn note_finished(&mut self, job: u64)
        ensures
            final(self).next_job() == old(self).next_job(),
            final(self).entries().len() == old(self).entries().len(),
            forall|i: int|
                0 <= i < old(self).entries().len() ==> #[trigger] final(self).entries()[i] == (
                if old(self).entries()[i].job == job {
                    PreviewView { finished: true, ..old(self).entries()[i] }
                } else {
                    old(self).entries()[i]
                }),
    {
        let mut kept: VecDeque<Preview> = VecDeque::new();
        let n: usize = self.inner.len();
        let mut i: usize = 0;
        while i < n
            invariant
                i <= n,
                self.inner@.len() == n - i,
                old(self).inner@.len() == n,
                self.next_job == old(self).next_job,
                kept@.len() == i,
                forall|k: int| 0 <= k < n - i ==> self.inner@[k] == old(self).inner@[i + k],
                forall|k: int|
                    0 <= k < i ==> #[trigger] kept@[k]@ == (if old(self).inner@[k]@.job == job {
                        PreviewView { finished: true, ..old(self).inner@[k]@ }
                    } else {
                        old(self).inner@[k]@
                    }),
            decreases n - i,
        {
            match self.inner.pop_front() {
                Some(mut p) => {
                    if p.job == job {
                        p.finished = true;
                    }
                    kept.push_back(p);
                },
                None => {},
            }
            i = i + 1;
        }
        self.inner = kept;
    }

    /// Whether a job is held whose worker has not been seen to end.
    pub fn is_scanning(&self) -> (yes: bool)
        ensures
            yes == exists|i: int|
                0 <= i < self.entries().len() && !(#[trigger] self.entries()[i]).finished,
    {
        let mut i: usize = 0;
        while i < self.inner.len()
            invariant
                i <= self.entries().len(),
                self.entries().len() == self.inner@.len(),
                forall|k: int| 0 <= k < i ==> (#[trigger] self.entries()[k]).finished,
            decreases self.inner@.len() - i,
        {
            if !self.inner[i].finished {
                proof {
                    assert(!self.entries()[i as int].finished);
                }
                return true;
            }
            i = i + 1;
        }
        false
    }

    /// Whether painting now would show a job as unfinished that was started
    /// less than `FLICKER_MS` ago: the caller then waits a moment first.
    pub fn would_flicker(&self, now: u64) -> (yes: bool)
        ensures
            yes == exists|i: int|
                0 <= i < self.entries().len() && flickers(#[trigger] self.entries()[i], now),
    {
        let mut i: usize = 0;
        while i < self.inner.len()
            invariant
                i <= self.entries().len(),
                self.entries().len() == self.inner@.len(),
                forall|k: int| 0 <= k < i ==> !flickers(#[trigger] self.entries()[k], now),
            decreases self.inner@.len() - i,
        {
            let p = &self.inner[i];
            if !p.finished && (now < p.started || now - p.started < FLICKER_MS) {
                proof {
                    assert(flickers(self.entries()[i as int], now));
                }
                return true;
            }
            i = i + 1;
        }
        false
    }
}

impl Default for Previews {
    fn default() -> (ring: Self)
        ensures
            ring.wf(),
            ring.entries() == Seq::<PreviewView>::empty(),
            ring.next_job() == 0,
    {
        Previews::new()
    }
}

/// What a preview shows while nothing is rendered yet.
pub enum PreviewCommand {
    /// Nothing is known yet.
    Thinking,
    /// The output of a command, named as it is shown.
    Custom(String),
    /// The content of a regular file.
    InterpretFile,
}

impl Default for PreviewCommand {
    fn default() -> (c: Self)
        ensures
            c is Thinking,
    {
        PreviewCommand::Thinking
    }
}

/// A line that stands above what was rendered.
pub enum PreviewLine {
    /// The command that made the preview, set to the right in five
    /// columns, and the path shown.
    Header { command: String, path: Vec<u8> },
    /// A remark, shown dimmed.
    Dim(String),
    Blank,
}

/// A finished preview: lines above, and below them the text as the
/// renderer wrote it, colours as escape sequences.
pub struct Rendered {
    pub head: Vec<PreviewLine>,
    pub body: Vec<u8>,
}

/// What is painted for a preview job.
#[derive(Copy, Clone, PartialEq, Eq, Structural, Debug)]
pub enum Showing {
    /// A header alone: nothing is known of the job yet.
    Nothing,
    /// What was rendered.
    Rendered,
    /// What was read of the file so far, as it is.
    RawFile,
    /// What the command has printed so far, as it is.
    RawOutput,
}

/// How many bytes content of `held` bytes can still take.
pub open spec fn room_left(held: nat) -> nat {
    if held >= CONTENT_CAP {
        0
    } else {
        (CONTENT_CAP - held) as nat
    }
}

/// `held` with as much of `chunk` behind it as there is room for under
/// `CONTENT_CAP`.
pub open spec fn capped(held: Seq<u8>, chunk: Seq<u8>) -> Seq<u8> {
    if chunk.len() <= room_left(held.len()) {
        held + chunk
    } else {
        held + chunk.take(room_left(held.len()) as int)
    }
}

/// Reading in pieces gives what reading at once gives: the content is the
/// beginning of what was read, `CONTENT_CAP` bytes at most.
pub proof fn lemma_capped_in_pieces(held: Seq<u8>, first: Seq<u8>, second: Seq<u8>)
    ensures
        capped(capped(held, first), second) == capped(held, first + second),
        held.len() <= CONTENT_CAP ==> capped(held, first).len() <= CONTENT_CAP,
        capped(Seq::<u8>::empty(), first).is_prefix_of(first),
        first.len() <= CONTENT_CAP ==> capped(Seq::<u8>::empty(), first) == first,
{
    let room = room_left(held.len()) as int;
    let whole = first + second;
    if first.len() <= room {
        let rest = room_left((held + first).len()) as int;
        if second.len() <= rest {
            assert(held + first + second =~= held + whole);
        } else {
            assert(held + first + second.take(rest) =~= held + whole.take(room));
        }
    } else {
        assert(room_left((held + first.take(room)).len()) == 0);
        assert(second.take(0) =~= Seq::<u8>::empty());
        assert(held + first.take(room) + second.take(0) =~= held + whole.take(room));
        if second.len() == 0 {
            assert(whole =~= first);
        }
    }
    assert(Seq::<u8>::empty() + first =~= first);
    if first.len() > CONTENT_CAP {
        assert(Seq::<u8>::empty() + first.take(CONTENT_CAP as int) =~= first.take(
            CONTENT_CAP as int,
        ));
    }
}

/// What a preview job has read and rendered so far.
pub struct PreviewedData {
    pub command: PreviewCommand,
    pub content: Vec<u8>,
    pub render: Option<Rendered>,
}

impl Default for PreviewedData {
    fn default() -> (d: Self)
        ensures
            d.command is Thinking,
            d.content@.len() == 0,
            d.render is None,
    {
        PreviewedData { command: PreviewCommand::Thinking, content: Vec::new(), render: None }
    }
}

impl PreviewedData {
    /// Takes what was read of the file, as far as there is room for it
    /// under `CONTENT_CAP`, and says whether more is to be read: it is,
    /// while there is room left.
    pub fn append(&mut self, chunk: &[u8]) -> (more: bool)
        ensures
            final(self).content@ == capped(old(self).content@, chunk@),
            more == (final(self).content@.len() < CONTENT_CAP),
            old(self).content@.len() <= CONTENT_CAP ==> final(self).content@.len() <= CONTENT_CAP,
            final(self).command == old(self).command,
            final(self).render == old(self).render,
    {
        let held: usize = self.content.len();
        let room: usize = if held >= CONTENT_CAP {
            0
        } else {
            CONTENT_CAP - held
        };
        let taken: usize = if chunk.len() <= room {
            chunk.len()
        } else {
            room
        };
        let mut i: usize = 0;
        while i < taken
            invariant
                i <= taken,
                taken <= chunk@.len(),
                self.content@ == old(self).content@ + chunk@.take(i as int),
                self.command == old(self).command,
                self.render == old(self).render,
            decreases taken - i,
        {
            self.content.push(chunk[i]);
            proof {
                assert(chunk@.take(i + 1) =~= chunk@.take(i as int).push(chunk@[i as int]));
            }
            i = i + 1;
        }
        self.content.len() < CONTENT_CAP
    }

    /// What is painted for the job as it stands: what was rendered, where
    /// something was; else, while nothing is known of the job, a header
    /// alone; else what was read so far, as it is, under the name of what
    /// reads it.
    pub fn showing(&self) -> (shown: Showing)
        ensures
            shown == match (self.command, self.render) {
                (PreviewCommand::Thinking, _) => Showing::Nothing,
                (_, Some(_)) => Showing::Rendered,
                (PreviewCommand::InterpretFile, None) => Showing::RawFile,
                (PreviewCommand::Custom(_), None) => Showing::RawOutput,
            },
    {
        match (&self.command, &self.render) {
            (PreviewCommand::Thinking, _) => Showing::Nothing,
            (_, Some(_)) => Showing::Rendered,
            (PreviewCommand::InterpretFile, None) => Showing::RawFile,
            (PreviewCommand::Custom(_), None) => Showing::RawOutput,
        }
    }

    /// Takes note that the job has failed: what went wrong is shown in
    /// place of the content that is missing, on a line of its own behind
    /// what was read, as far as there is room for it under `CONTENT_CAP`.
    pub fn fail(&mut self, message: &str)
        ensures
            final(self).content@ == capped(
                old(self).content@,
                "Error: ".spec_bytes() + message.spec_bytes() + seq![10u8],
            ),
            old(self).content@.len() <= CONTENT_CAP ==> final(self).content@.len() <= CONTENT_CAP,
            final(self).command == old(self).command,
            final(self).render == old(self).render,
    {
        let mut line: Vec<u8> = Vec::new();
        line.extend_from_slice("Error: ".as_bytes());
        line.extend_from_slice(message.as_bytes());
        line.push(10u8);
        let _ = self.append(line.as_slice());
    }
}

/// `s` as it stands within an indented text: behind each line feed,
/// `with` begins the next line.
pub open spec fn indented_body(s: Seq<u8>, with: Seq<u8>) -> Seq<u8>
    decreases s.len(),
{
    if s.len() == 0 {
        s
    } else if s.last() == 10u8 {
        indented_body(s.drop_last(), with).push(10u8) + with
    } else {
        indented_body(s.drop_last(), with).push(s.last())
    }
}

/// `s` with `with` before each of its lines, and a line feed behind the
/// last. Text without a line feed is one line; text that ends in one has an
/// empty line behind it.
pub open spec fn indented(s: Seq<u8>, with: Seq<u8>) -> Seq<u8> {
    (with + indented_body(s, with)).push(10u8)
}

/// Puts `with` before each line of `buf`.
pub fn indent(buf: &[u8], with: &[u8]) -> (text: Vec<u8>)
    ensures
        text@ == indented(buf@, with@),
{
    let mut text: Vec<u8> = Vec::new();
    text.extend_from_slice(with);
    let mut i: usize = 0;
    while i < buf.len()
        invariant
            i <= buf.len(),
            text@ == with@ + indented_body(buf@.take(i as int), with@),
        decreases buf.len() - i,
    {
        proof {
            assert(buf@.take(i + 1).drop_last() =~= buf@.take(i as int));
        }
        text.push(buf[i]);
        if buf[i] == 10u8 {
            text.extend_from_slice(with);
        }
        i = i + 1;
    }
    proof {
        assert(buf@.take(buf.len() as int) =~= buf@);
    }
    text.push(10u8);
    text
}

/// `command` set to the right in five columns.
pub open spec fn padded(command: Seq<char>) -> Seq<char> {
    if command.len() >= 5 {
        command
    } else {
        Seq::new((5 - command.len()) as nat, |i: int| ' ') + command
    }
}

/// The line that heads a preview: the command that made it, and the path
/// shown.
pub fn preview_header(command: &str, showing: &[u8]) -> (line: PreviewLine)
    ensures
        line matches PreviewLine::Header { command: c, path } && c@ == padded(command@) && path@
            == showing@,
{
    let len: usize = command.unicode_len();
    let mut text: String = String::new();
    let mut i: usize = len;
    while i < 5
        invariant
            len <= i,
            i <= 5 || i == len,
            text@ == Seq::new((i - len) as nat, |k: int| ' '),
        decreases 5 - i,
    {
        proof {
            reveal_strlit(" ");
        }
        let ghost before = text@;
        text.append(" ");
        proof {
            assert(" "@ =~= seq![' ']);
            assert(text@ =~= Seq::new((i + 1 - len) as nat, |k: int| ' '));
        }
        i = i + 1;
    }
    text.append(command);
    proof {
        if len >= 5 {
            assert(text@ =~= command@);
        }
    }
    PreviewLine::Header { command: text, path: copy_bytes(showing) }
}

/// The switch that tells a command whether to colour its output.
pub fn colour_flag(coloured: bool) -> (flag: &'static str)
    ensures
        flag@ == if coloured {
            "--color=always"@
        } else {
            "--color=never"@
        },
{
    if coloured {
        "--color=always"
    } else {
        "--color=never"
    }
}

/// How a preview is made.
pub enum PreviewPlan {
    /// The file is read, up to `CONTENT_CAP`, and interpreted.
    ReadFile,
    /// The listing of a directory is run and framed.
    List { args: Vec<Vec<u8>> },
    /// `git` is run in the directory above the path, and what it prints,
    /// errors too, is framed.
    Git { subcommand: &'static str, args: Vec<Vec<u8>> },
}

/// The colour switch as bytes.
pub open spec fn colour_flag_bytes(coloured: bool) -> Seq<u8> {
    if coloured {
        "--color=always".spec_bytes()
    } else {
        "--color=never".spec_bytes()
    }
}

/// The subcommand of `git` that a mode stands for.
pub fn git_subcommand(mode: PreviewMode) -> (sub: Option<&'static str>)
    ensures
        match mode {
            PreviewMode::Content => sub is None,
            PreviewMode::GitLg => sub matches Some(s) && s@ == "lg"@,
            PreviewMode::GitShow => sub matches Some(s) && s@ == "show"@,
        },
{
    match mode {
        PreviewMode::Content => None,
        PreviewMode::GitLg => Some("lg"),
        PreviewMode::GitShow => Some("show"),
    }
}

/// The name under which the output of `git` is shown.
pub fn git_label(subcommand: &str) -> (label: String)
    ensures
        label@ == "g "@ + subcommand@,
{
    let mut label: String = String::new();
    label.append("g ");
    label.append(subcommand);
    label
}

/// How the preview of `path` is made in `mode`, where `is_file` says
/// whether the path leads to a regular file.
pub fn run_preview(path: &[u8], coloured: bool, mode: PreviewMode, is_file: bool) -> (plan:
    PreviewPlan)
    ensures
        match mode {
            PreviewMode::Content => if is_file {
                plan is ReadFile
            } else {
                plan matches PreviewPlan::List { args } && args@.len() == 3 && args@[0]@ == path@
                    && args@[1]@ == "-al".spec_bytes() && args@[2]@ == colour_flag_bytes(coloured)
            },
            PreviewMode::GitLg => plan matches PreviewPlan::Git { subcommand, args }
                && subcommand@ == "lg"@ && args@.len() == 3 && args@[0]@ == "lg".spec_bytes()
                && args@[1]@ == colour_flag_bytes(coloured) && args@[2]@ == path@,
            PreviewMode::GitShow => plan matches PreviewPlan::Git { subcommand, args }
                && subcommand@ == "show"@ && args@.len() == 3 && args@[0]@ == "show".spec_bytes()
                && args@[1]@ == colour_flag_bytes(coloured) && args@[2]@ == path@,
        },
{
    match git_subcommand(mode) {
        Some(subcommand) => {
            let mut args: Vec<Vec<u8>> = Vec::new();
            args.push(copy_bytes(subcommand.as_bytes()));
            args.push(copy_bytes(colour_flag(coloured).as_bytes()));
            args.push(copy_bytes(path));
            PreviewPlan::Git { subcommand, args }
        },
        None => {
            if is_file {
                PreviewPlan::ReadFile
            } else {
                let mut args: Vec<Vec<u8>> = Vec::new();
                args.push(copy_bytes(path));
                args.push(copy_bytes("-al".as_bytes()));
                args.push(copy_bytes(colour_flag(coloured).as_bytes()));
                PreviewPlan::List { args }
            }
        },
    }
}

/// What a preview records as its command before anything is read or run.
pub fn command_of(plan: &PreviewPlan) -> (command: PreviewCommand)
    ensures
        match *plan {
            PreviewPlan::ReadFile => command is InterpretFile,
            PreviewPlan::List { .. } => command matches PreviewCommand::Custom(name) && name@
                == "ls"@,
            PreviewPlan::Git { subcommand, .. } => command matches PreviewCommand::Custom(name)
                && name@ == "g "@ + subcommand@,
        },
{
    match plan {
        PreviewPlan::ReadFile => PreviewCommand::InterpretFile,
        PreviewPlan::List { .. } => PreviewCommand::Custom("ls".to_owned()),
        PreviewPlan::Git { subcommand, .. } => PreviewCommand::Custom(git_label(subcommand)),
    }
}

/// Frames what the listing of `path` printed: each line set in by five
/// columns, below a header.
pub fn frame_listing(path: &[u8], output: &[u8]) -> (framed: Rendered)
    ensures
        framed.body@ == indented(output@, seq![32u8, 32u8, 32u8, 32u8, 32u8]),
        framed.head@.len() == 1,
        framed.head@[0] matches PreviewLine::Header { command, path: p } && command@ == padded(
            "ls"@,
        ) && p@ == path@,
{
    let with: [u8; 5] = [32, 32, 32, 32, 32];
    let body: Vec<u8> = indent(output, with.as_slice());
    let mut head: Vec<PreviewLine> = Vec::new();
    head.push(preview_header("ls", path));
    proof {
        assert(with@ =~= seq![32u8, 32u8, 32u8, 32u8, 32u8]);
    }
    Rendered { head, body }
}

/// Frames what `git` printed for `path`: carriage returns taken out, each
/// line set in by one column, below a header.
pub fn frame_git(path: &[u8], subcommand: &str, output: &[u8]) -> (framed: Rendered)
    ensures
        framed.body@ == indented(without(output@, 13u8), seq![32u8]),
        framed.head@.len() == 1,
        framed.head@[0] matches PreviewLine::Header { command, path: p } && command@ == padded(
            "g "@ + subcommand@,
        ) && p@ == path@,
{
    let clean: Vec<u8> = strip_byte(output, 13u8);
    let with: [u8; 1] = [32];
    let body: Vec<u8> = indent(clean.as_slice(), with.as_slice());
    let label: String = git_label(subcommand);
    let mut head: Vec<PreviewLine> = Vec::new();
    head.push(preview_header(label.as_str(), path));
    proof {
        assert(with@ =~= seq![32u8]);
    }
    Rendered { head, body }
}

/// Whether `bytes` begin with `mark`.
pub open spec fn begins_with(bytes: Seq<u8>, mark: Seq<u8>) -> bool {
    mark.len() <= bytes.len() && bytes.take(mark.len() as int) == mark
}

/// Whether `bytes` begin with a byte order mark of UTF-8, UTF-16 or
/// UTF-32.
pub open spec fn has_byte_order_mark(bytes: Seq<u8>) -> bool {
    ||| begins_with(bytes, seq![0xEFu8, 0xBBu8, 0xBFu8])
    ||| begins_with(bytes, seq![0x00u8, 0x00u8, 0xFEu8, 0xFFu8])
    ||| begins_with(bytes, seq![0xFFu8, 0xFEu8, 0x00u8, 0x00u8])
    ||| begins_with(bytes, seq![0xFEu8, 0xFFu8])
    ||| begins_with(bytes, seq![0xFFu8, 0xFEu8])
}

/// What `content_inspector::inspect` takes for binary data: content
/// without a byte order mark that holds a zero byte among its first 1024
/// bytes, or begins as a PDF or a PNG file does.
pub open spec fn inspected_binary(bytes: Seq<u8>) -> bool {
    &&& !has_byte_order_mark(bytes)
    &&& {
        ||| exists|i: int| 0 <= i < bytes.len() && i < 1024 && #[trigger] bytes[i] == 0u8
        ||| begins_with(bytes, seq![0x25u8, 0x50u8, 0x44u8, 0x46u8])
        ||| begins_with(bytes, seq![0x89u8, 0x50u8, 0x4Eu8, 0x47u8])
    }
}

/// The name of the format that `file_type` finds `bytes` to be of.
pub uninterp spec fn sniffed_name(bytes: Seq<u8>) -> Seq<char>;

/// The number of file extensions that `file_type` knows for the format it
/// finds `bytes` to be of.
pub uninterp spec fn sniffed_extensions(bytes: Seq<u8>) -> nat;

/// `content_inspector::inspect`, asked whether it says `BINARY`: it looks
/// for a byte order mark first, then for a zero byte among the first 1024
/// bytes, then for the first bytes of a PDF or a PNG file.
#[verifier::external_body]
fn is_binary(content: &[u8]) -> (yes: bool)
    ensures
        yes == inspected_binary(content@),
{
    content_inspector::inspect(content).is_binary()
}

/// What `file_type` tells of some bytes.
pub struct Sniffed {
    pub name: String,
    pub extensions: usize,
}

/// `FileType::from_bytes`, and of the format found its `name` and the
/// number of its `extensions`.
#[verifier::external_body]
fn sniff(content: &[u8]) -> (found: Sniffed)
    ensures
        found.name@ == sniffed_name(content@),
        found.extensions == sniffed_extensions(content@),
{
    let format = file_type::FileType::from_bytes(content);
    Sniffed { name: format.name().to_string(), extensions: format.extensions().len() }
}

/// How text is highlighted.
pub struct Highlighting {
    /// Whether the name of the file heads the text.
    pub header: bool,
    pub coloured: bool,
    /// The width of the pane, in columns.
    pub width: usize,
    /// The width of a tab, in columns.
    pub tab_width: usize,
    pub line_numbers: bool,
    pub italics: bool,
}

/// How the text of a preview is highlighted for a pane `width` columns
/// wide: without a header, with line numbers, with tabs two columns wide,
/// and without italics.
pub fn preview_highlighting(width: usize, coloured: bool) -> (how: Highlighting)
    ensures
        how == (Highlighting {
            header: false,
            coloured,
            width,
            tab_width: 2,
            line_numbers: true,
            italics: false,
        }),
{
    Highlighting {
        header: false,
        coloured,
        width,
        tab_width: 2,
        line_numbers: true,
        italics: false,
    }
}

/// bat's `PrettyPrinter`, set up as `how` says, printing `content` under
/// the name `name` to `sink`. The printer can only write to the sink, and
/// gives up when the sink refuses a write: what the sink held stays, and
/// its budget of lines does not grow.
#[verifier::external_body]
fn highlight(content: &[u8], name: &str, how: &Highlighting, sink: &mut LineStopFmtWrite)
    ensures
        old(sink).written().is_prefix_of(final(sink).written()),
        final(sink).remaining() <= old(sink).remaining(),
{
    let _ = bat::PrettyPrinter::new()
        .input(bat::Input::from_bytes(content).name(name))
        .header(how.header)
        .colored_output(how.coloured)
        .term_width(how.width)
        .tab_width(Some(how.tab_width))
        .line_numbers(how.line_numbers)
        .use_italics(how.italics)
        .print_with_writer(Some(sink));
}

/// What hexyl's `Printer` with `panels` panels and without colours writes
/// of `content` to a sink that takes `budget` lines before it refuses.
pub uninterp spec fn hex_text(content: Seq<u8>, panels: u64, budget: nat) -> Seq<u8>;

/// hexyl's `Printer` with `panels` panels, printing all of `content` to
/// `sink`. The printer only writes to the sink, and gives up when the sink
/// refuses a write: what the sink held stays, and its budget of lines does
/// not grow. Without colours, what it writes goes by the content, the
/// number of panels and the budget of the sink alone; its colours it reads
/// from the environment. The printer keeps a line of eight bytes for each
/// panel in memory.
#[verifier::external_body]
fn hex_dump(content: &[u8], panels: u64, coloured: bool, sink: &mut LineStopIoWrite)
    requires
        1 <= panels <= MAX_PANELS,
    ensures
        old(sink).written().is_prefix_of(final(sink).written()),
        final(sink).remaining() <= old(sink).remaining(),
        !coloured ==> final(sink).written() == old(sink).written() + hex_text(
            content@,
            panels,
            old(sink).remaining(),
        ),
{
    let _ = hexyl::PrinterBuilder::new(sink)
        .num_panels(panels)
        .show_color(coloured)
        .build()
        .print_all(content);
}

/// The most panels that a hex dump is given: as many as fit a screen of
/// 65535 columns.
pub const MAX_PANELS: u64 = 1872;

/// The number of panels of a hex dump in a pane `width` columns wide: one
/// for each 35 columns beyond the first ten, one at least, and `MAX_PANELS`
/// at most.
pub open spec fn panels_for(width: usize) -> int {
    if width - 10 < 35 {
        1
    } else if (width - 10) / 35 > MAX_PANELS {
        MAX_PANELS as int
    } else {
        (width - 10) / 35
    }
}

/// The number of panels of a hex dump in a pane `width` columns wide.
pub fn hex_panels(width: usize) -> (panels: u64)
    ensures
        panels == panels_for(width),
        1 <= panels <= MAX_PANELS,
{
    let spare: usize = if width >= 10 {
        width - 10
    } else {
        0
    };
    let fit: usize = spare / 35;
    if fit < 1 {
        1
    } else if fit as u64 > MAX_PANELS {
        MAX_PANELS
    } else {
        fit as u64
    }
}

/// The number of lines that head a hex dump: where the format of the
/// content has a file extension, the name of the format comes first, under
/// a header of its own and above an empty line.
pub open spec fn binary_head_len(extensions: nat) -> nat {
    if extensions > 0 {
        4
    } else {
        1
    }
}

/// The preview of binary content that is no picture: a hex dump of as many
/// lines as the area has, headed by what the content was found to be.
pub fn show_binary(content: &[u8], showing: &[u8], area: URect, coloured: bool) -> (shown:
    Rendered)
    ensures
        !coloured ==> shown.body@ == hex_text(
            content@,
            panels_for(area.width) as u64,
            area.height as nat,
        ),
        shown.head@.len() == binary_head_len(sniffed_extensions(content@)),
        sniffed_extensions(content@) == 0 ==> {
            &&& shown.head@[0] matches PreviewLine::Header { command, path }
            &&& command@ == padded("hexyl"@)
            &&& path@ == showing@
        },
        sniffed_extensions(content@) > 0 ==> {
            &&& shown.head@[0] matches PreviewLine::Header { command, path }
            &&& command@ == padded("file"@)
            &&& path@ == showing@
            &&& shown.head@[1] matches PreviewLine::Dim(name)
            &&& name@ == sniffed_name(content@)
            &&& shown.head@[2] is Blank
            &&& shown.head@[3] matches PreviewLine::Header { command: c, path: p }
            &&& c@ == padded("hexyl"@)
            &&& p@ == showing@
        },
{
    let mut sink = LineStopIoWrite::new(area.height);
    hex_dump(content, hex_panels(area.width), coloured, &mut sink);
    let body: Vec<u8> = sink.into_inner();
    let mut head: Vec<PreviewLine> = Vec::new();
    let found = sniff(content);
    if found.extensions > 0 {
        head.push(preview_header("file", showing));
        head.push(PreviewLine::Dim(found.name));
        head.push(PreviewLine::Blank);
    }
    head.push(preview_header("hexyl", showing));
    Rendered { head, body }
}

/// Whether content is to be shown as a picture or a hex dump rather than
/// as text.
pub fn needs_binary_view(content: &[u8]) -> (yes: bool)
    ensures
        yes == inspected_binary(content@),
{
    is_binary(content)
}

/// The preview of text: what the highlighter made of it, under a header.
pub fn show_text(showing: &[u8], highlighted: &str) -> (shown: Rendered)
    ensures
        shown.body@ == highlighted.spec_bytes(),
        shown.head@.len() == 1,
        shown.head@[0] matches PreviewLine::Header { command, path } && command@ == padded(
            "bat"@,
        ) && path@ == showing@,
{
    let body: Vec<u8> = copy_bytes(highlighted.as_bytes());
    let mut head: Vec<PreviewLine> = Vec::new();
    head.push(preview_header("bat", showing));
    Rendered { head, body }
}

/// The preview of the content of a file. Binary content is shown as
/// `picture`, the picture that the caller made of the file, or as a hex
/// dump where there is none. Text is handed to the highlighter, without
/// its carriage returns, for a pane as wide as `area` and under the name
/// `showing`, which lets the highlighter tell the language; what it wrote
/// is shown as `show_text` shows it. What the highlighter writes goes by
/// its own settings too, which it reads from the environment. Either way
/// no more is rendered than the lines of `area`, but for the write that
/// crosses that line.
pub fn interpret_file(
    content: &[u8],
    showing: &[u8],
    area: URect,
    coloured: bool,
    picture: Option<Vec<u8>>,
) -> (shown: Rendered)
    ensures
        inspected_binary(content@) && picture is Some ==> shown.head@.len() == 0 && shown.body@
            == picture->0@,
        inspected_binary(content@) && picture is None ==> {
            &&& shown.head@.len() == binary_head_len(sniffed_extensions(content@))
            &&& !coloured ==> shown.body@ == hex_text(
                content@,
                panels_for(area.width) as u64,
                area.height as nat,
            )
        },
        !inspected_binary(content@) ==> {
            &&& shown.head@.len() == 1
            &&& shown.head@[0] matches PreviewLine::Header { command, path }
            &&& command@ == padded("bat"@)
            &&& path@ == showing@
        },
{
    if is_binary(content) {
        match picture {
            Some(body) => Rendered { head: Vec::new(), body },
            None => show_binary(content, showing, area, coloured),
        }
    } else {
        let mut sink = LineStopFmtWrite::new(area.height);
        let text: Vec<u8> = strip_byte(content, 13u8);
        let name: String = read_lossy(showing);
        let how = preview_highlighting(area.width, coloured);
        highlight(text.as_slice(), name.as_str(), &how, &mut sink);
        let written: String = sink.into_inner();
        show_text(showing, written.as_str())
    }
}

} // verus!
