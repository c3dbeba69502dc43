//! What is shown of a path's history and state in its repository. Running
//! `git` is the caller's part; here its arguments are made and its output
//! is read.

use vstd::prelude::*;
use crate::bytes::{copy_bytes, split, split_bytes, to_decimal, decimal, views};
use crate::fuzzy::{fuzzy_order, match_list, texts, Indexed};
use crate::item::{lossy_text, read_lossy};
use vstd::string::StringSliceAdditionalSpecFns;

verus! {

/// The state of a path in the index (`S`) or in the working tree (`U`):
/// added, deleted, modified, renamed, or unknown to the repository.
#[derive(Copy, Clone, Debug, PartialEq, Eq, Structural)]
pub enum Letter {
    SA,
    SD,
    SM,
    SR,
    SQ,
    UD,
    UM,
    UR,
    UQ,
}

/// What a repository says of a path whose state it has found changed.
#[derive(Copy, Clone, Debug, PartialEq, Eq, Structural)]
pub enum StatusChange {
    /// Between the last commit and the index: added.
    StagedAddition,
    /// Between the last commit and the index: deleted.
    StagedDeletion,
    /// Between the last commit and the index: modified.
    StagedModification,
    /// Between the last commit and the index: renamed or copied.
    StagedRewrite,
    /// Between the index and the working tree: modified.
    Modification,
    /// Between the index and the working tree: renamed or copied.
    Rewrite,
    /// In the working tree only: not tracked, or ignored.
    DirectoryContents,
}

/// The letter that is shown for a change.
pub fn letter_for(change: StatusChange) -> (letter: Letter)
    ensures
        letter == match change {
            StatusChange::StagedAddition => Letter::SA,
            StatusChange::StagedDeletion => Letter::SD,
            StatusChange::StagedModification => Letter::SM,
            StatusChange::StagedRewrite => Letter::SR,
            StatusChange::Modification => Letter::UM,
            StatusChange::Rewrite => Letter::UR,
            StatusChange::DirectoryContents => Letter::UQ,
        },
{
    match change {
        StatusChange::StagedAddition => Letter::SA,
        StatusChange::StagedDeletion => Letter::SD,
        StatusChange::StagedModification => Letter::SM,
        StatusChange::StagedRewrite => Letter::SR,
        StatusChange::Modification => Letter::UM,
        StatusChange::Rewrite => Letter::UR,
        StatusChange::DirectoryContents => Letter::UQ,
    }
}

/// One commit of a path's log.
pub struct LogEntry {
    pub hash: String,
    pub rel_date: String,
    pub decorate: String,
    pub author: String,
    pub subject: String,
}

/// A commit, as the contracts see it.
pub struct LogEntryView {
    pub hash: Seq<char>,
    pub rel_date: Seq<char>,
    pub decorate: Seq<char>,
    pub author: Seq<char>,
    pub subject: Seq<char>,
}

impl View for LogEntry {
    type V = LogEntryView;

    open spec fn view(&self) -> LogEntryView {
        LogEntryView {
            hash: self.hash@,
            rel_date: self.rel_date@,
            decorate: self.decorate@,
            author: self.author@,
            subject: self.subject@,
        }
    }
}

impl Default for LogEntry {
    fn default() -> (e: Self)
        ensures
            e@ == (LogEntryView {
                hash: Seq::empty(),
                rel_date: Seq::empty(),
                decorate: Seq::empty(),
                author: Seq::empty(),
                subject: Seq::empty(),
            }),
    {
        LogEntry {
            hash: String::new(),
            rel_date: String::new(),
            decorate: String::new(),
            author: String::new(),
            subject: String::new(),
        }
    }
}

/// The log of one path, newest commit first.
pub struct LogData {
    pub entries: Vec<LogEntry>,
}

impl Default for LogData {
    fn default() -> (d: Self)
        ensures
            d.entries@.len() == 0,
    {
        LogData { entries: Vec::new() }
    }
}

/// The format in which the log is asked for: hash, date, decoration,
/// author and subject, with a zero byte between each two.
pub fn log_format() -> (format: &'static str)
    ensures
        format@ == "--format=%h%x00%ad%x00%D%x00%an%x00%s"@,
{
    "--format=%h%x00%ad%x00%D%x00%an%x00%s"
}

/// The arguments with which `git` prints the log of `path`, `max_count`
/// commits at most.
pub fn log_args(path: &[u8], max_count: usize) -> (args: Vec<Vec<u8>>)
    ensures
        views(args@) == seq![
            "log".spec_bytes(),
            "--format=%h%x00%ad%x00%D%x00%an%x00%s".spec_bytes(),
            "--date=relative".spec_bytes(),
            "-n".spec_bytes(),
            decimal(max_count as nat),
            path@,
        ],
{
    let mut args: Vec<Vec<u8>> = Vec::new();
    args.push(copy_bytes("log".as_bytes()));
    args.push(copy_bytes(log_format().as_bytes()));
    args.push(copy_bytes("--date=relative".as_bytes()));
    args.push(copy_bytes("-n".as_bytes()));
    args.push(to_decimal(max_count));
    args.push(copy_bytes(path));
    proof {
        assert(views(args@) =~= seq![
            "log".spec_bytes(),
            "--format=%h%x00%ad%x00%D%x00%an%x00%s".spec_bytes(),
            "--date=relative".spec_bytes(),
            "-n".spec_bytes(),
            decimal(max_count as nat),
            path@,
        ]);
    }
    args
}

/// The text of field `k` of a line of the log, empty where the line has
/// no such field.
pub open spec fn field(fields: Seq<Seq<u8>>, k: int) -> Seq<char> {
    if 0 <= k < fields.len() {
        lossy_text(fields[k])
    } else {
        Seq::empty()
    }
}

/// The commit that a line of the log tells of. Fields beyond the fifth
/// are not read.
pub open spec fn entry_of(line: Seq<u8>) -> LogEntryView {
    let fields = split(line, 0u8);
    LogEntryView {
        hash: field(fields, 0),
        rel_date: field(fields, 1),
        decorate: field(fields, 2),
        author: field(fields, 3),
        subject: field(fields, 4),
    }
}

/// The commits that the lines tell of: one of each line that is not
/// empty, in their order.
pub open spec fn log_of(lines: Seq<Seq<u8>>) -> Seq<LogEntryView>
    decreases lines.len(),
{
    if lines.len() == 0 {
        Seq::empty()
    } else if lines.last().len() == 0 {
        log_of(lines.drop_last())
    } else {
        log_of(lines.drop_last()).push(entry_of(lines.last()))
    }
}

/// The commits in `entries`, as the contracts see them.
pub open spec fn log_views(entries: Seq<LogEntry>) -> Seq<LogEntryView> {
    Seq::new(entries.len(), |i: int| entries[i]@)
}

/// The text of field `k`, empty where there is no such field.
fn field_text(fields: &Vec<Vec<u8>>, k: usize) -> (text: String)
    ensures
        text@ == field(views(fields@), k as int),
{
    if k < fields.len() {
        read_lossy(fields[k].as_slice())
    } else {
        String::new()
    }
}

/// Reads one line of the log.
fn parse_line(line: &[u8]) -> (entry: LogEntry)
    ensures
        entry@ == entry_of(line@),
{
    let fields: Vec<Vec<u8>> = split_bytes(line, 0u8);
    LogEntry {
        hash: field_text(&fields, 0),
        rel_date: field_text(&fields, 1),
        decorate: field_text(&fields, 2),
        author: field_text(&fields, 3),
        subject: field_text(&fields, 4),
    }
}

/// Reads what `git` printed for `log_args`.
pub fn parse_log(stdout: &[u8]) -> (entries: Vec<LogEntry>)
    ensures
        log_views(entries@) == log_of(split(stdout@, 10u8)),
{
    let lines: Vec<Vec<u8>> = split_bytes(stdout, 10u8);
    let mut entries: Vec<LogEntry> = Vec::new();
    let mut i: usize = 0;
    proof {
        assert(views(lines@).take(0) =~= Seq::<Seq<u8>>::empty());
        assert(log_views(entries@) =~= log_of(views(lines@).take(0)));
    }
    while i < lines.len()
        invariant
            i <= lines@.len(),
            log_views(entries@) == log_of(views(lines@).take(i as int)),
        decreases lines@.len() - i,
    {
        proof {
            let all = views(lines@);
            assert(all.take(i + 1).drop_last() =~= all.take(i as int));
            assert(all.take(i + 1).last() == lines@[i as int]@);
        }
        if lines[i].len() > 0 {
            let ghost before = log_views(entries@);
            let entry = parse_line(lines[i].as_slice());
            entries.push(entry);
            proof {
                assert(log_views(entries@) =~= before.push(entry@));
            }
        }
        i = i + 1;
    }
    proof {
        let all = views(lines@);
        assert(all.take(all.len() as int) =~= all);
    }
    entries
}

/// The subjects of the first `limit` commits.
pub open spec fn subjects(entries: Seq<LogEntry>, limit: usize) -> Seq<Seq<char>> {
    Seq::new(
        if limit < entries.len() {
            limit as nat
        } else {
            entries.len()
        },
        |i: int| entries[i].subject@,
    )
}

/// The places, among the first `limit` commits of the log, of those whose
/// subject `input` matches, best match first.
pub fn git_log_matches(log_data: &LogData, input: &str, limit: usize) -> (order: Vec<usize>)
    ensures
        order@ == fuzzy_order(subjects(log_data.entries@, limit), input@),
        order@.no_duplicates(),
        forall|k: int|
            0 <= k < order@.len() ==> #[trigger] order@[k] < log_data.entries@.len() && order@[k]
                < limit,
{
    let mut items: Vec<Indexed<'_>> = Vec::new();
    let mut i: usize = 0;
    while i < log_data.entries.len() && i < limit
        invariant
            i <= log_data.entries@.len(),
            i <= limit,
            items@.len() == i,
            forall|k: int| 0 <= k < i ==> (#[trigger] items@[k]).index == k,
            forall|k: int| 0 <= k < i ==> (#[trigger] items@[k]).text@ == log_data.entries@[k].subject@,
        decreases log_data.entries@.len() - i,
    {
        items.push(Indexed { index: i, text: log_data.entries[i].subject.as_str() });
        i = i + 1;
    }
    proof {
        assert(texts(items@) =~= subjects(log_data.entries@, limit));
    }
    match_list(items, input)
}

} // verus!
