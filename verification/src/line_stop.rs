//! Sinks that take what a renderer writes and tell it to stop once a number
//! of lines has gone through, so that a large file costs no more than the
//! lines that fit the pane.

use vstd::prelude::*;
use vstd::string::StringExecFns;
use vstd::string::StringSliceAdditionalSpecFns;
use crate::bytes::{count_byte, occurrences};

verus! {

/// The line budget that is left after a write with `newlines` line feeds.
pub open spec fn lines_left(remaining: nat, newlines: nat) -> nat {
    if newlines >= remaining {
        0
    } else {
        (remaining - newlines) as nat
    }
}

/// A sink for text.
pub struct LineStopFmtWrite {
    remaining_new_lines: usize,
    pub inner: String,
}

impl LineStopFmtWrite {
    /// The number of line feeds that may still pass before the sink is full.
    pub closed spec fn remaining(&self) -> nat {
        self.remaining_new_lines as nat
    }

    /// All that was written, which is what `inner` holds.
    pub closed spec fn written(&self) -> Seq<char> {
        self.inner@
    }

    /// An empty sink that takes this many line feeds before it is full.
    pub fn new(remaining_new_lines: usize) -> (w: Self)
        ensures
            w.remaining() == remaining_new_lines,
            w.written() == Seq::<char>::empty(),
    {
        Self { remaining_new_lines, inner: String::new() }
    }

    /// The number of line feeds that may still pass.
    pub fn remaining_lines(&self) -> (n: usize)
        ensures
            n == self.remaining(),
    {
        self.remaining_new_lines
    }

    /// Hands out what was written.
    pub fn into_inner(self) -> (text: String)
        ensures
            text@ == self.written(),
    {
        self.inner
    }

    /// Takes `s` whole, also where it holds more lines than were left, and
    /// counts its line feeds off the budget. The result says whether the
    /// budget is used up, so that the writer is to stop.
    pub fn accept(&mut self, s: &str) -> (full: bool)
        ensures
            final(self).written() == old(self).written() + s@,
            final(self).remaining() == lines_left(
                old(self).remaining(),
                occurrences(s.spec_bytes(), 10u8),
            ),
            full <==> final(self).remaining() == 0,
    {
        let newlines: usize = count_byte(s.as_bytes(), 10u8);
        self.remaining_new_lines = if newlines >= self.remaining_new_lines {
            0
        } else {
            self.remaining_new_lines - newlines
        };
        self.inner.append(s);
        self.remaining_new_lines == 0
    }
}

/// A sink for bytes.
pub struct LineStopIoWrite {
    remaining_new_lines: usize,
    pub inner: Vec<u8>,
}

impl LineStopIoWrite {
    /// The number of line feeds that may still pass before the sink is full.
    pub closed spec fn remaining(&self) -> nat {
        self.remaining_new_lines as nat
    }

    /// All that was written, which is what `inner` holds.
    pub closed spec fn written(&self) -> Seq<u8> {
        self.inner@
    }

    /// An empty sink that takes this many line feeds before it is full.
    pub fn new(remaining_new_lines: usize) -> (w: Self)
        ensures
            w.remaining() == remaining_new_lines,
            w.written() == Seq::<u8>::empty(),
    {
        Self { remaining_new_lines, inner: Vec::new() }
    }

    /// The number of line feeds that may still pass.
    pub fn remaining_lines(&self) -> (n: usize)
        ensures
            n == self.remaining(),
    {
        self.remaining_new_lines
    }

    /// Hands out what was written.
    pub fn into_inner(self) -> (bytes: Vec<u8>)
        ensures
            bytes@ == self.written(),
    {
        self.inner
    }

    /// Takes `buf` whole and counts its line feeds off the budget. The
    /// result says whether the budget is used up, so that the writer is to
    /// stop.
    pub fn accept(&mut self, buf: &[u8]) -> (full: bool)
        ensures
            final(self).written() == old(self).written() + buf@,
            final(self).remaining() == lines_left(
                old(self).remaining(),
                occurrences(buf@, 10u8),
            ),
            full <==> final(self).remaining() == 0,
    {
        let newlines: usize = count_byte(buf, 10u8);
        self.remaining_new_lines = if newlines >= self.remaining_new_lines {
            0
        } else {
            self.remaining_new_lines - newlines
        };
        self.inner.extend_from_slice(buf);
        self.remaining_new_lines == 0
    }

}

/// The error of a formatter.
#[verifier::external_type_specification]
#[verifier::external_body]
pub struct ExFmtError(core::fmt::Error);

/// The error of a reader or writer.
#[verifier::external_type_specification]
#[verifier::external_body]
pub struct ExIoError(std::io::Error);

/// The one value of `core::fmt::Error`, by which a sink tells its writer to
/// stop.
#[verifier::external_body]
fn fmt_stop() -> core::fmt::Error {
    core::fmt::Error
}

/// `std::io::Error::from` of `ErrorKind::BrokenPipe`: the error by which a
/// sink tells its writer to stop.
#[verifier::external_body]
fn broken_pipe() -> std::io::Error {
    std::io::ErrorKind::BrokenPipe.into()
}

impl core::fmt::Write for LineStopFmtWrite {
    fn write_str(&mut self, s: &str) -> (res: Result<(), core::fmt::Error>)
        ensures
            final(self).written() == old(self).written() + s@,
            final(self).remaining() == lines_left(
                old(self).remaining(),
                occurrences(s.spec_bytes(), 10u8),
            ),
            res is Err <==> final(self).remaining() == 0,
    {
        if self.accept(s) {
            Err(fmt_stop())
        } else {
            Ok(())
        }
    }
}

impl std::io::Write for LineStopIoWrite {
    fn write(&mut self, buf: &[u8]) -> (res: Result<usize, std::io::Error>)
        ensures
            final(self).written() == old(self).written() + buf@,
            final(self).remaining() == lines_left(
                old(self).remaining(),
                occurrences(buf@, 10u8),
            ),
            res is Err <==> final(self).remaining() == 0,
            res matches Ok(n) ==> n == buf@.len(),
    {
        if self.accept(buf) {
            Err(broken_pipe())
        } else {
            Ok(buf.len())
        }
    }

    fn flush(&mut self) -> (res: Result<(), std::io::Error>)
        ensures
            *final(self) == *old(self),
            res is Ok,
    {
        Ok(())
    }
}

} // verus!
