//! The directories that were visited, newest first, and a place among them
//! to go back and forward from.

use vstd::prelude::*;
use std::collections::VecDeque;
use crate::bytes::{bytes_eq, copy_bytes};

verus! {

/// `s` with every entry left out that occurs earlier in it.
pub open spec fn first_occurrences(s: Seq<Seq<u8>>) -> Seq<Seq<u8>>
    decreases s.len(),
{
    if s.len() == 0 {
        s
    } else if first_occurrences(s.drop_last()).contains(s.last()) {
        first_occurrences(s.drop_last())
    } else {
        first_occurrences(s.drop_last()).push(s.last())
    }
}

/// The entries of `s`, each as its bytes.
pub open spec fn paths_of(s: Seq<Vec<u8>>) -> Seq<Seq<u8>> {
    Seq::new(s.len(), |i: int| s[i]@)
}

/// Where the stack stands after going back from `position`.
pub open spec fn step_back(position: nat, len: nat) -> nat {
    if position + 1 < len {
        position + 1
    } else {
        (len - 1) as nat
    }
}

/// What a stack holds and where it stands.
pub struct StackView {
    /// The directories held, newest first.
    pub entries: Seq<Seq<u8>>,
    /// The index in `entries` of the directory last handed out.
    pub position: nat,
}

/// The stack after `entry` was pushed: put on top and made the current
/// one, unless it was on top already.
pub open spec fn pushed(stack: StackView, entry: Seq<u8>) -> StackView {
    if on_top(stack.entries, entry) {
        stack
    } else {
        StackView { entries: seq![entry] + stack.entries, position: 0 }
    }
}

/// The stack after a step back from `entry`, where it holds anything.
pub open spec fn stepped_back(stack: StackView, entry: Seq<u8>) -> StackView {
    let held = if stack.position == 0 {
        first_occurrences(seq![entry] + stack.entries)
    } else {
        stack.entries
    };
    StackView { entries: held, position: step_back(stack.position, held.len()) }
}

/// The stack after a step forward.
pub open spec fn stepped_forward(stack: StackView) -> StackView {
    StackView {
        entries: stack.entries,
        position: if stack.position == 0 {
            0
        } else {
            (stack.position - 1) as nat
        },
    }
}

/// The directory that the stack stands at.
pub open spec fn current_of(stack: StackView) -> Seq<u8> {
    stack.entries[stack.position as int]
}

/// Whether `entry` is the first of `entries`.
pub open spec fn on_top(entries: Seq<Seq<u8>>, entry: Seq<u8>) -> bool {
    entries.len() > 0 && entries[0] == entry
}

/// The directories that were visited.
pub struct DirStack {
    stack: VecDeque<Vec<u8>>,
    position: usize,
}

impl DirStack {
    /// What the stack holds and where it stands.
    pub open spec fn view(&self) -> StackView {
        StackView { entries: self.entries(), position: self.position() }
    }

    /// The position lies among the entries, or is 0 where there are none.
    pub closed spec fn wf(&self) -> bool {
        self.position == 0 || self.position < self.stack@.len()
    }

    /// The directories held, newest first.
    pub closed spec fn entries(&self) -> Seq<Seq<u8>> {
        paths_of(self.stack@)
    }

    /// The index in `entries` of the directory last handed out.
    pub closed spec fn position(&self) -> nat {
        self.position as nat
    }

    /// A stack that holds nothing.
    pub fn new() -> (s: Self)
        ensures
            s.wf(),
            s.entries() == Seq::<Seq<u8>>::empty(),
            s.position() == 0,
    {
        let s = DirStack { stack: VecDeque::new(), position: 0 };
        proof {
            assert(s.entries() =~= Seq::<Seq<u8>>::empty());
        }
        s
    }

    /// The number of directories held.
    pub fn len(&self) -> (n: usize)
        ensures
            n == self.entries().len(),
    {
        self.stack.len()
    }

    /// The index of the directory last handed out.
    pub fn current(&self) -> (p: usize)
        ensures
            p == self.position(),
            self.wf() ==> p == 0 || p < self.entries().len(),
    {
        self.position
    }

    /// Puts `entry` on top and makes it the current one, unless it is on top
    /// already: then nothing changes.
    pub fn push(&mut self, entry: Vec<u8>)
        requires
            old(self).wf(),
        ensures
            final(self).wf(),
            final(self)@ == pushed(old(self)@, entry@),
    {
        if self.stack.len() > 0 && bytes_eq(self.stack[0].as_slice(), entry.as_slice()) {
            return ;
        }
        self.position = 0;
        self.stack.push_front(entry);
        proof {
            assert(self.entries() =~= seq![entry@] + old(self).entries());
        }
    }

    /// Goes one directory back and hands it out, `None` where none is held.
    /// Coming from the top, `entry`, the directory that is left, is put on
    /// top first, and of entries that occur twice only the first stays.
    pub fn back(&mut self, entry: Vec<u8>) -> (dir: Option<Vec<u8>>)
        requires
            old(self).wf(),
        ensures
            final(self).wf(),
            old(self)@.entries.len() == 0 ==> dir is None && final(self)@ == old(self)@,
            old(self)@.entries.len() > 0 ==> {
                &&& final(self)@ == stepped_back(old(self)@, entry@)
                &&& final(self)@.entries.len() > 0
                &&& dir matches Some(d)
                &&& d@ == current_of(final(self)@)
            },
    {
        if self.stack.len() == 0 {
            return None;
        }
        if self.position == 0 {
            self.stack.push_front(entry);
            proof {
                assert(paths_of(self.stack@) =~= seq![entry@] + old(self).entries());
            }
            self.dedup();
            proof {
                lemma_first_occurrences_nonempty(seq![entry@] + old(self).entries());
            }
        }
        let last: usize = self.stack.len() - 1;
        self.position = if self.position < last {
            self.position + 1
        } else {
            last
        };
        Some(copy_bytes(self.stack[self.position].as_slice()))
    }

    /// Goes one directory forward, towards the top, and hands it out, `None`
    /// where none is held.
    pub fn forward(&mut self) -> (dir: Option<Vec<u8>>)
        requires
            old(self).wf(),
        ensures
            final(self).wf(),
            old(self)@.entries.len() == 0 ==> dir is None && final(self)@ == old(self)@,
            old(self)@.entries.len() > 0 ==> {
                &&& final(self)@ == stepped_forward(old(self)@)
                &&& dir matches Some(d)
                &&& d@ == current_of(final(self)@)
            },
    {
        if self.stack.len() == 0 {
            return None;
        }
        if self.position > 0 {
            self.position = self.position - 1;
        }
        Some(copy_bytes(self.stack[self.position].as_slice()))
    }

    /// Leaves of each entry only its first occurrence.
    fn dedup(&mut self)
        requires
            old(self).position == 0,
        ensures
            final(self).position == 0,
            paths_of(final(self).stack@) == first_occurrences(paths_of(old(self).stack@)),
    {
        let mut kept: VecDeque<Vec<u8>> = VecDeque::new();
        let mut i: usize = 0;
        proof {
            assert(paths_of(self.stack@).take(0) =~= Seq::<Seq<u8>>::empty());
            assert(paths_of(kept@) =~= Seq::<Seq<u8>>::empty());
        }
        while i < self.stack.len()
            invariant
                i <= self.stack@.len(),
                self.position == 0,
                *self == *old(self),
                paths_of(kept@) == first_occurrences(paths_of(self.stack@).take(i as int)),
            decreases self.stack@.len() - i,
        {
            let found: bool = holds(&kept, self.stack[i].as_slice());
            proof {
                let all = paths_of(self.stack@);
                assert(all.take(i + 1).drop_last() =~= all.take(i as int));
                assert(all.take(i + 1).last() == self.stack@[i as int]@);
            }
            if !found {
                let copy = copy_bytes(self.stack[i].as_slice());
                let ghost before = paths_of(kept@);
                kept.push_back(copy);
                proof {
                    assert(paths_of(kept@) =~= before.push(copy@));
                }
            }
            i = i + 1;
        }
        proof {
            let all = paths_of(self.stack@);
            assert(all.take(all.len() as int) =~= all);
        }
        self.stack = kept;
    }
}

impl Default for DirStack {
    fn default() -> (s: Self)
        ensures
            s.wf(),
            s.entries() == Seq::<Seq<u8>>::empty(),
            s.position() == 0,
    {
        DirStack::new()
    }
}

/// Whether one of `stack` holds the bytes of `path`.
fn holds(stack: &VecDeque<Vec<u8>>, path: &[u8]) -> (found: bool)
    ensures
        found == paths_of(stack@).contains(path@),
{
    let mut i: usize = 0;
    while i < stack.len()
        invariant
            i <= stack@.len(),
            forall|k: int| 0 <= k < i ==> paths_of(stack@)[k] != path@,
        decreases stack@.len() - i,
    {
        if bytes_eq(stack[i].as_slice(), path) {
            proof {
                assert(paths_of(stack@)[i as int] == path@);
            }
            return true;
        }
        i = i + 1;
    }
    false
}

proof fn lemma_first_occurrences_nonempty(s: Seq<Seq<u8>>)
    requires
        s.len() > 0,
    ensures
        first_occurrences(s).len() > 0,
        first_occurrences(s)[0] == s[0],
    decreases s.len(),
{
    if s.len() > 1 {
        lemma_first_occurrences_nonempty(s.drop_last());
    } else {
        assert(s.drop_last().len() == 0);
        assert(first_occurrences(s.drop_last()) =~= Seq::<Seq<u8>>::empty());
    }
}

} // verus!
