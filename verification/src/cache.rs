//! A cache that has each value computed once, in the background. The cache
//! keeps the books: it says when a computation is to be started and takes
//! its result; starting the computation and waiting for it is the
//! caller's part.

use vstd::prelude::*;
use crate::bytes::{bytes_eq, copy_bytes};

verus! {

/// What the cache knows of a key.
pub enum Slot<V> {
    /// The computation was started and has not handed in its result.
    Pending,
    /// The computation has ended, with or without a value.
    Done(Option<V>),
}

/// What `compute` does to the books: a key that is new is entered as
/// pending.
pub open spec fn computed<V>(book: Map<Seq<u8>, Slot<V>>, key: Seq<u8>) -> Map<Seq<u8>, Slot<V>> {
    if book.dom().contains(key) {
        book
    } else {
        book.insert(key, Slot::Pending)
    }
}

/// Whether `compute` asks for a computation to be started: it does for a
/// key that is new.
pub open spec fn starts<V>(book: Map<Seq<u8>, Slot<V>>, key: Seq<u8>) -> bool {
    !book.dom().contains(key)
}

/// What `complete` does to the books: the result is entered where the key
/// is pending, and only there.
pub open spec fn completed<V>(book: Map<Seq<u8>, Slot<V>>, key: Seq<u8>, result: Option<V>) -> Map<
    Seq<u8>,
    Slot<V>,
> {
    if book.dom().contains(key) && book[key] is Pending {
        book.insert(key, Slot::Done(result))
    } else {
        book
    }
}

/// The value that is known for `key`.
pub open spec fn known<V>(book: Map<Seq<u8>, Slot<V>>, key: Seq<u8>) -> Option<V> {
    if book.dom().contains(key) {
        match book[key] {
            Slot::Done(Some(v)) => Some(v),
            _ => None,
        }
    } else {
        None
    }
}

/// The books of a cache: the keys that were asked for, and what is known
/// of each.
pub struct Cache<V> {
    keys: Vec<Vec<u8>>,
    slots: Vec<Slot<V>>,
}

/// What `compute` answers.
pub struct Computed<'a, V> {
    /// Whether the caller is to start the computation for the key.
    pub start: bool,
    /// The value, where the computation has ended with one.
    pub value: Option<&'a V>,
}

impl<V> Cache<V> {
    /// Each slot belongs to one key, and no key is held twice.
    pub closed spec fn wf(&self) -> bool {
        &&& self.keys@.len() == self.slots@.len()
        &&& forall|i: int, j: int|
            0 <= i < j < self.keys@.len() ==> (#[trigger] self.keys@[i])@ != (
            #[trigger] self.keys@[j])@
    }

    /// Whether `key` stands at place `i`.
    spec fn key_at(&self, key: Seq<u8>, i: int) -> bool {
        0 <= i < self.keys@.len() && self.keys@[i]@ == key
    }

    /// The books: what is known of each key that was asked for.
    pub closed spec fn book(&self) -> Map<Seq<u8>, Slot<V>> {
        Map::new(
            |key: Seq<u8>| exists|i: int| self.key_at(key, i),
            |key: Seq<u8>| self.slots@[choose|i: int| self.key_at(key, i)],
        )
    }

    /// A key stands at one place only.
    proof fn lemma_one_place(&self, key: Seq<u8>, i: int, j: int)
        requires
            self.wf(),
            self.key_at(key, i),
            self.key_at(key, j),
        ensures
            i == j,
    {
        if i < j {
            assert(self.keys@[i]@ != self.keys@[j]@);
        }
        if j < i {
            assert(self.keys@[j]@ != self.keys@[i]@);
        }
    }

    /// A cache that was asked for nothing yet.
    pub fn new() -> (cache: Self)
        ensures
            cache.wf(),
            cache.book() == Map::<Seq<u8>, Slot<V>>::empty(),
    {
        let cache = Cache { keys: Vec::new(), slots: Vec::new() };
        proof {
            assert(cache.book() =~= Map::<Seq<u8>, Slot<V>>::empty());
        }
        cache
    }

    /// The place of `key`, if it is held.
    fn find(&self, key: &[u8]) -> (at: Option<usize>)
        requires
            self.wf(),
        ensures
            match at {
                Some(i) => self.key_at(key@, i as int) && self.book().dom().contains(key@)
                    && self.book()[key@] == self.slots@[i as int],
                None => !self.book().dom().contains(key@),
            },
    {
        let mut i: usize = 0;
        while i < self.keys.len()
            invariant
                self.wf(),
                i <= self.keys@.len(),
                forall|k: int| 0 <= k < i ==> !self.key_at(key@, k),
            decreases self.keys@.len() - i,
        {
            if bytes_eq(self.keys[i].as_slice(), key) {
                proof {
                    assert(self.key_at(key@, i as int));
                    let c = choose|c: int| self.key_at(key@, c);
                    self.lemma_one_place(key@, c, i as int);
                }
                return Some(i);
            }
            i = i + 1;
        }
        None
    }

    /// Asks for the value of `key`. For a key that was not asked for before,
    /// the answer tells the caller to start its computation, and the key is
    /// pending from now on. For every other key nothing changes: a
    /// computation is never started twice, also not where it ended without
    /// a value.
    pub fn compute(&mut self, key: &[u8]) -> (answer: Computed<'_, V>)
        requires
            old(self).wf(),
        ensures
            final(self).wf(),
            final(self).book() == computed(old(self).book(), key@),
            answer.start == starts(old(self).book(), key@),
            match known(old(self).book(), key@) {
                Some(v) => answer.value matches Some(r) && *r == v,
                None => answer.value is None,
            },
    {
        let at: usize = match self.find(key) {
            Some(i) => i,
            None => {
                let ghost before = *self;
                self.keys.push(copy_bytes(key));
                self.slots.push(Slot::Pending);
                proof {
                    let n = before.keys@.len() as int;
                    assert(self.key_at(key@, n));
                    assert forall|i: int, j: int| 0 <= i < j < self.keys@.len() implies (
                    #[trigger] self.keys@[i])@ != (#[trigger] self.keys@[j])@ by {
                        if j < n {
                            assert(before.keys@[i]@ != before.keys@[j]@);
                        } else {
                            assert(!before.key_at(key@, i));
                        }
                    }
                    assert(self.wf());
                    assert forall|k: Seq<u8>|
                        self.book().dom().contains(k) <==> #[trigger] before.book().insert(
                            key@,
                            Slot::Pending,
                        ).dom().contains(k) by {
                        if before.book().dom().contains(k) {
                            let i = choose|i: int| before.key_at(k, i);
                            assert(self.key_at(k, i));
                        }
                        if self.book().dom().contains(k) && k != key@ {
                            let i = choose|i: int| self.key_at(k, i);
                            assert(before.key_at(k, i));
                        }
                    }
                    assert forall|k: Seq<u8>| self.book().dom().contains(k) implies self.book()[k]
                        == #[trigger] before.book().insert(key@, Slot::Pending)[k] by {
                        let i = choose|i: int| self.key_at(k, i);
                        if k == key@ {
                            self.lemma_one_place(k, i, n);
                        } else {
                            assert(before.key_at(k, i));
                            let j = choose|j: int| before.key_at(k, j);
                            before.lemma_one_place(k, i, j);
                        }
                    }
                    assert(self.book() =~= before.book().insert(key@, Slot::Pending));
                }
                return Computed { start: true, value: None };
            },
        };
        match &self.slots[at] {
            Slot::Done(Some(v)) => Computed { start: false, value: Some(v) },
            _ => Computed { start: false, value: None },
        }
    }

    /// Takes the result of the computation for `key`. It is kept for good:
    /// a result that comes for a key that has one already, or for a key
    /// that was never asked for, is dropped.
    pub fn complete(&mut self, key: &[u8], result: Option<V>)
        requires
            old(self).wf(),
        ensures
            final(self).wf(),
            final(self).book() == completed(old(self).book(), key@, result),
    {
        match self.find(key) {
            Some(i) => {
                let pending: bool = match &self.slots[i] {
                    Slot::Pending => true,
                    Slot::Done(_) => false,
                };
                if pending {
                    let ghost before = *self;
                    self.slots.set(i, Slot::Done(result));
                    proof {
                        assert forall|k: Seq<u8>|
                            self.book().dom().contains(k) <==> #[trigger] before.book().insert(
                                key@,
                                Slot::Done(result),
                            ).dom().contains(k) by {
                            if before.book().dom().contains(k) {
                                let c = choose|c: int| before.key_at(k, c);
                                assert(self.key_at(k, c));
                            }
                            if self.book().dom().contains(k) {
                                let c = choose|c: int| self.key_at(k, c);
                                assert(before.key_at(k, c));
                            }
                        }
                        assert forall|k: Seq<u8>|
                            self.book().dom().contains(k) implies self.book()[k]
                            == #[trigger] before.book().insert(key@, Slot::Done(result))[k] by {
                            let c = choose|c: int| self.key_at(k, c);
                            assert(before.key_at(k, c));
                            let d = choose|d: int| before.key_at(k, d);
                            before.lemma_one_place(k, c, d);
                            if k == key@ {
                                assert(self.key_at(key@, i as int));
                                self.lemma_one_place(k, c, i as int);
                            }
                        }
                        assert(self.book() =~= before.book().insert(key@, Slot::Done(result)));
                    }
                }
            },
            None => {},
        }
    }

    /// The value of `key`, where its computation has ended with one.
    /// Nothing is started.
    pub fn get(&self, key: &[u8]) -> (value: Option<&V>)
        requires
            self.wf(),
        ensures
            match known(self.book(), key@) {
                Some(v) => value matches Some(r) && *r == v,
                None => value is None,
            },
    {
        match self.find(key) {
            Some(i) => match &self.slots[i] {
                Slot::Done(Some(v)) => Some(v),
                _ => None,
            },
            None => None,
        }
    }

    /// Whether the computation for `key` was started and has not handed in
    /// its result.
    pub fn is_pending(&self, key: &[u8]) -> (yes: bool)
        requires
            self.wf(),
        ensures
            yes == (self.book().dom().contains(key@) && self.book()[key@] is Pending),
    {
        match self.find(key) {
            Some(i) => match &self.slots[i] {
                Slot::Pending => true,
                Slot::Done(_) => false,
            },
            None => false,
        }
    }
}

impl<V> Default for Cache<V> {
    fn default() -> (cache: Self)
        ensures
            cache.wf(),
            cache.book() == Map::<Seq<u8>, Slot<V>>::empty(),
    {
        Cache::new()
    }
}

/// However often a key is asked for, its computation is started once:
/// after the first `compute`, no `compute` for that key starts one, and
/// none changes the books.
pub proof fn lemma_one_computation<V>(book: Map<Seq<u8>, Slot<V>>, key: Seq<u8>)
    ensures
        !starts(computed(book, key), key),
        computed(computed(book, key), key) == computed(book, key),
{
}

/// A result is kept for good, also where it is no value: once a key is
/// done, no later result and no `compute` changes what is known of it.
pub proof fn lemma_result_is_kept<V>(
    book: Map<Seq<u8>, Slot<V>>,
    key: Seq<u8>,
    first: Option<V>,
    second: Option<V>,
)
    requires
        book.dom().contains(key),
        book[key] is Pending,
    ensures
        known(completed(book, key, first), key) == first,
        completed(completed(book, key, first), key, second) == completed(book, key, first),
        computed(completed(book, key, first), key) == completed(book, key, first),
        !starts(completed(book, key, first), key),
{
}

/// What happens to one key leaves what is known of the others.
pub proof fn lemma_other_keys_untouched<V>(
    book: Map<Seq<u8>, Slot<V>>,
    key: Seq<u8>,
    other: Seq<u8>,
    result: Option<V>,
)
    requires
        key != other,
    ensures
        known(computed(book, key), other) == known(book, other),
        known(completed(book, key, result), other) == known(book, other),
        starts(computed(book, key), other) == starts(book, other),
{
}

} // verus!
