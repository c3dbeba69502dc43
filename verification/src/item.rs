//! The rows of the listing: entries of the file system, and failures of the
//! walk that are shown in their place.

use vstd::prelude::*;
use vstd::string::StringSliceAdditionalSpecFns;
use vstd::utf8::encode_utf8;
use std::sync::Arc;
use crate::bytes::{bytes_eq, copy_bytes};

verus! {

/// What kind of entry a path leads to, links not followed.
#[derive(Copy, Clone, PartialEq, Eq, Structural, Debug)]
pub enum EntryKind {
    File,
    Dir,
    Symlink,
    Other,
}

impl EntryKind {
    /// Whether this is the kind of directories.
    pub fn is_dir(&self) -> (yes: bool)
        ensures
            yes == (*self == EntryKind::Dir),
    {
        match self {
            EntryKind::Dir => true,
            _ => false,
        }
    }

    /// Whether this is the kind of regular files.
    pub fn is_file(&self) -> (yes: bool)
        ensures
            yes == (*self == EntryKind::File),
    {
        match self {
            EntryKind::File => true,
            _ => false,
        }
    }
}

/// What was found out about an entry when the walk came by.
#[derive(Debug)]
pub struct ItemInfo {
    pub file_type: EntryKind,
    /// The full path.
    pub path: Vec<u8>,
    /// The last component of the path.
    pub filename: Vec<u8>,
    /// Where the entry leads, if it is a link that could be resolved.
    pub link_dest: Option<Vec<u8>>,
}

/// A row of the listing.
#[derive(Debug)]
pub enum Item {
    /// An entry, with its path below the directory that was scanned.
    FileEntry { name: Vec<u8>, info: Arc<ItemInfo> },
    /// An entry that could not be read.
    WalkError { msg: String },
}

/// What was found out about an entry, as the contracts see it.
pub struct ItemInfoView {
    pub file_type: EntryKind,
    pub path: Seq<u8>,
    pub filename: Seq<u8>,
    pub link_dest: Option<Seq<u8>>,
}

/// A row, as the contracts see it.
pub enum ItemView {
    FileEntry { name: Seq<u8>, info: ItemInfoView },
    /// The message, as the bytes of its text.
    WalkError { msg: Seq<u8> },
}

impl View for ItemInfo {
    type V = ItemInfoView;

    open spec fn view(&self) -> ItemInfoView {
        ItemInfoView {
            file_type: self.file_type,
            path: self.path@,
            filename: self.filename@,
            link_dest: match self.link_dest {
                Some(dest) => Some(dest@),
                None => None,
            },
        }
    }
}

impl View for Item {
    type V = ItemView;

    open spec fn view(&self) -> ItemView {
        match self {
            Item::FileEntry { name, info } => ItemView::FileEntry { name: name@, info: info@ },
            Item::WalkError { msg } => ItemView::WalkError { msg: encode_utf8(msg@) },
        }
    }
}

/// `a` comes before `b`, or equals it, where byte strings are ordered as
/// words in a dictionary are.
pub open spec fn lex_le(a: Seq<u8>, b: Seq<u8>) -> bool
    decreases a.len(),
{
    if a.len() == 0 {
        true
    } else if b.len() == 0 {
        false
    } else if a[0] != b[0] {
        a[0] < b[0]
    } else {
        lex_le(a.drop_first(), b.drop_first())
    }
}

/// A byte string may stand where it stands.
pub proof fn lemma_lex_le_reflexive(a: Seq<u8>)
    ensures
        lex_le(a, a),
    decreases a.len(),
{
    if a.len() > 0 {
        lemma_lex_le_reflexive(a.drop_first());
    }
}

/// Of two byte strings one comes before the other, or they are equal.
pub proof fn lemma_lex_le_total(a: Seq<u8>, b: Seq<u8>)
    ensures
        lex_le(a, b) || lex_le(b, a),
    decreases a.len(),
{
    if a.len() > 0 && b.len() > 0 && a[0] == b[0] {
        lemma_lex_le_total(a.drop_first(), b.drop_first());
    }
}

/// Byte strings that can stand in either order are equal.
pub proof fn lemma_lex_le_antisymmetric(a: Seq<u8>, b: Seq<u8>)
    requires
        lex_le(a, b),
        lex_le(b, a),
    ensures
        a == b,
    decreases a.len(),
{
    if a.len() == 0 || b.len() == 0 {
        assert(a =~= b);
    } else {
        lemma_lex_le_antisymmetric(a.drop_first(), b.drop_first());
        assert(a =~= seq![a[0]] + a.drop_first());
        assert(b =~= seq![b[0]] + b.drop_first());
    }
}

/// What comes before a byte string comes before all that come after it.
pub proof fn lemma_lex_le_transitive(a: Seq<u8>, b: Seq<u8>, c: Seq<u8>)
    requires
        lex_le(a, b),
        lex_le(b, c),
    ensures
        lex_le(a, c),
    decreases a.len(),
{
    if a.len() > 0 && b.len() > 0 && c.len() > 0 && a[0] == b[0] && b[0] == c[0] {
        lemma_lex_le_transitive(a.drop_first(), b.drop_first(), c.drop_first());
    }
}

/// By what a row is placed among the others where no query is set:
/// directories first, then the other entries, then the failures, and within
/// each of the three by name, or by message.
pub open spec fn sort_key(item: ItemView) -> Seq<u8> {
    match item {
        ItemView::FileEntry { name, info } => if info.file_type == EntryKind::Dir {
            seq![0u8] + name
        } else {
            seq![1u8] + name
        },
        ItemView::WalkError { msg } => seq![2u8] + msg,
    }
}

/// `a` is placed before `b`, or either may come first.
pub open spec fn row_le(a: ItemView, b: ItemView) -> bool {
    lex_le(sort_key(a), sort_key(b))
}

/// Whether two rows are taken for the same: entries with one name and one
/// path, or failures with one message.
pub open spec fn same_row(a: ItemView, b: ItemView) -> bool {
    match (a, b) {
        (
            ItemView::FileEntry { name: an, info: ai },
            ItemView::FileEntry { name: bn, info: bi },
        ) => an == bn && ai.path == bi.path,
        (ItemView::WalkError { msg: am }, ItemView::WalkError { msg: bm }) => am == bm,
        _ => false,
    }
}

/// How one value stands to another in an order.
#[derive(Copy, Clone, PartialEq, Eq, Structural, Debug)]
pub enum Rank {
    Before,
    Same,
    After,
}

/// Orders two byte strings as words in a dictionary are ordered.
pub fn lex_rank(a: &[u8], b: &[u8]) -> (rank: Rank)
    ensures
        rank == Rank::Same <==> a@ == b@,
        rank == Rank::After <==> !lex_le(a@, b@),
{
    let mut i: usize = 0;
    proof {
        assert(a@.skip(0) =~= a@);
        assert(b@.skip(0) =~= b@);
    }
    while i < a.len() && i < b.len()
        invariant
            i <= a.len(),
            i <= b.len(),
            a@.take(i as int) == b@.take(i as int),
            lex_le(a@, b@) == lex_le(a@.skip(i as int), b@.skip(i as int)),
            lex_le(b@, a@) == lex_le(b@.skip(i as int), a@.skip(i as int)),
        decreases a.len() - i,
    {
        proof {
            assert(a@.skip(i as int).drop_first() =~= a@.skip(i + 1));
            assert(b@.skip(i as int).drop_first() =~= b@.skip(i + 1));
            assert(a@.skip(i as int)[0] == a@[i as int]);
            assert(b@.skip(i as int)[0] == b@[i as int]);
        }
        if a[i] < b[i] {
            proof {
                assert(a@[i as int] != b@[i as int]);
            }
            return Rank::Before;
        }
        if a[i] > b[i] {
            proof {
                assert(a@[i as int] != b@[i as int]);
            }
            return Rank::After;
        }
        proof {
            assert(a@.take(i + 1) =~= a@.take(i as int).push(a@[i as int]));
            assert(b@.take(i + 1) =~= b@.take(i as int).push(b@[i as int]));
        }
        i = i + 1;
    }
    if a.len() == b.len() {
        proof {
            assert(a@.take(i as int) =~= a@);
            assert(b@.take(i as int) =~= b@);
        }
        Rank::Same
    } else if a.len() < b.len() {
        proof {
            assert(a@.skip(i as int).len() == 0);
        }
        Rank::Before
    } else {
        proof {
            assert(b@.skip(i as int).len() == 0);
            assert(a@.skip(i as int).len() > 0);
        }
        Rank::After
    }
}

impl ItemInfo {
    /// A copy that shares nothing with `self`.
    pub fn duplicate(&self) -> (copy: ItemInfo)
        ensures
            copy@ == self@,
    {
        ItemInfo {
            file_type: self.file_type,
            path: copy_bytes(self.path.as_slice()),
            filename: copy_bytes(self.filename.as_slice()),
            link_dest: match &self.link_dest {
                Some(dest) => Some(copy_bytes(dest.as_slice())),
                None => None,
            },
        }
    }
}

/// What `String::from_utf8_lossy` makes of `bytes`: their text, with the
/// replacement character for what is not UTF-8.
pub uninterp spec fn lossy_text(bytes: Seq<u8>) -> Seq<char>;

/// `String::from_utf8_lossy`, as an owned string: the text that the
/// standard library reads from these bytes.
#[verifier::external_body]
pub(crate) fn read_lossy(bytes: &[u8]) -> (text: String)
    ensures
        text@ == lossy_text(bytes@),
{
    String::from_utf8_lossy(bytes).into_owned()
}

/// `Arc::clone`: one more handle on the same value.
#[verifier::external_body]
fn share(info: &Arc<ItemInfo>) -> (other: Arc<ItemInfo>)
    ensures
        other == *info,
{
    Arc::clone(info)
}

impl Item {
    /// One more of this row. What was found out about an entry is shared,
    /// not copied.
    pub fn duplicate(&self) -> (copy: Item)
        ensures
            copy@ == self@,
    {
        match self {
            Item::FileEntry { name, info } => Item::FileEntry {
                name: copy_bytes(name.as_slice()),
                info: share(info),
            },
            Item::WalkError { msg } => Item::WalkError { msg: msg.clone() },
        }
    }

    /// The tag that `sort_key` puts before the name or the message.
    fn group(&self) -> (tag: u8)
        ensures
            sort_key(self@).len() > 0,
            tag == sort_key(self@)[0],
            sort_key(self@).drop_first() == self.label_spec(),
    {
        proof {
            match self {
                Item::FileEntry { name, info } => {
                    assert(sort_key(self@).drop_first() =~= name@);
                },
                Item::WalkError { msg } => {
                    assert(sort_key(self@).drop_first() =~= encode_utf8(msg@));
                },
            }
        }
        match self {
            Item::FileEntry { info, .. } => if info.file_type.is_dir() {
                0
            } else {
                1
            },
            Item::WalkError { .. } => 2,
        }
    }

    /// The name of an entry, the message of a failure.
    pub open spec fn label_spec(&self) -> Seq<u8> {
        match self {
            Item::FileEntry { name, .. } => name@,
            Item::WalkError { msg } => encode_utf8(msg@),
        }
    }

    /// The name of an entry, the message of a failure, as bytes.
    pub fn label(&self) -> (bytes: &[u8])
        ensures
            bytes@ == self.label_spec(),
    {
        match self {
            Item::FileEntry { name, .. } => name.as_slice(),
            Item::WalkError { msg } => msg.as_str().as_bytes(),
        }
    }

    /// Where `self` is placed with respect to `other` in a listing without
    /// a query: `After` where it must follow, `Same` where either order
    /// will do.
    pub fn rank(&self, other: &Item) -> (rank: Rank)
        ensures
            rank == Rank::Same <==> sort_key(self@) == sort_key(other@),
            rank == Rank::After <==> !row_le(self@, other@),
    {
        let mine: u8 = self.group();
        let theirs: u8 = other.group();
        proof {
            let a = sort_key(self@);
            let b = sort_key(other@);
            assert(a =~= seq![a[0]] + a.drop_first());
            assert(b =~= seq![b[0]] + b.drop_first());
        }
        if mine < theirs {
            Rank::Before
        } else if mine > theirs {
            Rank::After
        } else {
            lex_rank(self.label(), other.label())
        }
    }

    /// Whether the two are taken for the same row.
    pub fn same(&self, other: &Item) -> (yes: bool)
        ensures
            yes == same_row(self@, other@),
    {
        match (self, other) {
            (Item::FileEntry { name: an, info: ai }, Item::FileEntry { name: bn, info: bi }) => {
                bytes_eq(an.as_slice(), bn.as_slice()) && bytes_eq(
                    ai.path.as_slice(),
                    bi.path.as_slice(),
                )
            },
            (Item::WalkError { msg: am }, Item::WalkError { msg: bm }) => bytes_eq(
                am.as_str().as_bytes(),
                bm.as_str().as_bytes(),
            ),
            _ => false,
        }
    }

    /// What a query is matched against: the name of an entry, read as
    /// text, or the message of a failure.
    pub fn text(&self) -> (text: String)
        ensures
            text@ == match *self {
                Item::FileEntry { name, .. } => lossy_text(name@),
                Item::WalkError { msg } => msg@,
            },
    {
        match self {
            Item::FileEntry { name, .. } => read_lossy(name.as_slice()),
            Item::WalkError { msg } => msg.clone(),
        }
    }

    /// The full path of an entry; a failure has none.
    pub fn path(&self) -> (path: Option<&[u8]>)
        ensures
            match self@ {
                ItemView::FileEntry { info, .. } => path matches Some(p) && p@ == info.path,
                ItemView::WalkError { .. } => path is None,
            },
    {
        match self {
            Item::FileEntry { info, .. } => Some(info.path.as_slice()),
            Item::WalkError { .. } => None,
        }
    }

    /// Whether the row is the entry of a directory.
    pub fn is_dir(&self) -> (yes: bool)
        ensures
            yes == (self@ matches ItemView::FileEntry { info, .. } && info.file_type
                == EntryKind::Dir),
    {
        match self {
            Item::FileEntry { info, .. } => info.file_type.is_dir(),
            Item::WalkError { .. } => false,
        }
    }
}

impl PartialEq for ItemInfo {
    /// Two records are equal where they are of one path.
    fn eq(&self, other: &Self) -> (same: bool) {
        bytes_eq(self.path.as_slice(), other.path.as_slice())
    }
}

impl vstd::std_specs::cmp::PartialEqSpecImpl for ItemInfo {
    open spec fn obeys_eq_spec() -> bool {
        true
    }

    open spec fn eq_spec(&self, other: &Self) -> bool {
        self.path@ == other.path@
    }
}

impl Eq for ItemInfo {

}

impl PartialEq for Item {
    /// Two rows are equal where they are taken for the same.
    fn eq(&self, other: &Self) -> (same: bool) {
        self.same(other)
    }
}

impl vstd::std_specs::cmp::PartialEqSpecImpl for Item {
    open spec fn obeys_eq_spec() -> bool {
        true
    }

    open spec fn eq_spec(&self, other: &Self) -> bool {
        same_row(self@, other@)
    }
}

impl Eq for Item {

}

/// The order of the rows is total: any two can be placed.
pub proof fn lemma_row_le_total(a: ItemView, b: ItemView)
    ensures
        row_le(a, b) || row_le(b, a),
{
    lemma_lex_le_total(sort_key(a), sort_key(b));
}

/// A row may stand where it stands.
pub proof fn lemma_row_le_reflexive(a: ItemView)
    ensures
        row_le(a, a),
{
    lemma_lex_le_reflexive(sort_key(a));
}

/// The order of the rows is transitive.
pub proof fn lemma_row_le_transitive(a: ItemView, b: ItemView, c: ItemView)
    requires
        row_le(a, b),
        row_le(b, c),
    ensures
        row_le(a, c),
{
    lemma_lex_le_transitive(sort_key(a), sort_key(b), sort_key(c));
}

/// Rows that can stand in either order have one key: they are of one group
/// and have one name, or one message.
pub proof fn lemma_row_le_both_ways(a: ItemView, b: ItemView)
    requires
        row_le(a, b),
        row_le(b, a),
    ensures
        sort_key(a) == sort_key(b),
{
    lemma_lex_le_antisymmetric(sort_key(a), sort_key(b));
}

} // verus!
