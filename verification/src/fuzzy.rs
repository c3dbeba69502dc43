//! Matching typed text against a short list of texts, as the match engine
//! does it for the rows.

use vstd::prelude::*;

verus! {

/// A text with its place in a list.
pub struct Indexed<'a> {
    pub index: usize,
    pub text: &'a str,
}

impl<'a> AsRef<str> for Indexed<'a> {
    fn as_ref(&self) -> (text: &str)
        ensures
            text@ == self.text@,
    {
        self.text
    }
}

/// The texts of `items`.
pub open spec fn texts(items: Seq<Indexed>) -> Seq<Seq<char>> {
    Seq::new(items.len(), |i: int| items[i].text@)
}

/// The places of the texts that `needle` matches, as nucleo's
/// `Pattern::match_list` ranks them: best match first, and of two that
/// match equally well the one that stands first.
pub uninterp spec fn fuzzy_order(texts: Seq<Seq<char>>, needle: Seq<char>) -> Seq<usize>;

/// `Pattern::match_list` of the pattern that `Pattern::parse` reads from
/// `needle`, with smart case matching and normalization and a matcher of
/// the default configuration, over `items`, each of which knows its place.
/// The list handed back holds some of the items, none of them twice.
#[verifier::external_body]
pub(crate) fn match_list(items: Vec<Indexed<'_>>, needle: &str) -> (order: Vec<usize>)
    requires
        forall|i: int| 0 <= i < items@.len() ==> (#[trigger] items@[i]).index == i,
    ensures
        order@ == fuzzy_order(texts(items@), needle@),
        order@.no_duplicates(),
        forall|k: int| 0 <= k < order@.len() ==> #[trigger] order@[k] < items@.len(),
{
    let mut matcher = nucleo::Matcher::new(nucleo::Config::DEFAULT);
    let pattern = nucleo::pattern::Pattern::parse(
        needle,
        nucleo::pattern::CaseMatching::Smart,
        nucleo::pattern::Normalization::Smart,
    );
    pattern.match_list(items, &mut matcher).into_iter().map(|(item, _)| item.index).collect()
}

/// The texts in `names`.
pub open spec fn name_texts(names: Seq<String>) -> Seq<Seq<char>> {
    Seq::new(names.len(), |i: int| names[i]@)
}

/// The places in `names` of the names that `search` matches, best match
/// first.
pub fn filter_names(names: &Vec<String>, search: &str) -> (order: Vec<usize>)
    ensures
        order@ == fuzzy_order(name_texts(names@), search@),
        order@.no_duplicates(),
        forall|k: int| 0 <= k < order@.len() ==> #[trigger] order@[k] < names@.len(),
{
    let mut items: Vec<Indexed<'_>> = Vec::new();
    let mut i: usize = 0;
    while i < names.len()
        invariant
            i <= names@.len(),
            items@.len() == i,
            forall|k: int| 0 <= k < i ==> (#[trigger] items@[k]).index == k,
            forall|k: int| 0 <= k < i ==> (#[trigger] items@[k]).text@ == names@[k]@,
        decreases names@.len() - i,
    {
        items.push(Indexed { index: i, text: names[i].as_str() });
        i = i + 1;
    }
    proof {
        assert(texts(items@) =~= name_texts(names@));
    }
    match_list(items, search)
}

} // verus!
