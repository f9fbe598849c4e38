//! Template scanner: finds the placeholder tags of a template and the text
//! between them.

use vstd::prelude::*;

verus! {

/// The pattern of one tag: an identifier between `{{` and `}}`, with optional
/// whitespace on either side of the identifier.
pub const TAG_PATTERN: &'static str = r"\{\{\s*(\w+)\s*\}\}";

/// One occurrence of a tag in a template.
#[derive(Debug, Clone, PartialEq)]
pub struct TagOccurrence {
    /// The raw tag text: the identifier between the delimiters.
    pub tag: String,
    /// The whole matched text, delimiters included.
    pub whole: String,
    /// Byte offset at which the occurrence starts.
    pub start: usize,
    /// Byte offset just behind the occurrence.
    pub end: usize,
}

/// The mathematical value of a [`TagOccurrence`].
pub ghost struct TagOccurrenceView {
    pub tag: Seq<char>,
    pub whole: Seq<char>,
    pub start: int,
    pub end: int,
}

impl View for TagOccurrence {
    type V = TagOccurrenceView;

    open spec fn view(&self) -> TagOccurrenceView {
        TagOccurrenceView {
            tag: self.tag@,
            whole: self.whole@,
            start: self.start as int,
            end: self.end as int,
        }
    }
}

/// The views of a sequence of strings.
pub open spec fn texts(strings: Seq<String>) -> Seq<Seq<char>> {
    strings.map_values(|s: String| s@)
}

/// The views of a sequence of occurrences.
pub open spec fn occurrence_views(found: Seq<TagOccurrence>) -> Seq<TagOccurrenceView> {
    found.map_values(|o: TagOccurrence| o@)
}

/// The raw tag texts of a sequence of occurrences, in order.
pub open spec fn tag_texts(found: Seq<TagOccurrenceView>) -> Seq<Seq<char>> {
    found.map_values(|o: TagOccurrenceView| o.tag)
}

/// The whole matched texts of a sequence of occurrences, in order.
pub open spec fn whole_texts(found: Seq<TagOccurrenceView>) -> Seq<Seq<char>> {
    found.map_values(|o: TagOccurrenceView| o.whole)
}

/// `pieces[0] + inserts[0] + pieces[1] + ... + inserts[n - 1] + pieces[n]`:
/// the text that has `inserts` between the `pieces`. Where `pieces` is not one
/// longer than `inserts`, the surplus of either is left out.
pub open spec fn weave(pieces: Seq<Seq<char>>, inserts: Seq<Seq<char>>) -> Seq<char>
    decreases pieces.len(),
{
    if pieces.len() == 0 {
        Seq::empty()
    } else if inserts.len() == 0 {
        pieces[0]
    } else {
        pieces[0] + inserts[0] + weave(pieces.skip(1), inserts.skip(1))
    }
}

/// Whether `whole` has the form of a tag with the raw text `tag`: it opens
/// with `{{` and closes with `}}`, and `tag`, which is not empty, stands
/// between the two.
pub open spec fn is_tag_form(whole: Seq<char>, tag: Seq<char>) -> bool {
    &&& tag.len() > 0
    &&& whole.len() >= tag.len() + 4
    &&& whole.subrange(0, 2) == seq!['{', '{']
    &&& whole.subrange(whole.len() - 2, whole.len() as int) == seq!['}', '}']
    &&& exists|at: int|
        2 <= at && at + tag.len() + 2 <= whole.len() && #[trigger] whole.subrange(
            at,
            at + tag.len(),
        ) == tag
}

/// The tag occurrences of `text`, in textual order: the successive
/// non-overlapping matches of [`TAG_PATTERN`].
pub uninterp spec fn tag_matches(text: Seq<char>) -> Seq<TagOccurrenceView>;

/// The parts of `text` that lie outside every tag occurrence, in textual
/// order.
pub uninterp spec fn tag_pieces(text: Seq<char>) -> Seq<Seq<char>>;

/// Calls `regex::Regex::captures_iter` with [`TAG_PATTERN`] on `text` and
/// hands out, for each match, the text of capture group 1, the text of the
/// whole match and the byte offsets of the whole match. The result is named
/// [`tag_matches`]. By the pattern, each match opens with `{{`, closes with
/// `}}`, and holds its group 1, which is not empty, between the two.
#[verifier::external_body]
fn find_tags(text: &str) -> (found: Vec<TagOccurrence>)
    ensures
        occurrence_views(found@) == tag_matches(text@),
        forall|i: int|
            0 <= i < found@.len() ==> is_tag_form((#[trigger] found@[i]).whole@, found@[i].tag@),
{
    let pattern = regex::Regex::new(TAG_PATTERN).unwrap();
    pattern.captures_iter(text).map(|c| {
        let (whole, tag) = (c.get(0).unwrap(), c.get(1).unwrap());
        TagOccurrence {
            tag: tag.as_str().to_string(),
            whole: whole.as_str().to_string(),
            start: whole.start(),
            end: whole.end(),
        }
    }).collect()
}

/// Calls `regex::Regex::split` with [`TAG_PATTERN`] on `text`. The result is
/// named [`tag_pieces`]. As the crate documents, the substrings are those
/// that the matches delimit: there is one more of them than there are
/// matches, and the text is the substrings with the matches between them.
#[verifier::external_body]
fn find_pieces(text: &str) -> (pieces: Vec<String>)
    ensures
        texts(pieces@) == tag_pieces(text@),
        pieces@.len() == tag_matches(text@).len() + 1,
        text@ == weave(texts(pieces@), whole_texts(tag_matches(text@))),
{
    let pattern = regex::Regex::new(TAG_PATTERN).unwrap();
    pattern.split(text).map(|piece| piece.to_string()).collect()
}

/// The tag occurrences of `text`, in textual order: each an identifier
/// between `{{` and `}}`, with optional whitespace on either side of it.
pub fn scan(text: &str) -> (found: Vec<TagOccurrence>)
    ensures
        occurrence_views(found@) == tag_matches(text@),
        forall|i: int|
            0 <= i < found@.len() ==> is_tag_form((#[trigger] found@[i]).whole@, found@[i].tag@),
{
    find_tags(text)
}

/// The parts of `text` between its tag occurrences: one more than there are
/// occurrences, and such that weaving the occurrences back in gives `text`.
pub fn split_around_tags(text: &str) -> (pieces: Vec<String>)
    ensures
        texts(pieces@) == tag_pieces(text@),
        pieces@.len() == tag_matches(text@).len() + 1,
        text@ == weave(tag_pieces(text@), whole_texts(tag_matches(text@))),
{
    find_pieces(text)
}

} // verus!
