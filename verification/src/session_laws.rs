//! Laws of the render session, stated over the model of a render.

use crate::scanner::{tag_matches, tag_pieces, tag_texts, weave};
use crate::session::{
    all_resolved, missing_variables, record_all, render_relation, rendered_tags, rendering_of,
    substitutions, MllView, TagOutcome,
};
use crate::value_source::GetValueByName;
use vstd::prelude::*;

verus! {

/// Recording occurrences appends their raw tag texts, in order, to the
/// recorded ones, and leaves the template and the script alone.
pub proof fn lemma_record_all_tags(
    session: MllView,
    names: Seq<Seq<char>>,
    tags: Seq<Seq<char>>,
    outcomes: Seq<TagOutcome>,
)
    requires
        names.len() == tags.len(),
        outcomes.len() == tags.len(),
    ensures
        rendered_tags(record_all(session, names, tags, outcomes)) == rendered_tags(session) + tags,
        record_all(session, names, tags, outcomes).template == session.template,
        record_all(session, names, tags, outcomes).pre_process_script
            == session.pre_process_script,
    decreases tags.len(),
{
    if tags.len() == 0 {
        assert(rendered_tags(session) + tags =~= rendered_tags(session));
    } else {
        lemma_record_all_tags(session, names.drop_last(), tags.drop_last(), outcomes.drop_last());
        let earlier = record_all(
            session,
            names.drop_last(),
            tags.drop_last(),
            outcomes.drop_last(),
        );
        assert(rendered_tags(record_all(session, names, tags, outcomes)) =~= rendered_tags(
            earlier,
        ).push(tags.last()));
        assert(rendered_tags(session) + tags =~= (rendered_tags(session) + tags.drop_last()).push(
            tags.last(),
        ));
    }
}

/// Recording occurrences keeps every processed tag text and adds exactly
/// those of the resolved occurrences.
pub proof fn lemma_record_all_processed(
    session: MllView,
    names: Seq<Seq<char>>,
    tags: Seq<Seq<char>>,
    outcomes: Seq<TagOutcome>,
    tag: Seq<char>,
)
    requires
        names.len() == tags.len(),
        outcomes.len() == tags.len(),
    ensures
        record_all(session, names, tags, outcomes).processed.contains(tag) <==> (
        session.processed.contains(tag) || exists|i: int|
            0 <= i < tags.len() && tags[i] == tag && #[trigger] outcomes[i] is Resolved),
    decreases tags.len(),
{
    if tags.len() > 0 {
        let last = tags.len() - 1;
        lemma_record_all_processed(
            session,
            names.drop_last(),
            tags.drop_last(),
            outcomes.drop_last(),
            tag,
        );
        let earlier = record_all(
            session,
            names.drop_last(),
            tags.drop_last(),
            outcomes.drop_last(),
        );
        if record_all(session, names, tags, outcomes).processed.contains(tag) {
            if !session.processed.contains(tag) {
                if earlier.processed.contains(tag) {
                    let i = choose|i: int|
                        0 <= i < tags.drop_last().len() && tags.drop_last()[i] == tag
                            && #[trigger] outcomes.drop_last()[i] is Resolved;
                    assert(tags[i] == tag && outcomes[i] is Resolved);
                } else {
                    assert(tags[last] == tag && outcomes[last] is Resolved);
                }
            }
        }
        if exists|i: int| 0 <= i < tags.len() && tags[i] == tag && #[trigger] outcomes[i] is Resolved {
            let i = choose|i: int|
                0 <= i < tags.len() && tags[i] == tag && #[trigger] outcomes[i] is Resolved;
            if i < last {
                assert(tags.drop_last()[i] == tag && outcomes.drop_last()[i] is Resolved);
            }
        }
    }
}

/// After a render against a fixed value source, a tag that ran as script
/// text and that the source holds is not among the missing variables, and
/// the recorded tag texts are those of before followed by the raw text of
/// every occurrence, once each and in textual order.
pub proof fn law_present_tags_recorded<T: GetValueByName<String>>(
    before: MllView,
    after: MllView,
    table: &T,
    rendered: Result<String, String>,
    names: Seq<Seq<char>>,
    outcomes: Seq<TagOutcome>,
    i: int,
)
    requires
        render_relation(before, after, table, rendered, names, outcomes),
        table.is_fixed(),
        0 <= i < outcomes.len(),
        !(outcomes[i] is ValidationFailed),
        table.value_of(tag_texts(tag_matches(before.template))[i]) is Some,
    ensures
        !missing_variables(after).contains(tag_texts(tag_matches(before.template))[i]),
        rendered_tags(after) == rendered_tags(before) + tag_texts(
            tag_matches(before.template),
        ),
{
    let tags = tag_texts(tag_matches(before.template));
    lemma_record_all_tags(before, names, tags, outcomes);
    lemma_record_all_processed(before, names, tags, outcomes, tags[i]);
    assert(outcomes[i] is Resolved);
    assert(after.processed.contains(tags[i]));
    let unresolved = |tag: Seq<char>| !after.processed.contains(tag);
    if missing_variables(after).contains(tags[i]) {
        let j = choose|j: int|
            0 <= j < missing_variables(after).len() && missing_variables(after)[j] == tags[i];
        rendered_tags(after).lemma_filter_pred(unresolved, j);
    }
}

/// After a render against a fixed value source that lacks a tag, the
/// occurrence of that tag is replaced by the empty text and the result is
/// `Err`; the text is still the template with every occurrence replaced by
/// its substitution, which for a tag that ran as script text and that the
/// source holds is the value held.
pub proof fn law_absent_tags_left_empty<T: GetValueByName<String>>(
    before: MllView,
    after: MllView,
    table: &T,
    rendered: Result<String, String>,
    names: Seq<Seq<char>>,
    outcomes: Seq<TagOutcome>,
    i: int,
)
    requires
        render_relation(before, after, table, rendered, names, outcomes),
        table.is_fixed(),
        0 <= i < outcomes.len(),
        table.value_of(tag_texts(tag_matches(before.template))[i]) is None,
    ensures
        substitutions(outcomes)[i] == Seq::<char>::empty(),
        rendered is Err,
        rendering_of(rendered).1 == weave(tag_pieces(before.template), substitutions(outcomes)),
        forall|j: int|
            0 <= j < outcomes.len() && !(#[trigger] outcomes[j] is ValidationFailed)
                && table.value_of(tag_texts(tag_matches(before.template))[j]) is Some
                ==> substitutions(outcomes)[j] == table.value_of(
                tag_texts(tag_matches(before.template))[j],
            )->Some_0@,
{
    assert(!(outcomes[i] is Resolved));
    assert(!all_resolved(outcomes));
}

} // verus!
