//! Laws of the value marshaller.

use crate::marshal::{
    convertible, dynamic_of, has_key, integer_of_float, is_finite, json_of, normal, normal_items,
    normal_members, position, sequence_keys, DynamicView, JsonView, KeyView,
};
use vstd::prelude::*;

verus! {

/// Whether a JSON tree holds no number that is not finite and no object
/// without members.
pub open spec fn plain(json: JsonView) -> bool
    decreases json,
{
    match json {
        JsonView::Float(bits) => is_finite(bits),
        JsonView::Array(items) => forall|i: int|
            0 <= i < items.len() ==> plain(#[trigger] items[i]),
        JsonView::Object(members) => members.len() > 0 && forall|i: int|
            0 <= i < members.len() ==> plain((#[trigger] members[i]).1),
        _ => true,
    }
}

/// Whether a JSON tree holds no binary64 number.
pub open spec fn float_free(json: JsonView) -> bool
    decreases json,
{
    match json {
        JsonView::Float(_) => false,
        JsonView::Array(items) => forall|i: int|
            0 <= i < items.len() ==> float_free(#[trigger] items[i]),
        JsonView::Object(members) => forall|i: int|
            0 <= i < members.len() ==> float_free((#[trigger] members[i]).1),
        _ => true,
    }
}

/// Converting a plain JSON tree to a dynamic value and back gives the tree
/// in its normal form: the tree again, but for each binary64 number that is
/// an integer which fits 64 signed bits, which comes back as that integer.
/// An object without members is left out: it becomes a table without
/// entries, which converts back to an array without items.
pub proof fn law_round_trip(json: JsonView)
    requires
        plain(json),
    ensures
        convertible(dynamic_of(json)),
        json_of(dynamic_of(json)) == normal(json),
    decreases json,
{
    match json {
        JsonView::Array(items) => {
            let entries = dynamic_of(json)->Table_0;
            assert(entries.len() == items.len());
            assert forall|i: int| 0 <= i < entries.len() implies convertible(
                (#[trigger] entries[i]).1,
            ) && json_of(entries[i].1) == normal(items[i]) by {
                law_round_trip(items[i]);
            }
            assert forall|k: int| 1 <= k <= entries.len() implies #[trigger] has_key(
                entries,
                k,
            ) by {
                assert(entries[k - 1].0 == KeyView::Integer(k));
            }
            assert(sequence_keys(entries));
            assert forall|k: int| 0 <= k < entries.len() implies #[trigger] json_of(
                dynamic_of(json),
            )->Array_0[k] == normal(items[k]) by {
                assert(entries[k].0 == KeyView::Integer(k + 1));
                let at = position(entries, k + 1);
                assert(entries[at].0 == KeyView::Integer(k + 1));
                assert(at == k);
            }
            assert(json_of(dynamic_of(json))->Array_0 =~= normal_items(items));
        },
        JsonView::Object(members) => {
            let entries = dynamic_of(json)->Table_0;
            assert(entries.len() == members.len());
            assert forall|i: int| 0 <= i < entries.len() implies convertible(
                (#[trigger] entries[i]).1,
            ) && json_of(entries[i].1) == normal(members[i].1) by {
                law_round_trip(members[i].1);
            }
            assert(entries[0].0 is Text);
            assert(!sequence_keys(entries));
            assert(json_of(dynamic_of(json))->Object_0 =~= normal_members(members));
        },
        _ => {},
    }
}

/// A tree without binary64 numbers is its own normal form.
pub proof fn lemma_normal_without_floats(json: JsonView)
    requires
        float_free(json),
    ensures
        normal(json) == json,
    decreases json,
{
    match json {
        JsonView::Array(items) => {
            assert forall|i: int| 0 <= i < items.len() implies normal(#[trigger] items[i])
                == items[i] by {
                lemma_normal_without_floats(items[i]);
            }
            assert(normal_items(items) =~= items);
        },
        JsonView::Object(members) => {
            assert forall|i: int| 0 <= i < members.len() implies normal(
                (#[trigger] members[i]).1,
            ) == members[i].1 by {
                lemma_normal_without_floats(members[i].1);
            }
            assert(normal_members(members) =~= members);
        },
        _ => {},
    }
}

/// Converting a JSON tree made of null, booleans, integers, strings, arrays
/// and objects with members to a dynamic value and back gives the tree
/// again.
pub proof fn law_round_trip_without_floats(json: JsonView)
    requires
        plain(json),
        float_free(json),
    ensures
        convertible(dynamic_of(json)),
        json_of(dynamic_of(json)) == json,
{
    law_round_trip(json);
    lemma_normal_without_floats(json);
}

/// A binary64 number that is an integer which fits 64 signed bits comes
/// back from the dynamic values as that integer.
pub proof fn law_integral_float_becomes_integer(bits: u64)
    requires
        integer_of_float(bits) is Some,
    ensures
        json_of(dynamic_of(JsonView::Float(bits))) == JsonView::Integer(
            integer_of_float(bits)->Some_0,
        ),
{
}

/// A table whose keys are 1 to N in some order converts to the array of its
/// N values in the order of their keys.
pub proof fn law_sequence_is_array(entries: Seq<(KeyView, DynamicView)>)
    requires
        sequence_keys(entries),
    ensures
        json_of(DynamicView::Table(entries)) is Array,
        json_of(DynamicView::Table(entries))->Array_0.len() == entries.len(),
        forall|i: int|
            0 <= i < entries.len() ==> json_of(DynamicView::Table(entries))->Array_0[(
            #[trigger] entries[i]).0->Integer_0 - 1] == json_of(entries[i].1),
{
    assert forall|i: int| 0 <= i < entries.len() implies json_of(
        DynamicView::Table(entries),
    )->Array_0[(#[trigger] entries[i]).0->Integer_0 - 1] == json_of(entries[i].1) by {
        let key = entries[i].0->Integer_0;
        let at = position(entries, key);
        assert(entries[i].0 == KeyView::Integer(key));
        assert(entries[at].0 == KeyView::Integer(key));
        assert(at == i);
    }
}

/// A table with a key that is no integer, with an integer key outside 1 to
/// N, with a key that occurs twice or with one of 1 to N missing converts to
/// an object with one member per entry, in the order of the entries.
pub proof fn law_other_table_is_object(entries: Seq<(KeyView, DynamicView)>)
    requires
        !sequence_keys(entries),
    ensures
        json_of(DynamicView::Table(entries)) is Object,
        json_of(DynamicView::Table(entries))->Object_0.len() == entries.len(),
        forall|i: int|
            0 <= i < entries.len() ==> (#[trigger] json_of(
                DynamicView::Table(entries),
            )->Object_0[i]) == (crate::marshal::key_text(entries[i].0), json_of(entries[i].1)),
{
}

/// The JSON tree of a convertible dynamic value holds no number that is not
/// finite.
pub proof fn lemma_json_of_printable(value: DynamicView)
    requires
        convertible(value),
    ensures
        crate::json_text::printable(json_of(value)),
    decreases value,
{
    match value {
        DynamicView::Table(entries) => {
            if sequence_keys(entries) {
                let items = json_of(value)->Array_0;
                assert forall|k: int| 0 <= k < items.len() implies crate::json_text::printable(
                    #[trigger] items[k],
                ) by {
                    assert(has_key(entries, k + 1));
                    let at = position(entries, k + 1);
                    assert(convertible(entries[at].1));
                    lemma_json_of_printable(entries[at].1);
                }
            } else {
                let members = json_of(value)->Object_0;
                assert forall|i: int| 0 <= i < members.len() implies crate::json_text::printable(
                    (#[trigger] members[i]).1,
                ) by {
                    assert(convertible(entries[i].1));
                    lemma_json_of_printable(entries[i].1);
                }
            }
        },
        _ => {},
    }
}

} // verus!
