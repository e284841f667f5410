//! JSON values to and from JSON text. The text itself is written and read by
//! `serde_json`; this module carries a value across, level by level.

use crate::bridge::{
    borrowed_entries_spec, error_message, items_spec, json_parse, json_text, number_clone,
    owned_entries_spec, value_close, value_open, value_print, value_read, value_spec, BorrowedNode,
    OwnedNode,
};
use crate::error::ValueError;
use crate::json::{
    entries_map, entries_view, has_key, lemma_entries_map_dom, lemma_entries_map_index,
    values_view, JsonMap, JsonNumber, JsonSpec, JsonValue,
};
use vstd::prelude::*;

verus! {

/// The `serde_json::Value` that holds the same JSON value.
pub(crate) fn to_outside(v: &JsonValue) -> (r: serde_json::Value)
    ensures
        value_spec(r) == v@,
    decreases v,
{
    match v {
        JsonValue::Null => value_close(OwnedNode::Null),
        JsonValue::Bool(b) => value_close(OwnedNode::Bool(*b)),
        JsonValue::Number(n) => value_close(OwnedNode::Number(number_clone(n.inner()))),
        JsonValue::String(s) => value_close(OwnedNode::String(s.clone())),
        JsonValue::Array(items) => {
            let mut out: Vec<serde_json::Value> = Vec::new();
            let mut i: usize = 0;
            assert forall|j: int| 0 <= j < items@.len() implies decreases_to!(*v => #[trigger] items@[j]) by {
                vstd::std_specs::vec::axiom_vec_index_decreases(*items, j);
            }
            while i < items.len()
                invariant
                    i <= items@.len(),
                    out@.len() == i,
                    forall|j: int|
                        0 <= j < items@.len() ==> decreases_to!(*v => #[trigger] items@[j]),
                    forall|j: int| 0 <= j < i ==> value_spec(#[trigger] out@[j]) == items@[j]@,
                decreases items@.len() - i,
            {
                out.push(to_outside(&items[i]));
                i += 1;
            }
            assert(items_spec(out@) =~= values_view(items@));
            value_close(OwnedNode::Array(out))
        },
        JsonValue::Object(m) => {
            let entries = m.entries();
            let mut out: Vec<(String, serde_json::Value)> = Vec::new();
            let mut i: usize = 0;
            assert forall|j: int| 0 <= j < entries@.len() implies decreases_to!(*v => (#[trigger] entries@[j]).1) by {
                assert(decreases_to!(*m => entries@[j].1));
            }
            while i < entries.len()
                invariant
                    i <= entries@.len(),
                    out@.len() == i,
                    forall|j: int|
                        0 <= j < entries@.len() ==> decreases_to!(*v => (#[trigger] entries@[j]).1),
                    forall|j: int|
                        0 <= j < i ==> (#[trigger] out@[j]).0@ == entries@[j].0@ && value_spec(
                            out@[j].1,
                        ) == entries@[j].1@,
                decreases entries@.len() - i,
            {
                out.push((entries[i].0.clone(), to_outside(&entries[i].1)));
                i += 1;
            }
            assert(owned_entries_spec(out@) =~= entries_view(entries@));
            value_close(OwnedNode::Object(out))
        },
    }
}

/// The JSON value that a `serde_json::Value` holds.
pub(crate) fn from_outside(v: &serde_json::Value) -> (r: JsonValue)
    ensures
        r@ == value_spec(*v),
    decreases value_spec(*v),
{
    match value_open(v) {
        BorrowedNode::Null => JsonValue::Null,
        BorrowedNode::Bool(b) => JsonValue::Bool(b),
        BorrowedNode::Number(n) => JsonValue::Number(JsonNumber::from_inner(number_clone(n))),
        BorrowedNode::String(s) => JsonValue::String(s.clone()),
        BorrowedNode::Array(items) => {
            let mut out: Vec<JsonValue> = Vec::new();
            let mut i: usize = 0;
            assert forall|j: int| 0 <= j < items@.len() implies decreases_to!(value_spec(*v) => value_spec(#[trigger] items@[j])) by {
                let whole = value_spec(*v);
                let inner = items_spec(items@);
                assert(whole->Array_0 == inner);
                assert(decreases_to!(whole => whole->Array_0));
                vstd::seq::axiom_seq_index_decreases(inner, j);
                assert(inner[j] == value_spec(items@[j]));
            }
            while i < items.len()
                invariant
                    i <= items@.len(),
                    out@.len() == i,
                    forall|j: int|
                        0 <= j < items@.len() ==> decreases_to!(value_spec(*v) => value_spec(#[trigger] items@[j])),
                    forall|j: int| 0 <= j < i ==> (#[trigger] out@[j])@ == value_spec(items@[j]),
                decreases items@.len() - i,
            {
                out.push(from_outside(&items[i]));
                i += 1;
            }
            assert(values_view(out@) =~= items_spec(items@));
            JsonValue::Array(out)
        },
        BorrowedNode::Object(entries) => {
            let ghost specs = borrowed_entries_spec(entries@);
            assert forall|j: int| 0 <= j < entries@.len() implies decreases_to!(value_spec(*v) => value_spec(*(#[trigger] entries@[j]).1)) by {
                lemma_entries_map_dom(specs);
                lemma_entries_map_index(specs);
                let whole = value_spec(*v);
                let key = specs[j].0;
                assert(has_key(specs, key));
                assert(entries_map(specs)[key] == value_spec(*entries@[j].1));
                assert(whole->Object_0 == entries_map(specs));
                assert(decreases_to!(whole => whole->Object_0));
                vstd::map::axiom_map_index_decreases_finite(entries_map(specs), key);
            }
            let mut out: Vec<(String, JsonValue)> = Vec::new();
            let mut i: usize = 0;
            while i < entries.len()
                invariant
                    i <= entries@.len(),
                    out@.len() == i,
                    specs == borrowed_entries_spec(entries@),
                    forall|j: int|
                        0 <= j < entries@.len() ==> decreases_to!(value_spec(*v) => value_spec(*(#[trigger] entries@[j]).1)),
                    forall|j: int|
                        0 <= j < i ==> (#[trigger] out@[j]).0@ == (*entries@[j].0)@ && out@[j].1@
                            == value_spec(*entries@[j].1),
                decreases entries@.len() - i,
            {
                out.push((entries[i].0.clone(), from_outside(entries[i].1)));
                i += 1;
            }
            assert(entries_view(out@) =~= specs);
            JsonValue::Object(JsonMap::from_entries(out))
        },
    }
}

impl JsonValue {
    /// The JSON text of the value.
    pub fn to_json(&self) -> (r: Result<String, ValueError>)
        ensures
            match r {
                Ok(text) => json_text(self@) == Some(text@),
                Err(_) => json_text(self@) is None,
            },
    {
        let outside = to_outside(self);
        match value_print(&outside) {
            Ok(text) => Ok(text),
            Err(e) => Err(ValueError { message: error_message(&e) }),
        }
    }

    /// Reads a value from JSON text.
    pub fn from_json(text: &str) -> (r: Result<JsonValue, ValueError>)
        ensures
            match r {
                Ok(v) => json_parse(text@) == Some(v@),
                Err(_) => json_parse(text@) is None,
            },
    {
        match value_read(text) {
            Ok(outside) => Ok(from_outside(&outside)),
            Err(e) => Err(ValueError { message: error_message(&e) }),
        }
    }
}

} // verus!
