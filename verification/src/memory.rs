//! Memories: remembered texts with their origin, and the ways to retrieve
//! them; and their forms as JSON.

use crate::bridge::{json_parse, json_text};
use crate::error::ValueError;
use crate::fields::{
    not_a_text, not_an_object, optional_text, read_optional_text, read_required_text, reports,
    required_text, text_view, unknown_variant, Fault,
};
use crate::json::{str_eq, JsonMap, JsonSpec, JsonValue};
use vstd::prelude::*;
use vstd::std_specs::cmp::PartialEqSpecImpl;

verus! {

/// How memories are retrieved.
#[derive(Debug, Clone, Copy, PartialEq, Eq, Structural)]
pub enum MemoryRetrieval {
    /// The most recent ones.
    LastN,
    /// The earliest ones.
    FirstN,
    /// Those closest in meaning.
    Semantic,
}

/// The name of a way of retrieval in JSON.
pub open spec fn retrieval_name(retrieval: MemoryRetrieval) -> Seq<char> {
    match retrieval {
        MemoryRetrieval::LastN => "last_n"@,
        MemoryRetrieval::FirstN => "first_n"@,
        MemoryRetrieval::Semantic => "semantic"@,
    }
}

/// The way of retrieval that a name stands for.
pub open spec fn retrieval_of_name(name: Seq<char>) -> Option<MemoryRetrieval> {
    if name == "last_n"@ {
        Some(MemoryRetrieval::LastN)
    } else if name == "first_n"@ {
        Some(MemoryRetrieval::FirstN)
    } else if name == "semantic"@ {
        Some(MemoryRetrieval::Semantic)
    } else {
        None
    }
}

/// The way of retrieval that a JSON value denotes.
pub open spec fn retrieval_of_value(v: JsonSpec) -> Result<MemoryRetrieval, Fault> {
    match v {
        JsonSpec::String(name) => match retrieval_of_name(name) {
            Some(retrieval) => Ok(retrieval),
            None => Err(Fault::UnknownVariant(name)),
        },
        _ => Err(Fault::NotAText),
    }
}

/// Round trip: each way of retrieval is the one that its name stands for.
pub proof fn lemma_retrieval_round_trip(retrieval: MemoryRetrieval)
    ensures
        retrieval_of_name(retrieval_name(retrieval)) == Some(retrieval),
        retrieval_of_value(JsonSpec::String(retrieval_name(retrieval))) == Ok::<
            MemoryRetrieval,
            Fault,
        >(retrieval),
{
    reveal_strlit("last_n");
    reveal_strlit("first_n");
    reveal_strlit("semantic");
    assert("last_n"@.len() == 6);
    assert("first_n"@.len() == 7);
    assert("semantic"@.len() == 8);
}

impl MemoryRetrieval {
    /// The name in JSON.
    pub fn name(&self) -> (r: &'static str)
        ensures
            r@ == retrieval_name(*self),
    {
        match self {
            MemoryRetrieval::LastN => "last_n",
            MemoryRetrieval::FirstN => "first_n",
            MemoryRetrieval::Semantic => "semantic",
        }
    }

    /// The way of retrieval of that name.
    pub fn from_name(name: &str) -> (r: Option<MemoryRetrieval>)
        ensures
            r == retrieval_of_name(name@),
    {
        if str_eq(name, "last_n") {
            Some(MemoryRetrieval::LastN)
        } else if str_eq(name, "first_n") {
            Some(MemoryRetrieval::FirstN)
        } else if str_eq(name, "semantic") {
            Some(MemoryRetrieval::Semantic)
        } else {
            None
        }
    }

    /// The way of retrieval as a JSON value: its name.
    pub fn to_value(&self) -> (r: JsonValue)
        ensures
            r@ == JsonSpec::String(retrieval_name(*self)),
    {
        JsonValue::String(self.name().to_owned())
    }

    /// Reads a way of retrieval from a JSON value.
    pub fn from_value(v: &JsonValue) -> (r: Result<MemoryRetrieval, ValueError>)
        ensures
            reports(r, retrieval_of_value(v@), |x: MemoryRetrieval| x),
    {
        match v {
            JsonValue::String(name) => match MemoryRetrieval::from_name(name.as_str()) {
                Some(retrieval) => Ok(retrieval),
                None => Err(unknown_variant(name.as_str())),
            },
            _ => Err(not_a_text()),
        }
    }

    /// The way of retrieval as JSON text.
    pub fn to_json(&self) -> (r: Result<String, ValueError>)
        ensures
            match r {
                Ok(text) => json_text(JsonSpec::String(retrieval_name(*self))) == Some(text@),
                Err(_) => json_text(JsonSpec::String(retrieval_name(*self))) is None,
            },
    {
        self.to_value().to_json()
    }

    /// Reads a way of retrieval from JSON text.
    pub fn from_json(text: &str) -> (r: Result<MemoryRetrieval, ValueError>)
        ensures
            match json_parse(text@) {
                Some(v) => reports(r, retrieval_of_value(v), |x: MemoryRetrieval| x),
                None => r is Err,
            },
    {
        match JsonValue::from_json(text) {
            Ok(v) => MemoryRetrieval::from_value(&v),
            Err(e) => Err(e),
        }
    }
}

/// A remembered text, with what it is about and what it came from.
#[derive(Debug)]
pub struct Memory {
    /// The text.
    pub memory: String,
    /// An identifier.
    pub id: Option<String>,
    /// What the memory is about.
    pub topic: Option<String>,
    /// The input from which it was made.
    pub input: Option<String>,
}

/// What a memory is.
pub ghost struct MemoryView {
    pub memory: Seq<char>,
    pub id: Option<Seq<char>>,
    pub topic: Option<Seq<char>>,
    pub input: Option<Seq<char>>,
}

impl View for Memory {
    type V = MemoryView;

    open spec fn view(&self) -> MemoryView {
        MemoryView {
            memory: self.memory@,
            id: text_view(self.id),
            topic: text_view(self.topic),
            input: text_view(self.input),
        }
    }
}

/// The JSON object of a memory. `memory` is always there; `id`, `topic` and
/// `input` only when set.
pub open spec fn memory_object(m: MemoryView) -> Map<Seq<char>, JsonSpec> {
    let with_memory = Map::<Seq<char>, JsonSpec>::empty().insert(
        "memory"@,
        JsonSpec::String(m.memory),
    );
    let with_id = match m.id {
        Some(id) => with_memory.insert("id"@, JsonSpec::String(id)),
        None => with_memory,
    };
    let with_topic = match m.topic {
        Some(topic) => with_id.insert("topic"@, JsonSpec::String(topic)),
        None => with_id,
    };
    match m.input {
        Some(input) => with_topic.insert("input"@, JsonSpec::String(input)),
        None => with_topic,
    }
}

/// The JSON value of a memory.
pub open spec fn memory_value(m: MemoryView) -> JsonSpec {
    JsonSpec::Object(memory_object(m))
}

/// The memory that a JSON object denotes. Only `memory` must be there; keys
/// other than the four of a memory are passed over.
pub open spec fn memory_of_object(o: Map<Seq<char>, JsonSpec>) -> Result<MemoryView, Fault> {
    match required_text(o, "memory"@) {
        Err(fault) => Err(fault),
        Ok(memory) => match optional_text(o, "id"@) {
            Err(fault) => Err(fault),
            Ok(id) => match optional_text(o, "topic"@) {
                Err(fault) => Err(fault),
                Ok(topic) => match optional_text(o, "input"@) {
                    Err(fault) => Err(fault),
                    Ok(input) => Ok(MemoryView { memory, id, topic, input }),
                },
            },
        },
    }
}

/// The memory that a JSON value denotes.
pub open spec fn memory_of_value(v: JsonSpec) -> Result<MemoryView, Fault> {
    match v {
        JsonSpec::Object(o) => memory_of_object(o),
        _ => Err(Fault::NotAnObject),
    }
}

/// The four keys of a memory's JSON object differ from one another.
pub proof fn lemma_memory_keys_differ()
    ensures
        "memory"@ != "id"@,
        "memory"@ != "topic"@,
        "memory"@ != "input"@,
        "id"@ != "topic"@,
        "id"@ != "input"@,
        "topic"@ != "input"@,
{
    reveal_strlit("memory");
    reveal_strlit("id");
    reveal_strlit("topic");
    reveal_strlit("input");
    assert("memory"@.len() == 6);
    assert("id"@.len() == 2);
    assert("topic"@.len() == 5);
    assert("topic"@[0] == 't');
    assert("input"@[0] == 'i');
}

/// Omission: the JSON object of a memory has `memory`, each optional field
/// exactly when it is set, and no other key; no key holds `null`.
pub proof fn lemma_memory_absent_fields_are_omitted(m: MemoryView)
    ensures
        memory_object(m).contains_key("memory"@),
        memory_object(m).contains_key("id"@) <==> m.id is Some,
        memory_object(m).contains_key("topic"@) <==> m.topic is Some,
        memory_object(m).contains_key("input"@) <==> m.input is Some,
        forall|k: Seq<char>| #[trigger]
            memory_object(m).dom().contains(k) ==> k == "memory"@ || k == "id"@ || k == "topic"@
                || k == "input"@,
        forall|k: Seq<char>| #[trigger]
            memory_object(m).dom().contains(k) ==> !(memory_object(m)[k] is Null),
{
    lemma_memory_keys_differ();
}

/// Round trip through a JSON value: reading the JSON value of a memory
/// gives the memory back.
pub proof fn lemma_memory_round_trip(m: MemoryView)
    ensures
        memory_of_value(memory_value(m)) == Ok::<MemoryView, Fault>(m),
{
    lemma_memory_keys_differ();
    let o = memory_object(m);
    assert(required_text(o, "memory"@) == Ok::<Seq<char>, Fault>(m.memory));
    assert(optional_text(o, "id"@) == Ok::<Option<Seq<char>>, Fault>(m.id));
    assert(optional_text(o, "topic"@) == Ok::<Option<Seq<char>>, Fault>(m.topic));
    assert(optional_text(o, "input"@) == Ok::<Option<Seq<char>>, Fault>(m.input));
}

fn same_text(a: &Option<String>, b: &Option<String>) -> (r: bool)
    ensures
        r == (text_view(*a) == text_view(*b)),
{
    match (a, b) {
        (Some(x), Some(y)) => str_eq(x.as_str(), y.as_str()),
        (None, None) => true,
        _ => false,
    }
}

fn copy_text(a: &Option<String>) -> (r: Option<String>)
    ensures
        text_view(r) == text_view(*a),
{
    match a {
        Some(x) => Some(x.clone()),
        None => None,
    }
}

impl Memory {
    /// The memory as a JSON value.
    pub fn to_value(&self) -> (r: JsonValue)
        ensures
            r@ == memory_value(self@),
    {
        let mut o = JsonMap::new();
        o.insert("memory".to_owned(), JsonValue::String(self.memory.clone()));
        match &self.id {
            Some(id) => {
                o.insert("id".to_owned(), JsonValue::String(id.clone()));
            },
            None => {},
        }
        match &self.topic {
            Some(topic) => {
                o.insert("topic".to_owned(), JsonValue::String(topic.clone()));
            },
            None => {},
        }
        match &self.input {
            Some(input) => {
                o.insert("input".to_owned(), JsonValue::String(input.clone()));
            },
            None => {},
        }
        JsonValue::Object(o)
    }

    /// Reads a memory from a JSON value.
    pub fn from_value(v: &JsonValue) -> (r: Result<Memory, ValueError>)
        ensures
            reports(r, memory_of_value(v@), |m: Memory| m@),
    {
        match v {
            JsonValue::Object(o) => {
                let memory = match read_required_text(o, "memory") {
                    Ok(x) => x,
                    Err(e) => { return Err(e); },
                };
                let id = match read_optional_text(o, "id") {
                    Ok(x) => x,
                    Err(e) => { return Err(e); },
                };
                let topic = match read_optional_text(o, "topic") {
                    Ok(x) => x,
                    Err(e) => { return Err(e); },
                };
                let input = match read_optional_text(o, "input") {
                    Ok(x) => x,
                    Err(e) => { return Err(e); },
                };
                Ok(Memory { memory, id, topic, input })
            },
            _ => Err(not_an_object()),
        }
    }

    /// The memory as JSON text.
    pub fn to_json(&self) -> (r: Result<String, ValueError>)
        ensures
            match r {
                Ok(text) => json_text(memory_value(self@)) == Some(text@),
                Err(_) => json_text(memory_value(self@)) is None,
            },
    {
        self.to_value().to_json()
    }

    /// Reads a memory from JSON text.
    pub fn from_json(text: &str) -> (r: Result<Memory, ValueError>)
        ensures
            match json_parse(text@) {
                Some(v) => reports(r, memory_of_value(v), |m: Memory| m@),
                None => r is Err,
            },
    {
        match JsonValue::from_json(text) {
            Ok(v) => Memory::from_value(&v),
            Err(e) => Err(e),
        }
    }

    /// Value equality: every field compares equal.
    pub fn equals(&self, other: &Memory) -> (r: bool)
        ensures
            r == (self@ == other@),
    {
        str_eq(self.memory.as_str(), other.memory.as_str()) && same_text(&self.id, &other.id)
            && same_text(&self.topic, &other.topic) && same_text(&self.input, &other.input)
    }
}

impl Clone for Memory {
    fn clone(&self) -> (r: Self)
        ensures
            r@ == self@,
    {
        Memory {
            memory: self.memory.clone(),
            id: copy_text(&self.id),
            topic: copy_text(&self.topic),
            input: copy_text(&self.input),
        }
    }
}

impl PartialEq for Memory {
    fn eq(&self, other: &Self) -> (r: bool) {
        self.equals(other)
    }
}

impl PartialEqSpecImpl for Memory {
    open spec fn obeys_eq_spec() -> bool {
        true
    }

    open spec fn eq_spec(&self, other: &Self) -> bool {
        self@ == other@
    }
}

} // verus!
