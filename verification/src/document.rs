//! The document: one retrievable unit of content with its metadata, and its
//! form as JSON.

use crate::bridge::{json_parse, json_text, number_of_text};
use crate::error::ValueError;
use crate::fields::{
    fault_message, not_an_object, object_or_empty, object_view, optional_float, optional_object,
    optional_text, read_object_or_empty, read_optional_float, read_optional_object,
    read_optional_text, read_required_text, reports, required_text, text_view, Fault,
};
use crate::json::{
    as_float_bits, float_equal, lemma_object_equal_reflexive, lemma_object_equal_symmetric,
    lemma_object_equal_transitive, object_equal, str_eq, JsonMap, JsonNumber, JsonSpec,
    JsonValue, NumberSpec,
};
use vstd::prelude::*;
use vstd::std_specs::cmp::PartialEqSpecImpl;

verus! {

/// A relevance score: a finite floating-point number, viewed as its 64 bits.
#[derive(Debug)]
pub struct Score {
    number: JsonNumber,
}

impl View for Score {
    type V = u64;

    closed spec fn view(&self) -> u64 {
        as_float_bits(self.number@)
    }
}

impl Score {
    #[verifier::type_invariant]
    spec fn holds_a_float(self) -> bool {
        self.number@ is Float
    }

    /// Reads a score from its decimal text, such as `0.95` or `1`.
    pub fn parse(text: &str) -> (r: Option<Score>)
        ensures
            match number_of_text(text@) {
                Some(n) => r is Some && r->Some_0@ == as_float_bits(n),
                None => r is None,
            },
    {
        match JsonNumber::parse(text) {
            Some(n) => Some(Score { number: n.to_float() }),
            None => None,
        }
    }

    /// The score that a JSON number denotes.
    pub fn from_number(n: &JsonNumber) -> (r: Score)
        ensures
            r@ == as_float_bits(n@),
    {
        Score { number: n.to_float() }
    }

    /// The score as a JSON number.
    pub fn to_number(&self) -> (r: JsonNumber)
        ensures
            r@ == NumberSpec::Float(self@),
    {
        proof {
            use_type_invariant(self);
        }
        self.number.clone()
    }

    /// Numeric equality.
    pub fn equals(&self, other: &Score) -> (r: bool)
        ensures
            r == float_equal(self@, other@),
    {
        proof {
            use_type_invariant(self);
            use_type_invariant(other);
        }
        self.number.equals(&other.number)
    }
}

impl Clone for Score {
    fn clone(&self) -> (r: Self)
        ensures
            r@ == self@,
    {
        proof {
            use_type_invariant(self);
        }
        Score { number: self.number.clone() }
    }
}

impl PartialEq for Score {
    fn eq(&self, other: &Self) -> (r: bool) {
        self.equals(other)
    }
}

impl PartialEqSpecImpl for Score {
    open spec fn obeys_eq_spec() -> bool {
        true
    }

    open spec fn eq_spec(&self, other: &Self) -> bool {
        float_equal(self@, other@)
    }
}

/// The view of an optional score.
pub open spec fn score_view(score: Option<Score>) -> Option<u64> {
    match score {
        Some(s) => Some(s@),
        None => None,
    }
}

/// One retrievable unit of content with its metadata.
#[derive(Debug)]
pub struct Document {
    /// The text.
    pub content: String,
    /// A stable identifier.
    pub id: Option<String>,
    /// A title, not necessarily unique.
    pub name: Option<String>,
    /// Arbitrary attributes.
    pub meta_data: JsonMap,
    /// Processing data such as token counts.
    pub usage: Option<JsonMap>,
    /// The relevance that a ranking step gave.
    pub reranking_score: Option<Score>,
}

/// What a document is.
pub ghost struct DocumentView {
    pub content: Seq<char>,
    pub id: Option<Seq<char>>,
    pub name: Option<Seq<char>>,
    pub meta_data: Map<Seq<char>, JsonSpec>,
    pub usage: Option<Map<Seq<char>, JsonSpec>>,
    pub reranking_score: Option<u64>,
}

impl View for Document {
    type V = DocumentView;

    open spec fn view(&self) -> DocumentView {
        DocumentView {
            content: self.content@,
            id: text_view(self.id),
            name: text_view(self.name),
            meta_data: self.meta_data@,
            usage: object_view(self.usage),
            reranking_score: score_view(self.reranking_score),
        }
    }
}

/// The views of a list of documents, in order.
pub open spec fn documents_view(documents: Seq<Document>) -> Seq<DocumentView> {
    Seq::new(documents.len(), |i: int| documents[i]@)
}

/// Value equality of two documents: every field compares equal.
pub open spec fn document_equal(a: DocumentView, b: DocumentView) -> bool {
    &&& a.content == b.content
    &&& a.id == b.id
    &&& a.name == b.name
    &&& object_equal(a.meta_data, b.meta_data)
    &&& match (a.usage, b.usage) {
        (Some(x), Some(y)) => object_equal(x, y),
        (None, None) => true,
        _ => false,
    }
    &&& match (a.reranking_score, b.reranking_score) {
        (Some(x), Some(y)) => float_equal(x, y),
        (None, None) => true,
        _ => false,
    }
}

/// The JSON object of a document. `content` and `meta_data` are always
/// there; `id`, `name`, `usage` and `reranking_score` only when set.
pub open spec fn document_object(d: DocumentView) -> Map<Seq<char>, JsonSpec> {
    let with_content = Map::<Seq<char>, JsonSpec>::empty().insert(
        "content"@,
        JsonSpec::String(d.content),
    );
    let with_id = match d.id {
        Some(id) => with_content.insert("id"@, JsonSpec::String(id)),
        None => with_content,
    };
    let with_name = match d.name {
        Some(name) => with_id.insert("name"@, JsonSpec::String(name)),
        None => with_id,
    };
    let with_meta = with_name.insert("meta_data"@, JsonSpec::Object(d.meta_data));
    let with_usage = match d.usage {
        Some(usage) => with_meta.insert("usage"@, JsonSpec::Object(usage)),
        None => with_meta,
    };
    match d.reranking_score {
        Some(bits) => with_usage.insert(
            "reranking_score"@,
            JsonSpec::Number(NumberSpec::Float(bits)),
        ),
        None => with_usage,
    }
}

/// The JSON value of a document.
pub open spec fn document_value(d: DocumentView) -> JsonSpec {
    JsonSpec::Object(document_object(d))
}

/// The document that a JSON object denotes. Only `content` must be there;
/// keys other than the six of a document are passed over.
pub open spec fn document_of_object(m: Map<Seq<char>, JsonSpec>) -> Result<DocumentView, Fault> {
    match required_text(m, "content"@) {
        Err(fault) => Err(fault),
        Ok(content) => match optional_text(m, "id"@) {
            Err(fault) => Err(fault),
            Ok(id) => match optional_text(m, "name"@) {
                Err(fault) => Err(fault),
                Ok(name) => match object_or_empty(m, "meta_data"@) {
                    Err(fault) => Err(fault),
                    Ok(meta_data) => match optional_object(m, "usage"@) {
                        Err(fault) => Err(fault),
                        Ok(usage) => match optional_float(m, "reranking_score"@) {
                            Err(fault) => Err(fault),
                            Ok(reranking_score) => Ok(
                                DocumentView { content, id, name, meta_data, usage, reranking_score },
                            ),
                        },
                    },
                },
            },
        },
    }
}

/// The document that a JSON value denotes.
pub open spec fn document_of_value(v: JsonSpec) -> Result<DocumentView, Fault> {
    match v {
        JsonSpec::Object(m) => document_of_object(m),
        _ => Err(Fault::NotAnObject),
    }
}

/// The outcome of reading a document from a text: nothing where the text is
/// not JSON, else the document or the fault of the value read.
pub open spec fn document_of_text(text: Seq<char>) -> Option<Result<DocumentView, Fault>> {
    match json_parse(text) {
        Some(v) => Some(document_of_value(v)),
        None => None,
    }
}

/// The outcome of reading metadata from a text: nothing where the text is not
/// JSON, else the object read, or the fault of a value that is no object.
pub open spec fn meta_data_of_text(text: Seq<char>) -> Option<
    Result<Map<Seq<char>, JsonSpec>, Fault>,
> {
    match json_parse(text) {
        Some(JsonSpec::Object(m)) => Some(Ok(m)),
        Some(_) => Some(Err(Fault::NotAnObject)),
        None => None,
    }
}

/// The six keys of a document's JSON object differ from one another.
pub proof fn lemma_document_keys_differ()
    ensures
        "content"@ != "id"@,
        "content"@ != "name"@,
        "content"@ != "meta_data"@,
        "content"@ != "usage"@,
        "content"@ != "reranking_score"@,
        "id"@ != "name"@,
        "id"@ != "meta_data"@,
        "id"@ != "usage"@,
        "id"@ != "reranking_score"@,
        "name"@ != "meta_data"@,
        "name"@ != "usage"@,
        "name"@ != "reranking_score"@,
        "meta_data"@ != "usage"@,
        "meta_data"@ != "reranking_score"@,
        "usage"@ != "reranking_score"@,
{
    reveal_strlit("content");
    reveal_strlit("id");
    reveal_strlit("name");
    reveal_strlit("meta_data");
    reveal_strlit("usage");
    reveal_strlit("reranking_score");
    assert("content"@.len() == 7);
    assert("id"@.len() == 2);
    assert("name"@.len() == 4);
    assert("meta_data"@.len() == 9);
    assert("usage"@.len() == 5);
    assert("reranking_score"@.len() == 15);
}

/// Omission: the JSON object of a document has `content` and `meta_data`,
/// each optional field exactly when it is set, and no other key; no key
/// holds `null`. A document with no optional field set is the object of
/// `content` and `meta_data` alone.
pub proof fn lemma_absent_fields_are_omitted(d: DocumentView)
    ensures
        document_object(d).contains_key("content"@),
        document_object(d).contains_key("meta_data"@),
        document_object(d).contains_key("id"@) <==> d.id is Some,
        document_object(d).contains_key("name"@) <==> d.name is Some,
        document_object(d).contains_key("usage"@) <==> d.usage is Some,
        document_object(d).contains_key("reranking_score"@) <==> d.reranking_score is Some,
        forall|k: Seq<char>| #[trigger]
            document_object(d).dom().contains(k) ==> k == "content"@ || k == "id"@ || k == "name"@
                || k == "meta_data"@ || k == "usage"@ || k == "reranking_score"@,
        forall|k: Seq<char>| #[trigger]
            document_object(d).dom().contains(k) ==> !(document_object(d)[k] is Null),
        d.id is None && d.name is None && d.usage is None && d.reranking_score is None
            ==> document_object(d) == Map::<Seq<char>, JsonSpec>::empty().insert(
            "content"@,
            JsonSpec::String(d.content),
        ).insert("meta_data"@, JsonSpec::Object(d.meta_data)),
{
    lemma_document_keys_differ();
}

/// Round trip through a JSON value: reading the JSON value of a document
/// gives the document back.
pub proof fn lemma_value_round_trip(d: DocumentView)
    ensures
        document_of_value(document_value(d)) == Ok::<DocumentView, Fault>(d),
{
    lemma_document_keys_differ();
    let m = document_object(d);
    assert(required_text(m, "content"@) == Ok::<Seq<char>, Fault>(d.content));
    assert(optional_text(m, "id"@) == Ok::<Option<Seq<char>>, Fault>(d.id));
    assert(optional_text(m, "name"@) == Ok::<Option<Seq<char>>, Fault>(d.name));
    assert(object_or_empty(m, "meta_data"@) == Ok::<Map<Seq<char>, JsonSpec>, Fault>(d.meta_data));
    assert(optional_object(m, "usage"@) == Ok::<Option<Map<Seq<char>, JsonSpec>>, Fault>(d.usage));
    assert(optional_float(m, "reranking_score"@) == Ok::<Option<u64>, Fault>(d.reranking_score));
}

/// Round trip through JSON text: where the text written for a document
/// reads back as the JSON value that was written, reading a document from
/// that text gives the document back.
pub proof fn lemma_text_round_trip(d: DocumentView, text: Seq<char>)
    ensures
        json_text(document_value(d)) == Some(text) && json_parse(text) == Some(document_value(d))
            ==> document_of_text(text) == Some(Ok::<DocumentView, Fault>(d)),
{
    lemma_value_round_trip(d);
}

/// Every document equals itself.
pub proof fn lemma_document_equal_reflexive(d: DocumentView)
    ensures
        document_equal(d, d),
{
    lemma_object_equal_reflexive(d.meta_data);
    if d.usage is Some {
        lemma_object_equal_reflexive(d.usage->Some_0);
    }
}

/// Value equality of documents works both ways.
pub proof fn lemma_document_equal_symmetric(a: DocumentView, b: DocumentView)
    requires
        document_equal(a, b),
    ensures
        document_equal(b, a),
{
    lemma_object_equal_symmetric(a.meta_data, b.meta_data);
    if a.usage is Some {
        lemma_object_equal_symmetric(a.usage->Some_0, b.usage->Some_0);
    }
}

/// Value equality of documents carries over a middle document.
pub proof fn lemma_document_equal_transitive(a: DocumentView, b: DocumentView, c: DocumentView)
    requires
        document_equal(a, b),
        document_equal(b, c),
    ensures
        document_equal(a, c),
{
    lemma_object_equal_transitive(a.meta_data, b.meta_data, c.meta_data);
    if a.usage is Some {
        lemma_object_equal_transitive(a.usage->Some_0, b.usage->Some_0, c.usage->Some_0);
    }
}

fn text_equal(a: &Option<String>, b: &Option<String>) -> (r: bool)
    ensures
        r == (text_view(*a) == text_view(*b)),
{
    match (a, b) {
        (Some(x), Some(y)) => str_eq(x.as_str(), y.as_str()),
        (None, None) => true,
        _ => false,
    }
}

fn text_clone(a: &Option<String>) -> (r: Option<String>)
    ensures
        text_view(r) == text_view(*a),
{
    match a {
        Some(x) => Some(x.clone()),
        None => None,
    }
}

impl Document {
    /// A document with the given content, identifier, name and score, with
    /// no metadata and no usage.
    pub fn new(
        content: String,
        id: Option<String>,
        name: Option<String>,
        reranking_score: Option<Score>,
    ) -> (r: Document)
        ensures
            r@ == (DocumentView {
                content: content@,
                id: text_view(id),
                name: text_view(name),
                meta_data: Map::empty(),
                usage: None,
                reranking_score: score_view(reranking_score),
            }),
    {
        Document { content, id, name, meta_data: JsonMap::new(), usage: None, reranking_score }
    }

    /// The document as a JSON value.
    pub fn to_value(&self) -> (r: JsonValue)
        ensures
            r@ == document_value(self@),
    {
        let mut m = JsonMap::new();
        m.insert("content".to_owned(), JsonValue::String(self.content.clone()));
        match &self.id {
            Some(id) => {
                m.insert("id".to_owned(), JsonValue::String(id.clone()));
            },
            None => {},
        }
        match &self.name {
            Some(name) => {
                m.insert("name".to_owned(), JsonValue::String(name.clone()));
            },
            None => {},
        }
        m.insert("meta_data".to_owned(), JsonValue::Object(self.meta_data.clone()));
        match &self.usage {
            Some(usage) => {
                m.insert("usage".to_owned(), JsonValue::Object(usage.clone()));
            },
            None => {},
        }
        match &self.reranking_score {
            Some(score) => {
                m.insert("reranking_score".to_owned(), JsonValue::Number(score.to_number()));
            },
            None => {},
        }
        JsonValue::Object(m)
    }

    /// Reads a document from a JSON value.
    pub fn from_value(v: &JsonValue) -> (r: Result<Document, ValueError>)
        ensures
            reports(r, document_of_value(v@), |d: Document| d@),
    {
        match v {
            JsonValue::Object(m) => {
                let content = match read_required_text(m, "content") {
                    Ok(x) => x,
                    Err(e) => { return Err(e); },
                };
                let id = match read_optional_text(m, "id") {
                    Ok(x) => x,
                    Err(e) => { return Err(e); },
                };
                let name = match read_optional_text(m, "name") {
                    Ok(x) => x,
                    Err(e) => { return Err(e); },
                };
                let meta_data = match read_object_or_empty(m, "meta_data") {
                    Ok(x) => x,
                    Err(e) => { return Err(e); },
                };
                let usage = match read_optional_object(m, "usage") {
                    Ok(x) => x,
                    Err(e) => { return Err(e); },
                };
                let reranking_score = match read_optional_float(m, "reranking_score") {
                    Ok(Some(n)) => Some(Score::from_number(&n)),
                    Ok(None) => None,
                    Err(e) => { return Err(e); },
                };
                Ok(Document { content, id, name, meta_data, usage, reranking_score })
            },
            _ => Err(not_an_object()),
        }
    }

    /// The document as JSON text.
    pub fn to_json(&self) -> (r: Result<String, ValueError>)
        ensures
            match r {
                Ok(text) => json_text(document_value(self@)) == Some(text@),
                Err(_) => json_text(document_value(self@)) is None,
            },
    {
        self.to_value().to_json()
    }

    /// Reads a document from JSON text.
    pub fn from_json(text: &str) -> (r: Result<Document, ValueError>)
        ensures
            match document_of_text(text@) {
                Some(outcome) => reports(r, outcome, |d: Document| d@),
                None => r is Err,
            },
    {
        match JsonValue::from_json(text) {
            Ok(v) => Document::from_value(&v),
            Err(e) => Err(e),
        }
    }

    /// The metadata alone as JSON text.
    pub fn get_meta_data_as_json(&self) -> (r: Result<String, ValueError>)
        ensures
            match r {
                Ok(text) => json_text(JsonSpec::Object(self@.meta_data)) == Some(text@),
                Err(_) => json_text(JsonSpec::Object(self@.meta_data)) is None,
            },
    {
        JsonValue::Object(self.meta_data.clone()).to_json()
    }

    /// Replaces the metadata by the JSON object that the text holds. Where
    /// the text holds none, the document stays as it was.
    pub fn set_meta_data_from_json(&mut self, text: &str) -> (r: Result<(), ValueError>)
        ensures
            match meta_data_of_text(text@) {
                Some(Ok(m)) => r is Ok && final(self)@ == (DocumentView {
                    meta_data: m,
                    ..old(self)@
                }),
                Some(Err(fault)) => r is Err && r->Err_0.message@ == fault_message(fault)
                    && *final(self) == *old(self),
                None => r is Err && *final(self) == *old(self),
            },
    {
        match JsonValue::from_json(text) {
            Ok(JsonValue::Object(m)) => {
                self.meta_data = m;
                Ok(())
            },
            Ok(_) => Err(not_an_object()),
            Err(e) => Err(e),
        }
    }

    /// Value equality: every field compares equal.
    pub fn equals(&self, other: &Document) -> (r: bool)
        ensures
            r == document_equal(self@, other@),
    {
        if !str_eq(self.content.as_str(), other.content.as_str()) {
            return false;
        }
        if !text_equal(&self.id, &other.id) {
            return false;
        }
        if !text_equal(&self.name, &other.name) {
            return false;
        }
        if !self.meta_data.equals(&other.meta_data) {
            return false;
        }
        let same_usage = match (&self.usage, &other.usage) {
            (Some(x), Some(y)) => x.equals(y),
            (None, None) => true,
            _ => false,
        };
        if !same_usage {
            return false;
        }
        match (&self.reranking_score, &other.reranking_score) {
            (Some(x), Some(y)) => x.equals(y),
            (None, None) => true,
            _ => false,
        }
    }
}

impl Clone for Document {
    fn clone(&self) -> (r: Self)
        ensures
            r@ == self@,
    {
        Document {
            content: self.content.clone(),
            id: text_clone(&self.id),
            name: text_clone(&self.name),
            meta_data: self.meta_data.clone(),
            usage: match &self.usage {
                Some(usage) => Some(usage.clone()),
                None => None,
            },
            reranking_score: match &self.reranking_score {
                Some(score) => Some(score.clone()),
                None => None,
            },
        }
    }
}

impl PartialEq for Document {
    fn eq(&self, other: &Self) -> (r: bool) {
        self.equals(other)
    }
}

impl PartialEqSpecImpl for Document {
    open spec fn obeys_eq_spec() -> bool {
        true
    }

    open spec fn eq_spec(&self, other: &Self) -> bool {
        document_equal(self@, other@)
    }
}

} // verus!
