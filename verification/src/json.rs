//! JSON values as plain data, together with the mathematical model that the
//! contracts of this crate are stated over.

use crate::bridge::{
    float_bits_of, number_clone, number_eq, number_from_i64, number_from_u64, number_of_text,
    number_parse, number_spec, number_to_float,
};
use vstd::prelude::*;
use vstd::std_specs::cmp::PartialEqSpecImpl;

verus! {

/// What a JSON number is: a non-negative integer, a negative integer, or a
/// finite binary floating-point number given by its 64 bits.
pub ghost enum NumberSpec {
    PosInt(u64),
    NegInt(i64),
    Float(u64),
}

/// What a JSON value is.
pub ghost enum JsonSpec {
    Null,
    Bool(bool),
    Number(NumberSpec),
    String(Seq<char>),
    Array(Seq<JsonSpec>),
    Object(Map<Seq<char>, JsonSpec>),
}

/// Both bit patterns denote zero (positive or negative).
pub open spec fn is_zero_bits(bits: u64) -> bool {
    bits == 0 || bits == 0x8000_0000_0000_0000
}

/// Numeric equality of two finite floats given by their bits: the same bits,
/// or both zero.
pub open spec fn float_equal(a: u64, b: u64) -> bool {
    a == b || (is_zero_bits(a) && is_zero_bits(b))
}

/// Numeric equality of two JSON numbers. Integers are equal when they are the
/// same integer, floats when they are numerically equal; an integer never
/// equals a float.
pub open spec fn number_equal(a: NumberSpec, b: NumberSpec) -> bool {
    match (a, b) {
        (NumberSpec::PosInt(x), NumberSpec::PosInt(y)) => x == y,
        (NumberSpec::NegInt(x), NumberSpec::NegInt(y)) => x == y,
        (NumberSpec::Float(x), NumberSpec::Float(y)) => float_equal(x, y),
        _ => false,
    }
}

/// The bits of a number taken as a float: those of a float as they are, those
/// of an integer after conversion.
pub open spec fn as_float_bits(n: NumberSpec) -> u64 {
    match n {
        NumberSpec::Float(bits) => bits,
        _ => float_bits_of(n),
    }
}

/// Value equality of two JSON values: numbers compare numerically, arrays
/// element by element, objects key by key.
pub open spec fn json_equal(a: JsonSpec, b: JsonSpec) -> bool
    decreases a,
{
    match a {
        JsonSpec::Null => b is Null,
        JsonSpec::Bool(x) => b == a,
        JsonSpec::Number(x) => b is Number && number_equal(x, b->Number_0),
        JsonSpec::String(s) => b == a,
        JsonSpec::Array(xs) => {
            &&& b is Array
            &&& xs.len() == b->Array_0.len()
            &&& forall|i: int| 0 <= i < xs.len() ==> json_equal(#[trigger] xs[i], b->Array_0[i])
        },
        JsonSpec::Object(m) => b is Object && object_equal(m, b->Object_0),
    }
}

/// Value equality of two JSON objects: the same keys, and equal values under
/// each key.
pub open spec fn object_equal(a: Map<Seq<char>, JsonSpec>, b: Map<Seq<char>, JsonSpec>) -> bool
    decreases a,
{
    &&& a.dom() =~= b.dom()
    &&& a.dom().finite() ==> forall|k: Seq<char>| #[trigger]
        a.dom().contains(k) ==> json_equal(a[k], b[k])
}

/// Every JSON value equals itself.
pub proof fn lemma_json_equal_reflexive(a: JsonSpec)
    ensures
        json_equal(a, a),
    decreases a,
{
    match a {
        JsonSpec::Array(xs) => {
            assert forall|i: int| 0 <= i < xs.len() implies json_equal(#[trigger] xs[i], xs[i]) by {
                lemma_json_equal_reflexive(xs[i]);
            }
        },
        JsonSpec::Object(m) => {
            lemma_object_equal_reflexive(m);
        },
        _ => {},
    }
}

/// Every JSON object equals itself.
pub proof fn lemma_object_equal_reflexive(m: Map<Seq<char>, JsonSpec>)
    ensures
        object_equal(m, m),
    decreases m,
{
    if m.dom().finite() {
        assert forall|k: Seq<char>| #[trigger] m.dom().contains(k) implies json_equal(
            m[k],
            m[k],
        ) by {
            lemma_json_equal_reflexive(m[k]);
        }
    }
}

/// Value equality of JSON values works both ways.
pub proof fn lemma_json_equal_symmetric(a: JsonSpec, b: JsonSpec)
    requires
        json_equal(a, b),
    ensures
        json_equal(b, a),
    decreases a,
{
    match a {
        JsonSpec::Array(xs) => {
            let ys = b->Array_0;
            assert forall|i: int| 0 <= i < ys.len() implies json_equal(#[trigger] ys[i], xs[i]) by {
                assert(json_equal(xs[i], ys[i]));
                lemma_json_equal_symmetric(xs[i], ys[i]);
            }
        },
        JsonSpec::Object(m) => {
            lemma_object_equal_symmetric(m, b->Object_0);
        },
        _ => {},
    }
}

/// Value equality of JSON objects works both ways.
pub proof fn lemma_object_equal_symmetric(a: Map<Seq<char>, JsonSpec>, b: Map<Seq<char>, JsonSpec>)
    requires
        object_equal(a, b),
    ensures
        object_equal(b, a),
    decreases a,
{
    if a.dom().finite() {
        assert forall|k: Seq<char>| #[trigger] b.dom().contains(k) implies json_equal(
            b[k],
            a[k],
        ) by {
            assert(a.dom().contains(k));
            lemma_json_equal_symmetric(a[k], b[k]);
        }
    }
}

/// Value equality of JSON values carries over a middle value.
pub proof fn lemma_json_equal_transitive(a: JsonSpec, b: JsonSpec, c: JsonSpec)
    requires
        json_equal(a, b),
        json_equal(b, c),
    ensures
        json_equal(a, c),
    decreases a,
{
    match a {
        JsonSpec::Array(xs) => {
            let ys = b->Array_0;
            let zs = c->Array_0;
            assert forall|i: int| 0 <= i < xs.len() implies json_equal(#[trigger] xs[i], zs[i]) by {
                assert(json_equal(xs[i], ys[i]));
                assert(json_equal(ys[i], zs[i]));
                lemma_json_equal_transitive(xs[i], ys[i], zs[i]);
            }
        },
        JsonSpec::Object(m) => {
            lemma_object_equal_transitive(m, b->Object_0, c->Object_0);
        },
        _ => {},
    }
}

/// Value equality of JSON objects carries over a middle object.
pub proof fn lemma_object_equal_transitive(
    a: Map<Seq<char>, JsonSpec>,
    b: Map<Seq<char>, JsonSpec>,
    c: Map<Seq<char>, JsonSpec>,
)
    requires
        object_equal(a, b),
        object_equal(b, c),
    ensures
        object_equal(a, c),
    decreases a,
{
    if a.dom().finite() {
        assert forall|k: Seq<char>| #[trigger] a.dom().contains(k) implies json_equal(
            a[k],
            c[k],
        ) by {
            assert(b.dom().contains(k));
            lemma_json_equal_transitive(a[k], b[k], c[k]);
        }
    }
}

/// No key occurs twice among the entries.
pub open spec fn distinct_keys(entries: Seq<(Seq<char>, JsonSpec)>) -> bool {
    forall|i: int, j: int| 0 <= i < j < entries.len() ==> entries[i].0 != entries[j].0
}

/// Some entry has the key.
pub open spec fn has_key(entries: Seq<(Seq<char>, JsonSpec)>, key: Seq<char>) -> bool {
    exists|i: int| 0 <= i < entries.len() && (#[trigger] entries[i]).0 == key
}

/// The mapping that a list of entries denotes: each key to its value, a later
/// entry replacing an earlier one with the same key.
pub open spec fn entries_map(entries: Seq<(Seq<char>, JsonSpec)>) -> Map<Seq<char>, JsonSpec>
    decreases entries.len(),
{
    if entries.len() == 0 {
        Map::empty()
    } else {
        entries_map(entries.drop_last()).insert(entries.last().0, entries.last().1)
    }
}

/// The mapping of a list of entries has exactly the entries' keys, finitely
/// many.
pub proof fn lemma_entries_map_dom(entries: Seq<(Seq<char>, JsonSpec)>)
    ensures
        entries_map(entries).dom().finite(),
        forall|k: Seq<char>| entries_map(entries).dom().contains(k) <==> has_key(entries, k),
    decreases entries.len(),
{
    if entries.len() > 0 {
        let front = entries.drop_last();
        lemma_entries_map_dom(front);
        assert forall|k: Seq<char>| entries_map(entries).dom().contains(k) <==> has_key(
            entries,
            k,
        ) by {
            if has_key(entries, k) {
                let i = choose|i: int| 0 <= i < entries.len() && (#[trigger] entries[i]).0 == k;
                if i < front.len() {
                    assert(front[i].0 == k);
                }
            }
            if has_key(front, k) {
                let i = choose|i: int| 0 <= i < front.len() && (#[trigger] front[i]).0 == k;
                assert(entries[i].0 == k);
            }
            if k == entries.last().0 {
                assert(entries[entries.len() - 1].0 == k);
            }
        }
    }
}

/// With distinct keys, the mapping sends each entry's key to that entry's
/// value, and has as many keys as there are entries.
pub proof fn lemma_entries_map_index(entries: Seq<(Seq<char>, JsonSpec)>)
    requires
        distinct_keys(entries),
    ensures
        forall|i: int|
            0 <= i < entries.len() ==> entries_map(entries)[(#[trigger] entries[i]).0]
                == entries[i].1,
        entries_map(entries).dom().len() == entries.len(),
    decreases entries.len(),
{
    if entries.len() > 0 {
        let front = entries.drop_last();
        assert(distinct_keys(front)) by {
            assert forall|i: int, j: int| 0 <= i < j < front.len() implies front[i].0
                != front[j].0 by {
                assert(entries[i].0 != entries[j].0);
            }
        }
        lemma_entries_map_index(front);
        lemma_entries_map_dom(front);
        assert(!has_key(front, entries.last().0)) by {
            if has_key(front, entries.last().0) {
                let i = choose|i: int|
                    0 <= i < front.len() && (#[trigger] front[i]).0 == entries.last().0;
                assert(entries[i].0 != entries[entries.len() - 1].0);
            }
        }
        assert forall|i: int| 0 <= i < entries.len() implies entries_map(
            entries,
        )[(#[trigger] entries[i]).0] == entries[i].1 by {
            if i < front.len() {
                assert(front[i].0 == entries[i].0);
                assert(entries[i].0 != entries[entries.len() - 1].0);
            }
        }
    }
}

/// Whether two texts are the same.
pub fn str_eq(a: &str, b: &str) -> (r: bool)
    ensures
        r == (a@ == b@),
{
    a.to_owned() == b.to_owned()
}

/// A JSON number. It holds what `serde_json` holds for a number, so that it
/// prints and compares as one.
#[derive(Debug)]
pub struct JsonNumber {
    inner: serde_json::Number,
}

impl View for JsonNumber {
    type V = NumberSpec;

    closed spec fn view(&self) -> NumberSpec {
        number_spec(self.inner)
    }
}

impl JsonNumber {
    /// The non-negative integer `n`.
    pub fn from_u64(n: u64) -> (r: Self)
        ensures
            r@ == NumberSpec::PosInt(n),
    {
        JsonNumber { inner: number_from_u64(n) }
    }

    /// The integer `n`.
    pub fn from_i64(n: i64) -> (r: Self)
        ensures
            n < 0 ==> r@ == NumberSpec::NegInt(n),
            n >= 0 ==> r@ == NumberSpec::PosInt(n as u64),
    {
        JsonNumber { inner: number_from_i64(n) }
    }

    /// Reads a number from its JSON text, such as `12`, `-3` or `0.95`.
    pub fn parse(text: &str) -> (r: Option<Self>)
        ensures
            match r {
                Some(n) => number_of_text(text@) == Some(n@),
                None => number_of_text(text@) is None,
            },
    {
        match number_parse(text) {
            Some(inner) => Some(JsonNumber { inner }),
            None => None,
        }
    }

    /// The same number as a float: a float stays as it is, an integer is
    /// converted.
    pub fn to_float(&self) -> (r: Self)
        ensures
            r@ == NumberSpec::Float(as_float_bits(self@)),
    {
        JsonNumber { inner: number_to_float(&self.inner).unwrap() }
    }

    /// Numeric equality.
    pub fn equals(&self, other: &JsonNumber) -> (r: bool)
        ensures
            r == number_equal(self@, other@),
    {
        number_eq(&self.inner, &other.inner)
    }

    pub(crate) fn from_inner(inner: serde_json::Number) -> (r: Self)
        ensures
            r@ == number_spec(inner),
    {
        JsonNumber { inner }
    }

    pub(crate) fn inner(&self) -> (r: &serde_json::Number)
        ensures
            number_spec(*r) == self@,
    {
        &self.inner
    }
}

impl PartialEq for JsonNumber {
    fn eq(&self, other: &Self) -> (r: bool) {
        self.equals(other)
    }
}

impl PartialEqSpecImpl for JsonNumber {
    open spec fn obeys_eq_spec() -> bool {
        true
    }

    open spec fn eq_spec(&self, other: &Self) -> bool {
        number_equal(self@, other@)
    }
}

impl Clone for JsonNumber {
    fn clone(&self) -> (r: Self)
        ensures
            r@ == self@,
    {
        JsonNumber { inner: number_clone(&self.inner) }
    }
}

/// A JSON value.
#[derive(Debug)]
pub enum JsonValue {
    Null,
    Bool(bool),
    Number(JsonNumber),
    String(String),
    Array(Vec<JsonValue>),
    Object(JsonMap),
}

/// A JSON object: a mapping from keys to values. Each key occurs once.
#[derive(Debug)]
pub struct JsonMap {
    entries: Vec<(String, JsonValue)>,
}

impl View for JsonValue {
    type V = JsonSpec;

    open spec fn view(&self) -> JsonSpec
        decreases self,
    {
        match self {
            JsonValue::Null => JsonSpec::Null,
            JsonValue::Bool(b) => JsonSpec::Bool(*b),
            JsonValue::Number(n) => JsonSpec::Number(n@),
            JsonValue::String(s) => JsonSpec::String(s@),
            JsonValue::Array(items) => JsonSpec::Array(values_view(items@)),
            JsonValue::Object(m) => JsonSpec::Object(m@),
        }
    }
}

impl JsonValue {
    /// Value equality: numbers compare numerically, arrays element by
    /// element, objects key by key.
    pub fn equals(&self, other: &JsonValue) -> (r: bool)
        ensures
            r == json_equal(self@, other@),
        decreases self,
    {
        match (self, other) {
            (JsonValue::Null, JsonValue::Null) => true,
            (JsonValue::Bool(a), JsonValue::Bool(b)) => *a == *b,
            (JsonValue::Number(a), JsonValue::Number(b)) => a.equals(b),
            (JsonValue::String(a), JsonValue::String(b)) => str_eq(a.as_str(), b.as_str()),
            (JsonValue::Array(a), JsonValue::Array(b)) => {
                assert(self@ == JsonSpec::Array(values_view(a@)));
                assert(other@ == JsonSpec::Array(values_view(b@)));
                if a.len() != b.len() {
                    return false;
                }
                let mut i: usize = 0;
                while i < a.len()
                    invariant
                        i <= a@.len(),
                        a@.len() == b@.len(),
                        *self == JsonValue::Array(*a),
                        self@ == JsonSpec::Array(values_view(a@)),
                        other@ == JsonSpec::Array(values_view(b@)),
                        forall|j: int| 0 <= j < i ==> json_equal((#[trigger] a@[j])@, b@[j]@),
                    decreases a@.len() - i,
                {
                    proof {
                        vstd::std_specs::vec::axiom_vec_index_decreases(*a, i as int);
                    }
                    if !a[i].equals(&b[i]) {
                        assert(!json_equal(values_view(a@)[i as int], values_view(b@)[i as int]));
                        return false;
                    }
                    i += 1;
                }
                assert forall|j: int| 0 <= j < a@.len() implies json_equal(
                    #[trigger] values_view(a@)[j],
                    values_view(b@)[j],
                ) by {
                    assert(json_equal(a@[j]@, b@[j]@));
                }
                true
            },
            (JsonValue::Object(a), JsonValue::Object(b)) => a.equals(b),
            _ => false,
        }
    }
}

impl JsonValue {
    fn duplicate(&self) -> (r: Self)
        ensures
            r@ == self@,
        decreases self,
    {
        match self {
            JsonValue::Null => JsonValue::Null,
            JsonValue::Bool(b) => JsonValue::Bool(*b),
            JsonValue::Number(n) => JsonValue::Number(n.clone()),
            JsonValue::String(s) => JsonValue::String(s.clone()),
            JsonValue::Array(items) => {
                let mut copies: Vec<JsonValue> = Vec::new();
                let mut i: usize = 0;
                assert forall|j: int| 0 <= j < items@.len() implies decreases_to!(*self => #[trigger] items@[j]) by {
                    vstd::std_specs::vec::axiom_vec_index_decreases(*items, j);
                }
                while i < items.len()
                    invariant
                        i <= items@.len(),
                        forall|j: int| 0 <= j < items@.len() ==> decreases_to!(*self => #[trigger] items@[j]),
                        copies@.len() == i,
                        forall|j: int| 0 <= j < i ==> (#[trigger] copies@[j])@ == items@[j]@,
                    decreases items@.len() - i,
                {
                    copies.push(items[i].duplicate());
                    i += 1;
                }
                assert(values_view(copies@) =~= values_view(items@));
                JsonValue::Array(copies)
            },
            JsonValue::Object(m) => JsonValue::Object(m.duplicate()),
        }
    }
}

impl JsonMap {
    fn duplicate(&self) -> (r: Self)
        ensures
            r@ == self@,
        decreases self,
    {
        proof {
            use_type_invariant(self);
        }
        let mut copies: Vec<(String, JsonValue)> = Vec::new();
        let mut i: usize = 0;
        while i < self.entries.len()
            invariant
                i <= self.entries@.len(),
                copies@.len() == i,
                forall|j: int|
                    0 <= j < i ==> (#[trigger] copies@[j]).0@ == self.entries@[j].0@
                        && copies@[j].1@ == self.entries@[j].1@,
            decreases self.entries@.len() - i,
        {
            proof {
                vstd::std_specs::vec::axiom_vec_index_decreases(self.entries, i as int);
            }
            copies.push((self.entries[i].0.clone(), self.entries[i].1.duplicate()));
            i += 1;
        }
        assert(entries_view(copies@) =~= entries_view(self.entries@));
        JsonMap { entries: copies }
    }
}

impl Clone for JsonValue {
    fn clone(&self) -> (r: Self)
        ensures
            r@ == self@,
    {
        self.duplicate()
    }
}

impl Clone for JsonMap {
    fn clone(&self) -> (r: Self)
        ensures
            r@ == self@,
    {
        self.duplicate()
    }
}

impl PartialEq for JsonValue {
    fn eq(&self, other: &Self) -> (r: bool) {
        self.equals(other)
    }
}

impl PartialEqSpecImpl for JsonValue {
    open spec fn obeys_eq_spec() -> bool {
        true
    }

    open spec fn eq_spec(&self, other: &Self) -> bool {
        json_equal(self@, other@)
    }
}

impl PartialEq for JsonMap {
    fn eq(&self, other: &Self) -> (r: bool) {
        self.equals(other)
    }
}

impl PartialEqSpecImpl for JsonMap {
    open spec fn obeys_eq_spec() -> bool {
        true
    }

    open spec fn eq_spec(&self, other: &Self) -> bool {
        object_equal(self@, other@)
    }
}

/// The views of a list of values, in order.
pub open spec fn values_view(items: Seq<JsonValue>) -> Seq<JsonSpec>
    decreases items,
{
    Seq::new(
        items.len(),
        |i: int|
            if 0 <= i < items.len() {
                items[i]@
            } else {
                JsonSpec::Null
            },
    )
}

impl View for JsonMap {
    type V = Map<Seq<char>, JsonSpec>;

    closed spec fn view(&self) -> Map<Seq<char>, JsonSpec>
        decreases self,
    {
        entries_map(entries_view(self.entries@))
    }
}

/// The views of a list of keyed values, in order.
pub open spec fn entries_view(entries: Seq<(String, JsonValue)>) -> Seq<(Seq<char>, JsonSpec)>
    decreases entries,
{
    Seq::new(
        entries.len(),
        |i: int|
            if 0 <= i < entries.len() {
                (entries[i].0@, entries[i].1@)
            } else {
                (Seq::empty(), JsonSpec::Null)
            },
    )
}

impl JsonMap {
    /// The entries in the order in which they are stored.
    pub closed spec fn spec_entries(self) -> Seq<(Seq<char>, JsonSpec)> {
        entries_view(self.entries@)
    }

    #[verifier::type_invariant]
    spec fn keys_are_distinct(self) -> bool {
        forall|i: int, j: int|
            0 <= i < j < self.entries@.len() ==> self.entries@[i].0@ != self.entries@[j].0@
    }

    /// What the invariant gives: the keys of the stored entries are the
    /// object's keys, and each is mapped to its entry's value.
    proof fn lemma_view(self)
        requires
            self.keys_are_distinct(),
        ensures
            distinct_keys(self.spec_entries()),
            self.spec_entries().len() == self.entries@.len(),
            forall|i: int|
                0 <= i < self.entries@.len() ==> #[trigger] self.spec_entries()[i] == (
                    self.entries@[i].0@,
                    self.entries@[i].1@,
                ),
            self@.dom().finite(),
            self@.dom().len() == self.entries@.len(),
            forall|k: Seq<char>| self@.dom().contains(k) <==> has_key(self.spec_entries(), k),
            forall|i: int|
                0 <= i < self.entries@.len() ==> self@.dom().contains(
                    (#[trigger] self.entries@[i]).0@,
                ) && self@[self.entries@[i].0@] == self.entries@[i].1@,
    {
        let entries = self.spec_entries();
        assert(distinct_keys(entries)) by {
            assert forall|i: int, j: int| 0 <= i < j < entries.len() implies entries[i].0
                != entries[j].0 by {
                assert(self.entries@[i].0@ != self.entries@[j].0@);
            }
        }
        lemma_entries_map_dom(entries);
        lemma_entries_map_index(entries);
        assert forall|i: int| 0 <= i < self.entries@.len() implies self@.dom().contains(
            (#[trigger] self.entries@[i]).0@,
        ) && self@[self.entries@[i].0@] == self.entries@[i].1@ by {
            assert(entries[i] == (self.entries@[i].0@, self.entries@[i].1@));
            assert(has_key(entries, self.entries@[i].0@));
        }
    }

    /// No stored entry has the key, so the object does not have it.
    proof fn lemma_absent(self, key: Seq<char>)
        requires
            self.keys_are_distinct(),
            forall|i: int| 0 <= i < self.entries@.len() ==> self.entries@[i].0@ != key,
        ensures
            !self@.contains_key(key),
    {
        self.lemma_view();
        if has_key(self.spec_entries(), key) {
            let i = choose|i: int|
                0 <= i < self.spec_entries().len() && (#[trigger] self.spec_entries()[i]).0 == key;
            assert(self.entries@[i].0@ != key);
        }
    }

    /// The stored entries. Their keys are distinct, and the object maps
    /// each key to its entry's value.
    pub(crate) fn entries(&self) -> (r: &Vec<(String, JsonValue)>)
        ensures
            distinct_keys(entries_view(r@)),
            self@ == entries_map(entries_view(r@)),
            self@.dom().finite(),
            forall|i: int|
                0 <= i < r@.len() ==> self@.contains_key((#[trigger] r@[i]).0@) && self@[r@[i].0@]
                    == r@[i].1@,
            forall|k: Seq<char>| #[trigger]
                self@.dom().contains(k) ==> has_key(entries_view(r@), k),
            forall|i: int| 0 <= i < r@.len() ==> decreases_to!(*self => (#[trigger] r@[i]).1),
    {
        proof {
            use_type_invariant(self);
            self.lemma_view();
            assert forall|i: int| 0 <= i < self.entries@.len() implies decreases_to!(*self => (#[trigger] self.entries@[i]).1) by {
                vstd::std_specs::vec::axiom_vec_index_decreases(self.entries, i);
            }
        }
        &self.entries
    }

    /// The object with the given entries.
    pub(crate) fn from_entries(entries: Vec<(String, JsonValue)>) -> (r: Self)
        requires
            distinct_keys(entries_view(entries@)),
        ensures
            r@ == entries_map(entries_view(entries@)),
    {
        assert forall|i: int, j: int| 0 <= i < j < entries@.len() implies entries@[i].0@
            != entries@[j].0@ by {
            assert(entries_view(entries@)[i].0 != entries_view(entries@)[j].0);
        }
        JsonMap { entries }
    }

    /// The empty object.
    pub fn new() -> (r: Self)
        ensures
            r@ == Map::<Seq<char>, JsonSpec>::empty(),
    {
        JsonMap { entries: Vec::new() }
    }

    /// The number of keys.
    pub fn len(&self) -> (r: usize)
        ensures
            r == self@.dom().len(),
            self@.dom().finite(),
    {
        proof {
            use_type_invariant(self);
            self.lemma_view();
        }
        self.entries.len()
    }

    /// Whether the object has no key.
    pub fn is_empty(&self) -> (r: bool)
        ensures
            r == (self@ == Map::<Seq<char>, JsonSpec>::empty()),
    {
        proof {
            use_type_invariant(self);
            self.lemma_view();
            if self.entries@.len() == 0 {
                assert(self@ =~= Map::<Seq<char>, JsonSpec>::empty());
            }
        }
        self.entries.len() == 0
    }

    fn position(&self, key: &str) -> (r: Option<usize>)
        ensures
            match r {
                Some(i) => i < self.entries@.len() && self.entries@[i as int].0@ == key@,
                None => forall|i: int|
                    0 <= i < self.entries@.len() ==> self.entries@[i].0@ != key@,
            },
    {
        let mut i: usize = 0;
        while i < self.entries.len()
            invariant
                i <= self.entries@.len(),
                forall|j: int| 0 <= j < i ==> self.entries@[j].0@ != key@,
            decreases self.entries@.len() - i,
        {
            if str_eq(self.entries[i].0.as_str(), key) {
                return Some(i);
            }
            i += 1;
        }
        None
    }

    /// The keys, each once.
    pub fn keys(&self) -> (r: Vec<String>)
        ensures
            r@.len() == self@.dom().len(),
            forall|i: int| 0 <= i < r@.len() ==> self@.contains_key(#[trigger] r@[i]@),
            forall|i: int, j: int| 0 <= i < j < r@.len() ==> r@[i]@ != r@[j]@,
            forall|k: Seq<char>| #[trigger]
                self@.dom().contains(k) ==> exists|i: int| 0 <= i < r@.len() && #[trigger] r@[i]@ == k,
    {
        proof {
            use_type_invariant(self);
            self.lemma_view();
        }
        let mut keys: Vec<String> = Vec::new();
        let mut i: usize = 0;
        while i < self.entries.len()
            invariant
                i <= self.entries@.len(),
                keys@.len() == i,
                forall|j: int| 0 <= j < i ==> (#[trigger] keys@[j])@ == self.entries@[j].0@,
            decreases self.entries@.len() - i,
        {
            keys.push(self.entries[i].0.clone());
            i += 1;
        }
        proof {
            assert forall|k: Seq<char>| #[trigger] self@.dom().contains(k) implies exists|i: int|
                0 <= i < keys@.len() && #[trigger] keys@[i]@ == k by {
                assert(has_key(self.spec_entries(), k));
                let a = choose|a: int|
                    0 <= a < self.spec_entries().len() && (#[trigger] self.spec_entries()[a]).0
                        == k;
                assert(keys@[a]@ == k);
            }
            assert forall|i: int| 0 <= i < keys@.len() implies self@.contains_key(
                #[trigger] keys@[i]@,
            ) by {
                assert(self@.dom().contains(self.entries@[i].0@));
            }
        }
        keys
    }

    /// Whether the object has the key.
    pub fn contains_key(&self, key: &str) -> (r: bool)
        ensures
            r == self@.contains_key(key@),
    {
        proof {
            use_type_invariant(self);
            self.lemma_view();
        }
        match self.position(key) {
            Some(i) => {
                true
            },
            None => {
                proof {
                    self.lemma_absent(key@);
                }
                false
            },
        }
    }

    /// Puts the value under the key, replacing and returning the value that
    /// was there.
    pub fn insert(&mut self, key: String, value: JsonValue) -> (r: Option<JsonValue>)
        ensures
            final(self)@ == old(self)@.insert(key@, value@),
            match r {
                Some(v) => old(self)@.contains_key(key@) && v@ == old(self)@[key@],
                None => !old(self)@.contains_key(key@),
            },
    {
        proof {
            use_type_invariant(&*self);
            self.lemma_view();
        }
        let found = self.position(key.as_str());
        let ghost before = *self;
        let ghost added = (key@, value@);
        let mut entries: Vec<(String, JsonValue)> = Vec::new();
        std::mem::swap(&mut entries, &mut self.entries);
        entries.push((key, value));
        assert(entries_view(entries@) =~= before.spec_entries().push(added));
        assert(before.spec_entries().push(added).drop_last() =~= before.spec_entries());
        match found {
            Some(i) => {
                let removed = entries.swap_remove(i);
                self.entries = entries;
                proof {
                    let now = self.spec_entries();
                    let was = before.spec_entries();
                    assert(now =~= was.update(i as int, added));
                    assert(was[i as int].0 == added.0);
                    let target = was.push(added);
                    assert forall|a: int, b: int| 0 <= a < b < now.len() implies now[a].0
                        != now[b].0 by {
                        assert(was[a].0 != was[b].0);
                    }
                    assert(self.keys_are_distinct()) by {
                        assert forall|a: int, b: int|
                            0 <= a < b < self.entries@.len() implies self.entries@[a].0@
                            != self.entries@[b].0@ by {
                            assert(now[a].0 != now[b].0);
                        }
                    }
                    self.lemma_view();
                    assert(self@ =~= before@.insert(added.0, added.1)) by {
                        assert forall|k: Seq<char>| self@.dom().contains(k) <==> before@.insert(
                            added.0,
                            added.1,
                        ).dom().contains(k) by {
                            if has_key(now, k) {
                                let a = choose|a: int|
                                    0 <= a < now.len() && (#[trigger] now[a]).0 == k;
                                assert(was[a].0 == k);
                            }
                            if has_key(was, k) {
                                let a = choose|a: int|
                                    0 <= a < was.len() && (#[trigger] was[a]).0 == k;
                                assert(now[a].0 == k);
                            }
                            if k == added.0 {
                                assert(now[i as int].0 == k);
                            }
                        }
                        assert forall|k: Seq<char>| self@.dom().contains(k) implies self@[k]
                            == before@.insert(added.0, added.1)[k] by {
                            assert(has_key(now, k));
                            let a = choose|a: int|
                                0 <= a < now.len() && (#[trigger] now[a]).0 == k;
                            assert(self.entries@[a].0@ == k);
                            assert(self@[self.entries@[a].0@] == self.entries@[a].1@);
                            if a != i {
                                assert(before.entries@[a].0@ == k);
                                assert(before@[before.entries@[a].0@] == before.entries@[a].1@);
                                assert(was[a].0 != was[i as int].0);
                            }
                        }
                    }
                    assert(before@[before.entries@[i as int].0@] == before.entries@[i as int].1@);
                }
                Some(removed.1)
            },
            None => {
                self.entries = entries;
                proof {
                    before.lemma_absent(added.0);
                    assert(self.keys_are_distinct());
                }
                None
            },
        }
    }

    /// Value equality: the same keys, and equal values under each key.
    pub fn equals(&self, other: &JsonMap) -> (r: bool)
        ensures
            r == object_equal(self@, other@),
        decreases self,
    {
        proof {
            use_type_invariant(self);
            use_type_invariant(other);
            self.lemma_view();
            other.lemma_view();
        }
        let mut i: usize = 0;
        while i < self.entries.len()
            invariant
                i <= self.entries@.len(),
                self.keys_are_distinct(),
                other.keys_are_distinct(),
                forall|j: int|
                    0 <= j < i ==> other@.contains_key((#[trigger] self.entries@[j]).0@)
                        && json_equal(self.entries@[j].1@, other@[self.entries@[j].0@]),
            decreases self.entries@.len() - i,
        {
            proof {
                self.lemma_view();
            }
            match other.get(self.entries[i].0.as_str()) {
                None => {
                    assert(self@.dom().contains(self.entries@[i as int].0@));
                    return false;
                },
                Some(v) => {
                    if !self.entries[i].1.equals(v) {
                        assert(self@.dom().contains(self.entries@[i as int].0@));
                        return false;
                    }
                },
            }
            i += 1;
        }
        let mut j: usize = 0;
        while j < other.entries.len()
            invariant
                j <= other.entries@.len(),
                self.keys_are_distinct(),
                other.keys_are_distinct(),
                forall|k: int| 0 <= k < j ==> self@.contains_key((#[trigger] other.entries@[k]).0@),
            decreases other.entries@.len() - j,
        {
            proof {
                other.lemma_view();
            }
            if !self.contains_key(other.entries[j].0.as_str()) {
                assert(other@.dom().contains(other.entries@[j as int].0@));
                return false;
            }
            j += 1;
        }
        proof {
            self.lemma_view();
            other.lemma_view();
            assert forall|k: Seq<char>| self@.dom().contains(k) implies other@.dom().contains(k)
                && json_equal(self@[k], other@[k]) by {
                assert(has_key(self.spec_entries(), k));
                let a = choose|a: int|
                    0 <= a < self.spec_entries().len() && (#[trigger] self.spec_entries()[a]).0
                        == k;
                assert(self.entries@[a].0@ == k);
            }
            assert forall|k: Seq<char>| other@.dom().contains(k) implies self@.dom().contains(
                k,
            ) by {
                assert(has_key(other.spec_entries(), k));
                let a = choose|a: int|
                    0 <= a < other.spec_entries().len() && (#[trigger] other.spec_entries()[a]).0
                        == k;
                assert(other.entries@[a].0@ == k);
            }
            assert(self@.dom() =~= other@.dom());
        }
        true
    }

    /// The value under the key, if the object has it.
    pub fn get(&self, key: &str) -> (r: Option<&JsonValue>)
        ensures
            match r {
                Some(v) => self@.contains_key(key@) && v@ == self@[key@],
                None => !self@.contains_key(key@),
            },
    {
        proof {
            use_type_invariant(self);
            self.lemma_view();
        }
        match self.position(key) {
            Some(i) => {
                Some(&self.entries[i].1)
            },
            None => {
                proof {
                    self.lemma_absent(key@);
                }
                None
            },
        }
    }
}

} // verus!
