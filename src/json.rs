//! A JSON document tree with a mathematical view, and parsing of bytes into it.
use serde_json::Value;
use vstd::prelude::*;

verus! {

/// A JSON number as the parser classified it.
#[derive(Clone, Debug, PartialEq)]
pub enum JsonNumber {
    /// A non-negative integer.
    Unsigned(u64),
    /// A negative integer.
    Signed(i64),
    /// Any other number, in the parser's canonical decimal rendering.
    Decimal(String),
}

/// The mathematical value of a [`JsonNumber`].
pub enum NumberV {
    Unsigned(nat),
    Signed(int),
    Decimal(Seq<char>),
}

impl View for JsonNumber {
    type V = NumberV;

    open spec fn view(&self) -> NumberV {
        match self {
            JsonNumber::Unsigned(u) => NumberV::Unsigned(*u as nat),
            JsonNumber::Signed(i) => NumberV::Signed(*i as int),
            JsonNumber::Decimal(s) => NumberV::Decimal(s@),
        }
    }
}

/// A JSON document.
#[derive(Debug)]
pub enum Json {
    Null,
    Bool(bool),
    Number(JsonNumber),
    Str(String),
    Array(Vec<Json>),
    Object(Vec<(String, Json)>),
}

/// The mathematical value of a [`Json`] document.
pub enum JsonV {
    Null,
    Bool(bool),
    Number(NumberV),
    Str(Seq<char>),
    Array(Seq<JsonV>),
    Object(Seq<(Seq<char>, JsonV)>),
}

impl View for Json {
    type V = JsonV;

    open spec fn view(&self) -> JsonV
        decreases self, 0nat,
    {
        match self {
            Json::Null => JsonV::Null,
            Json::Bool(b) => JsonV::Bool(*b),
            Json::Number(n) => JsonV::Number(n@),
            Json::Str(s) => JsonV::Str(s@),
            Json::Array(items) => JsonV::Array(items_view(items@, 0)),
            Json::Object(fields) => JsonV::Object(fields_view(fields@, 0)),
        }
    }
}

/// The views of `items`, from position `i` on.
pub open spec fn items_view(items: Seq<Json>, i: int) -> Seq<JsonV>
    decreases items, items.len() - i,
{
    if 0 <= i < items.len() {
        seq![items[i].view()] + items_view(items, i + 1)
    } else {
        Seq::empty()
    }
}

/// The views of the fields of an object, from position `i` on.
pub open spec fn fields_view(fields: Seq<(String, Json)>, i: int) -> Seq<(Seq<char>, JsonV)>
    decreases fields, fields.len() - i,
{
    if 0 <= i < fields.len() {
        seq![(fields[i].0@, fields[i].1.view())] + fields_view(fields, i + 1)
    } else {
        Seq::empty()
    }
}

/// [`items_view`] has one view per item, in order.
pub proof fn lemma_items_view(items: Seq<Json>, i: int)
    requires
        0 <= i <= items.len(),
    ensures
        items_view(items, i).len() == items.len() - i,
        forall|k: int| i <= k < items.len() ==> #[trigger] items_view(items, i)[k - i] == items[k]@,
    decreases items.len() - i,
{
    if i < items.len() {
        lemma_items_view(items, i + 1);
        let rest = items_view(items, i + 1);
        assert(items_view(items, i) == seq![items[i].view()] + rest);
        assert forall|k: int| i <= k < items.len() implies #[trigger] items_view(items, i)[k - i]
            == items[k]@ by {
            if k > i {
                assert(items_view(items, i)[k - i] == rest[k - (i + 1)]);
            }
        }
    } else {
        assert(items_view(items, i) == Seq::<JsonV>::empty());
    }
}

/// [`fields_view`] has one view per field, in order.
pub proof fn lemma_fields_view(fields: Seq<(String, Json)>, i: int)
    requires
        0 <= i <= fields.len(),
    ensures
        fields_view(fields, i).len() == fields.len() - i,
        forall|k: int|
            i <= k < fields.len() ==> #[trigger] fields_view(fields, i)[k - i] == (
                fields[k].0@,
                fields[k].1@,
            ),
    decreases fields.len() - i,
{
    if i < fields.len() {
        lemma_fields_view(fields, i + 1);
        let rest = fields_view(fields, i + 1);
        assert(fields_view(fields, i) == seq![(fields[i].0@, fields[i].1.view())] + rest);
        assert forall|k: int| i <= k < fields.len() implies #[trigger] fields_view(fields, i)[k
            - i] == (fields[k].0@, fields[k].1@) by {
            if k > i {
                assert(fields_view(fields, i)[k - i] == rest[k - (i + 1)]);
            }
        }
    } else {
        assert(fields_view(fields, i) == Seq::<(Seq<char>, JsonV)>::empty());
    }
}

/// The value stored under `key` in the fields of an object, searching from position `i`;
/// the first matching field wins.
pub open spec fn find_from(fields: Seq<(Seq<char>, JsonV)>, key: Seq<char>, i: int) -> Option<JsonV>
    decreases fields.len() - i,
{
    if i < 0 || i >= fields.len() {
        None
    } else if fields[i].0 == key {
        Some(fields[i].1)
    } else {
        find_from(fields, key, i + 1)
    }
}

/// The member `key` of a JSON object; `None` when `j` is not an object or lacks the key.
pub open spec fn member(j: JsonV, key: Seq<char>) -> Option<JsonV> {
    match j {
        JsonV::Object(fields) => find_from(fields, key, 0),
        _ => None,
    }
}

/// The document that the bytes hold as JSON text, or `None` when they are no JSON text.
pub uninterp spec fn json_of(bytes: Seq<u8>) -> Option<JsonV>;

/// serde_json's parsed document, which only passes through [`parse_json`].
#[verifier::external_type_specification]
#[verifier::external_body]
pub struct ExJsonValue(serde_json::Value);

/// Relies on `str`'s `==`: two string slices are equal exactly when they hold the same characters.
#[verifier::external_body]
fn text_eq(a: &str, b: &str) -> (r: bool)
    ensures
        r == (a@ == b@),
{
    a == b
}

/// Relies on the variants of serde_json's `Value` and on `Number::as_u64`, `Number::as_i64`
/// and `Number`'s `Display`: copies a parsed document into a [`Json`] tree.
#[verifier::external_body]
fn json_from_value(v: &Value) -> Json {
    match v {
        Value::Null => Json::Null,
        Value::Bool(b) => Json::Bool(*b),
        Value::Number(n) => Json::Number(match (n.as_u64(), n.as_i64()) {
            (Some(u), _) => JsonNumber::Unsigned(u),
            (None, Some(i)) => JsonNumber::Signed(i),
            (None, None) => JsonNumber::Decimal(n.to_string()),
        }),
        Value::String(s) => Json::Str(s.clone()),
        Value::Array(a) => Json::Array(a.iter().map(json_from_value).collect()),
        Value::Object(m) => Json::Object(
            m.iter().map(|(k, x)| (k.clone(), json_from_value(x))).collect(),
        ),
    }
}

/// Relies on `serde_json::from_slice`: reads the bytes as one JSON document. The outcome
/// depends on the bytes alone.
#[verifier::external_body]
pub(crate) fn parse_json(bytes: &[u8]) -> (r: Option<Json>)
    ensures
        match r {
            Some(j) => json_of(bytes@) == Some(j@),
            None => json_of(bytes@) is None,
        },
{
    match serde_json::from_slice::<serde_json::Value>(bytes) {
        Ok(v) => Some(json_from_value(&v)),
        Err(_) => None,
    }
}

impl JsonNumber {
    /// A copy of this number.
    pub fn copied(&self) -> (r: JsonNumber)
        ensures
            r@ == self@,
    {
        match self {
            JsonNumber::Unsigned(u) => JsonNumber::Unsigned(*u),
            JsonNumber::Signed(i) => JsonNumber::Signed(*i),
            JsonNumber::Decimal(s) => JsonNumber::Decimal(s.clone()),
        }
    }
}

impl Json {
    /// The member `key` of this document, when it is an object that has one.
    pub fn member(&self, key: &str) -> (r: Option<&Json>)
        ensures
            match r {
                Some(v) => member(self@, key@) == Some(v@),
                None => member(self@, key@) is None,
            },
    {
        match self {
            Json::Object(fields) => {
                proof {
                    lemma_fields_view(fields@, 0);
                    assert(self@ == JsonV::Object(fields_view(fields@, 0)));
                    assert forall|k: int| 0 <= k < fields.len() implies #[trigger] self@->Object_0[k]
                        == (fields[k].0@, fields[k].1@) by {
                        assert(fields_view(fields@, 0)[k - 0] == (fields@[k].0@, fields@[k].1@));
                    }
                }
                let mut i: usize = 0;
                while i < fields.len()
                    invariant
                        0 <= i <= fields.len(),
                        self@ is Object,
                        self@->Object_0.len() == fields.len(),
                        forall|k: int|
                            0 <= k < fields.len() ==> #[trigger] self@->Object_0[k] == (
                                fields[k].0@,
                                fields[k].1@,
                            ),
                        member(self@, key@) == find_from(self@->Object_0, key@, i as int),
                    decreases fields.len() - i,
                {
                    if text_eq(fields[i].0.as_str(), key) {
                        return Some(&fields[i].1);
                    }
                    i = i + 1;
                }
                None
            },
            _ => None,
        }
    }
}

} // verus!
