//! JSON values: what a `serde_json::Value` holds, and the operations of
//! `serde_json` that the library uses, stated over that.
use vstd::prelude::*;

verus! {

/// The outside type of JSON values.
#[verifier::external_type_specification]
#[verifier::external_body]
pub struct ExValue(serde_json::Value);

/// The outside type of JSON objects.
#[verifier::external_type_specification]
#[verifier::external_body]
#[verifier::reject_recursive_types(K)]
#[verifier::reject_recursive_types(V)]
pub struct ExMap<K, V>(serde_json::Map<K, V>);

/// The outside type of serialisation errors.
#[verifier::external_type_specification]
#[verifier::external_body]
pub struct ExError(serde_json::Error);

/// A JSON number, by the form in which it is held.
pub enum Number {
    Unsigned(u64),
    /// Below zero.
    Negative(i64),
    /// The bit pattern of a double.
    Fractional(u64),
}

/// A JSON value as a mathematical tree.
pub enum Json {
    Null,
    Bool(bool),
    Number(Number),
    Text(Seq<char>),
    List(Seq<Json>),
    Object(Map<Seq<char>, Json>),
}

impl Json {
    /// The field `key`, if this is an object that has it.
    pub open spec fn field(self, key: Seq<char>) -> Option<Json> {
        match self {
            Json::Object(fields) => if fields.dom().contains(key) {
                Some(fields[key])
            } else {
                None
            },
            _ => None,
        }
    }

    /// The text of the field `key`, if it is there and is a text.
    pub open spec fn text_field(self, key: Seq<char>) -> Option<Seq<char>> {
        match self.field(key) {
            Some(Json::Text(text)) => Some(text),
            _ => None,
        }
    }

    /// The number in the field `key`, if it is there and is an unsigned number.
    pub open spec fn unsigned_field(self, key: Seq<char>) -> Option<u64> {
        match self.field(key) {
            Some(Json::Number(Number::Unsigned(n))) => Some(n),
            _ => None,
        }
    }

    /// This value with the field `key` set to `value`; only an object changes.
    pub open spec fn with_field(self, key: Seq<char>, value: Json) -> Json {
        match self {
            Json::Object(fields) => Json::Object(fields.insert(key, value)),
            other => other,
        }
    }
}

/// The fields of the empty object.
pub open spec fn no_fields() -> Map<Seq<char>, Json> {
    Map::empty()
}

/// The texts among `items`, in order.
pub open spec fn texts_in(items: Seq<Json>) -> Seq<Seq<char>>
    decreases items.len(),
{
    if items.len() == 0 {
        Seq::empty()
    } else {
        match items.last() {
            Json::Text(text) => texts_in(items.drop_last()).push(text),
            _ => texts_in(items.drop_last()),
        }
    }
}

/// What a JSON value holds.
pub uninterp spec fn content(value: serde_json::Value) -> Json;

/// The fields that a JSON object holds.
pub uninterp spec fn fields(object: serde_json::Map<String, serde_json::Value>) -> Map<
    Seq<char>,
    Json,
>;

/// The bytes that `serde_json::to_vec` writes for a value.
pub uninterp spec fn json_bytes(value: Json) -> Seq<u8>;

/// The contents of a sequence of JSON values.
pub open spec fn contents(values: Seq<serde_json::Value>) -> Seq<Json> {
    Seq::new(values.len(), |i: int| content(values[i]))
}

/// `Value::get` with a string looks the field up in an object; it finds nothing
/// in a value that is no object.
#[verifier::external_body]
pub(crate) fn get<'a>(value: &'a serde_json::Value, key: &str) -> (r: Option<&'a serde_json::Value>)
    ensures
        r is Some <==> content(*value).field(key@) is Some,
        r matches Some(found) ==> content(*value).field(key@) == Some(content(*found)),
{
    value.get(key)
}

/// `Value::as_str` gives the text of a string value, and `None` for any other.
pub assume_specification[ serde_json::Value::as_str ](value: &serde_json::Value) -> (r: Option<&str>)
    ensures
        r is Some <==> content(*value) is Text,
        r matches Some(s) ==> content(*value) == Json::Text(s@),
;

/// `Value::as_u64` gives the number of a value that is held as an unsigned
/// integer, and `None` for any other.
pub assume_specification[ serde_json::Value::as_u64 ](value: &serde_json::Value) -> (r: Option<u64>)
    ensures
        r matches Some(n) ==> content(*value) == Json::Number(Number::Unsigned(n)),
        r is None ==> !(content(*value) matches Json::Number(Number::Unsigned(_))),
;

/// `Value::as_array` gives the items of an array, and `None` for any other
/// value.
pub assume_specification[ serde_json::Value::as_array ](value: &serde_json::Value) -> (r: Option<
    &Vec<serde_json::Value>,
>)
    ensures
        r is Some <==> content(*value) is List,
        r matches Some(items) ==> content(*value) == Json::List(contents(items@)),
;

/// `Value::as_object_mut` opens an object for change: what becomes of the
/// returned fields becomes of the value. Any other value stays as it is.
pub assume_specification[ serde_json::Value::as_object_mut ](
    value: &mut serde_json::Value,
) -> (r: Option<&mut serde_json::Map<String, serde_json::Value>>)
    ensures
        r is Some <==> content(*old(value)) is Object,
        r is None ==> *final(value) == *old(value),
        r matches Some(object) ==> content(*old(value)) == Json::Object(fields(*object)) && content(
            *final(value),
        ) == Json::Object(fields(*final(object))),
;

/// `Map::new` makes an object without fields.
pub assume_specification[ serde_json::Map::<String, serde_json::Value>::new ]() -> (r: serde_json::Map<
    String,
    serde_json::Value,
>)
    ensures
        fields(r) == no_fields(),
;

/// `Map::insert` sets a field and returns the value that it had before, if any.
pub assume_specification[ serde_json::Map::<String, serde_json::Value>::insert ](
    object: &mut serde_json::Map<String, serde_json::Value>,
    k: String,
    v: serde_json::Value,
) -> (r: Option<serde_json::Value>)
    ensures
        fields(*final(object)) == fields(*old(object)).insert(k@, content(v)),
        r is Some <==> fields(*old(object)).dom().contains(k@),
        r matches Some(before) ==> content(before) == fields(*old(object))[k@],
;

/// `Value::String` wraps a text.
#[verifier::external_body]
pub(crate) fn text_value(text: String) -> (r: serde_json::Value)
    ensures
        content(r) == Json::Text(text@),
{
    serde_json::Value::String(text)
}

/// `Value::Array` wraps a list of values.
#[verifier::external_body]
pub(crate) fn list_value(items: Vec<serde_json::Value>) -> (r: serde_json::Value)
    ensures
        content(r) == Json::List(contents(items@)),
{
    serde_json::Value::Array(items)
}

/// `Value::Object` wraps the fields of an object.
#[verifier::external_body]
pub(crate) fn object_value(
    object: serde_json::Map<String, serde_json::Value>,
) -> (r: serde_json::Value)
    ensures
        content(r) == Json::Object(fields(object)),
{
    serde_json::Value::Object(object)
}

/// `serde_json::to_vec` writes a value as JSON text; what it writes depends on
/// what the value holds and on nothing else. It can fail only for a type that
/// refuses to be written, for keys that are no strings, or where the writer fails.
/// A `Value` never refuses and its keys are strings, and the writer is a vector,
/// which takes every write: so it succeeds.
#[verifier::external_body]
pub(crate) fn to_bytes(value: &serde_json::Value) -> (r: Result<Vec<u8>, serde_json::Error>)
    ensures
        r is Ok,
        r matches Ok(bytes) ==> bytes@ == json_bytes(content(*value)),
{
    serde_json::to_vec(value)
}

/// The text of the field `key`.
pub fn get_text<'a>(value: &'a serde_json::Value, key: &str) -> (r: Option<&'a str>)
    ensures
        r is Some <==> content(*value).text_field(key@) is Some,
        r matches Some(s) ==> content(*value).text_field(key@) == Some(s@),
{
    match get(value, key) {
        Some(found) => found.as_str(),
        None => None,
    }
}

/// The number in the field `key`.
pub fn get_unsigned(value: &serde_json::Value, key: &str) -> (r: Option<u64>)
    ensures
        r == content(*value).unsigned_field(key@),
{
    match get(value, key) {
        Some(found) => found.as_u64(),
        None => None,
    }
}

/// The texts among `items`, in order; items of another kind are passed over.
pub fn texts_of(items: &Vec<serde_json::Value>) -> (r: Vec<String>)
    ensures
        crate::text::views(r@) == texts_in(contents(items@)),
{
    let mut out: Vec<String> = Vec::new();
    let mut i: usize = 0;
    assert(contents(items@).take(0) =~= Seq::empty());
    assert(crate::text::views(out@) =~= Seq::empty());
    while i < items.len()
        invariant
            i <= items@.len(),
            crate::text::views(out@) == texts_in(contents(items@).take(i as int)),
        decreases items@.len() - i,
    {
        proof {
            let next = contents(items@).take(i + 1);
            assert(next.drop_last() =~= contents(items@).take(i as int));
            assert(next.last() == content(items@[i as int]));
        }
        let ghost before = out@;
        if let Some(s) = items[i].as_str() {
            out.push(s.to_string());
            assert(crate::text::views(out@) =~= crate::text::views(before).push(s@));
        }
        i = i + 1;
    }
    assert(contents(items@).take(items@.len() as int) =~= contents(items@));
    out
}

/// A list value of the given texts.
pub fn texts_value(texts: &Vec<String>) -> (r: serde_json::Value)
    ensures
        content(r) == texts_json(crate::text::views(texts@)),
{
    let mut items: Vec<serde_json::Value> = Vec::new();
    let mut i: usize = 0;
    while i < texts.len()
        invariant
            i <= texts@.len(),
            items@.len() == i,
            forall|k: int| 0 <= k < i ==> content(#[trigger] items@[k]) == Json::Text(texts@[k]@),
        decreases texts@.len() - i,
    {
        items.push(text_value(texts[i].clone()));
        i = i + 1;
    }
    assert(contents(items@) =~= texts_json(crate::text::views(texts@))->List_0);
    list_value(items)
}

/// A list of texts as a JSON value.
pub open spec fn texts_json(texts: Seq<Seq<char>>) -> Json {
    Json::List(Seq::new(texts.len(), |i: int| Json::Text(texts[i])))
}

/// A field is there exactly where the value is an object that has it; it is a
/// text, or a number, exactly where what stands in it is one.
pub proof fn law_fields_are_what_stands_in_them(
    value: Json,
    key: Seq<char>,
    held: Json,
    s: Seq<char>,
    n: u64,
)
    ensures
        value.field(key) == Some(held) <==> (value matches Json::Object(fields)
            && fields.dom().contains(key) && fields[key] == held),
        value.text_field(key) == Some(s) <==> value.field(key) == Some(Json::Text(s)),
        value.unsigned_field(key) == Some(n) <==> value.field(key) == Some(
            Json::Number(Number::Unsigned(n)),
        ),
{
}

/// A field that was set reads as it was set, and every other as before.
pub proof fn law_set_field_reads_back(value: Json, key: Seq<char>, held: Json, other: Seq<char>)
    requires
        value is Object,
    ensures
        value.with_field(key, held).field(key) == Some(held),
        other != key ==> value.with_field(key, held).field(other) == value.field(other),
        value.with_field(key, held) is Object,
{
}

/// The texts of two lists one after the other are those of the one followed by
/// those of the other.
pub proof fn law_texts_of_two(one: Seq<Json>, other: Seq<Json>)
    ensures
        texts_in(one + other) == texts_in(one) + texts_in(other),
    decreases other.len(),
{
    if other.len() == 0 {
        assert(one + other =~= one);
        assert(texts_in(one) + texts_in(other) =~= texts_in(one));
    } else {
        law_texts_of_two(one, other.drop_last());
        assert((one + other).drop_last() =~= one + other.drop_last());
        assert(texts_in(one + other) =~= texts_in(one) + texts_in(other));
    }
}

/// A text in a list counts as that text, and an item of another kind as none.
pub proof fn law_texts_of_one(item: Json)
    ensures
        item matches Json::Text(s) ==> texts_in(seq![item]) == seq![s],
        !(item is Text) ==> texts_in(seq![item]).len() == 0,
{
    assert(seq![item].drop_last() =~= Seq::empty());
    assert(texts_in(seq![item].drop_last()) =~= Seq::empty());
}

/// A list of texts holds each of them, in order, and nothing else.
pub proof fn law_list_holds_each_text(texts: Seq<Seq<char>>)
    ensures
        texts_json(texts) matches Json::List(items) && items.len() == texts.len() && forall|i: int|
            0 <= i < texts.len() ==> #[trigger] items[i] == Json::Text(texts[i]),
{
}

} // verus!
