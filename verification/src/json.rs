//! JSON values.

use serde_json::Value;
use vstd::prelude::*;

use crate::text::same_text;

verus! {

/// `serde_json::Number`: carries a number that is no 64-bit integer.
#[verifier::external_type_specification]
#[verifier::external_body]
pub struct ExNumber(serde_json::Number);

/// `serde_json::Error`: what a failed parse returns.
#[verifier::external_type_specification]
#[verifier::external_body]
pub struct ExError(serde_json::Error);

/// `serde_json::Number`'s `clone`: the copy is the same number.
pub assume_specification[ <serde_json::Number as Clone>::clone ](number: &serde_json::Number) -> (result:
    serde_json::Number)
    ensures
        result == *number,
;

/// A number that is neither a `u64` nor an `i64`. Only a parse makes one.
#[derive(Debug)]
pub struct FloatNumber {
    number: serde_json::Number,
}

impl FloatNumber {
    pub closed spec fn view(&self) -> serde_json::Number {
        self.number
    }
}

/// A JSON number.
#[derive(Debug)]
pub enum JsonNumber {
    Unsigned(u64),
    Signed(i64),
    Float(FloatNumber),
}

/// A JSON value. An object is a list of bindings; where a key is bound more
/// than once, the last binding counts.
#[derive(Debug)]
pub enum Json {
    Null,
    Bool(bool),
    Number(JsonNumber),
    Str(String),
    Array(Vec<Json>),
    Object(Vec<(String, Json)>),
}

/// What a JSON number is.
pub enum NumberView {
    Int(int),
    Float(serde_json::Number),
}

/// What a JSON value is.
#[verifier::ext_equal]
pub enum JsonView {
    Null,
    Bool(bool),
    Number(NumberView),
    Str(Seq<char>),
    Array(Seq<JsonView>),
    Object(Map<Seq<char>, JsonView>),
}

impl JsonNumber {
    pub open spec fn view(&self) -> NumberView {
        match self {
            JsonNumber::Unsigned(n) => NumberView::Int(*n as int),
            JsonNumber::Signed(n) => NumberView::Int(*n as int),
            JsonNumber::Float(n) => NumberView::Float(n@),
        }
    }
}

impl Json {
    pub open spec fn view(&self) -> JsonView
        decreases self,
    {
        match self {
            Json::Null => JsonView::Null,
            Json::Bool(b) => JsonView::Bool(*b),
            Json::Number(n) => JsonView::Number(n@),
            Json::Str(s) => JsonView::Str(s@),
            Json::Array(items) => JsonView::Array(items_view(items@)),
            Json::Object(fields) => JsonView::Object(fields_view(fields@)),
        }
    }
}

/// The values in a list, in order.
pub open spec fn items_view(items: Seq<Json>) -> Seq<JsonView>
    decreases items,
{
    Seq::new(
        items.len(),
        |i: int|
            if 0 <= i < items.len() {
                items[i].view()
            } else {
                JsonView::Null
            },
    )
}

pub proof fn lemma_items_view(items: Seq<Json>)
    ensures
        items_view(items).len() == items.len(),
        forall|i: int| 0 <= i < items.len() ==> #[trigger] items_view(items)[i] == items[i]@,
{
}

/// The bindings of an object, the last binding of a key before the others.
pub open spec fn fields_view(fields: Seq<(String, Json)>) -> Map<Seq<char>, JsonView>
    decreases fields,
{
    if fields.len() == 0 {
        Map::empty()
    } else {
        fields_view(fields.drop_last()).insert(fields.last().0@, fields.last().1.view())
    }
}

impl JsonView {
    /// The value bound to `key`, where this is an object that binds it.
    pub open spec fn field(self, key: Seq<char>) -> Option<JsonView> {
        match self {
            JsonView::Object(fields) => if fields.contains_key(key) {
                Some(fields[key])
            } else {
                None
            },
            _ => None,
        }
    }

    /// The text, where this is a string.
    pub open spec fn text(self) -> Option<Seq<char>> {
        match self {
            JsonView::Str(s) => Some(s),
            _ => None,
        }
    }

    /// The items, where this is an array.
    pub open spec fn items(self) -> Option<Seq<JsonView>> {
        match self {
            JsonView::Array(items) => Some(items),
            _ => None,
        }
    }

    /// The bindings, where this is an object.
    pub open spec fn fields(self) -> Option<Map<Seq<char>, JsonView>> {
        match self {
            JsonView::Object(fields) => Some(fields),
            _ => None,
        }
    }

    /// The number, where this is an integer from `low` up to `high`.
    pub open spec fn integer(self, low: int, high: int) -> Option<int> {
        match self {
            JsonView::Number(NumberView::Int(n)) => if low <= n <= high {
                Some(n)
            } else {
                None
            },
            _ => None,
        }
    }

    /// The text bound to `key`.
    pub open spec fn text_field(self, key: Seq<char>) -> Option<Seq<char>> {
        match self.field(key) {
            Some(value) => value.text(),
            None => None,
        }
    }

    /// The items of the array bound to `key`.
    pub open spec fn items_field(self, key: Seq<char>) -> Option<Seq<JsonView>> {
        match self.field(key) {
            Some(value) => value.items(),
            None => None,
        }
    }

    /// The integer from `low` up to `high` bound to `key`.
    pub open spec fn integer_field(self, key: Seq<char>, low: int, high: int) -> Option<int> {
        match self.field(key) {
            Some(value) => value.integer(low, high),
            None => None,
        }
    }
}

/// The text that an optional text is.
pub open spec fn text_view(text: Option<&str>) -> Option<Seq<char>> {
    match text {
        Some(s) => Some(s@),
        None => None,
    }
}

/// The value that an optional value is.
pub open spec fn value_view(value: Option<&Json>) -> Option<JsonView> {
    match value {
        Some(v) => Some(v@),
        None => None,
    }
}

proof fn lemma_binding_counts(fields: Seq<(String, Json)>, at: int)
    requires
        0 <= at < fields.len(),
        forall|j: int| at < j < fields.len() ==> #[trigger] fields[j].0@ != fields[at].0@,
    ensures
        fields_view(fields).contains_key(fields[at].0@),
        fields_view(fields)[fields[at].0@] == fields[at].1@,
    decreases fields.len(),
{
    if at < fields.len() - 1 {
        assert(fields[fields.len() - 1].0@ != fields[at].0@);
        assert forall|j: int| at < j < fields.drop_last().len() implies #[trigger] fields.drop_last()[j].0@
            != fields.drop_last()[at].0@ by {
            assert(fields[j].0@ != fields[at].0@);
        }
        lemma_binding_counts(fields.drop_last(), at);
    }
}

proof fn lemma_unbound(fields: Seq<(String, Json)>, key: Seq<char>)
    requires
        forall|j: int| 0 <= j < fields.len() ==> #[trigger] fields[j].0@ != key,
    ensures
        !fields_view(fields).contains_key(key),
    decreases fields.len(),
{
    if fields.len() > 0 {
        assert(fields[fields.len() - 1].0@ != key);
        assert forall|j: int| 0 <= j < fields.drop_last().len() implies #[trigger] fields.drop_last()[j].0@
            != key by {
            assert(fields[j].0@ != key);
        }
        lemma_unbound(fields.drop_last(), key);
    }
}

proof fn lemma_rebound(fields: Seq<(String, Json)>, at: int, binding: (String, Json))
    requires
        0 <= at < fields.len(),
        fields[at].0@ == binding.0@,
        forall|j: int| at < j < fields.len() ==> #[trigger] fields[j].0@ != binding.0@,
    ensures
        fields_view(fields.update(at, binding)) == fields_view(fields).insert(
            binding.0@,
            binding.1@,
        ),
    decreases fields.len(),
{
    let changed = fields.update(at, binding);
    if at == fields.len() - 1 {
        assert(changed.drop_last() == fields.drop_last());
        assert(fields_view(changed) =~= fields_view(fields).insert(binding.0@, binding.1@));
    } else {
        assert(changed.drop_last() == fields.drop_last().update(at, binding));
        assert forall|j: int| at < j < fields.drop_last().len() implies #[trigger] fields.drop_last()[j].0@
            != binding.0@ by {
            assert(fields[j].0@ != binding.0@);
        }
        lemma_rebound(fields.drop_last(), at, binding);
        assert(changed.last() == fields.last());
        assert(fields[fields.len() - 1].0@ != binding.0@);
        assert(fields_view(changed) =~= fields_view(fields).insert(binding.0@, binding.1@));
    }
}

/// The place of the last binding of `key`.
fn last_binding(fields: &Vec<(String, Json)>, key: &str) -> (result: Option<usize>)
    ensures
        match result {
            Some(at) => {
                &&& at < fields.len()
                &&& fields[at as int].0@ == key@
                &&& forall|j: int| at < j < fields.len() ==> #[trigger] fields[j].0@ != key@
            },
            None => forall|j: int| 0 <= j < fields.len() ==> #[trigger] fields[j].0@ != key@,
        },
{
    let mut i: usize = fields.len();
    while i > 0
        invariant
            i <= fields.len(),
            forall|j: int| i <= j < fields.len() ==> #[trigger] fields[j].0@ != key@,
        decreases i,
    {
        i = i - 1;
        if same_text(fields[i].0.as_str(), key) {
            return Some(i);
        }
    }
    None
}

/// The value that `key` is bound to.
pub fn get_field<'a>(fields: &'a Vec<(String, Json)>, key: &str) -> (result: Option<&'a Json>)
    ensures
        value_view(result) == JsonView::Object(fields_view(fields@)).field(key@),
        result matches Some(value) ==> exists|i: int|
            0 <= i < fields.len() && *value == (#[trigger] fields[i]).1,
{
    match last_binding(fields, key) {
        Some(at) => {
            proof {
                lemma_binding_counts(fields@, at as int);
            }
            Some(&fields[at].1)
        },
        None => {
            proof {
                lemma_unbound(fields@, key@);
            }
            None
        },
    }
}

/// Binds `key` to `value`, in the place of what it was bound to.
pub fn insert_field(fields: &mut Vec<(String, Json)>, key: String, value: Json)
    ensures
        fields_view(final(fields)@) == fields_view(old(fields)@).insert(key@, value@),
{
    match last_binding(fields, key.as_str()) {
        Some(at) => {
            proof {
                lemma_rebound(fields@, at as int, (key, value));
            }
            fields.set(at, (key, value));
        },
        None => {
            let ghost before = fields@;
            fields.push((key, value));
            assert(fields@.drop_last() == before);
        },
    }
}

proof fn lemma_binding_dropped(fields: Seq<(String, Json)>, at: int, key: Seq<char>)
    requires
        0 <= at < fields.len(),
        fields[at].0@ == key,
    ensures
        fields_view(fields.remove(at)).remove(key) == fields_view(fields).remove(key),
    decreases fields.len(),
{
    let rest = fields.remove(at);
    if at == fields.len() - 1 {
        assert(rest == fields.drop_last());
        assert(fields_view(rest).remove(key) =~= fields_view(fields).remove(key));
    } else {
        assert(rest.drop_last() == fields.drop_last().remove(at));
        assert(rest.last() == fields.last());
        lemma_binding_dropped(fields.drop_last(), at, key);
        let k = fields.last().0@;
        let v = fields.last().1@;
        let shorter = fields_view(fields.drop_last().remove(at));
        let longer = fields_view(fields.drop_last());
        assert(shorter.remove(key) == longer.remove(key));
        if k == key {
            assert(shorter.insert(k, v).remove(key) =~= shorter.remove(key));
            assert(longer.insert(k, v).remove(key) =~= longer.remove(key));
        } else {
            assert(shorter.insert(k, v).remove(key) =~= shorter.remove(key).insert(k, v));
            assert(longer.insert(k, v).remove(key) =~= longer.remove(key).insert(k, v));
        }
    }
}

/// Takes every binding of `key` away.
pub fn remove_field(fields: &mut Vec<(String, Json)>, key: &str)
    ensures
        fields_view(final(fields)@) == fields_view(old(fields)@).remove(key@),
{
    loop
        invariant
            fields_view(fields@).remove(key@) == fields_view(old(fields)@).remove(key@),
        ensures
            fields_view(fields@) == fields_view(old(fields)@).remove(key@),
        decreases fields.len(),
    {
        match last_binding(fields, key) {
            Some(at) => {
                proof {
                    lemma_binding_dropped(fields@, at as int, key@);
                }
                fields.remove(at);
            },
            None => {
                proof {
                    lemma_unbound(fields@, key@);
                    assert(fields_view(fields@).remove(key@) =~= fields_view(fields@));
                }
                break;
            },
        }
    }
}

/// A copy of an object's bindings.
pub fn copy_fields(fields: &Vec<(String, Json)>) -> (result: Vec<(String, Json)>)
    ensures
        fields_view(result@) == fields_view(fields@),
        result.len() == fields.len(),
    decreases fields,
{
    let mut result: Vec<(String, Json)> = Vec::new();
    let mut i: usize = 0;
    assert(fields@.take(0) =~= Seq::<(String, Json)>::empty());
    while i < fields.len()
        invariant
            i <= fields.len(),
            result.len() == i,
            fields_view(result@) == fields_view(fields@.take(i as int)),
        decreases fields.len() - i,
    {
        let ghost before = result@;
        proof {
            assert(decreases_to!(fields => fields@));
            assert(decreases_to!(fields@ => fields@[i as int]));
        }
        let value = fields[i].1.clone();
        result.push((fields[i].0.clone(), value));
        assert(result@.drop_last() == before);
        assert(fields@.take(i + 1).drop_last() == fields@.take(i as int));
        i = i + 1;
    }
    assert(fields@.take(i as int) =~= fields@);
    result
}

/// A copy of a list of values.
pub fn copy_items(items: &Vec<Json>) -> (result: Vec<Json>)
    ensures
        items_view(result@) == items_view(items@),
    decreases items,
{
    let mut result: Vec<Json> = Vec::new();
    let mut i: usize = 0;
    while i < items.len()
        invariant
            i <= items.len(),
            result.len() == i,
            forall|j: int| 0 <= j < i ==> #[trigger] result[j]@ == items[j]@,
        decreases items.len() - i,
    {
        let value = items[i].clone();
        result.push(value);
        i = i + 1;
    }
    proof {
        lemma_items_view(result@);
        lemma_items_view(items@);
    }
    assert(items_view(result@) =~= items_view(items@));
    result
}

impl Clone for Json {
    fn clone(&self) -> (result: Self)
        ensures
            result@ == self@,
        decreases self,
    {
        match self {
            Json::Null => Json::Null,
            Json::Bool(b) => Json::Bool(*b),
            Json::Number(JsonNumber::Unsigned(n)) => Json::Number(JsonNumber::Unsigned(*n)),
            Json::Number(JsonNumber::Signed(n)) => Json::Number(JsonNumber::Signed(*n)),
            Json::Number(JsonNumber::Float(n)) => Json::Number(
                JsonNumber::Float(FloatNumber { number: n.number.clone() }),
            ),
            Json::Str(s) => Json::Str(s.clone()),
            Json::Array(items) => Json::Array(copy_items(items)),
            Json::Object(fields) => Json::Object(copy_fields(fields)),
        }
    }
}

impl Json {
    /// The value bound to `key`, where this is an object that binds it.
    pub fn get(&self, key: &str) -> (result: Option<&Json>)
        ensures
            value_view(result) == self@.field(key@),
    {
        match self {
            Json::Object(fields) => get_field(fields, key),
            _ => None,
        }
    }

    /// The text, where this is a string.
    pub fn as_str(&self) -> (result: Option<&str>)
        ensures
            text_view(result) == self@.text(),
    {
        match self {
            Json::Str(s) => Some(s.as_str()),
            _ => None,
        }
    }

    /// The items, where this is an array.
    pub fn as_array(&self) -> (result: Option<&Vec<Json>>)
        ensures
            match result {
                Some(items) => self@.items() == Some(items_view(items@)),
                None => self@.items() is None,
            },
    {
        match self {
            Json::Array(items) => Some(items),
            _ => None,
        }
    }

    /// The bindings, where this is an object.
    pub fn as_object(&self) -> (result: Option<&Vec<(String, Json)>>)
        ensures
            match result {
                Some(fields) => self@.fields() == Some(fields_view(fields@)),
                None => self@.fields() is None,
            },
    {
        match self {
            Json::Object(fields) => Some(fields),
            _ => None,
        }
    }

    /// The number, where this is an integer that an `i64` holds.
    pub fn as_i64(&self) -> (result: Option<i64>)
        ensures
            match result {
                Some(n) => self@.integer(i64::MIN as int, i64::MAX as int) == Some(n as int),
                None => self@.integer(i64::MIN as int, i64::MAX as int) is None,
            },
    {
        match self {
            Json::Number(JsonNumber::Unsigned(n)) => if *n <= i64::MAX as u64 {
                Some(*n as i64)
            } else {
                None
            },
            Json::Number(JsonNumber::Signed(n)) => Some(*n),
            _ => None,
        }
    }

    /// The number, where this is an integer that a `u64` holds.
    pub fn as_u64(&self) -> (result: Option<u64>)
        ensures
            match result {
                Some(n) => self@.integer(0, u64::MAX as int) == Some(n as int),
                None => self@.integer(0, u64::MAX as int) is None,
            },
    {
        match self {
            Json::Number(JsonNumber::Unsigned(n)) => Some(*n),
            Json::Number(JsonNumber::Signed(n)) => if *n >= 0 {
                Some(*n as u64)
            } else {
                None
            },
            _ => None,
        }
    }

    /// The text bound to `key`.
    pub fn get_str(&self, key: &str) -> (result: Option<&str>)
        ensures
            text_view(result) == self@.text_field(key@),
    {
        match self.get(key) {
            Some(value) => value.as_str(),
            None => None,
        }
    }

    /// The items of the array bound to `key`.
    pub fn get_array(&self, key: &str) -> (result: Option<&Vec<Json>>)
        ensures
            match result {
                Some(items) => self@.items_field(key@) == Some(items_view(items@)),
                None => self@.items_field(key@) is None,
            },
    {
        match self.get(key) {
            Some(value) => value.as_array(),
            None => None,
        }
    }

    /// The integer that an `i64` holds, bound to `key`.
    pub fn get_i64(&self, key: &str) -> (result: Option<i64>)
        ensures
            match result {
                Some(n) => self@.integer_field(key@, i64::MIN as int, i64::MAX as int) == Some(
                    n as int,
                ),
                None => self@.integer_field(key@, i64::MIN as int, i64::MAX as int) is None,
            },
    {
        match self.get(key) {
            Some(value) => value.as_i64(),
            None => None,
        }
    }

    /// The integer that a `u64` holds, bound to `key`.
    pub fn get_u64(&self, key: &str) -> (result: Option<u64>)
        ensures
            match result {
                Some(n) => self@.integer_field(key@, 0, u64::MAX as int) == Some(n as int),
                None => self@.integer_field(key@, 0, u64::MAX as int) is None,
            },
    {
        match self.get(key) {
            Some(value) => value.as_u64(),
            None => None,
        }
    }

    /// The string value that holds `text`.
    pub fn string(text: &str) -> (result: Json)
        ensures
            result@ == JsonView::Str(text@),
    {
        Json::Str(text.to_owned())
    }

    /// The string value that holds an optional text, and null where there is none.
    pub fn optional_string(text: &Option<String>) -> (result: Json)
        ensures
            result@ == (match *text {
                Some(s) => JsonView::Str(s@),
                None => JsonView::Null,
            }),
    {
        match text {
            Some(s) => Json::Str(s.clone()),
            None => Json::Null,
        }
    }
}

/// `serde_json::Value`: the value that `serde_json` parses into and prints from.
#[verifier::external_type_specification]
#[verifier::external_body]
pub struct ExValue(serde_json::Value);

/// What a `serde_json::Value` holds.
pub uninterp spec fn value_content(value: serde_json::Value) -> JsonView;

/// What `serde_json::from_str` reads in a text, where it reads a value at all.
pub uninterp spec fn parsed_text(text: Seq<char>) -> Option<JsonView>;

/// What `serde_json::from_slice` reads in bytes, where it reads a value at all.
pub uninterp spec fn parsed_bytes(bytes: Seq<u8>) -> Option<JsonView>;

/// The compact text in which `serde_json` writes a value.
pub uninterp spec fn printed(value: JsonView) -> Seq<char>;

/// The compact bytes in which `serde_json` writes a value.
pub uninterp spec fn printed_bytes(value: JsonView) -> Seq<u8>;

/// An object whose values are all strings.
pub open spec fn is_text_record(value: JsonView) -> bool {
    match value {
        JsonView::Object(fields) => forall|key: Seq<char>|
            fields.contains_key(key) ==> #[trigger] fields[key] is Str,
        _ => false,
    }
}

/// Whether arrays and objects stand at most `depth` deep in one another.
pub open spec fn nested_within(value: JsonView, depth: nat) -> bool
    decreases depth,
{
    match value {
        JsonView::Array(items) => depth > 0 && forall|i: int|
            0 <= i < items.len() ==> nested_within(#[trigger] items[i], (depth - 1) as nat),
        JsonView::Object(fields) => depth > 0 && forall|key: Seq<char>|
            fields.contains_key(key) ==> nested_within(
                #[trigger] fields[key],
                (depth - 1) as nat,
            ),
        _ => true,
    }
}

/// Whether two values are the same but for which floats stand where there are
/// floats.
pub open spec fn same_but_floats(left: JsonView, right: JsonView) -> bool
    decreases left,
{
    match (left, right) {
        (JsonView::Number(NumberView::Float(_)), JsonView::Number(NumberView::Float(_))) => true,
        (JsonView::Array(a), JsonView::Array(b)) => {
            &&& a.len() == b.len()
            &&& forall|i: int|
                0 <= i < a.len() && 0 <= i < b.len() ==> same_but_floats(#[trigger] a[i], b[i])
        },
        (JsonView::Object(a), JsonView::Object(b)) => {
            &&& a.dom() == b.dom()
            &&& forall|key: Seq<char>|
                a.contains_key(key) ==> same_but_floats(#[trigger] a[key], b[key])
        },
        _ => left == right,
    }
}

/// Takes a `serde_json::Value` apart. The contract says that the result is
/// what the value holds.
#[verifier::external_body]
fn value_into_json(value: serde_json::Value) -> (result: Json)
    ensures
        result@ == value_content(value),
{
    match value {
        Value::Null => Json::Null,
        Value::Bool(b) => Json::Bool(b),
        Value::Number(n) => Json::Number(match (n.as_u64(), n.as_i64()) {
            (Some(unsigned), _) => JsonNumber::Unsigned(unsigned),
            (None, Some(signed)) => JsonNumber::Signed(signed),
            (None, None) => JsonNumber::Float(FloatNumber { number: n }),
        }),
        Value::String(s) => Json::Str(s),
        Value::Array(items) => Json::Array(items.into_iter().map(value_into_json).collect()),
        Value::Object(map) => {
            Json::Object(map.into_iter().map(|(k, v)| (k, value_into_json(v))).collect())
        },
    }
}

/// Puts a `serde_json::Value` together, an object by `serde_json::Map::insert`.
/// The contract says that the result holds the given value.
#[verifier::external_body]
fn json_into_value(json: &Json) -> (result: serde_json::Value)
    ensures
        value_content(result) == json@,
{
    match json {
        Json::Null => Value::Null,
        Json::Bool(b) => Value::Bool(*b),
        Json::Number(JsonNumber::Unsigned(n)) => Value::from(*n),
        Json::Number(JsonNumber::Signed(n)) => Value::from(*n),
        Json::Number(JsonNumber::Float(n)) => Value::Number(n.number.clone()),
        Json::Str(s) => Value::String(s.clone()),
        Json::Array(items) => Value::Array(items.iter().map(json_into_value).collect()),
        Json::Object(fields) => Value::Object(fields.iter().fold(serde_json::Map::new(), |mut map, (k, v)| {
            map.insert(k.clone(), json_into_value(v));
            map
        })),
    }
}

/// Calls `serde_json::from_str`. The contract says that a value comes back
/// exactly where the text has a reading, and holds that reading.
#[verifier::external_body]
fn parse_value(text: &str) -> (result: Result<serde_json::Value, serde_json::Error>)
    ensures
        match result {
            Ok(value) => parsed_text(text@) == Some(value_content(value)),
            Err(_) => parsed_text(text@) is None,
        },
{
    serde_json::from_str(text)
}

/// Calls `serde_json::from_slice`. The contract says that a value comes back
/// exactly where the bytes have a reading, and holds that reading.
#[verifier::external_body]
fn parse_value_bytes(bytes: &[u8]) -> (result: Result<serde_json::Value, serde_json::Error>)
    ensures
        match result {
            Ok(value) => parsed_bytes(bytes@) == Some(value_content(value)),
            Err(_) => parsed_bytes(bytes@) is None,
        },
{
    serde_json::from_slice(bytes)
}

/// Calls `serde_json::to_vec`. The contract says that the bytes depend on what
/// the value holds alone, and that the call never fails on a value. It says also
/// that the bytes read as the value again where that is not nested more deeply
/// than `serde_json::from_slice` reads, but that a float may read as another
/// float: reading rounds more than writing does.
#[verifier::external_body]
fn print_value_bytes(value: &serde_json::Value) -> (result: Result<Vec<u8>, serde_json::Error>)
    ensures
        match result {
            Ok(bytes) => {
                &&& bytes@ == printed_bytes(value_content(*value))
                &&& nested_within(value_content(*value), 127) ==> match parsed_bytes(bytes@) {
                    Some(read) => same_but_floats(value_content(*value), read),
                    None => false,
                }
            },
            Err(_) => false,
        },
{
    serde_json::to_vec(value)
}

/// Calls `serde_json::Value`'s `to_string`. The contract says that the text
/// depends on what the value holds alone, and that the text of an object of
/// strings has that object as its reading.
#[verifier::external_body]
fn print_value(value: &serde_json::Value) -> (result: String)
    ensures
        result@ == printed(value_content(*value)),
        is_text_record(value_content(*value)) ==> parsed_text(result@) == Some(value_content(*value)),
{
    value.to_string()
}

/// The value that `text` reads as, or nothing where it is no JSON.
pub fn parse_json(text: &str) -> (result: Option<Json>)
    ensures
        match result {
            Some(json) => parsed_text(text@) == Some(json@),
            None => parsed_text(text@) is None,
        },
{
    match parse_value(text) {
        Ok(value) => Some(value_into_json(value)),
        Err(_) => None,
    }
}

/// The value that `bytes` read as, or nothing where they are no JSON.
pub fn parse_json_bytes(bytes: &[u8]) -> (result: Option<Json>)
    ensures
        match result {
            Some(json) => parsed_bytes(bytes@) == Some(json@),
            None => parsed_bytes(bytes@) is None,
        },
{
    match parse_value_bytes(bytes) {
        Ok(value) => Some(value_into_json(value)),
        Err(_) => None,
    }
}

/// The compact text of `json`.
pub fn print_json(json: &Json) -> (result: String)
    ensures
        result@ == printed(json@),
        is_text_record(json@) ==> parsed_text(result@) == Some(json@),
{
    let value = json_into_value(json);
    print_value(&value)
}

/// The compact bytes of `json`.
pub fn print_json_bytes(json: &Json) -> (result: Vec<u8>)
    ensures
        result@ == printed_bytes(json@),
        nested_within(json@, 127) ==> match parsed_bytes(result@) {
            Some(read) => same_but_floats(json@, read),
            None => false,
        },
{
    let value = json_into_value(json);
    match print_value_bytes(&value) {
        Ok(bytes) => bytes,
        Err(_) => Vec::new(),
    }
}

/// What a `serde_json::Value` holds, as a value of this library.
pub fn from_value(value: serde_json::Value) -> (result: Json)
    ensures
        result@ == value_content(value),
{
    value_into_json(value)
}

/// A `serde_json::Value` that holds `json`.
pub fn to_value(json: &Json) -> (result: serde_json::Value)
    ensures
        value_content(result) == json@,
{
    json_into_value(json)
}

} // verus!
