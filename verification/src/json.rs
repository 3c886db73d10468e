//! A plain JSON document model, the only form in which the library reads and
//! writes authentication files, token claims and usage responses.
use vstd::prelude::*;
use crate::text::{str_eq, copy_string};

verus! {

/// A JSON number, kept in the form the JSON reader produced it: an unsigned
/// integer, a negative integer, or a non-integer number in its shortest
/// decimal text.
pub enum JsonNumber {
    PosInt(u64),
    NegInt(i64),
    Float(String),
}

pub enum JsonNumberV {
    PosInt(int),
    NegInt(int),
    Float(Seq<char>),
}

impl View for JsonNumber {
    type V = JsonNumberV;

    open spec fn view(&self) -> JsonNumberV {
        match self {
            JsonNumber::PosInt(n) => JsonNumberV::PosInt(*n as int),
            JsonNumber::NegInt(n) => JsonNumberV::NegInt(*n as int),
            JsonNumber::Float(s) => JsonNumberV::Float(s@),
        }
    }
}

/// A JSON value. Objects keep their entries as a list of key/value pairs.
pub enum Json {
    Null,
    Bool(bool),
    Number(JsonNumber),
    Str(String),
    Array(Vec<Json>),
    Object(Vec<(String, Json)>),
}

/// The mathematical value of a JSON document.
pub enum JsonV {
    Null,
    Bool(bool),
    Number(JsonNumberV),
    Str(Seq<char>),
    Array(Seq<JsonV>),
    Object(Seq<(Seq<char>, JsonV)>),
}

pub open spec fn jv(j: Json) -> JsonV
    decreases j, 1int,
{
    match j {
        Json::Null => JsonV::Null,
        Json::Bool(b) => JsonV::Bool(b),
        Json::Number(n) => JsonV::Number(n@),
        Json::Str(s) => JsonV::Str(s@),
        Json::Array(a) => JsonV::Array(jv_seq(a@)),
        Json::Object(o) => JsonV::Object(jv_obj(o@)),
    }
}

pub open spec fn jv_seq(s: Seq<Json>) -> Seq<JsonV>
    decreases s, 0int,
{
    if s.len() == 0 {
        Seq::empty()
    } else {
        jv_seq(s.subrange(0, s.len() - 1)).push(jv(s[s.len() - 1]))
    }
}

pub open spec fn jv_obj(s: Seq<(String, Json)>) -> Seq<(Seq<char>, JsonV)>
    decreases s, 0int,
{
    if s.len() == 0 {
        Seq::empty()
    } else {
        jv_obj(s.subrange(0, s.len() - 1)).push((s[s.len() - 1].0@, jv(s[s.len() - 1].1)))
    }
}

impl View for Json {
    type V = JsonV;

    open spec fn view(&self) -> JsonV {
        jv(*self)
    }
}

pub proof fn lemma_jv_seq(s: Seq<Json>)
    ensures
        jv_seq(s).len() == s.len(),
        forall|i: int| 0 <= i < s.len() ==> #[trigger] jv_seq(s)[i] == jv(s[i]),
    decreases s.len(),
{
    if s.len() > 0 {
        let p = s.subrange(0, s.len() - 1);
        lemma_jv_seq(p);
        assert forall|i: int| 0 <= i < s.len() implies #[trigger] jv_seq(s)[i] == jv(s[i]) by {
            if i < s.len() - 1 {
                assert(p[i] == s[i]);
            }
        }
    }
}

pub proof fn lemma_jv_obj(s: Seq<(String, Json)>)
    ensures
        jv_obj(s).len() == s.len(),
        forall|i: int|
            0 <= i < s.len() ==> #[trigger] jv_obj(s)[i] == (s[i].0@, jv(s[i].1)),
    decreases s.len(),
{
    if s.len() > 0 {
        let p = s.subrange(0, s.len() - 1);
        lemma_jv_obj(p);
        assert forall|i: int| 0 <= i < s.len() implies #[trigger] jv_obj(s)[i] == (
            s[i].0@,
            jv(s[i].1),
        ) by {
            if i < s.len() - 1 {
                assert(p[i] == s[i]);
            }
        }
    }
}

/// The value of the first entry with the given key.
pub open spec fn obj_get(entries: Seq<(Seq<char>, JsonV)>, key: Seq<char>) -> Option<JsonV>
    decreases entries.len(),
{
    if entries.len() == 0 {
        None
    } else if entries[0].0 == key {
        Some(entries[0].1)
    } else {
        obj_get(entries.drop_first(), key)
    }
}

/// An entry, replaced by `(key, value)` when it has that key.
pub open spec fn replace_entry(key: Seq<char>, value: JsonV, e: (Seq<char>, JsonV)) -> (Seq<char>, JsonV) {
    if e.0 == key {
        (key, value)
    } else {
        e
    }
}

/// The entries with the given key replaced by one entry holding `value`,
/// or `value` appended when the key is new.
pub open spec fn obj_set(entries: Seq<(Seq<char>, JsonV)>, key: Seq<char>, value: JsonV) -> Seq<
    (Seq<char>, JsonV),
> {
    if exists|i: int| 0 <= i < entries.len() && #[trigger] entries[i].0 == key {
        entries.map_values(|e: (Seq<char>, JsonV)| replace_entry(key, value, e))
    } else {
        entries.push((key, value))
    }
}

impl JsonV {
    /// `value.get(key)`: the member of an object, nothing for other values.
    pub open spec fn get(self, key: Seq<char>) -> Option<JsonV> {
        match self {
            JsonV::Object(entries) => obj_get(entries, key),
            _ => None,
        }
    }

    /// `value[key]`: the member of an object, `null` when absent.
    pub open spec fn at(self, key: Seq<char>) -> JsonV {
        match self.get(key) {
            Some(v) => v,
            None => JsonV::Null,
        }
    }

    pub open spec fn as_str(self) -> Option<Seq<char>> {
        match self {
            JsonV::Str(s) => Some(s),
            _ => None,
        }
    }

    /// The value as a signed 64-bit integer, when it is an integer in range.
    pub open spec fn as_i64(self) -> Option<int> {
        match self {
            JsonV::Number(JsonNumberV::PosInt(n)) => if n <= i64::MAX {
                Some(n)
            } else {
                None
            },
            JsonV::Number(JsonNumberV::NegInt(n)) => Some(n),
            _ => None,
        }
    }

    pub open spec fn is_null(self) -> bool {
        self is Null
    }

    pub open spec fn is_object(self) -> bool {
        self is Object
    }

    /// An object without members.
    pub open spec fn is_empty_object(self) -> bool {
        match self {
            JsonV::Object(entries) => entries.len() == 0,
            _ => false,
        }
    }
}

/// `value.get(key)` with a `null` member counted as absent.
pub open spec fn present(v: JsonV, key: Seq<char>) -> Option<JsonV> {
    match v.get(key) {
        Some(x) => if x is Null { None } else { Some(x) },
        None => None,
    }
}

/// The JSON number that `serde_json` makes of a signed integer.
pub open spec fn int_number(n: int) -> JsonNumberV {
    if n >= 0 {
        JsonNumberV::PosInt(n)
    } else {
        JsonNumberV::NegInt(n)
    }
}

/// The JSON number for a signed integer.
pub fn number_of_i64(n: i64) -> (r: Json)
    ensures
        r@ == JsonV::Number(int_number(n as int)),
{
    if n >= 0 {
        Json::Number(JsonNumber::PosInt(n as u64))
    } else {
        Json::Number(JsonNumber::NegInt(n))
    }
}

/// The view of an optional reference to a value.
pub open spec fn opt_jv(v: Option<&Json>) -> Option<JsonV> {
    match v {
        Some(j) => Some(j@),
        None => None,
    }
}

/// `serde_json::Value`, the reader's and writer's document type; carried only
/// through the conversion functions below.
#[verifier::external_type_specification]
#[verifier::external_body]
pub struct ExJsonValue(serde_json::Value);

#[verifier::external_type_specification]
#[verifier::external_body]
pub struct ExJsonNumber(serde_json::Number);

impl JsonNumber {
    /// Conversion from the reader's number type: an unsigned integer when it
    /// is one, else a signed one, else its decimal text.
    #[verifier::external_body]
    fn from_number(n: &serde_json::Number) -> JsonNumber {
        match (n.as_u64(), n.as_i64()) {
            (Some(u), _) => JsonNumber::PosInt(u),
            (None, Some(i)) => JsonNumber::NegInt(i),
            _ => JsonNumber::Float(n.to_string()),
        }
    }

    /// Conversion to the writer's value type.
    #[verifier::external_body]
    fn to_value(&self) -> serde_json::Value {
        match self {
            JsonNumber::PosInt(u) => serde_json::Value::from(*u),
            JsonNumber::NegInt(i) => serde_json::Value::from(*i),
            JsonNumber::Float(t) => t.parse::<serde_json::Number>().map(serde_json::Value::Number).unwrap_or(serde_json::Value::Null),
        }
    }
}

/// The JSON text reader: the document that a byte string holds, if it is
/// valid JSON.
pub uninterp spec fn json_decode(bytes: Seq<u8>) -> Option<JsonV>;

/// The pretty JSON writer: the bytes written for a document.
pub uninterp spec fn json_encode_pretty(v: JsonV) -> Seq<u8>;

/// Reads a JSON document from bytes with `serde_json::from_slice` into
/// `serde_json::Value`, converted member for member. Claims that the result
/// is the reader's document for these bytes, and nothing else.
#[verifier::external_body]
pub(crate) fn decode(bytes: &[u8]) -> (r: Option<Json>)
    ensures
        match r {
            Some(j) => json_decode(bytes@) == Some(j@),
            None => json_decode(bytes@) is None,
        },
{
    serde_json::from_slice::<serde_json::Value>(bytes).ok().map(Json::from_value)
}

/// Writes a document with `serde_json::to_vec_pretty` after converting it to
/// `serde_json::Value`. Claims that the bytes are the writer's bytes for the
/// document; writing a `Value` cannot fail.
#[verifier::external_body]
pub(crate) fn encode_pretty(v: &Json) -> (r: Vec<u8>)
    ensures
        r@ == json_encode_pretty(v@),
{
    serde_json::to_vec_pretty(&v.to_value()).unwrap_or_default()
}

impl Json {
    /// Conversion from the reader's value type, member for member.
    #[verifier::external_body]
    fn from_value(v: serde_json::Value) -> Json {
        match v {
            serde_json::Value::Null => Json::Null,
            serde_json::Value::Bool(b) => Json::Bool(b),
            serde_json::Value::Number(n) => Json::Number(JsonNumber::from_number(&n)),
            serde_json::Value::String(s) => Json::Str(s),
            serde_json::Value::Array(a) => Json::Array(a.into_iter().map(Json::from_value).collect()),
            serde_json::Value::Object(o) => Json::Object(o.into_iter().map(|(k, v)| (k, Json::from_value(v))).collect()),
        }
    }

    /// Conversion to the writer's value type, member for member.
    #[verifier::external_body]
    fn to_value(&self) -> serde_json::Value {
        match self {
            Json::Null => serde_json::Value::Null,
            Json::Bool(b) => serde_json::Value::Bool(*b),
            Json::Number(n) => n.to_value(),
            Json::Str(s) => serde_json::Value::String(s.clone()),
            Json::Array(a) => serde_json::Value::Array(a.iter().map(Json::to_value).collect()),
            Json::Object(o) => serde_json::Value::Object(o.iter().map(|(k, v)| (k.clone(), v.to_value())).collect()),
        }
    }

    /// An empty object.
    pub fn empty_object() -> (r: Json)
        ensures
            r@ == JsonV::Object(Seq::empty()),
    {
        let r = Json::Object(Vec::new());
        proof {
            assert(jv_obj(Seq::<(String, Json)>::empty()) =~= Seq::empty());
        }
        r
    }

    /// A string value.
    pub fn string(s: &str) -> (r: Json)
        ensures
            r@ == JsonV::Str(s@),
    {
        Json::Str(String::from_str(s))
    }

    /// `value.get(key)`.
    pub fn get(&self, key: &str) -> (r: Option<&Json>)
        ensures
            opt_jv(r) == self@.get(key@),
    {
        match self {
            Json::Object(entries) => {
                let ghost es = jv_obj(entries@);
                proof {
                    lemma_jv_obj(entries@);
                    assert(es.subrange(0, es.len() as int) =~= es);
                }
                let n = entries.len();
                let mut i: usize = 0;
                while i < n
                    invariant
                        n == entries@.len(),
                        es == jv_obj(entries@),
                        self@ == JsonV::Object(es),
                        es.len() == n,
                        forall|k: int| 0 <= k < n ==> #[trigger] es[k] == (entries@[k].0@, jv(entries@[k].1)),
                        i <= n,
                        obj_get(es, key@) == obj_get(es.subrange(i as int, n as int), key@),
                    decreases n - i,
                {
                    let ghost rest = es.subrange(i as int, n as int);
                    assert(rest[0] == es[i as int]);
                    if str_eq(entries[i].0.as_str(), key) {
                        return Some(&entries[i].1);
                    }
                    assert(rest.drop_first() =~= es.subrange(i + 1, n as int));
                    i += 1;
                }
                None
            },
            _ => None,
        }
    }

    /// `value.get(key)` where a `null` member counts as absent.
    pub fn get_present(&self, key: &str) -> (r: Option<&Json>)
        ensures
            match self@.get(key@) {
                Some(v) => if v is Null { r is None } else { opt_jv(r) == Some(v) },
                None => r is None,
            },
    {
        match self.get(key) {
            Some(Json::Null) => None,
            other => other,
        }
    }

    /// The text of a string value.
    pub fn as_str(&self) -> (r: Option<&String>)
        ensures
            match r {
                Some(s) => self@.as_str() == Some(s@),
                None => self@.as_str() is None,
            },
    {
        match self {
            Json::Str(s) => Some(s),
            _ => None,
        }
    }

    /// The value as a signed 64-bit integer.
    pub fn as_i64(&self) -> (r: Option<i64>)
        ensures
            match r {
                Some(n) => self@.as_i64() == Some(n as int),
                None => self@.as_i64() is None,
            },
    {
        match self {
            Json::Number(JsonNumber::PosInt(n)) => if *n <= 9223372036854775807u64 {
                Some(*n as i64)
            } else {
                None
            },
            Json::Number(JsonNumber::NegInt(n)) => Some(*n),
            _ => None,
        }
    }

    pub fn is_null(&self) -> (r: bool)
        ensures
            r == self@.is_null(),
    {
        match self {
            Json::Null => true,
            _ => false,
        }
    }

    pub fn is_object(&self) -> (r: bool)
        ensures
            r == self@.is_object(),
    {
        match self {
            Json::Object(_) => true,
            _ => false,
        }
    }

    pub fn is_empty_object(&self) -> (r: bool)
        ensures
            r == self@.is_empty_object(),
    {
        match self {
            Json::Object(entries) => {
                proof {
                    lemma_jv_obj(entries@);
                }
                entries.len() == 0
            },
            _ => false,
        }
    }

    /// A deep copy of the value.
    pub fn duplicate(&self) -> (r: Json)
        ensures
            r@ == self@,
        decreases self,
    {
        match self {
            Json::Null => Json::Null,
            Json::Bool(b) => Json::Bool(*b),
            Json::Number(JsonNumber::PosInt(n)) => Json::Number(JsonNumber::PosInt(*n)),
            Json::Number(JsonNumber::NegInt(n)) => Json::Number(JsonNumber::NegInt(*n)),
            Json::Number(JsonNumber::Float(t)) => Json::Number(JsonNumber::Float(copy_string(t))),
            Json::Str(s) => Json::Str(copy_string(s)),
            Json::Array(items) => {
                let mut out: Vec<Json> = Vec::new();
                let n = items.len();
                let mut i: usize = 0;
                proof {
                    lemma_jv_seq(items@);
                }
                while i < n
                    invariant
                        *self == Json::Array(*items),
                        n == items@.len(),
                        i <= n,
                        out@.len() == i,
                        forall|k: int| 0 <= k < i ==> #[trigger] jv(out@[k]) == jv(items@[k]),
                    decreases n - i,
                {
                    proof {
                        let ghost it = items@[i as int];
                        assert(decreases_to!(items@ => it));
                        assert(decreases_to!(*items => items@));
                        assert(*self == Json::Array(*items));
                        assert(decreases_to!(*self => (*self)->Array_0));
                    }
                    let c = items[i].duplicate();
                    out.push(c);
                    i += 1;
                }
                proof {
                    lemma_jv_seq(out@);
                    assert(jv_seq(out@) =~= jv_seq(items@));
                }
                Json::Array(out)
            },
            Json::Object(entries) => {
                let mut out: Vec<(String, Json)> = Vec::new();
                let n = entries.len();
                let mut i: usize = 0;
                proof {
                    lemma_jv_obj(entries@);
                }
                while i < n
                    invariant
                        *self == Json::Object(*entries),
                        n == entries@.len(),
                        i <= n,
                        out@.len() == i,
                        forall|k: int|
                            0 <= k < i ==> (#[trigger] out@[k]).0@ == entries@[k].0@ && jv(out@[k].1)
                                == jv(entries@[k].1),
                    decreases n - i,
                {
                    proof {
                        let ghost e = entries@[i as int];
                        assert(decreases_to!(e => e.1));
                        assert(decreases_to!(entries@ => e));
                        assert(decreases_to!(*entries => entries@));
                        assert(*self == Json::Object(*entries));
                        assert(decreases_to!(*self => (*self)->Object_0));
                    }
                    let k = copy_string(&entries[i].0);
                    let v = entries[i].1.duplicate();
                    out.push((k, v));
                    i += 1;
                }
                proof {
                    lemma_jv_obj(out@);
                    assert(jv_obj(out@) =~= jv_obj(entries@));
                }
                Json::Object(out)
            },
        }
    }
}

} // verus!
