//! The value model and its canonical JSON form.

use vstd::prelude::*;
use vstd::string::*;

use crate::encoding::{
    base64_decoded, base64_of, decode_bytes, decode_integer, encode_bytes, encode_integer, i64_token,
    string_to_u64, u64_of_token, u64_to_string, u64_token,
};
use crate::error::DecodeError;
use crate::json::{fields_view, items_view, str_is, Json, JsonNumber, JsonValue};

verus! {

/// A value of the sync protocol. A double is held by its IEEE-754 bit
/// pattern, so that equality is bit-pattern equality: NaN equals NaN and
/// -0 differs from +0.
#[derive(Debug)]
pub enum Value {
    /// A reference to a document.
    Id(String),
    Null,
    Int64(i64),
    /// A double, by its bit pattern.
    Float64(u64),
    Boolean(bool),
    String(String),
    Bytes(Vec<u8>),
    Array(Vec<Value>),
    /// Distinct elements.
    ValueSet(Vec<Value>),
    /// Entries with distinct keys.
    ValueMap(Vec<(Value, Value)>),
    /// Fields with distinct names.
    Object(Vec<(String, Value)>),
}

/// The view of a `Value`.
pub enum ValueView {
    Id(Seq<char>),
    Null,
    Int64(i64),
    Float64(u64),
    Boolean(bool),
    String(Seq<char>),
    Bytes(Seq<u8>),
    Array(Seq<ValueView>),
    ValueSet(Seq<ValueView>),
    ValueMap(Seq<(ValueView, ValueView)>),
    Object(Seq<(Seq<char>, ValueView)>),
}

impl View for Value {
    type V = ValueView;

    open spec fn view(&self) -> ValueView
        decreases self,
    {
        match self {
            Value::Id(s) => ValueView::Id(s@),
            Value::Null => ValueView::Null,
            Value::Int64(n) => ValueView::Int64(*n),
            Value::Float64(b) => ValueView::Float64(*b),
            Value::Boolean(b) => ValueView::Boolean(*b),
            Value::String(s) => ValueView::String(s@),
            Value::Bytes(b) => ValueView::Bytes(b@),
            Value::Array(a) => ValueView::Array(values_view(a)),
            Value::ValueSet(a) => ValueView::ValueSet(values_view(a)),
            Value::ValueMap(m) => ValueView::ValueMap(entries_view(m)),
            Value::Object(o) => ValueView::Object(members_view(o)),
        }
    }
}

/// The views of a vector of values.
pub open spec fn values_view(a: &Vec<Value>) -> Seq<ValueView>
    decreases a,
{
    Seq::new(
        a.len() as nat,
        |i: int|
            if 0 <= i < a.len() {
                a[i].view()
            } else {
                ValueView::Null
            },
    )
}

/// The views of the entries of a map.
pub open spec fn entries_view(m: &Vec<(Value, Value)>) -> Seq<(ValueView, ValueView)>
    decreases m,
{
    Seq::new(
        m.len() as nat,
        |i: int|
            if 0 <= i < m.len() {
                (m[i].0.view(), m[i].1.view())
            } else {
                (ValueView::Null, ValueView::Null)
            },
    )
}

/// The views of the fields of an object.
pub open spec fn members_view(o: &Vec<(String, Value)>) -> Seq<(Seq<char>, ValueView)>
    decreases o,
{
    Seq::new(
        o.len() as nat,
        |i: int|
            if 0 <= i < o.len() {
                (o[i].0@, o[i].1.view())
            } else {
                (Seq::empty(), ValueView::Null)
            },
    )
}

pub open spec fn tag_id() -> Seq<char> {
    "$id"@
}

pub open spec fn tag_bytes() -> Seq<char> {
    "$bytes"@
}

pub open spec fn tag_integer() -> Seq<char> {
    "$integer"@
}

pub open spec fn tag_float() -> Seq<char> {
    "$float"@
}

pub open spec fn tag_set() -> Seq<char> {
    "$set"@
}

pub open spec fn tag_map() -> Seq<char> {
    "$map"@
}

/// The names that a one-member object uses to mark a non-JSON value.
pub open spec fn is_reserved_tag(k: Seq<char>) -> bool {
    k == tag_id() || k == tag_bytes() || k == tag_integer() || k == tag_float() || k == tag_set()
        || k == tag_map()
}

/// The sign bit of a double.
pub const SIGN_BIT: u64 = 0x8000_0000_0000_0000;

/// Whether a double, by its bits, may be written as a bare JSON number: it is
/// neither NaN, nor an infinity, nor -0.
pub open spec fn is_bare_float(bits: u64) -> bool {
    (bits >> 52u64) & 0x7ffu64 != 0x7ffu64 && bits != SIGN_BIT
}

/// What `serde_json::Number::as_f64` makes of a non-negative integer, by bits.
pub uninterp spec fn f64_bits_of_u64(x: u64) -> u64;

/// Relies on `serde_json::Number::as_f64`, which converts a non-negative
/// integer to the nearest double; the result depends on the integer alone.
#[verifier::external_body]
fn u64_as_f64_bits(x: u64) -> (r: Option<u64>)
    ensures
        r == Some(f64_bits_of_u64(x)),
{
    serde_json::Number::from(x).as_f64().map(|f| f.to_bits())
}

/// The double nearest a negative integer: the one nearest its magnitude, with
/// the sign bit set.
pub open spec fn f64_bits_of_neg(n: i64) -> u64 {
    f64_bits_of_u64((-(n as int)) as u64) | SIGN_BIT
}

/// One JSON object with a single member.
pub open spec fn tagged(k: Seq<char>, j: Json) -> Json {
    Json::Object(seq![(k, j)])
}

/// The canonical JSON form of a value.
pub open spec fn json_of(v: ValueView) -> Json
    decreases v,
{
    match v {
        ValueView::Id(s) => tagged(tag_id(), Json::Str(s)),
        ValueView::Null => Json::Null,
        ValueView::Int64(n) => tagged(tag_integer(), Json::Str(i64_token(n))),
        ValueView::Float64(b) => if is_bare_float(b) {
            Json::Number(JsonNumber::Float(b))
        } else {
            tagged(tag_float(), Json::Str(u64_token(b)))
        },
        ValueView::Boolean(b) => Json::Bool(b),
        ValueView::String(s) => Json::Str(s),
        ValueView::Bytes(b) => tagged(tag_bytes(), Json::Str(base64_of(b))),
        ValueView::Array(xs) => Json::Array(
            Seq::new(xs.len(), |i: int| if 0 <= i < xs.len() { json_of(xs[i]) } else { Json::Null }),
        ),
        ValueView::ValueSet(xs) => tagged(
            tag_set(),
            Json::Array(
                Seq::new(
                    xs.len(),
                    |i: int| if 0 <= i < xs.len() { json_of(xs[i]) } else { Json::Null },
                ),
            ),
        ),
        ValueView::ValueMap(es) => tagged(
            tag_map(),
            Json::Array(
                Seq::new(
                    es.len(),
                    |i: int|
                        if 0 <= i < es.len() {
                            Json::Array(seq![json_of(es[i].0), json_of(es[i].1)])
                        } else {
                            Json::Null
                        },
                ),
            ),
        ),
        ValueView::Object(fs) => Json::Object(
            Seq::new(
                fs.len(),
                |i: int|
                    if 0 <= i < fs.len() {
                        (fs[i].0, json_of(fs[i].1))
                    } else {
                        (Seq::empty(), Json::Null)
                    },
            ),
        ),
    }
}

/// No two of the values are equal.
pub open spec fn distinct_values(xs: Seq<ValueView>) -> bool {
    forall|i: int, j: int| 0 <= i < j < xs.len() ==> xs[i] != xs[j]
}

/// The keys of a map's entries.
pub open spec fn keys_of(m: Seq<(ValueView, ValueView)>) -> Seq<ValueView> {
    m.map_values(|e: (ValueView, ValueView)| e.0)
}

/// A well-formed value: sets hold distinct elements, maps distinct keys,
/// objects distinct field names, and no object is a single field named by a
/// reserved tag.
pub open spec fn value_wf(v: ValueView) -> bool
    decreases v,
{
    match v {
        ValueView::Array(xs) => forall|i: int| 0 <= i < xs.len() ==> value_wf(#[trigger] xs[i]),
        ValueView::ValueSet(xs) => (forall|i: int| 0 <= i < xs.len() ==> value_wf(#[trigger] xs[i]))
            && distinct_values(xs),
        ValueView::ValueMap(es) => (forall|i: int|
            0 <= i < es.len() ==> value_wf(#[trigger] es[i].0) && value_wf(es[i].1)) && (forall|
            i: int,
            j: int,
        | 0 <= i < j < es.len() ==> es[i].0 != es[j].0),
        ValueView::Object(fs) => (forall|i: int| 0 <= i < fs.len() ==> value_wf(#[trigger] fs[i].1))
            && (forall|i: int, j: int| 0 <= i < j < fs.len() ==> fs[i].0 != fs[j].0) && !(fs.len()
            == 1 && is_reserved_tag(fs[0].0)),
        _ => true,
    }
}

/// The double that a JSON number stands for, by bits.
pub open spec fn number_bits(n: JsonNumber) -> u64 {
    match n {
        JsonNumber::PosInt(u) => f64_bits_of_u64(u),
        JsonNumber::NegInt(i) => if i < 0 {
            f64_bits_of_neg(i)
        } else {
            f64_bits_of_u64(i as u64)
        },
        JsonNumber::Float(b) => b,
    }
}

/// Whether every element of a `$map` payload is a pair.
pub open spec fn all_pairs(es: Seq<Json>) -> bool {
    forall|i: int| 0 <= i < es.len() ==> (#[trigger] es[i] is Array && es[i]->Array_0.len() == 2)
}

/// The result of decoding a JSON document as a value.
pub open spec fn value_of(j: Json) -> Result<ValueView, DecodeError>
    decreases j, 0nat,
{
    match j {
        Json::Null => Ok(ValueView::Null),
        Json::Bool(b) => Ok(ValueView::Boolean(b)),
        Json::Number(n) => Ok(ValueView::Float64(number_bits(n))),
        Json::Str(s) => Ok(ValueView::String(s)),
        Json::Array(js) => match values_of(js, js.len()) {
            Ok(xs) => Ok(ValueView::Array(xs)),
            Err(e) => Err(e),
        },
        Json::Object(fs) => if fs.len() == 1 && is_reserved_tag(fs[0].0) {
            let k = fs[0].0;
            let p = fs[0].1;
            if k == tag_id() {
                match p {
                    Json::Str(s) => Ok(ValueView::Id(s)),
                    _ => Err(DecodeError::ReservedTagAbuse),
                }
            } else if k == tag_bytes() {
                match p {
                    Json::Str(s) => match base64_decoded(s) {
                        Some(b) => Ok(ValueView::Bytes(b)),
                        None => Err(DecodeError::MalformedEncoding),
                    },
                    _ => Err(DecodeError::ReservedTagAbuse),
                }
            } else if k == tag_integer() {
                match p {
                    Json::Str(s) => match u64_of_token(s) {
                        Some(x) => Ok(ValueView::Int64(x as i64)),
                        None => Err(DecodeError::MalformedEncoding),
                    },
                    _ => Err(DecodeError::ReservedTagAbuse),
                }
            } else if k == tag_float() {
                match p {
                    Json::Str(s) => match u64_of_token(s) {
                        Some(x) => if is_bare_float(x) {
                            Err(DecodeError::RedundantFloatEncoding)
                        } else {
                            Ok(ValueView::Float64(x))
                        },
                        None => Err(DecodeError::MalformedEncoding),
                    },
                    _ => Err(DecodeError::ReservedTagAbuse),
                }
            } else if k == tag_set() {
                match p {
                    Json::Array(js) => match set_of(js, js.len()) {
                        Ok(xs) => Ok(ValueView::ValueSet(xs)),
                        Err(e) => Err(e),
                    },
                    _ => Err(DecodeError::ReservedTagAbuse),
                }
            } else {
                match p {
                    Json::Array(es) => if all_pairs(es) {
                        match map_of(es, es.len()) {
                            Ok(m) => Ok(ValueView::ValueMap(m)),
                            Err(e) => Err(e),
                        }
                    } else {
                        Err(DecodeError::ReservedTagAbuse)
                    },
                    _ => Err(DecodeError::ReservedTagAbuse),
                }
            }
        } else {
            match members_of(fs, fs.len()) {
                Ok(m) => Ok(ValueView::Object(m)),
                Err(e) => Err(e),
            }
        },
    }
}

/// Decodes the first `n` elements of an array, stopping at the first error.
pub open spec fn values_of(js: Seq<Json>, n: nat) -> Result<Seq<ValueView>, DecodeError>
    decreases js, n,
{
    if n == 0 || n > js.len() {
        Ok(Seq::empty())
    } else {
        match values_of(js, (n - 1) as nat) {
            Err(e) => Err(e),
            Ok(xs) => match value_of(js[n - 1]) {
                Err(e) => Err(e),
                Ok(v) => Ok(xs.push(v)),
            },
        }
    }
}

/// Decodes the first `n` elements of a `$set`, stopping at the first error
/// or repeated element.
pub open spec fn set_of(js: Seq<Json>, n: nat) -> Result<Seq<ValueView>, DecodeError>
    decreases js, n,
{
    if n == 0 || n > js.len() {
        Ok(Seq::empty())
    } else {
        match set_of(js, (n - 1) as nat) {
            Err(e) => Err(e),
            Ok(xs) => match value_of(js[n - 1]) {
                Err(e) => Err(e),
                Ok(v) => if xs.contains(v) {
                    Err(DecodeError::DuplicateSetElement)
                } else {
                    Ok(xs.push(v))
                },
            },
        }
    }
}

/// Decodes the first `n` pairs of a `$map`, stopping at the first error or
/// repeated key.
pub open spec fn map_of(es: Seq<Json>, n: nat) -> Result<Seq<(ValueView, ValueView)>, DecodeError>
    decreases es, n,
{
    if n == 0 || n > es.len() {
        Ok(Seq::empty())
    } else {
        match map_of(es, (n - 1) as nat) {
            Err(e) => Err(e),
            Ok(m) => match es[n - 1] {
                Json::Array(p) => if p.len() == 2 {
                    match value_of(p[0]) {
                        Err(e) => Err(e),
                        Ok(k) => if keys_of(m).contains(k) {
                            Err(DecodeError::DuplicateMapKey)
                        } else {
                            match value_of(p[1]) {
                                Err(e) => Err(e),
                                Ok(v) => Ok(m.push((k, v))),
                            }
                        },
                    }
                } else {
                    Err(DecodeError::ReservedTagAbuse)
                },
                _ => Err(DecodeError::ReservedTagAbuse),
            },
        }
    }
}

/// Decodes the values of the first `n` members of an object.
pub open spec fn members_of(fs: Seq<(Seq<char>, Json)>, n: nat) -> Result<
    Seq<(Seq<char>, ValueView)>,
    DecodeError,
>
    decreases fs, n,
{
    if n == 0 || n > fs.len() {
        Ok(Seq::empty())
    } else {
        match members_of(fs, (n - 1) as nat) {
            Err(e) => Err(e),
            Ok(m) => match value_of(fs[n - 1].1) {
                Err(e) => Err(e),
                Ok(v) => Ok(m.push((fs[n - 1].0, v))),
            },
        }
    }
}

/// Whether a double, by its bits, may be written as a bare JSON number.
pub fn bare_float(bits: u64) -> (r: bool)
    ensures
        r == is_bare_float(bits),
{
    (bits >> 52u64) & 0x7ffu64 != 0x7ffu64 && bits != SIGN_BIT
}

/// A one-member object.
fn make_tagged(k: &str, p: JsonValue) -> (r: JsonValue)
    ensures
        r@ == tagged(k@, p@),
{
    let v = vec![(String::from_str(k), p)];
    let r = JsonValue::Object(v);
    assert(fields_view(&v) =~= seq![(k@, p@)]);
    r
}

/// The canonical JSON forms of a vector of values.
fn values_to_json(a: &Vec<Value>) -> (r: Vec<JsonValue>)
    ensures
        r.len() == a.len(),
        forall|k: int| 0 <= k < a.len() ==> #[trigger] r[k]@ == json_of(a[k]@),
    decreases a,
{
    let mut out: Vec<JsonValue> = Vec::new();
    let mut i: usize = 0;
    while i < a.len()
        invariant
            i <= a.len(),
            out.len() == i,
            forall|k: int| 0 <= k < i ==> #[trigger] out[k]@ == json_of(a[k]@),
        decreases a.len() - i,
    {
        assert(decreases_to!(a => a[i as int]));
        let j = a[i].to_json();
        out.push(j);
        i += 1;
    }
    out
}

/// The canonical JSON forms of the entries of a map, each as a pair.
fn entries_to_json(m: &Vec<(Value, Value)>) -> (r: Vec<JsonValue>)
    ensures
        r.len() == m.len(),
        forall|k: int|
            0 <= k < m.len() ==> #[trigger] r[k]@ == Json::Array(
                seq![json_of(m[k].0@), json_of(m[k].1@)],
            ),
    decreases m,
{
    let mut out: Vec<JsonValue> = Vec::new();
    let mut i: usize = 0;
    while i < m.len()
        invariant
            i <= m.len(),
            out.len() == i,
            forall|k: int|
                0 <= k < i ==> #[trigger] out[k]@ == Json::Array(
                    seq![json_of(m[k].0@), json_of(m[k].1@)],
                ),
        decreases m.len() - i,
    {
        assert(decreases_to!(m => m[i as int]));
        let kj = m[i].0.to_json();
        let vj = m[i].1.to_json();
        let pair = vec![kj, vj];
        assert(items_view(&pair) =~= seq![kj@, vj@]);
        out.push(JsonValue::Array(pair));
        i += 1;
    }
    out
}

/// The fields of an object with their values in canonical JSON form.
fn members_to_json(o: &Vec<(String, Value)>) -> (r: Vec<(String, JsonValue)>)
    ensures
        r.len() == o.len(),
        forall|k: int|
            0 <= k < o.len() ==> #[trigger] r[k].0@ == o[k].0@ && r[k].1@ == json_of(o[k].1@),
    decreases o,
{
    let mut out: Vec<(String, JsonValue)> = Vec::new();
    let mut i: usize = 0;
    while i < o.len()
        invariant
            i <= o.len(),
            out.len() == i,
            forall|k: int|
                0 <= k < i ==> #[trigger] out[k].0@ == o[k].0@ && out[k].1@ == json_of(o[k].1@),
        decreases o.len() - i,
    {
        assert(decreases_to!(o => o[i as int]));
        let vj = o[i].1.to_json();
        out.push((o[i].0.clone(), vj));
        i += 1;
    }
    out
}

impl Value {
    /// The canonical JSON form of this value.
    pub fn to_json(&self) -> (r: JsonValue)
        ensures
            r@ == json_of(self@),
        decreases self,
    {
        match self {
            Value::Id(s) => make_tagged("$id", JsonValue::String(s.clone())),
            Value::Null => JsonValue::Null,
            Value::Int64(n) => make_tagged("$integer", JsonValue::String(encode_integer(*n))),
            Value::Float64(b) => {
                if bare_float(*b) {
                    JsonValue::Number(JsonNumber::Float(*b))
                } else {
                    make_tagged("$float", JsonValue::String(u64_to_string(*b)))
                }
            },
            Value::Boolean(b) => JsonValue::Bool(*b),
            Value::String(s) => JsonValue::String(s.clone()),
            Value::Bytes(b) => make_tagged("$bytes", JsonValue::String(encode_bytes(b))),
            Value::Array(a) => {
                let items = values_to_json(a);
                let r = JsonValue::Array(items);
                assert forall|k: int| 0 <= k < a.len() implies items_view(&items)[k] == json_of(
                    self@,
                )->Array_0[k] by {
                    assert(items_view(&items)[k] == items[k]@);
                    assert(self@ == ValueView::Array(values_view(a)));
                    assert(values_view(a)[k] == a[k]@);
                    assert(json_of(self@)->Array_0[k] == json_of(values_view(a)[k]));
                }
                assert(items_view(&items) =~= json_of(self@)->Array_0);
                r
            },
            Value::ValueSet(a) => {
                let items = values_to_json(a);
                let ghost js = items_view(&items);
                assert(self@ == ValueView::ValueSet(values_view(a)));
                assert forall|k: int| 0 <= k < a.len() implies js[k] == json_of(
                    self@,
                )->Object_0[0].1->Array_0[k] by {
                    assert(js[k] == items[k]@);
                    assert(self@ == ValueView::ValueSet(values_view(a)));
                    assert(values_view(a)[k] == a[k]@);
                }
                assert(js =~= json_of(self@)->Object_0[0].1->Array_0);
                make_tagged("$set", JsonValue::Array(items))
            },
            Value::ValueMap(m) => {
                let out = entries_to_json(m);
                let ghost js = items_view(&out);
                assert(self@ == ValueView::ValueMap(entries_view(m)));
                assert forall|k: int| 0 <= k < m.len() implies js[k] == json_of(
                    self@,
                )->Object_0[0].1->Array_0[k] by {
                    assert(js[k] == out[k]@);
                    assert(self@ == ValueView::ValueMap(entries_view(m)));
                    assert(entries_view(m)[k] == (m[k].0@, m[k].1@));
                }
                assert(js =~= json_of(self@)->Object_0[0].1->Array_0);
                make_tagged("$map", JsonValue::Array(out))
            },
            Value::Object(o) => {
                let out = members_to_json(o);
                let r = JsonValue::Object(out);
                assert(self@ == ValueView::Object(members_view(o)));
                assert forall|k: int| 0 <= k < o.len() implies fields_view(&out)[k] == json_of(
                    self@,
                )->Object_0[k] by {
                    assert(fields_view(&out)[k] == (out[k].0@, out[k].1@));
                    assert(self@ == ValueView::Object(members_view(o)));
                    assert(members_view(o)[k] == (o[k].0@, o[k].1@));
                }
                assert(fields_view(&out) =~= json_of(self@)->Object_0);
                r
            },
        }
    }
}

/// Whether two vectors of values are equal, element by element.
fn values_eq(x: &Vec<Value>, y: &Vec<Value>) -> (r: bool)
    ensures
        r == (values_view(x) == values_view(y)),
    decreases x,
{
    if x.len() != y.len() {
        assert(values_view(x).len() != values_view(y).len());
        return false;
    }
    let mut i: usize = 0;
    while i < x.len()
        invariant
            i <= x.len(),
            x.len() == y.len(),
            forall|k: int| 0 <= k < i ==> #[trigger] x[k]@ == y[k]@,
        decreases x.len() - i,
    {
        assert(decreases_to!(x => x[i as int]));
        if !value_eq(&x[i], &y[i]) {
            assert(values_view(x)[i as int] != values_view(y)[i as int]);
            return false;
        }
        i += 1;
    }
    assert forall|k: int| 0 <= k < x.len() implies values_view(x)[k] == values_view(y)[k] by {
        assert(values_view(x)[k] == x[k]@);
        assert(values_view(y)[k] == y[k]@);
    }
    assert(values_view(x) =~= values_view(y));
    true
}

/// Whether two vectors of map entries are equal, entry by entry.
fn entries_eq(x: &Vec<(Value, Value)>, y: &Vec<(Value, Value)>) -> (r: bool)
    ensures
        r == (entries_view(x) == entries_view(y)),
    decreases x,
{
    if x.len() != y.len() {
        assert(entries_view(x).len() != entries_view(y).len());
        return false;
    }
    let mut i: usize = 0;
    while i < x.len()
        invariant
            i <= x.len(),
            x.len() == y.len(),
            forall|k: int| 0 <= k < i ==> #[trigger] entries_view(x)[k] == entries_view(y)[k],
        decreases x.len() - i,
    {
        assert(decreases_to!(x => x[i as int]));
        if !value_eq(&x[i].0, &y[i].0) || !value_eq(&x[i].1, &y[i].1) {
            assert(entries_view(x)[i as int] != entries_view(y)[i as int]);
            return false;
        }
        assert(entries_view(x)[i as int] == entries_view(y)[i as int]);
        i += 1;
    }
    assert(entries_view(x) =~= entries_view(y));
    true
}

/// Whether two vectors of object fields are equal, field by field.
fn members_eq(x: &Vec<(String, Value)>, y: &Vec<(String, Value)>) -> (r: bool)
    ensures
        r == (members_view(x) == members_view(y)),
    decreases x,
{
    if x.len() != y.len() {
        assert(members_view(x).len() != members_view(y).len());
        return false;
    }
    let mut i: usize = 0;
    while i < x.len()
        invariant
            i <= x.len(),
            x.len() == y.len(),
            forall|k: int| 0 <= k < i ==> #[trigger] members_view(x)[k] == members_view(y)[k],
        decreases x.len() - i,
    {
        assert(decreases_to!(x => x[i as int]));
        if !x[i].0.eq(&y[i].0) || !value_eq(&x[i].1, &y[i].1) {
            assert(members_view(x)[i as int] != members_view(y)[i as int]);
            return false;
        }
        assert(members_view(x)[i as int] == members_view(y)[i as int]);
        i += 1;
    }
    assert(members_view(x) =~= members_view(y));
    true
}

/// Structural equality of values; doubles compare by bit pattern.
pub fn value_eq(a: &Value, b: &Value) -> (r: bool)
    ensures
        r == (a@ == b@),
    decreases a,
{
    match (a, b) {
        (Value::Id(x), Value::Id(y)) => x.eq(y),
        (Value::Null, Value::Null) => true,
        (Value::Int64(x), Value::Int64(y)) => *x == *y,
        (Value::Float64(x), Value::Float64(y)) => *x == *y,
        (Value::Boolean(x), Value::Boolean(y)) => *x == *y,
        (Value::String(x), Value::String(y)) => x.eq(y),
        (Value::Bytes(x), Value::Bytes(y)) => {
            if x.len() != y.len() {
                assert(x@.len() != y@.len());
                return false;
            }
            let mut i: usize = 0;
            while i < x.len()
                invariant
                    i <= x.len(),
                    x.len() == y.len(),
                    a@ == ValueView::Bytes(x@),
                    b@ == ValueView::Bytes(y@),
                    forall|k: int| 0 <= k < i ==> x[k] == y[k],
                decreases x.len() - i,
            {
                if x[i] != y[i] {
                    assert(x@[i as int] != y@[i as int]);
                    return false;
                }
                i += 1;
            }
            assert(x@ =~= y@);
            true
        },
        (Value::Array(x), Value::Array(y)) => values_eq(x, y),
        (Value::ValueSet(x), Value::ValueSet(y)) => values_eq(x, y),
        (Value::ValueMap(x), Value::ValueMap(y)) => entries_eq(x, y),
        (Value::Object(x), Value::Object(y)) => members_eq(x, y),
        _ => false,
    }
}

impl PartialEq for Value {
    fn eq(&self, other: &Value) -> (r: bool) {
        value_eq(self, other)
    }
}

impl vstd::std_specs::cmp::PartialEqSpecImpl for Value {
    open spec fn obeys_eq_spec() -> bool {
        true
    }

    open spec fn eq_spec(&self, other: &Value) -> bool {
        self@ == other@
    }
}

/// Decoding a JSON document gives back every well-formed value whose
/// canonical form it is.
pub open spec fn inverts_at(j: Json) -> bool {
    forall|v: ValueView| value_wf(v) && #[trigger] json_of(v) == j ==> value_of(j) == Ok::<
        ValueView,
        DecodeError,
    >(v)
}

/// `xs` are well-formed values whose canonical forms are `js`, in order.
pub open spec fn encodes_all(js: Seq<Json>, xs: Seq<ValueView>) -> bool {
    xs.len() == js.len() && forall|k: int|
        0 <= k < xs.len() ==> value_wf(#[trigger] xs[k]) && json_of(xs[k]) == js[k]
}

/// The six reserved tags are distinct.
pub proof fn lemma_tags_distinct()
    ensures
        tag_id() != tag_bytes() && tag_id() != tag_integer() && tag_id() != tag_float() && tag_id()
            != tag_set() && tag_id() != tag_map(),
        tag_bytes() != tag_integer() && tag_bytes() != tag_float() && tag_bytes() != tag_set()
            && tag_bytes() != tag_map(),
        tag_integer() != tag_float() && tag_integer() != tag_set() && tag_integer() != tag_map(),
        tag_float() != tag_set() && tag_float() != tag_map(),
        tag_set() != tag_map(),
{
    reveal_strlit("$id");
    reveal_strlit("$bytes");
    reveal_strlit("$integer");
    reveal_strlit("$float");
    reveal_strlit("$set");
    reveal_strlit("$map");
    assert(tag_id().len() == 3);
    assert(tag_set().len() == 4 && tag_map().len() == 4);
    assert(tag_bytes().len() == 6 && tag_float().len() == 6);
    assert(tag_integer().len() == 8);
    assert(tag_set()[1] != tag_map()[1]);
    assert(tag_bytes()[1] != tag_float()[1]);
}

/// Once a prefix of an array fails to decode, so does the whole array.
proof fn lemma_values_err(js: Seq<Json>, i: nat, n: nat)
    requires
        i <= n <= js.len(),
        values_of(js, i) is Err,
    ensures
        values_of(js, n) == values_of(js, i),
    decreases n - i,
{
    if i < n {
        lemma_values_err(js, i, (n - 1) as nat);
    }
}

/// Once a prefix of a `$set` fails to decode, so does the whole set.
proof fn lemma_set_err(js: Seq<Json>, i: nat, n: nat)
    requires
        i <= n <= js.len(),
        set_of(js, i) is Err,
    ensures
        set_of(js, n) == set_of(js, i),
    decreases n - i,
{
    if i < n {
        lemma_set_err(js, i, (n - 1) as nat);
    }
}

/// Once a prefix of a `$map` fails to decode, so does the whole map.
proof fn lemma_map_err(es: Seq<Json>, i: nat, n: nat)
    requires
        i <= n <= es.len(),
        map_of(es, i) is Err,
    ensures
        map_of(es, n) == map_of(es, i),
    decreases n - i,
{
    if i < n {
        lemma_map_err(es, i, (n - 1) as nat);
    }
}

/// Once a prefix of an object fails to decode, so does the whole object.
proof fn lemma_members_err(fs: Seq<(Seq<char>, Json)>, i: nat, n: nat)
    requires
        i <= n <= fs.len(),
        members_of(fs, i) is Err,
    ensures
        members_of(fs, n) == members_of(fs, i),
    decreases n - i,
{
    if i < n {
        lemma_members_err(fs, i, (n - 1) as nat);
    }
}

/// The double that a JSON number stands for, by bits.
fn number_to_bits(n: JsonNumber) -> (r: u64)
    ensures
        r == number_bits(n),
{
    match n {
        JsonNumber::PosInt(u) => u64_as_f64_bits(u).unwrap(),
        JsonNumber::NegInt(i) => {
            if i < 0 {
                let m: u64 = ((-(i + 1)) as u64) + 1;
                assert(m == (-(i as int)) as u64);
                u64_as_f64_bits(m).unwrap() | SIGN_BIT
            } else {
                u64_as_f64_bits(i as u64).unwrap()
            }
        },
        JsonNumber::Float(b) => b,
    }
}

/// Decodes the elements of an array.
fn decode_values(a: &Vec<JsonValue>) -> (r: Result<Vec<Value>, DecodeError>)
    ensures
        match r {
            Ok(xs) => values_of(items_view(a), a.len() as nat) == Ok::<
                Seq<ValueView>,
                DecodeError,
            >(values_view(&xs)),
            Err(e) => values_of(items_view(a), a.len() as nat) == Err::<
                Seq<ValueView>,
                DecodeError,
            >(e),
        },
        forall|xs: Seq<ValueView>|
            #[trigger] encodes_all(items_view(a), xs) ==> values_of(items_view(a), a.len() as nat)
                == Ok::<Seq<ValueView>, DecodeError>(xs),
    decreases a, 0nat,
{
    let ghost js = items_view(a);
    let mut out: Vec<Value> = Vec::new();
    let mut i: usize = 0;
    assert(values_view(&out) =~= Seq::<ValueView>::empty());
    while i < a.len()
        invariant
            i <= a.len(),
            js == items_view(a),
            out.len() == i,
            values_of(js, i as nat) == Ok::<Seq<ValueView>, DecodeError>(values_view(&out)),
            forall|xs: Seq<ValueView>|
                #[trigger] encodes_all(js, xs) ==> values_view(&out) =~= xs.take(i as int),
        decreases a.len() - i,
    {
        assert(decreases_to!(a => a[i as int]));
        assert(js[i as int] == a[i as int]@);
        match Value::from_json(&a[i]) {
            Ok(x) => {
                let ghost before = values_view(&out);
                out.push(x);
                assert(values_view(&out) =~= before.push(x@));
                assert forall|xs: Seq<ValueView>| #[trigger]
                    encodes_all(js, xs) implies values_view(&out) =~= xs.take(i + 1) by {
                    assert(value_wf(xs[i as int]) && json_of(xs[i as int]) == js[i as int]);
                    assert(values_view(&out) =~= xs.take(i as int).push(xs[i as int]));
                }
            },
            Err(e) => {
                proof {
                    lemma_values_err(js, (i + 1) as nat, a.len() as nat);
                    assert forall|xs: Seq<ValueView>| #[trigger] encodes_all(js, xs) implies false by {
                        assert(value_wf(xs[i as int]) && json_of(xs[i as int]) == js[i as int]);
                    }
                }
                return Err(e);
            },
        }
        i += 1;
    }
    assert forall|xs: Seq<ValueView>| #[trigger] encodes_all(js, xs) implies values_view(&out)
        == xs by {
        assert(xs.take(i as int) =~= xs);
    }
    Ok(out)
}

impl Value {
    /// Decodes a JSON document. The canonical form of a well-formed value
    /// decodes back to that value.
    pub fn from_json(j: &JsonValue) -> (r: Result<Value, DecodeError>)
        ensures
            match r {
                Ok(v) => value_of(j@) == Ok::<ValueView, DecodeError>(v@),
                Err(e) => value_of(j@) == Err::<ValueView, DecodeError>(e),
            },
            inverts_at(j@),
        decreases j, 1nat,
    {
        match j {
            JsonValue::Null => Ok(Value::Null),
            JsonValue::Bool(b) => Ok(Value::Boolean(*b)),
            JsonValue::Number(n) => Ok(Value::Float64(number_to_bits(*n))),
            JsonValue::String(s) => Ok(Value::String(s.clone())),
            JsonValue::Array(a) => {
                let r = decode_values(a);
                proof {
                    assert forall|v: ValueView| value_wf(v) && #[trigger] json_of(v) == j@ implies value_of(
                        j@,
                    ) == Ok::<ValueView, DecodeError>(v) by {
                        let xs = v->Array_0;
                        assert(encodes_all(items_view(a), xs));
                    }
                }
                match r {
                    Ok(xs) => Ok(Value::Array(xs)),
                    Err(e) => Err(e),
                }
            },
            JsonValue::Object(o) => {
                if o.len() == 1 {
                    Value::from_single_member(j, o)
                } else {
                    let r = decode_members(o);
                    proof {
                        assert forall|v: ValueView| value_wf(v) && #[trigger] json_of(v) == j@ implies value_of(
                            j@,
                        ) == Ok::<ValueView, DecodeError>(v) by {
                            let fs = v->Object_0;
                            assert(encodes_members(fields_view(o), fs));
                        }
                    }
                    match r {
                        Ok(fs) => Ok(Value::Object(fs)),
                        Err(e) => Err(e),
                    }
                }
            },
        }
    }
}

/// `fs` are fields with well-formed values whose canonical forms are the
/// members `ms`, in order.
pub open spec fn encodes_members(ms: Seq<(Seq<char>, Json)>, fs: Seq<(Seq<char>, ValueView)>) -> bool {
    fs.len() == ms.len() && forall|k: int|
        0 <= k < fs.len() ==> value_wf(#[trigger] fs[k].1) && ms[k] == (fs[k].0, json_of(fs[k].1))
}

/// `m` are entries of well-formed values whose canonical pairs are `es`, in
/// order.
pub open spec fn encodes_entries(es: Seq<Json>, m: Seq<(ValueView, ValueView)>) -> bool {
    m.len() == es.len() && forall|k: int|
        0 <= k < m.len() ==> value_wf(#[trigger] m[k].0) && value_wf(m[k].1) && es[k]
            == Json::Array(seq![json_of(m[k].0), json_of(m[k].1)])
}

/// Whether `x` equals one of `xs`.
fn contains_value(xs: &Vec<Value>, x: &Value) -> (r: bool)
    ensures
        r == values_view(xs).contains(x@),
{
    let mut i: usize = 0;
    while i < xs.len()
        invariant
            i <= xs.len(),
            forall|k: int| 0 <= k < i ==> values_view(xs)[k] != x@,
        decreases xs.len() - i,
    {
        if value_eq(&xs[i], x) {
            assert(values_view(xs)[i as int] == x@);
            return true;
        }
        i += 1;
    }
    false
}

/// Whether `k` equals the key of one of the entries.
fn contains_key(m: &Vec<(Value, Value)>, k: &Value) -> (r: bool)
    ensures
        r == keys_of(entries_view(m)).contains(k@),
{
    let mut i: usize = 0;
    while i < m.len()
        invariant
            i <= m.len(),
            forall|j: int| 0 <= j < i ==> keys_of(entries_view(m))[j] != k@,
        decreases m.len() - i,
    {
        if value_eq(&m[i].0, k) {
            assert(keys_of(entries_view(m))[i as int] == k@);
            return true;
        }
        i += 1;
    }
    false
}

/// Decodes the elements of a `$set`, rejecting a repeated element.
fn decode_set(a: &Vec<JsonValue>) -> (r: Result<Vec<Value>, DecodeError>)
    ensures
        match r {
            Ok(xs) => set_of(items_view(a), a.len() as nat) == Ok::<Seq<ValueView>, DecodeError>(
                values_view(&xs),
            ),
            Err(e) => set_of(items_view(a), a.len() as nat) == Err::<Seq<ValueView>, DecodeError>(
                e,
            ),
        },
        forall|xs: Seq<ValueView>|
            #[trigger] encodes_all(items_view(a), xs) && distinct_values(xs) ==> set_of(
                items_view(a),
                a.len() as nat,
            ) == Ok::<Seq<ValueView>, DecodeError>(xs),
    decreases a, 0nat,
{
    let ghost js = items_view(a);
    let mut out: Vec<Value> = Vec::new();
    let mut i: usize = 0;
    assert(values_view(&out) =~= Seq::<ValueView>::empty());
    while i < a.len()
        invariant
            i <= a.len(),
            js == items_view(a),
            out.len() == i,
            set_of(js, i as nat) == Ok::<Seq<ValueView>, DecodeError>(values_view(&out)),
            forall|xs: Seq<ValueView>|
                #[trigger] encodes_all(js, xs) ==> values_view(&out) =~= xs.take(i as int),
        decreases a.len() - i,
    {
        assert(decreases_to!(a => a[i as int]));
        assert(js[i as int] == a[i as int]@);
        match Value::from_json(&a[i]) {
            Ok(x) => {
                if contains_value(&out, &x) {
                    proof {
                        lemma_set_err(js, (i + 1) as nat, a.len() as nat);
                        assert forall|xs: Seq<ValueView>| #[trigger]
                            encodes_all(js, xs) && distinct_values(xs) implies false by {
                            assert(value_wf(xs[i as int]) && json_of(xs[i as int]) == js[i as int]);
                            let k = choose|k: int| 0 <= k < i && values_view(&out)[k] == x@;
                            assert(xs.take(i as int)[k] == xs[k]);
                        }
                    }
                    return Err(DecodeError::DuplicateSetElement);
                }
                let ghost before = values_view(&out);
                out.push(x);
                assert(values_view(&out) =~= before.push(x@));
                assert forall|xs: Seq<ValueView>| #[trigger]
                    encodes_all(js, xs) implies values_view(&out) =~= xs.take(i + 1) by {
                    assert(value_wf(xs[i as int]) && json_of(xs[i as int]) == js[i as int]);
                    assert(values_view(&out) =~= xs.take(i as int).push(xs[i as int]));
                }
            },
            Err(e) => {
                proof {
                    lemma_set_err(js, (i + 1) as nat, a.len() as nat);
                    assert forall|xs: Seq<ValueView>| #[trigger] encodes_all(js, xs) implies false by {
                        assert(value_wf(xs[i as int]) && json_of(xs[i as int]) == js[i as int]);
                    }
                }
                return Err(e);
            },
        }
        i += 1;
    }
    assert forall|xs: Seq<ValueView>| #[trigger] encodes_all(js, xs) implies values_view(&out)
        == xs by {
        assert(xs.take(i as int) =~= xs);
    }
    Ok(out)
}

/// Decodes the members of an object, field by field.
fn decode_members(o: &Vec<(String, JsonValue)>) -> (r: Result<Vec<(String, Value)>, DecodeError>)
    ensures
        match r {
            Ok(fs) => members_of(fields_view(o), o.len() as nat) == Ok::<
                Seq<(Seq<char>, ValueView)>,
                DecodeError,
            >(members_view(&fs)),
            Err(e) => members_of(fields_view(o), o.len() as nat) == Err::<
                Seq<(Seq<char>, ValueView)>,
                DecodeError,
            >(e),
        },
        forall|fs: Seq<(Seq<char>, ValueView)>|
            #[trigger] encodes_members(fields_view(o), fs) ==> members_of(
                fields_view(o),
                o.len() as nat,
            ) == Ok::<Seq<(Seq<char>, ValueView)>, DecodeError>(fs),
    decreases o, 0nat,
{
    let ghost ms = fields_view(o);
    let mut out: Vec<(String, Value)> = Vec::new();
    let mut i: usize = 0;
    assert(members_view(&out) =~= Seq::<(Seq<char>, ValueView)>::empty());
    while i < o.len()
        invariant
            i <= o.len(),
            ms == fields_view(o),
            out.len() == i,
            members_of(ms, i as nat) == Ok::<Seq<(Seq<char>, ValueView)>, DecodeError>(
                members_view(&out),
            ),
            forall|fs: Seq<(Seq<char>, ValueView)>|
                #[trigger] encodes_members(ms, fs) ==> members_view(&out) =~= fs.take(i as int),
        decreases o.len() - i,
    {
        assert(decreases_to!(o => o[i as int]));
        assert(ms[i as int] == (o[i as int].0@, o[i as int].1@));
        match Value::from_json(&o[i].1) {
            Ok(x) => {
                let ghost before = members_view(&out);
                out.push((o[i].0.clone(), x));
                assert(members_view(&out) =~= before.push((o[i as int].0@, x@)));
                assert forall|fs: Seq<(Seq<char>, ValueView)>| #[trigger]
                    encodes_members(ms, fs) implies members_view(&out) =~= fs.take(i + 1) by {
                    assert(value_wf(fs[i as int].1) && ms[i as int] == (
                        fs[i as int].0,
                        json_of(fs[i as int].1),
                    ));
                    assert(members_view(&out) =~= fs.take(i as int).push(fs[i as int]));
                }
            },
            Err(e) => {
                proof {
                    lemma_members_err(ms, (i + 1) as nat, o.len() as nat);
                    assert forall|fs: Seq<(Seq<char>, ValueView)>| #[trigger]
                        encodes_members(ms, fs) implies false by {
                        assert(value_wf(fs[i as int].1) && ms[i as int] == (
                            fs[i as int].0,
                            json_of(fs[i as int].1),
                        ));
                    }
                }
                return Err(e);
            },
        }
        i += 1;
    }
    assert forall|fs: Seq<(Seq<char>, ValueView)>| #[trigger]
        encodes_members(ms, fs) implies members_view(&out) == fs by {
        assert(fs.take(i as int) =~= fs);
    }
    Ok(out)
}

/// Whether every element of an array is a pair.
fn all_pairs_exec(a: &Vec<JsonValue>) -> (r: bool)
    ensures
        r == all_pairs(items_view(a)),
{
    let mut i: usize = 0;
    while i < a.len()
        invariant
            i <= a.len(),
            forall|k: int|
                0 <= k < i ==> (#[trigger] items_view(a)[k] is Array && items_view(a)[k]->Array_0.len()
                    == 2),
        decreases a.len() - i,
    {
        assert(items_view(a)[i as int] == a[i as int]@);
        match &a[i] {
            JsonValue::Array(p) => {
                assert(a[i as int]@ == Json::Array(items_view(p)));
                assert(items_view(p).len() == p.len());
                if p.len() != 2 {
                    return false;
                }
            },
            _ => {
                assert(!(items_view(a)[i as int] is Array));
                return false;
            },
        }
        i += 1;
    }
    true
}

/// Decodes the pairs of a `$map`, rejecting a repeated key.
fn decode_map(a: &Vec<JsonValue>) -> (r: Result<Vec<(Value, Value)>, DecodeError>)
    requires
        all_pairs(items_view(a)),
    ensures
        match r {
            Ok(m) => map_of(items_view(a), a.len() as nat) == Ok::<
                Seq<(ValueView, ValueView)>,
                DecodeError,
            >(entries_view(&m)),
            Err(e) => map_of(items_view(a), a.len() as nat) == Err::<
                Seq<(ValueView, ValueView)>,
                DecodeError,
            >(e),
        },
        forall|m: Seq<(ValueView, ValueView)>|
            #[trigger] encodes_entries(items_view(a), m) && distinct_values(keys_of(m)) ==> map_of(
                items_view(a),
                a.len() as nat,
            ) == Ok::<Seq<(ValueView, ValueView)>, DecodeError>(m),
    decreases a, 0nat,
{
    let ghost es = items_view(a);
    let mut out: Vec<(Value, Value)> = Vec::new();
    let mut i: usize = 0;
    assert(entries_view(&out) =~= Seq::<(ValueView, ValueView)>::empty());
    while i < a.len()
        invariant
            i <= a.len(),
            es == items_view(a),
            all_pairs(es),
            out.len() == i,
            map_of(es, i as nat) == Ok::<Seq<(ValueView, ValueView)>, DecodeError>(
                entries_view(&out),
            ),
            forall|m: Seq<(ValueView, ValueView)>|
                #[trigger] encodes_entries(es, m) ==> entries_view(&out) =~= m.take(i as int),
        decreases a.len() - i,
    {
        assert(decreases_to!(a => a[i as int]));
        assert(es[i as int] == a[i as int]@);
        assert(es[i as int] is Array);
        let p = match &a[i] {
            JsonValue::Array(p) => p,
            _ => {
                assert(false);
                return Err(DecodeError::ReservedTagAbuse);
            },
        };
        let ghost ps = items_view(p);
        assert(ps.len() == 2 && ps[0] == p[0]@ && ps[1] == p[1]@);
        assert(decreases_to!(p => p[0]));
        assert(decreases_to!(p => p[1]));
        let k = match Value::from_json(&p[0]) {
            Ok(k) => k,
            Err(e) => {
                proof {
                    lemma_map_err(es, (i + 1) as nat, a.len() as nat);
                    assert forall|m: Seq<(ValueView, ValueView)>| #[trigger]
                        encodes_entries(es, m) implies false by {
                        assert(value_wf(m[i as int].0));
                        assert(Json::Array(ps) == Json::Array(
                            seq![json_of(m[i as int].0), json_of(m[i as int].1)],
                        ));
                        assert(ps[0] == json_of(m[i as int].0));
                    }
                }
                return Err(e);
            },
        };
        if contains_key(&out, &k) {
            proof {
                lemma_map_err(es, (i + 1) as nat, a.len() as nat);
                assert forall|m: Seq<(ValueView, ValueView)>| #[trigger]
                    encodes_entries(es, m) && distinct_values(keys_of(m)) implies false by {
                    assert(value_wf(m[i as int].0));
                    assert(Json::Array(ps) == Json::Array(
                        seq![json_of(m[i as int].0), json_of(m[i as int].1)],
                    ));
                    assert(ps[0] == json_of(m[i as int].0));
                    let j = choose|j: int| 0 <= j < i && keys_of(entries_view(&out))[j] == k@;
                    assert(m.take(i as int)[j] == m[j]);
                    assert(keys_of(m)[j] == keys_of(m)[i as int]);
                }
            }
            return Err(DecodeError::DuplicateMapKey);
        }
        let v = match Value::from_json(&p[1]) {
            Ok(v) => v,
            Err(e) => {
                proof {
                    lemma_map_err(es, (i + 1) as nat, a.len() as nat);
                    assert forall|m: Seq<(ValueView, ValueView)>| #[trigger]
                        encodes_entries(es, m) implies false by {
                        assert(value_wf(m[i as int].1));
                        assert(Json::Array(ps) == Json::Array(
                            seq![json_of(m[i as int].0), json_of(m[i as int].1)],
                        ));
                        assert(ps[1] == json_of(m[i as int].1));
                    }
                }
                return Err(e);
            },
        };
        let ghost before = entries_view(&out);
        let ghost kv = (k@, v@);
        out.push((k, v));
        assert(entries_view(&out) =~= before.push(kv));
        assert forall|m: Seq<(ValueView, ValueView)>| #[trigger]
            encodes_entries(es, m) implies entries_view(&out) =~= m.take(i + 1) by {
            assert(value_wf(m[i as int].0) && value_wf(m[i as int].1));
            assert(Json::Array(ps) == Json::Array(
                seq![json_of(m[i as int].0), json_of(m[i as int].1)],
            ));
            assert(ps[0] == json_of(m[i as int].0));
            assert(ps[1] == json_of(m[i as int].1));
            assert(entries_view(&out) =~= m.take(i as int).push(m[i as int]));
        }
        i += 1;
    }
    assert forall|m: Seq<(ValueView, ValueView)>| #[trigger]
        encodes_entries(es, m) implies entries_view(&out) == m by {
        assert(m.take(i as int) =~= m);
    }
    Ok(out)
}

impl Value {
    /// Decodes a one-member object: a reserved tag and its payload, or an
    /// ordinary object of one field.
    fn from_single_member(j: &JsonValue, o: &Vec<(String, JsonValue)>) -> (r: Result<
        Value,
        DecodeError,
    >)
        requires
            *j == JsonValue::Object(*o),
            o.len() == 1,
        ensures
            match r {
                Ok(v) => value_of(j@) == Ok::<ValueView, DecodeError>(v@),
                Err(e) => value_of(j@) == Err::<ValueView, DecodeError>(e),
            },
            inverts_at(j@),
        decreases j, 0nat,
    {
        proof {
            lemma_tags_distinct();
        }
        let ghost ms = fields_view(o);
        assert(ms.len() == 1 && ms[0] == (o[0].0@, o[0].1@));
        assert(decreases_to!(o => o[0]));
        let k = &o[0].0;
        let p = &o[0].1;
        if str_is(k, "$id") {
            match p {
                JsonValue::String(s) => Ok(Value::Id(s.clone())),
                _ => Err(DecodeError::ReservedTagAbuse),
            }
        } else if str_is(k, "$bytes") {
            match p {
                JsonValue::String(s) => match decode_bytes(s.as_str()) {
                    Ok(b) => Ok(Value::Bytes(b)),
                    Err(e) => Err(e),
                },
                _ => Err(DecodeError::ReservedTagAbuse),
            }
        } else if str_is(k, "$integer") {
            match p {
                JsonValue::String(s) => match decode_integer(s.as_str()) {
                    Ok(n) => {
                        assert((n as u64) as i64 == n) by (bit_vector);
                        Ok(Value::Int64(n))
                    },
                    Err(e) => Err(e),
                },
                _ => Err(DecodeError::ReservedTagAbuse),
            }
        } else if str_is(k, "$float") {
            match p {
                JsonValue::String(s) => match string_to_u64(s.as_str()) {
                    Ok(x) => {
                        if bare_float(x) {
                            Err(DecodeError::RedundantFloatEncoding)
                        } else {
                            Ok(Value::Float64(x))
                        }
                    },
                    Err(e) => Err(e),
                },
                _ => Err(DecodeError::ReservedTagAbuse),
            }
        } else if str_is(k, "$set") {
            match p {
                JsonValue::Array(a) => {
                    let r = decode_set(a);
                    proof {
                        assert forall|v: ValueView| value_wf(v) && #[trigger] json_of(v) == j@ implies value_of(
                            j@,
                        ) == Ok::<ValueView, DecodeError>(v) by {
                            let xs = v->ValueSet_0;
                            assert(encodes_all(items_view(a), xs));
                        }
                    }
                    match r {
                        Ok(xs) => Ok(Value::ValueSet(xs)),
                        Err(e) => Err(e),
                    }
                },
                _ => Err(DecodeError::ReservedTagAbuse),
            }
        } else if str_is(k, "$map") {
            match p {
                JsonValue::Array(a) => {
                    if !all_pairs_exec(a) {
                        return Err(DecodeError::ReservedTagAbuse);
                    }
                    let r = decode_map(a);
                    proof {
                        assert forall|v: ValueView| value_wf(v) && #[trigger] json_of(v) == j@ implies value_of(
                            j@,
                        ) == Ok::<ValueView, DecodeError>(v) by {
                            let m = v->ValueMap_0;
                            assert(encodes_entries(items_view(a), m));
                        }
                    }
                    match r {
                        Ok(m) => Ok(Value::ValueMap(m)),
                        Err(e) => Err(e),
                    }
                },
                _ => Err(DecodeError::ReservedTagAbuse),
            }
        } else {
            let r = decode_members(o);
            proof {
                assert forall|v: ValueView| value_wf(v) && #[trigger] json_of(v) == j@ implies value_of(
                    j@,
                ) == Ok::<ValueView, DecodeError>(v) by {
                    let fs = v->Object_0;
                    assert(encodes_members(fields_view(o), fs));
                }
            }
            match r {
                Ok(fs) => Ok(Value::Object(fs)),
                Err(e) => Err(e),
            }
        }
    }
}

} // verus!
