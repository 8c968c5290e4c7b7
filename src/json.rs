//! A JSON document tree, and its mathematical view.

use vstd::prelude::*;
use vstd::string::*;

use crate::error::DecodeError;

verus! {

/// A JSON number as a parser hands it over: a non-negative integer, a
/// negative integer, or a double given by its IEEE-754 bit pattern.
#[derive(Clone, Copy, PartialEq, Eq, Structural, Debug)]
pub enum JsonNumber {
    PosInt(u64),
    NegInt(i64),
    Float(u64),
}

/// A JSON document. Object members keep the order in which they were given.
#[derive(Debug)]
pub enum JsonValue {
    Null,
    Bool(bool),
    Number(JsonNumber),
    String(String),
    Array(Vec<JsonValue>),
    Object(Vec<(String, JsonValue)>),
}

/// The view of a `JsonValue`.
pub enum Json {
    Null,
    Bool(bool),
    Number(JsonNumber),
    Str(Seq<char>),
    Array(Seq<Json>),
    Object(Seq<(Seq<char>, Json)>),
}

impl View for JsonValue {
    type V = Json;

    open spec fn view(&self) -> Json
        decreases self,
    {
        match self {
            JsonValue::Null => Json::Null,
            JsonValue::Bool(b) => Json::Bool(*b),
            JsonValue::Number(n) => Json::Number(*n),
            JsonValue::String(s) => Json::Str(s@),
            JsonValue::Array(a) => Json::Array(items_view(a)),
            JsonValue::Object(o) => Json::Object(fields_view(o)),
        }
    }
}

/// The views of the elements of an array.
pub open spec fn items_view(a: &Vec<JsonValue>) -> Seq<Json>
    decreases a,
{
    Seq::new(
        a.len() as nat,
        |i: int|
            if 0 <= i < a.len() {
                a[i].view()
            } else {
                Json::Null
            },
    )
}

/// The views of the members of an object.
pub open spec fn fields_view(o: &Vec<(String, JsonValue)>) -> Seq<(Seq<char>, Json)>
    decreases o,
{
    Seq::new(
        o.len() as nat,
        |i: int|
            if 0 <= i < o.len() {
                (o[i].0@, o[i].1.view())
            } else {
                (Seq::empty(), Json::Null)
            },
    )
}

/// The value of the first member named `k`, if any.
pub open spec fn lookup(fields: Seq<(Seq<char>, Json)>, k: Seq<char>) -> Option<Json>
    decreases fields.len(),
{
    if fields.len() == 0 {
        None
    } else if fields[0].0 == k {
        Some(fields[0].1)
    } else {
        lookup(fields.drop_first(), k)
    }
}

/// No two members share a name.
pub open spec fn distinct_names(fields: Seq<(Seq<char>, Json)>) -> bool {
    forall|i: int, j: int|
        0 <= i < fields.len() && 0 <= j < fields.len() && i != j ==> fields[i].0 != fields[j].0
}

/// Whether `s` holds the same characters as `lit`.
pub fn str_is(s: &String, lit: &str) -> (r: bool)
    ensures
        r == (s@ == lit@),
{
    let l = String::from_str(lit);
    s.eq(&l)
}

/// The member named `k` of an object, if any.
pub fn get_field<'a>(fields: &'a Vec<(String, JsonValue)>, k: &str) -> (r: Option<&'a JsonValue>)
    ensures
        match r {
            Some(x) => lookup(fields_view(fields), k@) == Some(x@),
            None => lookup(fields_view(fields), k@) is None,
        },
{
    let ghost all = fields_view(fields);
    let mut i: usize = 0;
    assert(all.skip(0) =~= all);
    while i < fields.len()
        invariant
            0 <= i <= fields.len(),
            all == fields_view(fields),
            lookup(all, k@) == lookup(all.skip(i as int), k@),
        decreases fields.len() - i,
    {
        assert(all.skip(i as int).drop_first() =~= all.skip(i + 1));
        assert(all.skip(i as int)[0] == all[i as int]);
        if str_is(&fields[i].0, k) {
            return Some(&fields[i].1);
        }
        i += 1;
    }
    None
}

/// A number that a 32-bit unsigned field accepts.
pub open spec fn num(x: u32) -> Json {
    Json::Number(JsonNumber::PosInt(x as u64))
}

/// A required member holding a 32-bit unsigned integer.
pub open spec fn u32_of(m: Option<Json>) -> Result<u32, DecodeError> {
    match m {
        None => Err(DecodeError::MissingField),
        Some(Json::Number(JsonNumber::PosInt(u))) => if u <= u32::MAX {
            Ok(u as u32)
        } else {
            Err(DecodeError::InvalidType)
        },
        Some(_) => Err(DecodeError::InvalidType),
    }
}

/// An optional member holding a 32-bit unsigned integer; `null` is absent.
pub open spec fn opt_u32_of(m: Option<Json>) -> Result<Option<u32>, DecodeError> {
    match m {
        None => Ok(None),
        Some(Json::Null) => Ok(None),
        Some(x) => match u32_of(Some(x)) {
            Ok(u) => Ok(Some(u)),
            Err(e) => Err(e),
        },
    }
}

/// A required member holding text.
pub open spec fn str_of(m: Option<Json>) -> Result<Seq<char>, DecodeError> {
    match m {
        None => Err(DecodeError::MissingField),
        Some(Json::Str(s)) => Ok(s),
        Some(_) => Err(DecodeError::InvalidType),
    }
}

/// An optional member holding text; `null` is absent.
pub open spec fn opt_str_of(m: Option<Json>) -> Result<Option<Seq<char>>, DecodeError> {
    match m {
        None => Ok(None),
        Some(Json::Null) => Ok(None),
        Some(Json::Str(s)) => Ok(Some(s)),
        Some(_) => Err(DecodeError::InvalidType),
    }
}

/// A required member holding an array.
pub open spec fn array_of(m: Option<Json>) -> Result<Seq<Json>, DecodeError> {
    match m {
        None => Err(DecodeError::MissingField),
        Some(Json::Array(xs)) => Ok(xs),
        Some(_) => Err(DecodeError::InvalidType),
    }
}

/// A copy of a JSON document.
pub fn copy_json(j: &JsonValue) -> (r: JsonValue)
    ensures
        r@ == j@,
    decreases j,
{
    match j {
        JsonValue::Null => JsonValue::Null,
        JsonValue::Bool(b) => JsonValue::Bool(*b),
        JsonValue::Number(n) => JsonValue::Number(*n),
        JsonValue::String(s) => JsonValue::String(s.clone()),
        JsonValue::Array(a) => {
            let c = copy_items(a);
            JsonValue::Array(c)
        },
        JsonValue::Object(o) => {
            let c = copy_fields(o);
            JsonValue::Object(c)
        },
    }
}

/// A copy of the members of an object.
pub fn copy_fields(o: &Vec<(String, JsonValue)>) -> (r: Vec<(String, JsonValue)>)
    ensures
        fields_view(&r) == fields_view(o),
    decreases o,
{
    let mut out: Vec<(String, JsonValue)> = Vec::new();
    let mut i: usize = 0;
    while i < o.len()
        invariant
            i <= o.len(),
            out.len() == i,
            forall|k: int| 0 <= k < i ==> #[trigger] fields_view(&out)[k] == fields_view(o)[k],
        decreases o.len() - i,
    {
        assert(decreases_to!(o => o[i as int]));
        let v = copy_json(&o[i].1);
        let ghost before = fields_view(&out);
        out.push((o[i].0.clone(), v));
        assert(fields_view(&out) =~= before.push((o[i as int].0@, o[i as int].1@)));
        i += 1;
    }
    assert(fields_view(&out) =~= fields_view(o));
    out
}

/// A copy of the elements of an array.
pub fn copy_items(a: &Vec<JsonValue>) -> (r: Vec<JsonValue>)
    ensures
        items_view(&r) == items_view(a),
    decreases a,
{
    let mut out: Vec<JsonValue> = Vec::new();
    let mut i: usize = 0;
    while i < a.len()
        invariant
            i <= a.len(),
            out.len() == i,
            forall|k: int| 0 <= k < i ==> #[trigger] items_view(&out)[k] == items_view(a)[k],
        decreases a.len() - i,
    {
        assert(decreases_to!(a => a[i as int]));
        let v = copy_json(&a[i]);
        let ghost before = items_view(&out);
        out.push(v);
        assert(items_view(&out) =~= before.push(a[i as int]@));
        i += 1;
    }
    assert(items_view(&out) =~= items_view(a));
    out
}

/// Reads a required 32-bit unsigned member.
pub fn read_u32(fs: &Vec<(String, JsonValue)>, name: &str) -> (r: Result<u32, DecodeError>)
    ensures
        r == u32_of(lookup(fields_view(fs), name@)),
{
    match get_field(fs, name) {
        None => Err(DecodeError::MissingField),
        Some(JsonValue::Number(JsonNumber::PosInt(u))) => {
            if *u <= 0xffff_ffffu64 {
                Ok(*u as u32)
            } else {
                Err(DecodeError::InvalidType)
            }
        },
        Some(_) => Err(DecodeError::InvalidType),
    }
}

/// Reads an optional 32-bit unsigned member.
pub fn read_opt_u32(fs: &Vec<(String, JsonValue)>, name: &str) -> (r: Result<Option<u32>, DecodeError>)
    ensures
        r == opt_u32_of(lookup(fields_view(fs), name@)),
{
    match get_field(fs, name) {
        None => Ok(None),
        Some(JsonValue::Null) => Ok(None),
        Some(JsonValue::Number(JsonNumber::PosInt(u))) => {
            if *u <= 0xffff_ffffu64 {
                Ok(Some(*u as u32))
            } else {
                Err(DecodeError::InvalidType)
            }
        },
        Some(_) => Err(DecodeError::InvalidType),
    }
}

/// Reads a required text member.
pub fn read_str(fs: &Vec<(String, JsonValue)>, name: &str) -> (r: Result<String, DecodeError>)
    ensures
        match r {
            Ok(s) => str_of(lookup(fields_view(fs), name@)) == Ok::<Seq<char>, DecodeError>(s@),
            Err(e) => str_of(lookup(fields_view(fs), name@)) == Err::<Seq<char>, DecodeError>(e),
        },
{
    match get_field(fs, name) {
        None => Err(DecodeError::MissingField),
        Some(JsonValue::String(s)) => Ok(s.clone()),
        Some(_) => Err(DecodeError::InvalidType),
    }
}

/// Reads an optional text member.
pub fn read_opt_str(fs: &Vec<(String, JsonValue)>, name: &str) -> (r: Result<Option<String>, DecodeError>)
    ensures
        match r {
            Ok(Some(s)) => opt_str_of(lookup(fields_view(fs), name@)) == Ok::<
                Option<Seq<char>>,
                DecodeError,
            >(Some(s@)),
            Ok(None) => opt_str_of(lookup(fields_view(fs), name@)) == Ok::<
                Option<Seq<char>>,
                DecodeError,
            >(None),
            Err(e) => opt_str_of(lookup(fields_view(fs), name@)) == Err::<
                Option<Seq<char>>,
                DecodeError,
            >(e),
        },
{
    match get_field(fs, name) {
        None => Ok(None),
        Some(JsonValue::Null) => Ok(None),
        Some(JsonValue::String(s)) => Ok(Some(s.clone())),
        Some(_) => Err(DecodeError::InvalidType),
    }
}

/// Reads a required array member.
pub fn read_array<'a>(fs: &'a Vec<(String, JsonValue)>, name: &str) -> (r: Result<&'a Vec<JsonValue>, DecodeError>)
    ensures
        match r {
            Ok(a) => array_of(lookup(fields_view(fs), name@)) == Ok::<Seq<Json>, DecodeError>(items_view(a)),
            Err(e) => array_of(lookup(fields_view(fs), name@)) == Err::<Seq<Json>, DecodeError>(e),
        },
{
    match get_field(fs, name) {
        None => Err(DecodeError::MissingField),
        Some(JsonValue::Array(a)) => Ok(a),
        Some(_) => Err(DecodeError::InvalidType),
    }
}

/// Appends a member to an object under construction.
pub fn push_member(out: &mut Vec<(String, JsonValue)>, name: &str, v: JsonValue)
    ensures
        fields_view(final(out)) == fields_view(old(out)).push((name@, v@)),
{
    let ghost before = fields_view(old(out));
    let ghost vv = v@;
    out.push((String::from_str(name), v));
    assert(fields_view(out) =~= before.push((name@, vv)));
}

/// The JSON number for a 32-bit unsigned integer.
pub fn num_json(x: u32) -> (r: JsonValue)
    ensures
        r@ == num(x),
{
    JsonValue::Number(JsonNumber::PosInt(x as u64))
}

/// The texts of a vector of strings.
pub open spec fn texts(v: Seq<String>) -> Seq<Seq<char>> {
    v.map_values(|s: String| s@)
}

/// A required member holding an array of strings.
pub open spec fn strs_of(m: Option<Json>) -> Result<Seq<Seq<char>>, DecodeError> {
    match m {
        Some(Json::Array(xs)) => if forall|i: int| 0 <= i < xs.len() ==> #[trigger] xs[i] is Str {
            Ok(xs.map_values(|x: Json| x->Str_0))
        } else {
            Err(DecodeError::InvalidType)
        },
        None => Err(DecodeError::MissingField),
        Some(_) => Err(DecodeError::InvalidType),
    }
}

/// The JSON array of some strings.
pub open spec fn strs_json(v: Seq<Seq<char>>) -> Json {
    Json::Array(v.map_values(|s: Seq<char>| Json::Str(s)))
}

/// A required boolean member.
pub open spec fn bool_of(m: Option<Json>) -> Result<bool, DecodeError> {
    match m {
        None => Err(DecodeError::MissingField),
        Some(Json::Bool(b)) => Ok(b),
        Some(_) => Err(DecodeError::InvalidType),
    }
}

/// Reads a required boolean member.
pub fn read_bool(fs: &Vec<(String, JsonValue)>, name: &str) -> (r: Result<bool, DecodeError>)
    ensures
        r == bool_of(lookup(fields_view(fs), name@)),
{
    match get_field(fs, name) {
        None => Err(DecodeError::MissingField),
        Some(JsonValue::Bool(b)) => Ok(*b),
        Some(_) => Err(DecodeError::InvalidType),
    }
}

/// Reads a required member holding an array of strings.
pub fn read_strs(fs: &Vec<(String, JsonValue)>, name: &str) -> (r: Result<Vec<String>, DecodeError>)
    ensures
        match r {
            Ok(v) => strs_of(lookup(fields_view(fs), name@)) == Ok::<Seq<Seq<char>>, DecodeError>(
                texts(v@),
            ),
            Err(e) => strs_of(lookup(fields_view(fs), name@)) == Err::<Seq<Seq<char>>, DecodeError>(
                e,
            ),
        },
{
    let a = match get_field(fs, name) {
        None => {
            return Err(DecodeError::MissingField);
        },
        Some(JsonValue::Array(a)) => a,
        Some(_) => {
            return Err(DecodeError::InvalidType);
        },
    };
    let ghost xs = items_view(a);
    assert(lookup(fields_view(fs), name@) == Some(Json::Array(xs)));
    let mut out: Vec<String> = Vec::new();
    let mut i: usize = 0;
    while i < a.len()
        invariant
            i <= a.len(),
            xs == items_view(a),
            lookup(fields_view(fs), name@) == Some(Json::Array(xs)),
            out.len() == i,
            forall|k: int| 0 <= k < i ==> #[trigger] xs[k] is Str && xs[k]->Str_0 == out[k]@,
        decreases a.len() - i,
    {
        assert(xs[i as int] == a[i as int]@);
        match &a[i] {
            JsonValue::String(s) => {
                out.push(s.clone());
            },
            _ => {
                assert(!(xs[i as int] is Str));
                return Err(DecodeError::InvalidType);
            },
        }
        i += 1;
    }
    assert(texts(out@) =~= xs.map_values(|x: Json| x->Str_0));
    Ok(out)
}

/// The JSON array of some strings.
pub fn strs_to_json(v: &Vec<String>) -> (r: JsonValue)
    ensures
        r@ == strs_json(texts(v@)),
{
    let mut out: Vec<JsonValue> = Vec::new();
    let mut i: usize = 0;
    while i < v.len()
        invariant
            i <= v.len(),
            out.len() == i,
            forall|k: int| 0 <= k < i ==> #[trigger] items_view(&out)[k] == Json::Str(v[k]@),
        decreases v.len() - i,
    {
        let ghost before = items_view(&out);
        out.push(JsonValue::String(v[i].clone()));
        assert(items_view(&out) =~= before.push(Json::Str(v[i as int]@)));
        i += 1;
    }
    assert(items_view(&out) =~= strs_json(texts(v@))->Array_0);
    JsonValue::Array(out)
}

/// Whether two arrays have equal elements.
fn items_eq(x: &Vec<JsonValue>, y: &Vec<JsonValue>) -> (r: bool)
    ensures
        r == (items_view(x) == items_view(y)),
    decreases x,
{
    if x.len() != y.len() {
        assert(items_view(x).len() != items_view(y).len());
        return false;
    }
    let mut i: usize = 0;
    while i < x.len()
        invariant
            i <= x.len(),
            x.len() == y.len(),
            forall|k: int| 0 <= k < i ==> #[trigger] items_view(x)[k] == items_view(y)[k],
        decreases x.len() - i,
    {
        assert(decreases_to!(x => x[i as int]));
        if !json_eq(&x[i], &y[i]) {
            assert(items_view(x)[i as int] != items_view(y)[i as int]);
            return false;
        }
        assert(items_view(x)[i as int] == items_view(y)[i as int]);
        i += 1;
    }
    assert(items_view(x) =~= items_view(y));
    true
}

/// Whether two objects have equal members, in the same order.
fn fields_eq(x: &Vec<(String, JsonValue)>, y: &Vec<(String, JsonValue)>) -> (r: bool)
    ensures
        r == (fields_view(x) == fields_view(y)),
    decreases x,
{
    if x.len() != y.len() {
        assert(fields_view(x).len() != fields_view(y).len());
        return false;
    }
    let mut i: usize = 0;
    while i < x.len()
        invariant
            i <= x.len(),
            x.len() == y.len(),
            forall|k: int| 0 <= k < i ==> #[trigger] fields_view(x)[k] == fields_view(y)[k],
        decreases x.len() - i,
    {
        assert(decreases_to!(x => x[i as int]));
        if !x[i].0.eq(&y[i].0) || !json_eq(&x[i].1, &y[i].1) {
            assert(fields_view(x)[i as int] != fields_view(y)[i as int]);
            return false;
        }
        assert(fields_view(x)[i as int] == fields_view(y)[i as int]);
        i += 1;
    }
    assert(fields_view(x) =~= fields_view(y));
    true
}

/// Structural equality of JSON documents; object members compare in order.
pub fn json_eq(a: &JsonValue, b: &JsonValue) -> (r: bool)
    ensures
        r == (a@ == b@),
    decreases a,
{
    match (a, b) {
        (JsonValue::Null, JsonValue::Null) => true,
        (JsonValue::Bool(x), JsonValue::Bool(y)) => *x == *y,
        (JsonValue::Number(x), JsonValue::Number(y)) => *x == *y,
        (JsonValue::String(x), JsonValue::String(y)) => x.eq(y),
        (JsonValue::Array(x), JsonValue::Array(y)) => items_eq(x, y),
        (JsonValue::Object(x), JsonValue::Object(y)) => fields_eq(x, y),
        _ => false,
    }
}

impl PartialEq for JsonValue {
    fn eq(&self, other: &JsonValue) -> (r: bool) {
        json_eq(self, other)
    }
}

impl vstd::std_specs::cmp::PartialEqSpecImpl for JsonValue {
    open spec fn obeys_eq_spec() -> bool {
        true
    }

    open spec fn eq_spec(&self, other: &JsonValue) -> bool {
        self@ == other@
    }
}

/// The first member named `k` is found by lookup.
pub proof fn lemma_lookup_at(fs: Seq<(Seq<char>, Json)>, k: Seq<char>, i: int)
    requires
        0 <= i < fs.len(),
        fs[i].0 == k,
        forall|j: int| 0 <= j < i ==> #[trigger] fs[j].0 != k,
    ensures
        lookup(fs, k) == Some(fs[i].1),
    decreases i,
{
    if i > 0 {
        let rest = fs.drop_first();
        assert forall|j: int| 0 <= j < i - 1 implies #[trigger] rest[j].0 != k by {
            assert(rest[j] == fs[j + 1]);
        }
        assert(rest[i - 1] == fs[i]);
        lemma_lookup_at(rest, k, i - 1);
    }
}

/// A name that no member has is not found.
pub proof fn lemma_lookup_absent(fs: Seq<(Seq<char>, Json)>, k: Seq<char>)
    requires
        forall|j: int| 0 <= j < fs.len() ==> #[trigger] fs[j].0 != k,
    ensures
        lookup(fs, k) is None,
    decreases fs.len(),
{
    if fs.len() > 0 {
        let rest = fs.drop_first();
        assert forall|j: int| 0 <= j < rest.len() implies #[trigger] rest[j].0 != k by {
            assert(rest[j] == fs[j + 1]);
        }
        lemma_lookup_absent(rest, k);
    }
}

} // verus!
