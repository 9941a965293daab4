//! JSON values as the protocol logic reads and builds them.
use vstd::prelude::*;

use crate::text::same_text;

verus! {

/// A JSON value. Numbers are kept as the integers they are, or, for any
/// other number, as the text of the number.
#[derive(Debug)]
pub enum Json {
    Null,
    Bool(bool),
    /// An integer that fits in `i64`.
    Int(i64),
    /// An integer above `i64::MAX` that fits in `u64`.
    UInt(u64),
    /// Any other number, by its text.
    Float(String),
    Str(String),
    Array(Vec<Json>),
    /// The members of an object, in order, each key at most once.
    Object(Vec<(String, Json)>),
}

/// The mathematical value of a JSON value: sequences in place of vectors.
pub enum JsonV {
    Null,
    Bool(bool),
    Int(i64),
    UInt(u64),
    Float(Seq<char>),
    Str(Seq<char>),
    Array(Seq<JsonV>),
    Object(Seq<(Seq<char>, JsonV)>),
}

/// The value of `j`.
pub open spec fn json_view(j: Json) -> JsonV
    decreases j, 0int,
{
    match j {
        Json::Null => JsonV::Null,
        Json::Bool(b) => JsonV::Bool(b),
        Json::Int(i) => JsonV::Int(i),
        Json::UInt(u) => JsonV::UInt(u),
        Json::Float(t) => JsonV::Float(t@),
        Json::Str(s) => JsonV::Str(s@),
        Json::Array(items) => JsonV::Array(items_view(items@)),
        Json::Object(fields) => JsonV::Object(fields_view(fields@)),
    }
}

/// The values of `items`.
pub open spec fn items_view(items: Seq<Json>) -> Seq<JsonV>
    decreases items, items.len(),
{
    if items.len() == 0 {
        Seq::empty()
    } else {
        items_view(items.drop_last()).push(json_view(items.last()))
    }
}

/// The values of the members of an object.
pub open spec fn fields_view(fields: Seq<(String, Json)>) -> Seq<(Seq<char>, JsonV)>
    decreases fields, fields.len(),
{
    if fields.len() == 0 {
        Seq::empty()
    } else {
        fields_view(fields.drop_last()).push((fields.last().0@, json_view(fields.last().1)))
    }
}

impl View for Json {
    type V = JsonV;

    open spec fn view(&self) -> JsonV {
        json_view(*self)
    }
}

/// A deep copy of a value.
pub fn copy_json(j: &Json) -> (c: Json)
    ensures
        c@ == j@,
    decreases j,
{
    match j {
        Json::Null => Json::Null,
        Json::Bool(b) => Json::Bool(*b),
        Json::Int(i) => Json::Int(*i),
        Json::UInt(u) => Json::UInt(*u),
        Json::Float(t) => Json::Float(t.clone()),
        Json::Str(s) => Json::Str(s.clone()),
        Json::Array(items) => {
            let mut out: Vec<Json> = Vec::new();
            let mut i: usize = 0;
            while i < items.len()
                invariant
                    i <= items.len(),
                    items_view(out@) == items_view(items@.take(i as int)),
                    *j == Json::Array(*items),
                decreases items.len() - i,
            {
                proof {
                    assert(decreases_to!(*j => (*j)->Array_0));
                    assert(decreases_to!(items => items@));
                    assert(decreases_to!(items@ => items@[i as int]));
                }
                let ghost before = out@;
                out.push(copy_json(&items[i]));
                assert(out@.drop_last() =~= before);
                assert(items@.take(i + 1).drop_last() =~= items@.take(i as int));
                i = i + 1;
            }
            assert(items@.take(items@.len() as int) =~= items@);
            Json::Array(out)
        },
        Json::Object(fields) => {
            let mut out: Vec<(String, Json)> = Vec::new();
            let mut i: usize = 0;
            while i < fields.len()
                invariant
                    i <= fields.len(),
                    fields_view(out@) == fields_view(fields@.take(i as int)),
                    *j == Json::Object(*fields),
                decreases fields.len() - i,
            {
                proof {
                    assert(decreases_to!(*j => (*j)->Object_0));
                    assert(decreases_to!(fields => fields@));
                    assert(decreases_to!(fields@ => fields@[i as int]));
                    assert(decreases_to!(fields@[i as int] => fields@[i as int].1));
                }
                let (k, v) = &fields[i];
                let ghost before = out@;
                out.push((k.clone(), copy_json(v)));
                assert(out@.drop_last() =~= before);
                assert(fields@.take(i + 1).drop_last() =~= fields@.take(i as int));
                i = i + 1;
            }
            assert(fields@.take(fields@.len() as int) =~= fields@);
            Json::Object(out)
        },
    }
}

/// The value of the first member named `key`, if any.
pub open spec fn fields_get(fields: Seq<(Seq<char>, JsonV)>, key: Seq<char>) -> Option<JsonV>
    decreases fields.len(),
{
    if fields.len() == 0 {
        None
    } else if fields[0].0 == key {
        Some(fields[0].1)
    } else {
        fields_get(fields.drop_first(), key)
    }
}

/// The first member named `key` after a member is appended: the earlier
/// one if there is one.
pub proof fn lemma_fields_get_push(fields: Seq<(Seq<char>, JsonV)>, m: (Seq<char>, JsonV), key: Seq<char>)
    ensures
        fields_get(fields.push(m), key) == match fields_get(fields, key) {
            Some(v) => Some(v),
            None => if m.0 == key {
                Some(m.1)
            } else {
                None
            },
        },
    decreases fields.len(),
{
    let p = fields.push(m);
    if fields.len() > 0 {
        assert(p[0] == fields[0]);
        assert(p.drop_first() =~= fields.drop_first().push(m));
        lemma_fields_get_push(fields.drop_first(), m, key);
        if fields[0].0 == key {
            assert(fields_get(p, key) == Some(fields[0].1));
        } else {
            assert(fields_get(p, key) == fields_get(p.drop_first(), key));
            assert(fields_get(fields, key) == fields_get(fields.drop_first(), key));
        }
    } else {
        assert(p[0] == m);
        assert(p.drop_first() =~= Seq::<(Seq<char>, JsonV)>::empty());
        assert(fields_get(p.drop_first(), key) is None);
    }
}

/// `value[key]` for an object, `None` for anything else (`Value::get`).
pub open spec fn json_get(j: JsonV, key: Seq<char>) -> Option<JsonV> {
    match j {
        JsonV::Object(fields) => fields_get(fields, key),
        _ => None,
    }
}

/// The view of the members is taken member by member.
pub proof fn lemma_fields_view(fields: Seq<(String, Json)>)
    ensures
        fields_view(fields).len() == fields.len(),
        forall|i: int| 0 <= i < fields.len() ==> #[trigger] fields_view(fields)[i] == (
            fields[i].0@,
            fields[i].1@,
        ),
    decreases fields.len(),
{
    if fields.len() > 0 {
        lemma_fields_view(fields.drop_last());
    }
}

/// The view of the items is taken item by item.
pub proof fn lemma_items_view(items: Seq<Json>)
    ensures
        items_view(items).len() == items.len(),
        forall|i: int| 0 <= i < items.len() ==> #[trigger] items_view(items)[i] == items[i]@,
    decreases items.len(),
{
    if items.len() > 0 {
        lemma_items_view(items.drop_last());
    }
}

/// The first member named `key` among `fields`.
pub fn fields_lookup<'a>(fields: &'a Vec<(String, Json)>, key: &str) -> (r: Option<&'a Json>)
    ensures
        match r {
            Some(v) => fields_get(fields_view(fields@), key@) == Some(v@),
            None => fields_get(fields_view(fields@), key@) is None,
        },
{
    let ghost fv = fields_view(fields@);
    proof {
        lemma_fields_view(fields@);
    }
    let mut i: usize = 0;
    assert(fv.skip(0) =~= fv);
    while i < fields.len()
        invariant
            i <= fields.len(),
            fv == fields_view(fields@),
            fv.len() == fields@.len(),
            forall|m: int| 0 <= m < fields@.len() ==> #[trigger] fv[m] == (
                fields@[m].0@,
                fields@[m].1@,
            ),
            fields_get(fv, key@) == fields_get(fv.skip(i as int), key@),
        decreases fields.len() - i,
    {
        let (k, v) = &fields[i];
        assert(fv.skip(i as int)[0] == fv[i as int]);
        assert(fv.skip(i as int).drop_first() =~= fv.skip(i + 1));
        if same_text(k.as_str(), key) {
            return Some(v);
        }
        i = i + 1;
    }
    None
}

impl Json {
    /// `value.get(key)`: the member `key` of an object.
    pub fn get<'a>(&'a self, key: &str) -> (r: Option<&'a Json>)
        ensures
            match r {
                Some(v) => json_get(self@, key@) == Some(v@),
                None => json_get(self@, key@) is None,
            },
    {
        match self {
            Json::Object(fields) => fields_lookup(fields, key),
            _ => None,
        }
    }

    /// The string, for a string value.
    pub fn as_str<'a>(&'a self) -> (r: Option<&'a str>)
        ensures
            match self@ {
                JsonV::Str(s) => r matches Some(t) && t@ == s,
                _ => r is None,
            },
    {
        match self {
            Json::Str(s) => Some(s.as_str()),
            _ => None,
        }
    }

    /// The integer, for an integer that fits in `i64` (`Value::as_i64`).
    pub fn as_i64(&self) -> (r: Option<i64>)
        ensures
            r == json_as_i64(self@),
    {
        match self {
            Json::Int(i) => Some(*i),
            Json::UInt(u) => {
                if *u <= i64::MAX as u64 {
                    Some(*u as i64)
                } else {
                    None
                }
            },
            _ => None,
        }
    }

    /// The boolean, for a boolean value.
    pub fn as_bool(&self) -> (r: Option<bool>)
        ensures
            r == match self@ {
                JsonV::Bool(b) => Some(b),
                _ => None,
            },
    {
        match self {
            Json::Bool(b) => Some(*b),
            _ => None,
        }
    }

    /// The members, for an object.
    pub fn as_object<'a>(&'a self) -> (r: Option<&'a Vec<(String, Json)>>)
        ensures
            match r {
                Some(g) => self@ == JsonV::Object(fields_view(g@)),
                None => !(self@ is Object),
            },
    {
        match self {
            Json::Object(f) => Some(f),
            _ => None,
        }
    }

    /// The items, for an array.
    pub fn as_array<'a>(&'a self) -> (r: Option<&'a Vec<Json>>)
        ensures
            match r {
                Some(a) => self@ == JsonV::Array(items_view(a@)),
                None => !(self@ is Array),
            },
    {
        match self {
            Json::Array(a) => Some(a),
            _ => None,
        }
    }
}

/// The integer of a number that fits in `i64`.
pub open spec fn json_as_i64(j: JsonV) -> Option<i64> {
    match j {
        JsonV::Int(i) => Some(i),
        JsonV::UInt(u) => if u <= i64::MAX {
            Some(u as i64)
        } else {
            None
        },
        _ => None,
    }
}

/// A string value.
pub fn json_str(s: &str) -> (j: Json)
    ensures
        j@ == JsonV::Str(s@),
{
    Json::Str(String::from_str(s))
}

/// A member `key: value` of an object.
pub fn member(key: &str, value: Json) -> (m: (String, Json))
    ensures
        m.0@ == key@,
        m.1 == value,
        m.1@ == value@,
{
    (String::from_str(key), value)
}

/// An object of the given members, in order.
pub fn object(members: Vec<(String, Json)>) -> (j: Json)
    ensures
        j@ == JsonV::Object(fields_view(members@)),
{
    Json::Object(members)
}

/// An object with one member.
pub fn object1(k1: &str, v1: Json) -> (j: Json)
    ensures
        j@ == JsonV::Object(seq![(k1@, v1@)]),
{
    let mut m: Vec<(String, Json)> = Vec::new();
    m.push(member(k1, v1));
    proof {
        lemma_fields_view(m@);
        assert(fields_view(m@) =~= seq![(k1@, v1@)]);
    }
    Json::Object(m)
}

/// An object with two members.
pub fn object2(k1: &str, v1: Json, k2: &str, v2: Json) -> (j: Json)
    ensures
        j@ == JsonV::Object(seq![(k1@, v1@), (k2@, v2@)]),
{
    let ghost (w1, w2) = (v1@, v2@);
    let mut m: Vec<(String, Json)> = Vec::new();
    m.push(member(k1, v1));
    m.push(member(k2, v2));
    proof {
        lemma_fields_view(m@);
        assert(fields_view(m@) =~= seq![(k1@, w1), (k2@, w2)]);
    }
    Json::Object(m)
}

/// An object with three members.
pub fn object3(k1: &str, v1: Json, k2: &str, v2: Json, k3: &str, v3: Json) -> (j: Json)
    ensures
        j@ == JsonV::Object(seq![(k1@, v1@), (k2@, v2@), (k3@, v3@)]),
{
    let ghost (w1, w2, w3) = (v1@, v2@, v3@);
    let mut m: Vec<(String, Json)> = Vec::new();
    m.push(member(k1, v1));
    m.push(member(k2, v2));
    m.push(member(k3, v3));
    proof {
        lemma_fields_view(m@);
        assert(fields_view(m@) =~= seq![(k1@, w1), (k2@, w2), (k3@, w3)]);
    }
    Json::Object(m)
}

/// An object with four members.
pub fn object4(k1: &str, v1: Json, k2: &str, v2: Json, k3: &str, v3: Json, k4: &str, v4: Json) -> (j:
    Json)
    ensures
        j@ == JsonV::Object(seq![(k1@, v1@), (k2@, v2@), (k3@, v3@), (k4@, v4@)]),
{
    let ghost (w1, w2, w3, w4) = (v1@, v2@, v3@, v4@);
    let mut m: Vec<(String, Json)> = Vec::new();
    m.push(member(k1, v1));
    m.push(member(k2, v2));
    m.push(member(k3, v3));
    m.push(member(k4, v4));
    proof {
        lemma_fields_view(m@);
        assert(fields_view(m@) =~= seq![(k1@, w1), (k2@, w2), (k3@, w3), (k4@, w4)]);
    }
    Json::Object(m)
}

/// An object with five members.
pub fn object5(
    k1: &str,
    v1: Json,
    k2: &str,
    v2: Json,
    k3: &str,
    v3: Json,
    k4: &str,
    v4: Json,
    k5: &str,
    v5: Json,
) -> (j: Json)
    ensures
        j@ == JsonV::Object(seq![(k1@, v1@), (k2@, v2@), (k3@, v3@), (k4@, v4@), (k5@, v5@)]),
{
    let ghost (w1, w2, w3, w4, w5) = (v1@, v2@, v3@, v4@, v5@);
    let mut m: Vec<(String, Json)> = Vec::new();
    m.push(member(k1, v1));
    m.push(member(k2, v2));
    m.push(member(k3, v3));
    m.push(member(k4, v4));
    m.push(member(k5, v5));
    proof {
        lemma_fields_view(m@);
        assert(fields_view(m@) =~= seq![(k1@, w1), (k2@, w2), (k3@, w3), (k4@, w4), (k5@, w5)]);
    }
    Json::Object(m)
}

/// An array of the given items, in order.
pub fn array(items: Vec<Json>) -> (j: Json)
    ensures
        j@ == JsonV::Array(items_view(items@)),
{
    Json::Array(items)
}

} // verus!
