use vstd::prelude::*;

verus! {

/// A structured JSON value held as plain library data. Upstream response
/// bodies are decoded into this shape at the trusted boundary; every piece
/// of logic that reads a document works on this type and is verified.
///
/// Numbers that fit an `i64` are held as `Int`; any other number — a float
/// or a large unsigned value — is held as `NumText`, its printed form,
/// since the logic never computes with it but must keep it distinct from a
/// genuine string and pass it through opaque payloads unchanged.
pub enum Json {
    Null,
    Bool(bool),
    Int(i64),
    NumText(String),
    Text(String),
    Arr(Vec<Json>),
    Obj(Vec<(String, Json)>),
}

/// The mathematical shape of a JSON value, used by specifications.
pub enum JsonModel {
    Null,
    Bool(bool),
    Int(i64),
    NumText(Seq<char>),
    Text(Seq<char>),
    Arr(Seq<JsonModel>),
    Obj(Seq<(Seq<char>, JsonModel)>),
}

/// The model of a `Json` value: the same tree with views in place of
/// executable strings and vectors.
pub open spec fn jmodel(j: Json) -> JsonModel
    decreases j,
{
    match j {
        Json::Null => JsonModel::Null,
        Json::Bool(b) => JsonModel::Bool(b),
        Json::Int(n) => JsonModel::Int(n),
        Json::NumText(s) => JsonModel::NumText(s@),
        Json::Text(s) => JsonModel::Text(s@),
        Json::Arr(v) => JsonModel::Arr(
            Seq::new(
                v@.len(),
                |i: int| if 0 <= i < v@.len() { jmodel(v@[i]) } else { JsonModel::Null },
            ),
        ),
        Json::Obj(v) => JsonModel::Obj(
            Seq::new(
                v@.len(),
                |i: int|
                    if 0 <= i < v@.len() {
                        (v@[i].0@, jmodel(v@[i].1))
                    } else {
                        (Seq::<char>::empty(), JsonModel::Null)
                    },
            ),
        ),
    }
}

impl View for Json {
    type V = JsonModel;

    open spec fn view(&self) -> JsonModel {
        jmodel(*self)
    }
}

/// The models of the elements of an array of `Json` values.
pub open spec fn arr_models(s: Seq<Json>) -> Seq<JsonModel> {
    Seq::new(s.len(), |i: int| if 0 <= i < s.len() { jmodel(s[i]) } else { JsonModel::Null })
}

/// First-match lookup in an association sequence.
pub open spec fn assoc_lookup<V>(fields: Seq<(Seq<char>, V)>, key: Seq<char>) -> Option<V>
    decreases fields.len(),
{
    if fields.len() == 0 {
        None
    } else if fields[0].0 == key {
        Some(fields[0].1)
    } else {
        assoc_lookup(fields.drop_first(), key)
    }
}

/// The member of an object under a key; `None` on a non-object or a missing key.
pub open spec fn jget(m: JsonModel, key: Seq<char>) -> Option<JsonModel> {
    match m {
        JsonModel::Obj(fields) => assoc_lookup(fields, key),
        _ => None,
    }
}

/// A lookup skips any prefix whose keys all differ from the key sought.
pub proof fn lemma_assoc_lookup_skip<V>(fields: Seq<(Seq<char>, V)>, key: Seq<char>, i: int)
    requires
        0 <= i <= fields.len(),
        forall|k: int| 0 <= k < i ==> fields[k].0 != key,
    ensures
        assoc_lookup(fields, key) == assoc_lookup(fields.subrange(i, fields.len() as int), key),
    decreases i,
{
    if i == 0 {
        assert(fields.subrange(0, fields.len() as int) =~= fields);
    } else {
        let rest = fields.drop_first();
        assert(forall|k: int| 0 <= k < i - 1 ==> rest[k].0 != key);
        lemma_assoc_lookup_skip(rest, key, i - 1);
        assert(rest.subrange(i - 1, rest.len() as int) =~= fields.subrange(i, fields.len() as int));
    }
}

impl Json {
    /// The member of this value under `key`, when this value is an object
    /// holding that key.
    pub fn get<'a>(&'a self, key: &str) -> (r: Option<&'a Json>)
        ensures
            match r {
                Some(v) => jget(self@, key@) == Some(jmodel(*v)),
                None => jget(self@, key@) is None,
            },
    {
        match self {
            Json::Obj(fields) => {
                let key_s = key.to_owned();
                let ghost m = jmodel(*self);
                let ghost fm = m->Obj_0;
                let mut i: usize = 0;
                while i < fields.len()
                    invariant
                        i <= fields.len(),
                        self is Obj && self->Obj_0 == fields,
                        m == jmodel(*self),
                        m is Obj && fm == m->Obj_0,
                        fm.len() == fields@.len(),
                        forall|k: int| 0 <= k < fields@.len() ==> fm[k].0 == fields@[k].0@,
                        forall|k: int| 0 <= k < fields@.len() ==> fm[k].1 == jmodel(fields@[k].1),
                        key_s@ == key@,
                        forall|k: int| 0 <= k < i ==> fm[k].0 != key@,
                    decreases fields.len() - i,
                {
                    if fields[i].0 == key_s {
                        proof {
                            lemma_assoc_lookup_skip(fm, key@, i as int);
                            assert(fm.subrange(i as int, fm.len() as int)[0] == fm[i as int]);
                        }
                        return Some(&fields[i].1);
                    }
                    i += 1;
                }
                proof {
                    lemma_assoc_lookup_skip(fm, key@, fm.len() as int);
                    assert(fm.subrange(fm.len() as int, fm.len() as int) =~= Seq::<(
                        Seq<char>,
                        JsonModel,
                    )>::empty());
                }
                None
            },
            _ => None,
        }
    }

    /// The elements of this value, when it is an array.
    pub fn as_arr<'a>(&'a self) -> (r: Option<&'a Vec<Json>>)
        ensures
            match r {
                Some(v) => self@ == JsonModel::Arr(arr_models(v@)),
                None => !(self@ is Arr),
            },
    {
        match self {
            Json::Arr(v) => {
                proof {
                    assert(jmodel(*self)->Arr_0 =~= arr_models(v@));
                }
                Some(v)
            },
            _ => None,
        }
    }

    /// The integer held by this value, when it is a number.
    pub fn as_i64(&self) -> (r: Option<i64>)
        ensures
            match r {
                Some(n) => self@ == JsonModel::Int(n),
                None => !(self@ is Int),
            },
    {
        match self {
            Json::Int(n) => Some(*n),
            _ => None,
        }
    }

    /// A copy of the string held by this value, when it is a string.
    pub fn as_text(&self) -> (r: Option<String>)
        ensures
            match r {
                Some(s) => self@ == JsonModel::Text(s@),
                None => !(self@ is Text),
            },
    {
        match self {
            Json::Text(s) => Some(s.clone()),
            _ => None,
        }
    }
}

/// The value a well-formed JSON text denotes; `None` on a malformed text.
/// This is the boundary decoder's result, named but not written out: the
/// JSON grammar itself is out of this library's scope.
pub uninterp spec fn json_of(s: Seq<char>) -> Option<JsonModel>;

/// The model carried by a `serde_json::Value`.
pub uninterp spec fn value_model(v: serde_json::Value) -> JsonModel;

#[verifier::external_type_specification]
#[verifier::external_body]
pub struct ExJsonValue(serde_json::Value);

/// Relies on `serde_json::from_str`: a JSON text parses exactly when it is
/// well-formed, to the value it denotes.
#[verifier::external_body]
fn parse_value(s: &str) -> (r: Option<serde_json::Value>)
    ensures
        r is Some <==> json_of(s@) is Some,
        r is Some ==> value_model(r->Some_0) == json_of(s@)->Some_0,
{
    serde_json::from_str::<serde_json::Value>(s).ok()
}

/// Relies on telling `serde_json::Value`'s variants apart, one arm each:
/// the decoded tree carries the value's own model. A number outside `i64`
/// is carried as `NumText`, its printed form, still a number and never
/// mistakable for a string.
#[verifier::external_body]
fn decode_value(v: serde_json::Value) -> (j: Json)
    ensures
        j@ == value_model(v),
{
    match v {
        serde_json::Value::Null => Json::Null,
        serde_json::Value::Bool(b) => Json::Bool(b),
        serde_json::Value::Number(n) => match n.as_i64() {
            Some(i) => Json::Int(i),
            None => Json::NumText(n.to_string()),
        },
        serde_json::Value::String(s) => Json::Text(s),
        serde_json::Value::Array(a) => Json::Arr(a.into_iter().map(decode_value).collect()),
        serde_json::Value::Object(m) => Json::Obj(
            m.into_iter().map(|(k, w)| (k, decode_value(w))).collect(),
        ),
    }
}

/// Decode a JSON text into a structured value; `None` exactly on a text
/// that is not well-formed JSON.
pub fn parse_json(s: &str) -> (r: Option<Json>)
    ensures
        r is Some <==> json_of(s@) is Some,
        r is Some ==> r->Some_0@ == json_of(s@)->Some_0,
{
    match parse_value(s) {
        Some(v) => Some(decode_value(v)),
        None => None,
    }
}

/// A deep copy of a `Json` value with the same model.
pub fn clone_json(j: &Json) -> (r: Json)
    ensures
        r@ == j@,
    decreases *j,
{
    match j {
        Json::Null => Json::Null,
        Json::Bool(b) => Json::Bool(*b),
        Json::Int(n) => Json::Int(*n),
        Json::NumText(s) => Json::NumText(s.clone()),
        Json::Text(s) => Json::Text(s.clone()),
        Json::Arr(v) => {
            let mut out: Vec<Json> = Vec::new();
            let mut i: usize = 0;
            while i < v.len()
                invariant
                    i <= v.len(),
                    j is Arr && j->Arr_0 == *v,
                    out@.len() == i as int,
                    forall|k: int| 0 <= k < i ==> jmodel(#[trigger] out@[k]) == jmodel(v@[k]),
                decreases v.len() - i,
            {
                proof {
                    assert(decreases_to!(*j => *v));
                    assert(decreases_to!(*v => v@[i as int]));
                }
                out.push(clone_json(&v[i]));
                i += 1;
            }
            let r = Json::Arr(out);
            proof {
                assert(jmodel(r)->Arr_0 =~= jmodel(*j)->Arr_0);
            }
            r
        },
        Json::Obj(v) => {
            let mut out: Vec<(String, Json)> = Vec::new();
            let mut i: usize = 0;
            while i < v.len()
                invariant
                    i <= v.len(),
                    j is Obj && j->Obj_0 == *v,
                    out@.len() == i as int,
                    forall|k: int|
                        0 <= k < i ==> (#[trigger] out@[k]).0@ == v@[k].0@ && jmodel(out@[k].1)
                            == jmodel(v@[k].1),
                decreases v.len() - i,
            {
                proof {
                    assert(decreases_to!(*j => *v));
                    assert(decreases_to!(*v => v@[i as int]));
                }
                let pair = (v[i].0.clone(), clone_json(&v[i].1));
                out.push(pair);
                i += 1;
            }
            let r = Json::Obj(out);
            proof {
                assert(jmodel(r)->Obj_0 =~= jmodel(*j)->Obj_0);
            }
            r
        },
    }
}

} // verus!
