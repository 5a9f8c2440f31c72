use vstd::prelude::*;

verus! {

/// A JSON document, holding what this library reads of one: numbers keep only
/// their value as an `i64` (`None` for a fraction or a value out of range), and
/// an object keeps its members in the order in which the parser hands them out.
pub enum Json {
    Null,
    Bool(bool),
    Number(Option<i64>),
    Str(String),
    Array(Vec<Json>),
    Object(Vec<(String, Json)>),
}

#[verifier::external_type_specification]
#[verifier::external_body]
pub struct ExJsonValue(serde_json::Value);

/// The document that `serde_json` parses from `text`, `None` where `text` is not JSON.
pub uninterp spec fn parsed_json(text: Seq<char>) -> Option<Json>;

/// Parses `text` with `serde_json::from_str` into a `serde_json::Value` and turns
/// that into a `Json`. The contract only names the result: it is a function of
/// the text alone.
#[verifier::external_body]
pub(crate) fn parse_json(text: &str) -> (r: Option<Json>)
    ensures
        r == parsed_json(text@),
{
    serde_json::from_str::<serde_json::Value>(text).ok().map(json_from_value)
}

/// Turns a `serde_json::Value` into a `Json`, variant for variant; the number
/// keeps `Number::as_i64`, the object's members keep the map's order.
#[verifier::external_body]
fn json_from_value(v: serde_json::Value) -> Json {
    match v {
        serde_json::Value::Null => Json::Null,
        serde_json::Value::Bool(b) => Json::Bool(b),
        serde_json::Value::Number(n) => Json::Number(n.as_i64()),
        serde_json::Value::String(s) => Json::Str(s),
        serde_json::Value::Array(a) => Json::Array(a.into_iter().map(json_from_value).collect()),
        serde_json::Value::Object(m) => Json::Object(
            m.into_iter().map(|(k, x)| (k, json_from_value(x))).collect(),
        ),
    }
}

/// Index of the first member of `es` named `key`, or `es.len()` when there is none.
pub open spec fn member_index(es: Seq<(String, Json)>, key: Seq<char>) -> int
    decreases es.len(),
{
    if es.len() == 0 {
        0
    } else if es[0].0@ == key {
        0
    } else {
        1 + member_index(es.drop_first(), key)
    }
}

pub proof fn lemma_member_index(es: Seq<(String, Json)>, key: Seq<char>)
    ensures
        0 <= member_index(es, key) <= es.len(),
        member_index(es, key) < es.len() ==> es[member_index(es, key)].0@ == key,
        forall|j: int| 0 <= j < member_index(es, key) ==> es[j].0@ != key,
    decreases es.len(),
{
    if es.len() > 0 && es[0].0@ != key {
        lemma_member_index(es.drop_first(), key);
        assert forall|j: int| 0 <= j < member_index(es, key) implies es[j].0@ != key by {
            if j > 0 {
                assert(es[j] == es.drop_first()[j - 1]);
            }
        }
    }
}

/// The value of member `key` of `v` (`Value::get` with a `&str`): the first
/// member of that name of an object, `None` for anything else.
pub open spec fn json_get(v: Json, key: Seq<char>) -> Option<Json> {
    match v {
        Json::Object(es) => {
            let i = member_index(es@, key);
            if i < es@.len() {
                Some(es@[i].1)
            } else {
                None
            }
        },
        _ => None,
    }
}

/// The string that `v` holds, if it is one (`Value::as_str`).
pub open spec fn json_text(v: Option<Json>) -> Option<Seq<char>> {
    match v {
        Some(Json::Str(s)) => Some(s@),
        _ => None,
    }
}

/// The integer that `v` holds, if it is a number that fits an `i64` (`Value::as_i64`).
pub open spec fn json_int(v: Option<Json>) -> Option<i64> {
    match v {
        Some(Json::Number(n)) => n,
        _ => None,
    }
}

/// The string member `key` of `v`: `v.get(key).and_then(|x| x.as_str())`.
pub open spec fn text_field(v: Json, key: Seq<char>) -> Option<Seq<char>> {
    json_text(json_get(v, key))
}

/// The integer member `key` of `v`: `v.get(key).and_then(|x| x.as_i64())`.
pub open spec fn int_field(v: Json, key: Seq<char>) -> Option<i64> {
    json_int(json_get(v, key))
}

/// A borrowed optional value, read as the value itself.
pub open spec fn deref_opt<T>(o: Option<&T>) -> Option<T> {
    match o {
        Some(x) => Some(*x),
        None => None,
    }
}

impl Json {
    /// Member `key` of an object; `None` for a missing member or a value that is not an object.
    pub fn get(&self, key: &String) -> (r: Option<&Json>)
        ensures
            deref_opt(r) == json_get(*self, key@),
    {
        match self {
            Json::Object(es) => {
                let n: usize = es.len();
                for i in 0..n
                    invariant
                        n == es@.len(),
                        *self == Json::Object(*es),
                        forall|j: int| 0 <= j < i ==> es@[j].0@ != key@,
                {
                    if es[i].0 == *key {
                        proof {
                            lemma_member_index(es@, key@);
                            let m = member_index(es@, key@);
                            if m < i {
                                assert(es@[m].0@ == key@);
                            }
                            if m > i {
                                assert(es@[i as int].0@ != key@);
                            }
                        }
                        return Some(&es[i].1);
                    }
                }
                proof {
                    lemma_member_index(es@, key@);
                    let m = member_index(es@, key@);
                    if m < n {
                        assert(es@[m].0@ == key@);
                    }
                }
                None
            },
            _ => None,
        }
    }

    /// The string this value holds, if it is a string.
    pub fn as_text(&self) -> (r: Option<&String>)
        ensures
            r matches Some(s) ==> json_text(Some(*self)) == Some(s@),
            r is None ==> json_text(Some(*self)) is None,
    {
        match self {
            Json::Str(s) => Some(s),
            _ => None,
        }
    }

    /// The integer this value holds, if it is a number that fits an `i64`.
    pub fn as_int(&self) -> (r: Option<i64>)
        ensures
            r == json_int(Some(*self)),
    {
        match self {
            Json::Number(n) => *n,
            _ => None,
        }
    }

    /// The elements of an array.
    pub fn as_array(&self) -> (r: Option<&Vec<Json>>)
        ensures
            r matches Some(a) ==> *self == Json::Array(*a),
            r is None ==> !(*self is Array),
    {
        match self {
            Json::Array(a) => Some(a),
            _ => None,
        }
    }

    /// The members of an object, in order.
    pub fn as_object(&self) -> (r: Option<&Vec<(String, Json)>>)
        ensures
            r matches Some(es) ==> *self == Json::Object(*es),
            r is None ==> !(*self is Object),
    {
        match self {
            Json::Object(es) => Some(es),
            _ => None,
        }
    }

    /// The string member `key`: `self.get(key).and_then(|x| x.as_str())`.
    pub fn text_field(&self, key: &String) -> (r: Option<&String>)
        ensures
            r matches Some(s) ==> text_field(*self, key@) == Some(s@),
            r is None ==> text_field(*self, key@) is None,
    {
        match self.get(key) {
            Some(v) => v.as_text(),
            None => None,
        }
    }

    /// The integer member `key`: `self.get(key).and_then(|x| x.as_i64())`.
    pub fn int_field(&self, key: &String) -> (r: Option<i64>)
        ensures
            r == int_field(*self, key@),
    {
        match self.get(key) {
            Some(v) => v.as_int(),
            None => None,
        }
    }
}

} // verus!
