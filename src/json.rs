//! JSON documents as the library reads them, parsed by serde_json.
use vstd::prelude::*;

verus! {

/// A JSON document.
#[derive(Debug)]
pub enum Json {
    Null,
    Bool(bool),
    /// A number, with its value as an unsigned and as a signed 64-bit integer
    /// where it is one (a fractional number has neither).
    Number { unsigned: Option<u64>, signed: Option<i64> },
    Str(String),
    Array(Vec<Json>),
    /// The members of an object, each key once.
    Object(Vec<(String, Json)>),
}

#[verifier::external_type_specification]
#[verifier::external_body]
pub struct ExJsonValue(serde_json::Value);

/// What serde_json makes of a text: a document, or its description of the fault.
pub uninterp spec fn json_parse(text: Seq<char>) -> Result<Json, Seq<char>>;

/// Relies on the variants of serde_json::Value: copies a parsed document, member
/// by member, into the library's own tree.
#[verifier::external_body]
fn json_from_value(v: serde_json::Value) -> Json {
    match v {
        serde_json::Value::Null => Json::Null,
        serde_json::Value::Bool(b) => Json::Bool(b),
        serde_json::Value::Number(n) => Json::Number { unsigned: n.as_u64(), signed: n.as_i64() },
        serde_json::Value::String(s) => Json::Str(s),
        serde_json::Value::Array(a) => Json::Array(a.into_iter().map(json_from_value).collect()),
        serde_json::Value::Object(m) => Json::Object(
            m.into_iter().map(|(k, v)| (k, json_from_value(v))).collect(),
        ),
    }
}

/// Relies on serde_json::from_str: the document that the text holds, or the
/// description of why it holds none; both depend on the text alone.
#[verifier::external_body]
pub fn parse_json(text: &str) -> (r: Result<Json, String>)
    ensures
        match r {
            Ok(j) => json_parse(text@) == Ok::<Json, Seq<char>>(j),
            Err(m) => json_parse(text@) == Err::<Json, Seq<char>>(m@),
        },
{
    match serde_json::from_str::<serde_json::Value>(text) {
        Ok(v) => Ok(json_from_value(v)),
        Err(e) => Err(e.to_string()),
    }
}

/// A lower-case hexadecimal digit.
pub open spec fn hex_digit(d: u32) -> char {
    if d < 10 {
        ((d + 48) as u8) as char
    } else {
        ((d + 87) as u8) as char
    }
}

/// How one character stands in a JSON string literal: `"` and `\` behind a
/// backslash, the five named control characters by their letters, the other
/// control characters below U+0020 as `\u00` and two hexadecimal digits, and
/// every other character as itself.
pub open spec fn escaped_char(c: char) -> Seq<char> {
    if c == '"' {
        seq!['\\', '"']
    } else if c == '\\' {
        seq!['\\', '\\']
    } else if c == '\u{8}' {
        seq!['\\', 'b']
    } else if c == '\t' {
        seq!['\\', 't']
    } else if c == '\n' {
        seq!['\\', 'n']
    } else if c == '\u{c}' {
        seq!['\\', 'f']
    } else if c == '\r' {
        seq!['\\', 'r']
    } else if (c as u32) < 0x20 {
        seq!['\\', 'u', '0', '0', hex_digit((c as u32) / 16), hex_digit((c as u32) % 16)]
    } else {
        seq![c]
    }
}

/// The escaped characters of a text, in order.
pub open spec fn escaped(s: Seq<char>) -> Seq<char>
    decreases s.len(),
{
    if s.len() == 0 {
        Seq::empty()
    } else {
        escaped(s.drop_last()) + escaped_char(s.last())
    }
}

/// The JSON string literal of a text: its escaped characters between quotes.
pub open spec fn json_quoted(s: Seq<char>) -> Seq<char> {
    seq!['"'] + escaped(s) + seq!['"']
}

/// Relies on serde_json::to_string on a `str`: the text between quotes, each
/// character escaped as serde_json's escape table says (see `escaped_char`).
#[verifier::external_body]
pub fn quote_json(s: &str) -> (r: String)
    ensures
        r@ == json_quoted(s@),
{
    serde_json::to_string(s).unwrap_or_default()
}

/// The value of the first member named `key`.
pub open spec fn member(fields: Seq<(String, Json)>, key: Seq<char>) -> Option<Json>
    decreases fields.len(),
{
    if fields.len() == 0 {
        None
    } else if fields[0].0@ == key {
        Some(fields[0].1)
    } else {
        member(fields.drop_first(), key)
    }
}

/// The member `key` of an object; nothing for any other document.
pub open spec fn get_spec(j: Json, key: Seq<char>) -> Option<Json> {
    match j {
        Json::Object(fields) => member(fields@, key),
        _ => None,
    }
}

/// The text of a string document.
pub open spec fn str_spec(j: Option<Json>) -> Option<String> {
    match j {
        Some(Json::Str(s)) => Some(s),
        _ => None,
    }
}

/// The items of an array document.
pub open spec fn array_spec(j: Option<Json>) -> Option<Seq<Json>> {
    match j {
        Some(Json::Array(items)) => Some(items@),
        _ => None,
    }
}

/// The value of a boolean document.
pub open spec fn bool_spec(j: Option<Json>) -> Option<bool> {
    match j {
        Some(Json::Bool(b)) => Some(b),
        _ => None,
    }
}

/// The value of a number document that is an unsigned 64-bit integer.
pub open spec fn u64_spec(j: Option<Json>) -> Option<u64> {
    match j {
        Some(Json::Number { unsigned, .. }) => unsigned,
        _ => None,
    }
}

/// The value of a number document that is a signed 64-bit integer.
pub open spec fn i64_spec(j: Option<Json>) -> Option<i64> {
    match j {
        Some(Json::Number { signed, .. }) => signed,
        _ => None,
    }
}

proof fn lemma_member_skip(fields: Seq<(String, Json)>, key: Seq<char>, i: int)
    requires
        0 <= i <= fields.len(),
        forall|k: int| 0 <= k < i ==> (#[trigger] fields[k]).0@ != key,
    ensures
        member(fields, key) == member(fields.subrange(i, fields.len() as int), key),
    decreases i,
{
    if i > 0 {
        lemma_member_skip(fields, key, i - 1);
        let t = fields.subrange(i - 1, fields.len() as int);
        assert(t.drop_first() =~= fields.subrange(i, fields.len() as int));
        assert(t[0] == fields[i - 1]);
    } else {
        assert(fields.subrange(0, fields.len() as int) =~= fields);
    }
}

/// The value of a number document that is an unsigned 32-bit integer.
pub open spec fn u32_spec(j: Option<Json>) -> Option<u32> {
    match u64_spec(j) {
        Some(n) => if n <= 0xffff_ffff { Some(n as u32) } else { None },
        None => None,
    }
}

/// Whether `f` decodes every item.
pub open spec fn decodes_all<T>(items: Seq<Json>, f: spec_fn(Json) -> Option<T>) -> bool {
    forall|i: int| 0 <= i < items.len() ==> (#[trigger] f(items[i])) is Some
}

/// What `f` makes of each item.
pub open spec fn decoded<T>(items: Seq<Json>, f: spec_fn(Json) -> Option<T>) -> Seq<T> {
    items.map_values(|j: Json| f(j)->0)
}

/// Decodes every item with `f`; nothing if one item does not decode.
pub(crate) fn decode_items<T, F: Fn(&Json) -> Option<T>>(
    items: &Vec<Json>,
    f: F,
    Ghost(spec_f): Ghost<spec_fn(Json) -> Option<T>>,
) -> (r: Option<Vec<T>>)
    requires
        forall|j: &Json| f.requires((j,)),
        forall|j: &Json, o: Option<T>| f.ensures((j,), o) ==> o == spec_f(*j),
    ensures
        r is Some <==> decodes_all(items@, spec_f),
        r matches Some(v) ==> v@ == decoded(items@, spec_f),
{
    let mut out: Vec<T> = Vec::new();
    let mut i: usize = 0;
    while i < items.len()
        invariant
            forall|j: &Json| f.requires((j,)),
            forall|j: &Json, o: Option<T>| f.ensures((j,), o) ==> o == spec_f(*j),
            i <= items@.len(),
            forall|k: int| 0 <= k < i ==> (#[trigger] spec_f(items@[k])) is Some,
            out@ == decoded(items@.subrange(0, i as int), spec_f),
        decreases items@.len() - i,
    {
        match f(&items[i]) {
            Some(x) => {
                proof {
                    assert(items@.subrange(0, i + 1) =~= items@.subrange(0, i as int).push(items@[i as int]));
                }
                out.push(x);
                proof {
                    assert(out@ =~= decoded(items@.subrange(0, i + 1), spec_f));
                }
            },
            None => {
                return None;
            },
        }
        i = i + 1;
    }
    assert(items@.subrange(0, i as int) =~= items@);
    Some(out)
}

impl Json {
    /// The member `key` of an object.
    pub fn get(&self, key: &str) -> (r: Option<&Json>)
        ensures
            match r {
                Some(v) => get_spec(*self, key@) == Some(*v),
                None => get_spec(*self, key@) is None,
            },
    {
        match self {
            Json::Object(fields) => {
                let wanted = String::from_str(key);
                let mut i: usize = 0;
                while i < fields.len()
                    invariant
                        wanted@ == key@,
                        *self == Json::Object(*fields),
                        i <= fields@.len(),
                        forall|k: int| 0 <= k < i ==> (#[trigger] fields@[k]).0@ != key@,
                    decreases fields@.len() - i,
                {
                    if fields[i].0 == wanted {
                        proof {
                            lemma_member_skip(fields@, key@, i as int);
                            let rest = fields@.subrange(i as int, fields@.len() as int);
                            assert(rest.len() > 0);
                            assert(rest[0] == fields@[i as int]);
                            assert(fields@[i as int].0@ == key@);
                            assert(member(rest, key@) == Some(rest[0].1));
                            assert(*self == Json::Object(*fields));
                        }
                        let item = &fields[i];
                        assert(*item == fields@[i as int]);
                        return Some(&item.1);
                    }
                    i = i + 1;
                }
                proof {
                    lemma_member_skip(fields@, key@, i as int);
                    assert(*self == Json::Object(*fields));
                }
                None
            },
            _ => None,
        }
    }

    /// The member `key` as text.
    pub fn get_str(&self, key: &str) -> (r: Option<&String>)
        ensures
            match r {
                Some(s) => str_spec(get_spec(*self, key@)) == Some(*s),
                None => str_spec(get_spec(*self, key@)) is None,
            },
    {
        match self.get(key) {
            Some(Json::Str(s)) => Some(s),
            _ => None,
        }
    }

    /// The member `key` as an array.
    pub fn get_array(&self, key: &str) -> (r: Option<&Vec<Json>>)
        ensures
            match r {
                Some(a) => array_spec(get_spec(*self, key@)) == Some(a@),
                None => array_spec(get_spec(*self, key@)) is None,
            },
    {
        match self.get(key) {
            Some(Json::Array(a)) => Some(a),
            _ => None,
        }
    }

    /// The member `key` as a boolean.
    pub fn get_bool(&self, key: &str) -> (r: Option<bool>)
        ensures
            r == bool_spec(get_spec(*self, key@)),
    {
        match self.get(key) {
            Some(Json::Bool(b)) => Some(*b),
            _ => None,
        }
    }

    /// The member `key` as an unsigned 64-bit integer.
    pub fn get_u64(&self, key: &str) -> (r: Option<u64>)
        ensures
            r == u64_spec(get_spec(*self, key@)),
    {
        match self.get(key) {
            Some(Json::Number { unsigned, .. }) => *unsigned,
            _ => None,
        }
    }

    /// The member `key` as an unsigned 32-bit integer.
    pub fn get_u32(&self, key: &str) -> (r: Option<u32>)
        ensures
            r == u32_spec(get_spec(*self, key@)),
    {
        match self.get_u64(key) {
            Some(n) => if n <= 0xffff_ffff { Some(n as u32) } else { None },
            None => None,
        }
    }

    /// The items of an array document.
    pub fn items(&self) -> (r: Option<&Vec<Json>>)
        ensures
            match r {
                Some(a) => array_spec(Some(*self)) == Some(a@),
                None => array_spec(Some(*self)) is None,
            },
    {
        match self {
            Json::Array(a) => Some(a),
            _ => None,
        }
    }

    /// The text of a string document.
    pub fn text(&self) -> (r: Option<&String>)
        ensures
            match r {
                Some(s) => str_spec(Some(*self)) == Some(*s),
                None => str_spec(Some(*self)) is None,
            },
    {
        match self {
            Json::Str(s) => Some(s),
            _ => None,
        }
    }

    /// The member `key` as a signed 64-bit integer.
    pub fn get_i64(&self, key: &str) -> (r: Option<i64>)
        ensures
            r == i64_spec(get_spec(*self, key@)),
    {
        match self.get(key) {
            Some(Json::Number { signed, .. }) => *signed,
            _ => None,
        }
    }
}

} // verus!
