//! A plain-data JSON document type, its ghost model, and the trusted parse
//! boundary around the JSON library.

use vstd::prelude::*;

verus! {

/// A JSON document as plain data. Numbers keep their decimal text: the
/// protocol this library speaks never computes with them.
pub enum Json {
    Null,
    Bool(bool),
    Num(String),
    Str(String),
    Arr(Vec<Json>),
    Obj(Vec<(String, Json)>),
}

/// Ghost model of a JSON document, over sequences.
pub enum JsonModel {
    Null,
    Bool(bool),
    Num(Seq<char>),
    Str(Seq<char>),
    Arr(Seq<JsonModel>),
    Obj(Seq<(Seq<char>, JsonModel)>),
}

/// The ghost model of a document.
pub open spec fn jmodel(j: Json) -> JsonModel
    decreases j,
{
    match j {
        Json::Null => JsonModel::Null,
        Json::Bool(b) => JsonModel::Bool(b),
        Json::Num(s) => JsonModel::Num(s@),
        Json::Str(s) => JsonModel::Str(s@),
        Json::Arr(items) => JsonModel::Arr(jmodel_seq(items@)),
        Json::Obj(fields) => JsonModel::Obj(jmodel_fields(fields@)),
    }
}

/// The ghost models of the elements of an array, in order.
pub open spec fn jmodel_seq(s: Seq<Json>) -> Seq<JsonModel>
    decreases s,
{
    if s.len() == 0 {
        Seq::empty()
    } else {
        jmodel_seq(s.drop_last()).push(jmodel(s.last()))
    }
}

/// The ghost models of the fields of an object, in order.
pub open spec fn jmodel_fields(s: Seq<(String, Json)>) -> Seq<(Seq<char>, JsonModel)>
    decreases s,
{
    if s.len() == 0 {
        Seq::empty()
    } else {
        jmodel_fields(s.drop_last()).push((s.last().0@, jmodel(s.last().1)))
    }
}

/// `jmodel_seq` maps the sequence pointwise.
pub proof fn lemma_jmodel_seq(s: Seq<Json>)
    ensures
        jmodel_seq(s).len() == s.len(),
        forall|i: int| 0 <= i < s.len() ==> jmodel_seq(s)[i] == jmodel(s[i]),
    decreases s,
{
    if s.len() > 0 {
        lemma_jmodel_seq(s.drop_last());
    }
}

/// `jmodel_fields` maps the field list pointwise.
pub proof fn lemma_jmodel_fields(s: Seq<(String, Json)>)
    ensures
        jmodel_fields(s).len() == s.len(),
        forall|i: int|
            0 <= i < s.len() ==> jmodel_fields(s)[i] == (s[i].0@, jmodel(s[i].1)),
    decreases s,
{
    if s.len() > 0 {
        lemma_jmodel_fields(s.drop_last());
    }
}

#[verifier::external_type_specification]
#[verifier::external_body]
pub struct ExValue(serde_json::Value);

/// What the JSON library parses from one line of text, as a ghost document
/// model; `None` where the text is not one well-formed JSON document.
pub uninterp spec fn json_of(line: Seq<char>) -> Option<JsonModel>;

/// The ghost document model of a parsed `serde_json::Value`; a number is
/// modelled as its decimal text.
pub uninterp spec fn value_model(v: serde_json::Value) -> JsonModel;

/// Relies on `serde_json::from_str`: parses one line of text as one JSON
/// document, or fails; the result depends on the text alone.
#[verifier::external_body]
fn parse_value(line: &str) -> (r: Option<serde_json::Value>)
    ensures
        match r {
            Some(v) => json_of(line@) == Some(value_model(v)),
            None => json_of(line@) is None,
        },
{
    serde_json::from_str::<serde_json::Value>(line).ok()
}

/// Relies on the variant structure of `serde_json::Value`: converts a
/// parsed document into the library's plain document type, variant by
/// variant, field by field; a number becomes its decimal text.
#[verifier::external_body]
fn value_to_json(v: serde_json::Value) -> (r: Json)
    ensures
        jmodel(r) == value_model(v),
{
    match v {
        serde_json::Value::Null => Json::Null,
        serde_json::Value::Bool(b) => Json::Bool(b),
        serde_json::Value::Number(n) => Json::Num(n.to_string()),
        serde_json::Value::String(s) => Json::Str(s),
        serde_json::Value::Array(a) => Json::Arr(a.into_iter().map(value_to_json).collect()),
        serde_json::Value::Object(m) => Json::Obj(
            m.into_iter().map(|(k, x)| (k, value_to_json(x))).collect(),
        ),
    }
}

/// Parse one line of text as one JSON document.
pub fn parse_json(line: &str) -> (r: Option<Json>)
    ensures
        match r {
            Some(j) => json_of(line@) == Some(jmodel(j)),
            None => json_of(line@) is None,
        },
{
    match parse_value(line) {
        Some(v) => Some(value_to_json(v)),
        None => None,
    }
}

/// The first field of an object model named `key`, if the model is an
/// object and has one.
pub open spec fn model_get_fields(
    fields: Seq<(Seq<char>, JsonModel)>,
    key: Seq<char>,
) -> Option<JsonModel>
    decreases fields.len(),
{
    if fields.len() == 0 {
        None
    } else if fields[0].0 == key {
        Some(fields[0].1)
    } else {
        model_get_fields(fields.drop_first(), key)
    }
}

/// Field lookup on a document model; anything but an object has no fields.
pub open spec fn model_get(m: JsonModel, key: Seq<char>) -> Option<JsonModel> {
    match m {
        JsonModel::Obj(fields) => model_get_fields(fields, key),
        _ => None,
    }
}

/// Look up a field of an object document by name.
pub fn obj_get<'a>(j: &'a Json, key: &str) -> (r: Option<&'a Json>)
    ensures
        match r {
            Some(v) => model_get(jmodel(*j), key@) == Some(jmodel(*v)),
            None => model_get(jmodel(*j), key@) is None,
        },
{
    match j {
        Json::Obj(fields) => {
            proof {
                lemma_jmodel_fields(fields@);
                assert(jmodel_fields(fields@).skip(0) =~= jmodel_fields(fields@));
                assert(jmodel(*j) == JsonModel::Obj(jmodel_fields(fields@)));
            }
            let ghost mf = jmodel_fields(fields@);
            let n: usize = fields.len();
            let mut i: usize = 0;
            while i < n
                invariant
                    n == fields@.len(),
                    i <= n,
                    mf == jmodel_fields(fields@),
                    jmodel(*j) == JsonModel::Obj(mf),
                    mf.len() == n,
                    forall|t: int| 0 <= t < n ==> mf[t] == (fields@[t].0@, jmodel(fields@[t].1)),
                    model_get_fields(mf, key@) == model_get_fields(mf.skip(i as int), key@),
                decreases n - i,
            {
                proof {
                    assert(mf.skip(i as int)[0] == mf[i as int]);
                    assert(mf.skip(i as int).drop_first() =~= mf.skip(i + 1));
                }
                let entry: &(String, Json) = &fields[i];
                if crate::text::str_eq(entry.0.as_str(), key) {
                    proof {
                        assert(mf.skip(i as int)[0].0 == key@);
                        assert(model_get_fields(mf.skip(i as int), key@) == Some(
                            mf[i as int].1,
                        ));
                        assert(model_get(jmodel(*j), key@) == Some(jmodel(entry.1)));
                    }
                    return Some(&entry.1);
                }
                i = i + 1;
            }
            proof {
                assert(mf.skip(n as int) =~= Seq::<(Seq<char>, JsonModel)>::empty());
            }
            None
        },
        _ => None,
    }
}

/// Read a document as a string, if it is one.
pub fn as_str<'a>(j: &'a Json) -> (r: Option<&'a String>)
    ensures
        match r {
            Some(s) => jmodel(*j) == JsonModel::Str(s@),
            None => !(jmodel(*j) is Str),
        },
{
    match j {
        Json::Str(s) => Some(s),
        _ => None,
    }
}

/// Read a document as an array, if it is one.
pub fn as_arr<'a>(j: &'a Json) -> (r: Option<&'a Vec<Json>>)
    ensures
        match r {
            Some(items) => jmodel(*j) == JsonModel::Arr(jmodel_seq(items@)),
            None => !(jmodel(*j) is Arr),
        },
{
    match j {
        Json::Arr(items) => Some(items),
        _ => None,
    }
}

/// Whether a document is an object.
pub fn is_obj(j: &Json) -> (r: bool)
    ensures
        r == (jmodel(*j) is Obj),
{
    match j {
        Json::Obj(_) => true,
        _ => false,
    }
}

impl Json {
    /// A deep copy with the same ghost model.
    pub fn clone_json(&self) -> (r: Json)
        ensures
            jmodel(r) == jmodel(*self),
        decreases *self,
    {
        match self {
            Json::Null => Json::Null,
            Json::Bool(b) => Json::Bool(*b),
            Json::Num(s) => Json::Num(s.clone()),
            Json::Str(s) => Json::Str(s.clone()),
            Json::Arr(items) => {
                let n: usize = items.len();
                let mut out: Vec<Json> = Vec::new();
                let mut i: usize = 0;
                proof {
                    assert(items@.take(0) =~= Seq::<Json>::empty());
                }
                while i < n
                    invariant
                        *self == Json::Arr(*items),
                        n == items@.len(),
                        i <= n,
                        out@.len() == i,
                        jmodel_seq(out@) == jmodel_seq(items@.take(i as int)),
                    decreases n - i,
                {
                    proof {
                        assert(*self == Json::Arr(*items));
                        assert(decreases_to!(*self => (*self)->Arr_0));
                        assert((*self)->Arr_0 == *items);
                        assert(decreases_to!(*items => items@));
                        assert(decreases_to!(items@ => items@[i as int]));
                        assert(decreases_to!(*self => items@[i as int]));
                    }
                    let c = items[i].clone_json();
                    let ghost pre = out@;
                    out.push(c);
                    proof {
                        assert(out@.drop_last() =~= pre);
                        assert(items@.take(i + 1).drop_last() =~= items@.take(i as int));
                        assert(items@.take(i + 1).last() == items@[i as int]);
                    }
                    i = i + 1;
                }
                proof {
                    assert(items@.take(n as int) == items@);
                }
                Json::Arr(out)
            },
            Json::Obj(fields) => {
                let n: usize = fields.len();
                let mut out: Vec<(String, Json)> = Vec::new();
                let mut i: usize = 0;
                proof {
                    assert(fields@.take(0) =~= Seq::<(String, Json)>::empty());
                }
                while i < n
                    invariant
                        *self == Json::Obj(*fields),
                        n == fields@.len(),
                        i <= n,
                        out@.len() == i,
                        jmodel_fields(out@) == jmodel_fields(fields@.take(i as int)),
                    decreases n - i,
                {
                    proof {
                        assert(*self == Json::Obj(*fields));
                        assert(decreases_to!(*self => (*self)->Obj_0));
                        assert((*self)->Obj_0 == *fields);
                        assert(decreases_to!(*fields => fields@));
                        assert(decreases_to!(fields@ => fields@[i as int]));
                        assert(decreases_to!(fields@[i as int] => fields@[i as int].1));
                        assert(decreases_to!(*self => fields@[i as int].1));
                    }
                    let entry: &(String, Json) = &fields[i];
                    let k = entry.0.clone();
                    let v = entry.1.clone_json();
                    let ghost pre = out@;
                    out.push((k, v));
                    proof {
                        assert(out@.drop_last() =~= pre);
                        assert(fields@.take(i + 1).drop_last() =~= fields@.take(i as int));
                        assert(fields@.take(i + 1).last() == fields@[i as int]);
                    }
                    i = i + 1;
                }
                proof {
                    assert(fields@.take(n as int) == fields@);
                }
                Json::Obj(out)
            },
        }
    }
}

/// The lowercase hexadecimal digit for a value below sixteen.
pub open spec fn hex_digit(d: nat) -> char {
    if d < 10 {
        crate::text::digit_char(d)
    } else if d == 10 {
        'a'
    } else if d == 11 {
        'b'
    } else if d == 12 {
        'c'
    } else if d == 13 {
        'd'
    } else if d == 14 {
        'e'
    } else {
        'f'
    }
}

/// How one character is written inside a JSON string literal: quote,
/// backslash and the named control characters get two-character escapes,
/// any other control character a four-digit one, and the rest stand as is.
pub open spec fn json_escape_char(c: char) -> Seq<char> {
    if c == '"' {
        seq!['\\', '"']
    } else if c == '\\' {
        seq!['\\', '\\']
    } else if c == '\u{8}' {
        seq!['\\', 'b']
    } else if c == '\u{c}' {
        seq!['\\', 'f']
    } else if c == '\n' {
        seq!['\\', 'n']
    } else if c == '\r' {
        seq!['\\', 'r']
    } else if c == '\t' {
        seq!['\\', 't']
    } else if (c as u32) < 0x20 {
        seq!['\\', 'u', '0', '0', hex_digit((c as u32 / 16) as nat), hex_digit(
            (c as u32 % 16) as nat,
        )]
    } else {
        seq![c]
    }
}

/// The body of a JSON string literal holding exactly the characters of `s`.
pub open spec fn spec_json_escape(s: Seq<char>) -> Seq<char>
    decreases s.len(),
{
    if s.len() == 0 {
        Seq::empty()
    } else {
        json_escape_char(s[0]) + spec_json_escape(s.drop_first())
    }
}

/// Escaping one more character at the end appends that character's escape.
pub proof fn lemma_json_escape_push(s: Seq<char>, c: char)
    ensures
        spec_json_escape(s.push(c)) == spec_json_escape(s) + json_escape_char(c),
    decreases s.len(),
{
    if s.len() == 0 {
        assert(s.push(c)[0] == c);
        assert(s.push(c).drop_first() =~= Seq::<char>::empty());
        assert(spec_json_escape(s.push(c)) == json_escape_char(c) + spec_json_escape(
            Seq::<char>::empty(),
        ));
        assert(json_escape_char(c) + Seq::<char>::empty() =~= Seq::<char>::empty()
            + json_escape_char(c));
    } else {
        assert(s.push(c).drop_first() =~= s.drop_first().push(c));
        lemma_json_escape_push(s.drop_first(), c);
        assert(json_escape_char(s[0]) + (spec_json_escape(s.drop_first()) + json_escape_char(c))
            =~= (json_escape_char(s[0]) + spec_json_escape(s.drop_first())) + json_escape_char(
            c,
        ));
    }
}

/// Escape the characters of `s` for a JSON string literal.
pub fn json_escape(s: &str) -> (r: String)
    ensures
        r@ == spec_json_escape(s@),
{
    let n: usize = s.unicode_len();
    let mut out = String::new();
    let mut i: usize = 0;
    while i < n
        invariant
            n == s@.len(),
            i <= n,
            out@ == spec_json_escape(s@.take(i as int)),
        decreases n - i,
    {
        let c = s.get_char(i);
        if c == '"' {
            crate::text::push_char(&mut out, '\\');
            crate::text::push_char(&mut out, '"');
        } else if c == '\\' {
            crate::text::push_char(&mut out, '\\');
            crate::text::push_char(&mut out, '\\');
        } else if c == '\u{8}' {
            crate::text::push_char(&mut out, '\\');
            crate::text::push_char(&mut out, 'b');
        } else if c == '\u{c}' {
            crate::text::push_char(&mut out, '\\');
            crate::text::push_char(&mut out, 'f');
        } else if c == '\n' {
            crate::text::push_char(&mut out, '\\');
            crate::text::push_char(&mut out, 'n');
        } else if c == '\r' {
            crate::text::push_char(&mut out, '\\');
            crate::text::push_char(&mut out, 'r');
        } else if c == '\t' {
            crate::text::push_char(&mut out, '\\');
            crate::text::push_char(&mut out, 't');
        } else if (c as u32) < 0x20 {
            let code: u32 = c as u32;
            crate::text::push_char(&mut out, '\\');
            crate::text::push_char(&mut out, 'u');
            crate::text::push_char(&mut out, '0');
            crate::text::push_char(&mut out, '0');
            crate::text::push_char(&mut out, hex_digit_exec(code / 16));
            crate::text::push_char(&mut out, hex_digit_exec(code % 16));
        } else {
            crate::text::push_char(&mut out, c);
        }
        proof {
            lemma_json_escape_push(s@.take(i as int), s@[i as int]);
            assert(s@.take(i + 1) == s@.take(i as int).push(s@[i as int]));
            assert(out@ =~= spec_json_escape(s@.take(i + 1)));
        }
        i = i + 1;
    }
    proof {
        assert(s@.take(n as int) == s@);
    }
    out
}

/// The lowercase hexadecimal digit of `d`, for `d < 16`.
fn hex_digit_exec(d: u32) -> (c: char)
    requires
        d < 16,
    ensures
        c == hex_digit(d as nat),
{
    if d < 10 {
        crate::text::digit_char_exec(d as u64)
    } else if d == 10 {
        'a'
    } else if d == 11 {
        'b'
    } else if d == 12 {
        'c'
    } else if d == 13 {
        'd'
    } else if d == 14 {
        'e'
    } else {
        'f'
    }
}

/// A whole JSON string literal holding exactly the characters of `s`.
pub fn json_quote(s: &str) -> (r: String)
    ensures
        r@ == seq!['"'] + spec_json_escape(s@) + seq!['"'],
{
    let mut out = String::new();
    crate::text::push_char(&mut out, '"');
    let body = json_escape(s);
    let out2 = out.concat(body.as_str());
    let mut out3 = out2;
    crate::text::push_char(&mut out3, '"');
    proof {
        assert(out3@ =~= seq!['"'] + spec_json_escape(s@) + seq!['"']);
    }
    out3
}

/// Read a document as a boolean, if it is one.
pub fn as_bool(j: &Json) -> (r: Option<bool>)
    ensures
        match r {
            Some(b) => jmodel(*j) == JsonModel::Bool(b),
            None => !(jmodel(*j) is Bool),
        },
{
    match j {
        Json::Bool(b) => Some(*b),
        _ => None,
    }
}

} // verus!
