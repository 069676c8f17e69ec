//! Hot attributes: the JSON keys that are promoted to typed columns of their own,
//! so that a filter on them scans a column instead of parsing JSON.
use vstd::prelude::*;
use vstd::string::*;

use crate::float::{cast_to_i64, number_bits, read_number, to_i64};
use crate::json::{Json, JsonV, field};
use crate::text::{
    after_prefix, all_word_chars, cat, cat3, char_is_digit, chars_of, float_text_ok, is_digit,
    is_float_text, lower, only_word_chars, parse_i64, parse_i64_text, same, split, split_on,
    split_once, split_once_at, strip_prefix, texts, to_lower,
};

verus! {

/// Column type of a promoted attribute.
#[derive(Debug, Clone, Copy, PartialEq, Eq, Structural)]
pub enum HotType {
    Bigint,
    Double,
    Varchar,
    Boolean,
}

impl HotType {
    /// The type's name in a column definition.
    pub open spec fn ddl_text(self) -> Seq<char> {
        match self {
            HotType::Bigint => "BIGINT"@,
            HotType::Double => "DOUBLE"@,
            HotType::Varchar => "VARCHAR"@,
            HotType::Boolean => "BOOLEAN"@,
        }
    }

    /// The type's name in a column definition.
    pub fn ddl(&self) -> (r: &'static str)
        ensures
            r@ == self.ddl_text(),
    {
        match self {
            HotType::Bigint => "BIGINT",
            HotType::Double => "DOUBLE",
            HotType::Varchar => "VARCHAR",
            HotType::Boolean => "BOOLEAN",
        }
    }
}

/// One promoted attribute: a column, its type, and where in the envelope its
/// value stands.
#[derive(Debug)]
pub struct HotAttribute {
    /// Column name in the `logs` table.
    pub name: String,
    pub duckdb_type: HotType,
    /// A bare key (`user_id`), or a dotted path (`$.ctx.user_id`).
    pub json_path: String,
}

/// The text parts of an attribute.
pub struct HotAttributeV {
    pub name: Seq<char>,
    pub duckdb_type: HotType,
    pub json_path: Seq<char>,
}

impl View for HotAttribute {
    type V = HotAttributeV;

    open spec fn view(&self) -> HotAttributeV {
        HotAttributeV {
            name: self.name@,
            duckdb_type: self.duckdb_type,
            json_path: self.json_path@,
        }
    }
}

impl Clone for HotAttribute {
    fn clone(&self) -> (r: Self)
        ensures
            r@ == self@,
    {
        HotAttribute {
            name: self.name.clone(),
            duckdb_type: self.duckdb_type,
            json_path: self.json_path.clone(),
        }
    }
}

/// The views of a list of attributes.
pub open spec fn attrs_view(v: Seq<HotAttribute>) -> Seq<HotAttributeV> {
    Seq::new(v.len(), |i: int| v[i]@)
}

/// Name, type word and path of a shorthand `name[:type[:path]]`. The type
/// defaults to `varchar`, the path to `$.name`.
pub open spec fn shorthand_parts(s: Seq<char>) -> (Seq<char>, Seq<char>, Seq<char>) {
    match split_once(s, ':') {
        None => (s, "varchar"@, "$."@ + s),
        Some((name, rest)) => match split_once(rest, ':') {
            None => (name, rest, "$."@ + name),
            Some((ty, path)) => (name, ty, path),
        },
    }
}

/// The type that a type word names, in any case.
pub open spec fn type_named(word: Seq<char>) -> Option<HotType> {
    let w = lower(word);
    if w == "bigint"@ || w == "i64"@ || w == "int"@ || w == "long"@ {
        Some(HotType::Bigint)
    } else if w == "double"@ || w == "f64"@ || w == "float"@ {
        Some(HotType::Double)
    } else if w == "varchar"@ || w == "text"@ || w == "string"@ {
        Some(HotType::Varchar)
    } else if w == "boolean"@ || w == "bool"@ {
        Some(HotType::Boolean)
    } else {
        None
    }
}

/// Letters, digits and underscores, not beginning with a digit.
pub open spec fn is_column_name(s: Seq<char>) -> bool {
    s.len() > 0 && all_word_chars(s) && !is_digit(s[0])
}

/// What a shorthand stands for, or the reason why it is refused.
pub open spec fn shorthand(s: Seq<char>) -> Result<HotAttributeV, Seq<char>> {
    let (name, ty, path) = shorthand_parts(s);
    match type_named(ty) {
        None => Err("unknown hot type: "@ + lower(ty)),
        Some(t) => if is_column_name(name) {
            Ok(HotAttributeV { name, duckdb_type: t, json_path: path })
        } else {
            Err("invalid column name '"@ + name + "' (must be [a-z_][a-z0-9_]*)"@)
        },
    }
}

fn type_of_word(word: &str) -> (r: Option<HotType>)
    ensures
        r == type_named(word@),
{
    let lowered = to_lower(word);
    let w = lowered.as_str();
    if same(w, "bigint") || same(w, "i64") || same(w, "int") || same(w, "long") {
        Some(HotType::Bigint)
    } else if same(w, "double") || same(w, "f64") || same(w, "float") {
        Some(HotType::Double)
    } else if same(w, "varchar") || same(w, "text") || same(w, "string") {
        Some(HotType::Varchar)
    } else if same(w, "boolean") || same(w, "bool") {
        Some(HotType::Boolean)
    } else {
        None
    }
}

impl HotAttribute {
    /// Reads a shorthand such as `user_id:bigint` or
    /// `route:varchar:$.request.route`.
    pub fn parse_shorthand(s: &str) -> (r: Result<Self, String>)
        ensures
            match r {
                Ok(h) => shorthand(s@) == Ok::<HotAttributeV, Seq<char>>(h@),
                Err(m) => shorthand(s@) == Err::<HotAttributeV, Seq<char>>(m@),
            },
    {
        let (name, ty, path) = match split_once_at(s, ':') {
            None => (s.to_owned(), "varchar".to_owned(), cat("$.", s)),
            Some((name, rest)) => match split_once_at(rest.as_str(), ':') {
                None => {
                    let path = cat("$.", name.as_str());
                    (name, rest, path)
                },
                Some((ty, path)) => (name, ty, path),
            },
        };
        let duckdb_type = match type_of_word(ty.as_str()) {
            Some(t) => t,
            None => {
                let w = to_lower(ty.as_str());
                return Err(cat("unknown hot type: ", w.as_str()));
            },
        };
        let chars = chars_of(name.as_str());
        if chars.len() > 0 && only_word_chars(chars.as_slice()) && !char_is_digit(chars[0]) {
            Ok(HotAttribute { name, duckdb_type, json_path: path })
        } else {
            Err(cat3("invalid column name '", name.as_str(), "' (must be [a-z_][a-z0-9_]*)"))
        }
    }
}

/// A typed value extracted for a promoted attribute.
#[derive(Debug, Clone, PartialEq)]
pub enum HotValue {
    Null,
    Bigint(i64),
    /// A floating-point number, as the text that spells it.
    Double(String),
    Varchar(String),
    Boolean(bool),
}

/// What a [`HotValue`] says.
pub enum HotValueV {
    Null,
    Bigint(i64),
    Double(Seq<char>),
    Varchar(Seq<char>),
    Boolean(bool),
}

impl View for HotValue {
    type V = HotValueV;

    open spec fn view(&self) -> HotValueV {
        match *self {
            HotValue::Null => HotValueV::Null,
            HotValue::Bigint(i) => HotValueV::Bigint(i),
            HotValue::Double(t) => HotValueV::Double(t@),
            HotValue::Varchar(t) => HotValueV::Varchar(t@),
            HotValue::Boolean(b) => HotValueV::Boolean(b),
        }
    }
}

/// The views of a list of values.
pub open spec fn hot_values_view(v: Seq<HotValue>) -> Seq<HotValueV> {
    Seq::new(v.len(), |i: int| v[i]@)
}

impl HotValue {
    /// Whether there is no value.
    pub fn is_null(&self) -> (r: bool)
        ensures
            r == (self@ is Null),
    {
        matches!(self, HotValue::Null)
    }
}

/// The keys that a path names, some of them perhaps empty.
pub open spec fn path_keys(path: Seq<char>) -> Seq<Seq<char>> {
    split(
        match after_prefix(path, "$."@) {
            Some(rest) => rest,
            None => path,
        },
        '.',
    )
}

/// The value that a walk along keys reaches. An empty key stays where it is.
pub open spec fn walk_keys(v: JsonV, keys: Seq<Seq<char>>) -> Option<JsonV>
    decreases keys.len(),
{
    if keys.len() == 0 {
        Some(v)
    } else if keys[0].len() == 0 {
        walk_keys(v, keys.drop_first())
    } else {
        match field(v, keys[0]) {
            Some(next) => walk_keys(next, keys.drop_first()),
            None => None,
        }
    }
}

/// The value at a path: `$.field`, a bare `field`, or a dotted `$.a.b.c`.
pub fn resolve_json_path<'v>(root: &'v Json, path: &str) -> (r: Option<&'v Json>)
    ensures
        match r {
            Some(v) => walk_keys(root@, path_keys(path@)) == Some(v@),
            None => walk_keys(root@, path_keys(path@)) is None,
        },
{
    let rest = match strip_prefix(path, "$.") {
        Some(rest) => rest,
        None => path.to_owned(),
    };
    let keys = split_on(rest.as_str(), '.');
    let ghost all = texts(keys@);
    let mut cur = root;
    proof {
        assert(all.subrange(0, all.len() as int) == all);
    }
    for i in 0..keys.len()
        invariant
            all == texts(keys@),
            all == path_keys(path@),
            walk_keys(root@, all) == walk_keys(cur@, all.subrange(i as int, all.len() as int)),
    {
        let ghost left = all.subrange(i as int, all.len() as int);
        assert(left[0] == keys@[i as int]@);
        assert(left.drop_first() == all.subrange(i + 1, all.len() as int));
        if !keys[i].as_str().is_empty() {
            match cur.get(keys[i].as_str()) {
                Some(next) => {
                    cur = next;
                },
                None => {
                    return None;
                },
            }
        }
    }
    Some(cur)
}

/// What a word says as a truth value, in any case.
pub open spec fn truth_of(word: Seq<char>) -> Option<bool> {
    let w = lower(word);
    if w == "true"@ || w == "yes"@ || w == "1"@ || w == "on"@ {
        Some(true)
    } else if w == "false"@ || w == "no"@ || w == "0"@ || w == "off"@ {
        Some(false)
    } else {
        None
    }
}

/// The value that a JSON value becomes in a column of a type; no value where it
/// does not fit.
pub open spec fn coerced(v: JsonV, ty: HotType) -> HotValueV {
    match (v, ty) {
        (JsonV::Null, _) => HotValueV::Null,
        (JsonV::Bool(b), HotType::Boolean) => HotValueV::Boolean(b),
        (JsonV::Bool(b), HotType::Bigint) => HotValueV::Bigint(
            if b {
                1
            } else {
                0
            },
        ),
        (JsonV::Bool(b), HotType::Double) => HotValueV::Double(
            if b {
                "1"@
            } else {
                "0"@
            },
        ),
        (JsonV::Bool(b), HotType::Varchar) => HotValueV::Varchar(
            if b {
                "true"@
            } else {
                "false"@
            },
        ),
        (JsonV::Num(t), HotType::Bigint) => match parse_i64_text(t) {
            Some(i) => HotValueV::Bigint(i),
            None => match number_bits(t) {
                Some(bits) => HotValueV::Bigint(to_i64(bits)),
                None => HotValueV::Null,
            },
        },
        (JsonV::Num(t), HotType::Double) => HotValueV::Double(t),
        (JsonV::Num(t), HotType::Varchar) => HotValueV::Varchar(t),
        (JsonV::Num(t), HotType::Boolean) => match parse_i64_text(t) {
            Some(0) => HotValueV::Boolean(false),
            Some(1) => HotValueV::Boolean(true),
            _ => HotValueV::Null,
        },
        (JsonV::Str(s), HotType::Varchar) => HotValueV::Varchar(s),
        (JsonV::Str(s), HotType::Bigint) => match parse_i64_text(s) {
            Some(i) => HotValueV::Bigint(i),
            None => HotValueV::Null,
        },
        (JsonV::Str(s), HotType::Double) => if is_float_text(s) {
            HotValueV::Double(s)
        } else {
            HotValueV::Null
        },
        (JsonV::Str(s), HotType::Boolean) => match truth_of(s) {
            Some(b) => HotValueV::Boolean(b),
            None => HotValueV::Null,
        },
        (JsonV::Arr(_), _) => HotValueV::Null,
        (JsonV::Obj(_), _) => HotValueV::Null,
    }
}

fn truth_of_word(word: &str) -> (r: Option<bool>)
    ensures
        r == truth_of(word@),
{
    let lowered = to_lower(word);
    let w = lowered.as_str();
    if same(w, "true") || same(w, "yes") || same(w, "1") || same(w, "on") {
        Some(true)
    } else if same(w, "false") || same(w, "no") || same(w, "0") || same(w, "off") {
        Some(false)
    } else {
        None
    }
}

/// The value that a JSON value becomes in a column of a type.
pub fn coerce(value: &Json, ty: HotType) -> (r: HotValue)
    ensures
        r@ == coerced(value@, ty),
{
    match value {
        Json::Null => HotValue::Null,
        Json::Bool(b) => match ty {
            HotType::Boolean => HotValue::Boolean(*b),
            HotType::Bigint => HotValue::Bigint(
                if *b {
                    1
                } else {
                    0
                },
            ),
            HotType::Double => HotValue::Double(
                if *b {
                    "1".to_owned()
                } else {
                    "0".to_owned()
                },
            ),
            HotType::Varchar => HotValue::Varchar(
                if *b {
                    "true".to_owned()
                } else {
                    "false".to_owned()
                },
            ),
        },
        Json::Num(n) => match ty {
            HotType::Bigint => match parse_i64(n.as_str()) {
                Some(i) => HotValue::Bigint(i),
                None => match read_number(n.as_str()) {
                    Some(bits) => HotValue::Bigint(cast_to_i64(bits)),
                    None => HotValue::Null,
                },
            },
            HotType::Double => HotValue::Double(n.as_str().to_owned()),
            HotType::Varchar => HotValue::Varchar(n.as_str().to_owned()),
            HotType::Boolean => match parse_i64(n.as_str()) {
                Some(i) => if i == 0 {
                    HotValue::Boolean(false)
                } else if i == 1 {
                    HotValue::Boolean(true)
                } else {
                    HotValue::Null
                },
                None => HotValue::Null,
            },
        },
        Json::Str(s) => match ty {
            HotType::Varchar => HotValue::Varchar(s.clone()),
            HotType::Bigint => match parse_i64(s.as_str()) {
                Some(i) => HotValue::Bigint(i),
                None => HotValue::Null,
            },
            HotType::Double => if float_text_ok(s.as_str()) {
                HotValue::Double(s.clone())
            } else {
                HotValue::Null
            },
            HotType::Boolean => match truth_of_word(s.as_str()) {
                Some(b) => HotValue::Boolean(b),
                None => HotValue::Null,
            },
        },
        Json::Arr(_) => HotValue::Null,
        Json::Obj(_) => HotValue::Null,
    }
}

} // verus!
