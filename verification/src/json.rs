//! JSON values as the crate's logic reads and builds them. Reading and writing
//! the text of a value is `serde_json`'s work.
use vstd::prelude::*;
use vstd::string::*;

use crate::assoc::{entry_map, lemma_entry_dom, lemma_entry_last};
use crate::float::{double_json, write_double_json};
use crate::text::{
    dec, dec_int, dec_of, dec_of_int, list_contains, parse_i64, parse_i64_text, parse_u64,
    parse_u64_text, same, texts,
};

verus! {

/// A JSON number, held as the text that `serde_json` writes for it: an integer
/// is its decimal digits; every other number has a point or an exponent.
#[derive(Debug, PartialEq)]
pub struct Number {
    text: String,
}

/// A JSON value.
#[derive(Debug, PartialEq)]
pub enum Json {
    Null,
    Bool(bool),
    Num(Number),
    Str(String),
    Arr(Vec<Json>),
    Obj(JsonMap),
}

/// The members of a JSON object. Of two members under one name the later one
/// counts.
#[derive(Debug, PartialEq)]
pub struct JsonMap {
    pub entries: Vec<(String, Json)>,
}

/// What a JSON value says.
pub enum JsonV {
    Null,
    Bool(bool),
    Num(Seq<char>),
    Str(Seq<char>),
    Arr(Seq<JsonV>),
    Obj(Map<Seq<char>, JsonV>),
}

impl View for Number {
    type V = Seq<char>;

    closed spec fn view(&self) -> Seq<char> {
        self.text@
    }
}

/// What a JSON value says.
pub open spec fn json_view(j: Json) -> JsonV
    decreases j, 0nat,
{
    match j {
        Json::Null => JsonV::Null,
        Json::Bool(b) => JsonV::Bool(b),
        Json::Num(n) => JsonV::Num(n@),
        Json::Str(s) => JsonV::Str(s@),
        Json::Arr(v) => JsonV::Arr(
            Seq::new(
                v@.len(),
                |i: int|
                    if 0 <= i < v.len() {
                        json_view(v[i])
                    } else {
                        arbitrary()
                    },
            ),
        ),
        Json::Obj(m) => JsonV::Obj(first_members(m, m.entries@.len())),
    }
}

/// What the first `n` members of an object say.
pub open spec fn first_members(m: JsonMap, n: nat) -> Map<Seq<char>, JsonV>
    decreases m, n,
{
    if n == 0 || n > m.entries.len() {
        Map::empty()
    } else {
        first_members(m, (n - 1) as nat).insert(
            m.entries[n - 1].0@,
            json_view(m.entries[n - 1].1),
        )
    }
}

/// What the items of a list say.
pub open spec fn jsons_view(v: Seq<Json>) -> Seq<JsonV> {
    Seq::new(v.len(), |i: int| json_view(v[i]))
}

/// What the members of an object say, in their order.
pub open spec fn entries_view(v: Seq<(String, Json)>) -> Seq<(Seq<char>, JsonV)> {
    Seq::new(v.len(), |i: int| (v[i].0@, json_view(v[i].1)))
}

impl View for Json {
    type V = JsonV;

    open spec fn view(&self) -> JsonV {
        json_view(*self)
    }
}

impl View for JsonMap {
    type V = Map<Seq<char>, JsonV>;

    open spec fn view(&self) -> Map<Seq<char>, JsonV> {
        entry_map(entries_view(self.entries@))
    }
}

proof fn lemma_first_members(m: JsonMap, n: nat)
    requires
        n <= m.entries@.len(),
    ensures
        first_members(m, n) == entry_map(entries_view(m.entries@).take(n as int)),
    decreases n,
{
    if n > 0 {
        lemma_first_members(m, (n - 1) as nat);
        let s = entries_view(m.entries@);
        assert(s.take(n as int).drop_last() == s.take(n - 1));
    }
}

/// The view of a list or of an object is made of the views of its parts.
pub broadcast proof fn lemma_json_view(j: Json)
    ensures
        j matches Json::Arr(v) ==> #[trigger] json_view(j) == JsonV::Arr(jsons_view(v@)),
        j matches Json::Obj(m) ==> json_view(j) == JsonV::Obj(m@),
{
    match j {
        Json::Arr(v) => {
            assert(json_view(j)->Arr_0 =~= jsons_view(v@));
        },
        Json::Obj(m) => {
            lemma_first_members(m, m.entries@.len());
            assert(entries_view(m.entries@).take(m.entries@.len() as int) == entries_view(
                m.entries@,
            ));
        },
        _ => {},
    }
}

// ---------------------------------------------------------------------
// Reading a value
// ---------------------------------------------------------------------
/// The member of an object under a name.
pub open spec fn field(v: JsonV, key: Seq<char>) -> Option<JsonV> {
    match v {
        JsonV::Obj(m) => member(m, key),
        _ => None,
    }
}

/// The member of a map under a name.
pub open spec fn member(m: Map<Seq<char>, JsonV>, key: Seq<char>) -> Option<JsonV> {
    if m.contains_key(key) {
        Some(m[key])
    } else {
        None
    }
}

/// The text of a string value.
pub open spec fn text_of(v: JsonV) -> Option<Seq<char>> {
    match v {
        JsonV::Str(s) => Some(s),
        _ => None,
    }
}

/// The text of an optional string value.
pub open spec fn text_in(v: Option<JsonV>) -> Option<Seq<char>> {
    match v {
        Some(v) => text_of(v),
        None => None,
    }
}

/// The text of a value, or another one where it is none.
pub open spec fn text_or(v: Option<JsonV>, default: Seq<char>) -> Seq<char> {
    match text_in(v) {
        Some(t) => t,
        None => default,
    }
}

/// The members under some names that are not null.
pub open spec fn picked(m: Map<Seq<char>, JsonV>, keys: Set<Seq<char>>) -> Map<Seq<char>, JsonV> {
    m.restrict(Set::new(|k: Seq<char>| keys.contains(k) && m.contains_key(k) && !(m[k] is Null)))
}

/// The integer that a number is, where it is one that fits.
pub open spec fn int_of(v: JsonV) -> Option<i64> {
    match v {
        JsonV::Num(t) => parse_i64_text(t),
        _ => None,
    }
}

/// The natural number that a number is, where it is one that fits.
pub open spec fn nat_of(v: JsonV) -> Option<u64> {
    match v {
        JsonV::Num(t) => parse_u64_text(t),
        _ => None,
    }
}

impl Number {
    /// The number's text.
    pub fn as_str(&self) -> (r: &str)
        ensures
            r@ == self@,
    {
        self.text.as_str()
    }

    /// An integer as a number.
    pub fn from_i64(i: i64) -> (r: Number)
        ensures
            r@ == dec_int(i as int),
    {
        Number { text: dec_of_int(i) }
    }

    /// A natural number as a number.
    pub fn from_u64(n: u64) -> (r: Number)
        ensures
            r@ == dec(n as nat),
    {
        Number { text: dec_of(n) }
    }
}

/// A number by the text that `serde_json` writes for it.
pub(crate) fn number_of_text(text: String) -> (r: Number)
    ensures
        r@ == text@,
{
    Number { text }
}

/// A floating-point number in JSON, by its bit pattern; null where it is not finite.
pub open spec fn double_value(bits: u64) -> JsonV {
    match double_json(bits) {
        Some(t) => JsonV::Num(t),
        None => JsonV::Null,
    }
}

pub fn json_double(bits: u64) -> (r: Json)
    ensures
        r@ == double_value(bits),
{
    match write_double_json(bits) {
        Some(t) => Json::Num(number_of_text(t)),
        None => Json::Null,
    }
}

impl Clone for Number {
    fn clone(&self) -> (r: Self)
        ensures
            r@ == self@,
    {
        Number { text: self.text.clone() }
    }
}

impl Json {
    /// A string value.
    pub fn text(s: &str) -> (r: Json)
        ensures
            r@ == JsonV::Str(s@),
    {
        Json::Str(s.to_owned())
    }

    /// An integer value.
    pub fn from_int(i: i64) -> (r: Json)
        ensures
            r@ == JsonV::Num(dec_int(i as int)),
    {
        Json::Num(Number::from_i64(i))
    }

    /// A natural number as a value.
    pub fn from_nat(n: u64) -> (r: Json)
        ensures
            r@ == JsonV::Num(dec(n as nat)),
    {
        Json::Num(Number::from_u64(n))
    }

    /// The value that a text stands for, or the words in which it is refused.
    pub fn parse(text: &str) -> (r: Result<Json, String>)
        ensures
            read_view(r) == json_read(text@),
    {
        read_json(text)
    }

    /// The compact text of the value.
    pub fn to_text(&self) -> (r: String)
        ensures
            r@ == json_text(self@),
    {
        write_json(self)
    }

    /// The string that the value is.
    pub fn as_str(&self) -> (r: Option<&str>)
        ensures
            match r {
                Some(s) => text_of(self@) == Some(s@),
                None => text_of(self@) is None,
            },
    {
        match self {
            Json::Str(s) => Some(s.as_str()),
            _ => None,
        }
    }

    /// The integer that the value is.
    pub fn as_i64(&self) -> (r: Option<i64>)
        ensures
            r == int_of(self@),
    {
        match self {
            Json::Num(n) => parse_i64(n.as_str()),
            _ => None,
        }
    }

    /// The natural number that the value is.
    pub fn as_u64(&self) -> (r: Option<u64>)
        ensures
            r == nat_of(self@),
    {
        match self {
            Json::Num(n) => parse_u64(n.as_str()),
            _ => None,
        }
    }

    /// The list that the value is.
    pub fn as_array(&self) -> (r: Option<&Vec<Json>>)
        ensures
            match r {
                Some(v) => self@ == JsonV::Arr(jsons_view(v@)),
                None => !(self@ is Arr),
            },
    {
        broadcast use lemma_json_view;

        match self {
            Json::Arr(v) => Some(v),
            _ => None,
        }
    }

    /// The members of the object that the value is.
    pub fn as_object(&self) -> (r: Option<&JsonMap>)
        ensures
            match r {
                Some(m) => self@ == JsonV::Obj(m@),
                None => !(self@ is Obj),
            },
    {
        broadcast use lemma_json_view;

        match self {
            Json::Obj(m) => Some(m),
            _ => None,
        }
    }

    /// The member under a name, where the value is an object that has it.
    pub fn get(&self, key: &str) -> (r: Option<&Json>)
        ensures
            match r {
                Some(v) => field(self@, key@) == Some(v@),
                None => field(self@, key@) is None,
            },
    {
        broadcast use lemma_json_view;

        match self {
            Json::Obj(m) => m.get(key),
            _ => None,
        }
    }

    /// The string under a name, where the value is an object that has one.
    pub fn get_str(&self, key: &str) -> (r: Option<&str>)
        ensures
            match r {
                Some(s) => text_in(field(self@, key@)) == Some(s@),
                None => text_in(field(self@, key@)) is None,
            },
    {
        match self.get(key) {
            Some(v) => v.as_str(),
            None => None,
        }
    }
}

impl Json {
    /// The text under a name, or another one where there is none.
    pub fn str_or(&self, key: &str, default: &str) -> (r: String)
        ensures
            r@ == text_or(field(self@, key@), default@),
    {
        match self.get_str(key) {
            Some(t) => t.to_owned(),
            None => default.to_owned(),
        }
    }
}

impl JsonMap {
    /// No members.
    pub fn new() -> (r: JsonMap)
        ensures
            r@ == Map::<Seq<char>, JsonV>::empty(),
    {
        let entries: Vec<(String, Json)> = Vec::new();
        assert(entries_view(entries@) == Seq::<(Seq<char>, JsonV)>::empty());
        JsonMap { entries }
    }

    /// Sets the member under a name.
    pub fn insert(&mut self, key: &str, value: Json)
        ensures
            final(self)@ == old(self)@.insert(key@, value@),
    {
        let ghost before = entries_view(self.entries@);
        let ghost added = (key@, value@);
        self.entries.push((key.to_owned(), value));
        let ghost after = entries_view(self.entries@);
        assert(after == before.push(added));
        assert(after.drop_last() == before);
    }

    /// Sets the member under a name to a string.
    pub fn insert_str(&mut self, key: &str, value: &str)
        ensures
            final(self)@ == old(self)@.insert(key@, JsonV::Str(value@)),
    {
        self.insert(key, Json::text(value));
    }

    /// The member under a name.
    pub fn get(&self, key: &str) -> (r: Option<&Json>)
        ensures
            match r {
                Some(v) => member(self@, key@) == Some(v@),
                None => member(self@, key@) is None,
            },
    {
        let ghost s = entries_view(self.entries@);
        let mut i: usize = self.entries.len();
        while i > 0
            invariant
                i <= self.entries@.len(),
                s == entries_view(self.entries@),
                forall|j: int| i <= j < s.len() ==> (#[trigger] s[j]).0 != key@,
            decreases i,
        {
            i -= 1;
            if same(self.entries[i].0.as_str(), key) {
                assert(s[i as int].0 == key@);
                proof {
                    lemma_entry_last(s, i as int);
                }
                return Some(&self.entries[i].1);
            }
        }
        proof {
            lemma_entry_dom(s, key@);
        }
        None
    }

    /// The string under a name.
    pub fn get_str(&self, key: &str) -> (r: Option<&str>)
        ensures
            match r {
                Some(s) => text_in(member(self@, key@)) == Some(s@),
                None => text_in(member(self@, key@)) is None,
            },
    {
        match self.get(key) {
            Some(v) => v.as_str(),
            None => None,
        }
    }

    /// Whether there is a member under a name.
    pub fn contains(&self, key: &str) -> (r: bool)
        ensures
            r == self@.contains_key(key@),
    {
        self.get(key).is_some()
    }

    /// Whether there is no member.
    pub fn is_empty(&self) -> (r: bool)
        ensures
            r == (self@ == Map::<Seq<char>, JsonV>::empty()),
    {
        let ghost s = entries_view(self.entries@);
        if self.entries.len() == 0 {
            assert(s == Seq::<(Seq<char>, JsonV)>::empty());
            true
        } else {
            proof {
                assert(s[0].0 == s[0].0);
                lemma_entry_dom(s, s[0].0);
            }
            false
        }
    }
}

// ---------------------------------------------------------------------
// Copies
// ---------------------------------------------------------------------
impl Clone for Json {
    fn clone(&self) -> (r: Self)
        ensures
            r@ == self@,
        decreases self,
    {
        broadcast use lemma_json_view;

        match self {
            Json::Null => Json::Null,
            Json::Bool(b) => Json::Bool(*b),
            Json::Num(n) => Json::Num(n.clone()),
            Json::Str(s) => Json::Str(s.clone()),
            Json::Arr(v) => Json::Arr(copy_items(v)),
            Json::Obj(m) => Json::Obj(m.clone()),
        }
    }
}

/// A copy of a list of values.
pub fn copy_items(v: &Vec<Json>) -> (r: Vec<Json>)
    ensures
        jsons_view(r@) == jsons_view(v@),
    decreases v,
{
    let mut out: Vec<Json> = Vec::new();
    for i in 0..v.len()
        invariant
            jsons_view(out@) == jsons_view(v@).take(i as int),
    {
        let ghost before = jsons_view(out@);
        out.push(v[i].clone());
        assert(jsons_view(out@) == before.push(json_view(v@[i as int])));
    }
    out
}

impl Clone for JsonMap {
    fn clone(&self) -> (r: Self)
        ensures
            r@ == self@,
            entries_view(r.entries@) == entries_view(self.entries@),
        decreases self,
    {
        let mut out: Vec<(String, Json)> = Vec::new();
        for i in 0..self.entries.len()
            invariant
                entries_view(out@) == entries_view(self.entries@).take(i as int),
        {
            let ghost before = entries_view(out@);
            out.push((self.entries[i].0.clone(), self.entries[i].1.clone()));
            assert(entries_view(out@) == before.push(entries_view(self.entries@)[i as int]));
        }
        assert(entries_view(out@) == entries_view(self.entries@));
        JsonMap { entries: out }
    }
}

// ---------------------------------------------------------------------
// Whole maps
// ---------------------------------------------------------------------
impl JsonMap {
    /// Sets every member of another map.
    pub fn extend(&mut self, other: &JsonMap)
        ensures
            final(self)@ == old(self)@.union_prefer_right(other@),
    {
        let ghost start = self@;
        let ghost all = entries_view(other.entries@);
        assert(start.union_prefer_right(entry_map(all.take(0))) =~= start);
        for i in 0..other.entries.len()
            invariant
                all == entries_view(other.entries@),
                self@ == start.union_prefer_right(entry_map(all.take(i as int))),
        {
            let ghost before = entry_map(all.take(i as int));
            let ghost e = all[i as int];
            self.insert(other.entries[i].0.as_str(), other.entries[i].1.clone());
            assert(all.take(i + 1).drop_last() == all.take(i as int));
            assert(start.union_prefer_right(before).insert(e.0, e.1)
                =~= start.union_prefer_right(before.insert(e.0, e.1)));
        }
        assert(all.take(all.len() as int) == all);
    }

    /// The members under other names than those given.
    pub fn without(&self, keys: &[String]) -> (r: JsonMap)
        ensures
            r@ == self@.remove_keys(texts(keys@).to_set()),
    {
        let ghost gone = texts(keys@).to_set();
        let ghost all = entries_view(self.entries@);
        let mut out = JsonMap::new();
        assert(entry_map(all.take(0)).remove_keys(gone) =~= Map::<Seq<char>, JsonV>::empty());
        for i in 0..self.entries.len()
            invariant
                gone == texts(keys@).to_set(),
                all == entries_view(self.entries@),
                out@ == entry_map(all.take(i as int)).remove_keys(gone),
        {
            let ghost before = entry_map(all.take(i as int));
            let ghost e = all[i as int];
            assert(all.take(i + 1).drop_last() == all.take(i as int));
            let key = self.entries[i].0.as_str();
            if list_contains(keys, key) {
                assert(gone.contains(e.0));
                assert(before.insert(e.0, e.1).remove_keys(gone) =~= before.remove_keys(gone));
            } else {
                assert(!gone.contains(e.0));
                out.insert(key, self.entries[i].1.clone());
                assert(before.insert(e.0, e.1).remove_keys(gone) =~= before.remove_keys(
                    gone,
                ).insert(e.0, e.1));
            }
        }
        assert(all.take(all.len() as int) == all);
        out
    }

    /// The members under some names that are not null.
    pub fn pick(&self, keys: &[String]) -> (r: JsonMap)
        ensures
            r@ == picked(self@, texts(keys@).to_set()),
    {
        let mut out = JsonMap::new();
        let ghost m = self@;
        let ghost all = texts(keys@);
        assert(picked(m, all.take(0).to_set()) =~= Map::<Seq<char>, JsonV>::empty());
        for i in 0..keys.len()
            invariant
                m == self@,
                all == texts(keys@),
                out@ == picked(m, all.take(i as int).to_set()),
        {
            let ghost now = all.take(i as int).to_set();
            let ghost key = all[i as int];
            assert(all.take(i + 1).to_set() =~= now.insert(key)) by {
                assert(all.take(i + 1) == all.take(i as int).push(key));
                assert forall|x: Seq<char>| now.insert(key).contains(x) implies all.take(
                    i + 1,
                ).contains(x) by {
                    if x == key {
                        assert(all.take(i + 1)[i as int] == x);
                    } else {
                        let k = choose|k: int| 0 <= k < i && all.take(i as int)[k] == x;
                        assert(all.take(i + 1)[k] == x);
                    }
                }
            }
            match self.get(keys[i].as_str()) {
                Some(v) => {
                    match v {
                        Json::Null => {},
                        _ => out.insert(keys[i].as_str(), v.clone()),
                    }
                },
                None => {},
            }
            assert(out@ =~= picked(m, now.insert(key)));
        }
        assert(all.take(all.len() as int) == all);
        out
    }

    /// Takes the member under a name away.
    pub fn remove(&mut self, key: &str)
        ensures
            final(self)@ == old(self)@.remove(key@),
    {
        let mut keys: Vec<String> = Vec::new();
        keys.push(key.to_owned());
        assert(texts(keys@) == seq![key@]);
        let kept = self.without(keys.as_slice());
        assert(seq![key@][0] == key@);
        assert(seq![key@].to_set() =~= set![key@]);
        assert(self@.remove_keys(set![key@]) =~= self@.remove(key@));
        self.entries = kept.entries;
    }
}

// ---------------------------------------------------------------------
// Trusted: the text of a value
// ---------------------------------------------------------------------
/// A value of `serde_json`.
#[verifier::external_type_specification]
#[verifier::external_body]
pub struct ExValue(serde_json::Value);

/// The value that a text stands for, or the words in which it is refused.
pub uninterp spec fn json_read(text: Seq<char>) -> Result<JsonV, Seq<char>>;

/// The value that a sequence of bytes stands for, or the words in which it is
/// refused.
pub uninterp spec fn json_read_bytes(bytes: Seq<u8>) -> Result<JsonV, Seq<char>>;

/// The compact text of a value.
pub uninterp spec fn json_text(v: JsonV) -> Seq<char>;

/// Whether a text stands for a value.
pub open spec fn reads_as(text: Seq<char>, v: JsonV) -> bool {
    json_read(text) == Ok::<JsonV, Seq<char>>(v)
}

/// Whether a number's text is that of an integer of 64 bits.
pub open spec fn is_integer_text(t: Seq<char>) -> bool {
    ||| exists|n: i64| t == #[trigger] dec_int(n as int)
    ||| exists|n: u64| t == #[trigger] dec(n as nat)
}

/// The member by which `serde_json` marks a text that it is to read as it stands. An
/// object that begins with it is read as what the text holds, and not as an object.
pub open spec fn raw_mark() -> Seq<char> {
    "$serde_json::private::RawValue"@
}

/// Whether a value holds no number but integers, at most so many levels of lists and
/// objects, and no object with a member under the mark of raw texts.
pub open spec fn is_plain(v: JsonV, levels: nat) -> bool
    decreases levels,
{
    match v {
        JsonV::Num(t) => is_integer_text(t),
        JsonV::Arr(items) => levels > 0 && forall|i: int|
            0 <= i < items.len() ==> is_plain(#[trigger] items[i], (levels - 1) as nat),
        JsonV::Obj(m) => levels > 0 && !m.contains_key(raw_mark()) && forall|k: Seq<char>|
         #[trigger]
            m.contains_key(k) ==> is_plain(m[k], (levels - 1) as nat),
        _ => true,
    }
}

/// What a read result says.
pub open spec fn read_view(r: Result<Json, String>) -> Result<JsonV, Seq<char>> {
    match r {
        Ok(j) => Ok(j@),
        Err(m) => Err(m@),
    }
}

/// Moves a `serde_json::Value` into the crate's own type, part by part. Nothing
/// is claimed of it on its own.
#[verifier::external_body]
pub(crate) fn json_from_value(v: serde_json::Value) -> Json {
    match v {
        serde_json::Value::Null => Json::Null,
        serde_json::Value::Bool(b) => Json::Bool(b),
        serde_json::Value::Number(n) => Json::Num(Number { text: n.to_string() }),
        serde_json::Value::String(s) => Json::Str(s),
        serde_json::Value::Array(a) => Json::Arr(a.into_iter().map(json_from_value).collect()),
        serde_json::Value::Object(m) => Json::Obj(
            JsonMap { entries: m.into_iter().map(|(k, x)| (k, json_from_value(x))).collect() },
        ),
    }
}

/// Moves a value into a `serde_json::Value`, part by part. Nothing is claimed of
/// it on its own.
#[verifier::external_body]
pub(crate) fn json_to_value(j: &Json) -> serde_json::Value {
    match j {
        Json::Null => serde_json::Value::Null,
        Json::Bool(b) => serde_json::Value::Bool(*b),
        Json::Num(n) => n.text.parse().map_or(serde_json::Value::Null, serde_json::Value::Number),
        Json::Str(s) => serde_json::Value::String(s.clone()),
        Json::Arr(v) => serde_json::Value::Array(v.iter().map(json_to_value).collect()),
        Json::Obj(m) => serde_json::Value::Object(
            m.entries.iter().map(|(k, x)| (k.clone(), json_to_value(x))).collect(),
        ),
    }
}

/// `serde_json::from_str`: the value that a text stands for, or the error's
/// words. Both depend on the text alone.
#[verifier::external_body]
pub(crate) fn read_json(text: &str) -> (r: Result<Json, String>)
    ensures
        read_view(r) == json_read(text@),
{
    serde_json::from_str(text).map(json_from_value).map_err(|e| e.to_string())
}

/// `serde_json::from_slice`: the value that the bytes stand for, or the error's
/// words. Both depend on the bytes alone.
#[verifier::external_body]
pub(crate) fn read_json_bytes(bytes: &[u8]) -> (r: Result<Json, String>)
    ensures
        read_view(r) == json_read_bytes(bytes@),
{
    serde_json::from_slice(bytes).map(json_from_value).map_err(|e| e.to_string())
}

/// `serde_json::Value::to_string`: the compact text, which depends on what the
/// value says and not on the order in which its members were set. Reading it with
/// `serde_json::from_str` gives the value back, as long as its numbers are integers,
/// it stays within the 127 levels that the reader follows, and none of its objects has a
/// member under the name by which the reader knows raw texts. Of other values nothing is
/// said: a number with a fraction may be read as its neighbour, and an object that begins
/// with that name is read as something else. How deep a value may be at all is a matter of
/// the machine's stack, of which nothing is said either.
#[verifier::external_body]
pub(crate) fn write_json(j: &Json) -> (r: String)
    ensures
        r@ == json_text(j@),
        is_plain(j@, 127) ==> reads_as(r@, j@),
{
    json_to_value(j).to_string()
}

} // verus!
