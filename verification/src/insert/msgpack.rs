//! MessagePack, as far as the forward protocol of Fluentd uses it.
//!
//! A value is decoded from a buffer. What a marker byte announces is written down
//! once, in [`form_of`]; a value follows from it.
use vstd::prelude::*;
use vstd::slice::{slice_subrange, slice_to_vec};
use vstd::string::*;

use crate::float::{
    cast_to_i64, double_text, fraction_mantissa, is_finite, is_whole, to_i64, widen, widened,
    write_double,
};
use crate::text::{dec, dec_int, dec_of, dec_of_int, lossy_text, opt_text, same, text_lossy};

verus! {

/// A decoded value.
#[derive(Debug, PartialEq)]
pub enum MsgValue {
    Nil,
    Bool(bool),
    Int(i64),
    Uint(u64),
    /// A floating-point number, as its double-precision bit pattern.
    F64(u64),
    Str(String),
    Bin(Vec<u8>),
    Array(Vec<MsgValue>),
    /// Keys that are no strings are turned into strings.
    Dict(Vec<(String, MsgValue)>),
    /// A type of its own, and its body.
    Ext(i8, Vec<u8>),
}

/// Why bytes are no value.
#[derive(Debug, Clone, Copy, PartialEq)]
pub struct DecodeError {
    pub at: usize,
    pub kind: &'static str,
}

/// What a [`MsgValue`] says.
pub enum MsgV {
    Nil,
    Bool(bool),
    Int(i64),
    Uint(u64),
    F64(u64),
    Str(Seq<char>),
    Bin(Seq<u8>),
    Array(Seq<MsgV>),
    Dict(Seq<(Seq<char>, MsgV)>),
    Ext(i8, Seq<u8>),
}

/// What a [`MsgValue`] says.
pub open spec fn msg_view(v: MsgValue) -> MsgV
    decreases v,
{
    match v {
        MsgValue::Nil => MsgV::Nil,
        MsgValue::Bool(b) => MsgV::Bool(b),
        MsgValue::Int(i) => MsgV::Int(i),
        MsgValue::Uint(u) => MsgV::Uint(u),
        MsgValue::F64(x) => MsgV::F64(x),
        MsgValue::Str(s) => MsgV::Str(s@),
        MsgValue::Bin(b) => MsgV::Bin(b@),
        MsgValue::Array(items) => MsgV::Array(
            Seq::new(
                items@.len(),
                |i: int|
                    if 0 <= i < items.len() {
                        msg_view(items[i])
                    } else {
                        arbitrary()
                    },
            ),
        ),
        MsgValue::Dict(pairs) => MsgV::Dict(
            Seq::new(
                pairs@.len(),
                |i: int|
                    if 0 <= i < pairs.len() {
                        (pairs[i].0@, msg_view(pairs[i].1))
                    } else {
                        arbitrary()
                    },
            ),
        ),
        MsgValue::Ext(t, b) => MsgV::Ext(t, b@),
    }
}

impl View for MsgValue {
    type V = MsgV;

    open spec fn view(&self) -> MsgV {
        msg_view(*self)
    }
}

/// The views of a list of values.
pub open spec fn msgs_view(v: Seq<MsgValue>) -> Seq<MsgV> {
    Seq::new(v.len(), |i: int| msg_view(v[i]))
}

/// The views of a list of pairs.
pub open spec fn pairs_view(v: Seq<(String, MsgValue)>) -> Seq<(Seq<char>, MsgV)> {
    Seq::new(v.len(), |i: int| (v[i].0@, msg_view(v[i].1)))
}

/// The view of a list or a map is made of the views of its parts.
pub broadcast proof fn lemma_msg_view(v: MsgValue)
    ensures
        v matches MsgValue::Array(items) ==> #[trigger] msg_view(v) == MsgV::Array(
            msgs_view(items@),
        ),
        v matches MsgValue::Dict(pairs) ==> msg_view(v) == MsgV::Dict(pairs_view(pairs@)),
{
    match v {
        MsgValue::Array(items) => {
            assert(msg_view(v)->Array_0 =~= msgs_view(items@));
        },
        MsgValue::Dict(pairs) => {
            assert(msg_view(v)->Dict_0 =~= pairs_view(pairs@));
        },
        _ => {},
    }
}

// ---------------------------------------------------------------------
// Reading a value
// ---------------------------------------------------------------------
/// The string that a value is.
pub open spec fn msg_str(v: MsgV) -> Option<Seq<char>> {
    match v {
        MsgV::Str(s) => Some(s),
        _ => None,
    }
}

/// A scalar as text.
pub open spec fn msg_text(v: MsgV) -> Option<Seq<char>> {
    match v {
        MsgV::Str(s) => Some(s),
        MsgV::Bin(b) => Some(lossy_text(b)),
        MsgV::Int(i) => Some(dec_int(i as int)),
        MsgV::Uint(u) => Some(dec(u as nat)),
        MsgV::F64(x) => Some(double_text(x)),
        _ => None,
    }
}

/// The integer that a value is.
pub open spec fn msg_int(v: MsgV) -> Option<i64> {
    match v {
        MsgV::Int(i) => Some(i),
        MsgV::Uint(u) => if u <= i64::MAX {
            Some(u as i64)
        } else {
            None
        },
        MsgV::F64(x) => if is_finite(x) && fraction_mantissa(x) == 0 {
            Some(to_i64(x))
        } else {
            None
        },
        _ => None,
    }
}

impl MsgValue {
    /// The string that the value is.
    pub fn as_str(&self) -> (r: Option<&str>)
        ensures
            match r {
                Some(s) => msg_str(self@) == Some(s@),
                None => msg_str(self@) is None,
            },
    {
        match self {
            MsgValue::Str(s) => Some(s.as_str()),
            _ => None,
        }
    }

    /// The natural number that the value is.
    pub fn as_u64(&self) -> (r: Option<u64>)
        ensures
            r == (match self@ {
                MsgV::Uint(u) => Some(u),
                MsgV::Int(i) => if i >= 0 {
                    Some(i as u64)
                } else {
                    None
                },
                _ => None,
            }),
    {
        match self {
            MsgValue::Uint(u) => Some(*u),
            MsgValue::Int(i) => if *i >= 0 {
                Some(*i as u64)
            } else {
                None
            },
            _ => None,
        }
    }

    /// The integer that the value is.
    pub fn as_i64(&self) -> (r: Option<i64>)
        ensures
            r == msg_int(self@),
    {
        match self {
            MsgValue::Int(i) => Some(*i),
            MsgValue::Uint(u) => if *u <= 0x7fff_ffff_ffff_ffff {
                Some(*u as i64)
            } else {
                None
            },
            MsgValue::F64(x) => if is_whole(*x) {
                Some(cast_to_i64(*x))
            } else {
                None
            },
            _ => None,
        }
    }

    /// The bytes that the value is.
    pub fn as_bytes(&self) -> (r: Option<&[u8]>)
        ensures
            match r {
                Some(b) => match self@ {
                    MsgV::Bin(x) => b@ == x,
                    MsgV::Str(s) => b@ == vstd::utf8::encode_utf8(s),
                    _ => false,
                },
                None => !(self@ is Bin) && !(self@ is Str),
            },
    {
        match self {
            MsgValue::Bin(b) => Some(b.as_slice()),
            MsgValue::Str(s) => Some(s.as_str().as_bytes()),
            _ => None,
        }
    }

    /// A scalar as text.
    pub fn to_string_lossy(&self) -> (r: Option<String>)
        ensures
            opt_text(r) == msg_text(self@),
    {
        match self {
            MsgValue::Str(s) => Some(s.clone()),
            MsgValue::Bin(b) => Some(text_lossy(b.as_slice())),
            MsgValue::Int(i) => Some(dec_of_int(*i)),
            MsgValue::Uint(u) => Some(dec_of(*u)),
            MsgValue::F64(x) => Some(write_double(*x)),
            _ => None,
        }
    }
}

// ---------------------------------------------------------------------
// The format
// ---------------------------------------------------------------------
/// Where the length of a body stands: in the marker, or in so many bytes behind it.
#[derive(Debug, Clone, Copy, PartialEq, Eq, Structural)]
pub enum Length {
    Given(u64),
    Field(usize),
}

/// What a marker byte announces.
#[derive(Debug, Clone, Copy, PartialEq, Eq, Structural)]
pub enum Form {
    Nil,
    Bool(bool),
    /// A small number in the marker itself.
    Small(u64),
    /// A small negative number in the marker itself.
    Negative(i64),
    /// An unsigned number of so many bytes.
    Unsigned(usize),
    /// A signed number of so many bytes.
    Signed(usize),
    Single,
    Double,
    Text(Length),
    Bytes(Length),
    List(Length),
    Dict(Length),
    Extension(Length),
    Unknown,
}

/// What a marker byte announces.
pub open spec fn form(b: u8) -> Form {
    if b <= 0x7f {
        Form::Small(b as u64)
    } else if b <= 0x8f {
        Form::Dict(Length::Given((b - 0x80) as u64))
    } else if b <= 0x9f {
        Form::List(Length::Given((b - 0x90) as u64))
    } else if b <= 0xbf {
        Form::Text(Length::Given((b - 0xa0) as u64))
    } else if b >= 0xe0 {
        Form::Negative((b - 0x100) as i64)
    } else if b == 0xc0 {
        Form::Nil
    } else if b == 0xc2 {
        Form::Bool(false)
    } else if b == 0xc3 {
        Form::Bool(true)
    } else if b == 0xc4 {
        Form::Bytes(Length::Field(1))
    } else if b == 0xc5 {
        Form::Bytes(Length::Field(2))
    } else if b == 0xc6 {
        Form::Bytes(Length::Field(4))
    } else if b == 0xc7 {
        Form::Extension(Length::Field(1))
    } else if b == 0xc8 {
        Form::Extension(Length::Field(2))
    } else if b == 0xc9 {
        Form::Extension(Length::Field(4))
    } else if b == 0xca {
        Form::Single
    } else if b == 0xcb {
        Form::Double
    } else if b == 0xcc {
        Form::Unsigned(1)
    } else if b == 0xcd {
        Form::Unsigned(2)
    } else if b == 0xce {
        Form::Unsigned(4)
    } else if b == 0xcf {
        Form::Unsigned(8)
    } else if b == 0xd0 {
        Form::Signed(1)
    } else if b == 0xd1 {
        Form::Signed(2)
    } else if b == 0xd2 {
        Form::Signed(4)
    } else if b == 0xd3 {
        Form::Signed(8)
    } else if b == 0xd4 {
        Form::Extension(Length::Given(1))
    } else if b == 0xd5 {
        Form::Extension(Length::Given(2))
    } else if b == 0xd6 {
        Form::Extension(Length::Given(4))
    } else if b == 0xd7 {
        Form::Extension(Length::Given(8))
    } else if b == 0xd8 {
        Form::Extension(Length::Given(16))
    } else if b == 0xd9 {
        Form::Text(Length::Field(1))
    } else if b == 0xda {
        Form::Text(Length::Field(2))
    } else if b == 0xdb {
        Form::Text(Length::Field(4))
    } else if b == 0xdc {
        Form::List(Length::Field(2))
    } else if b == 0xdd {
        Form::List(Length::Field(4))
    } else if b == 0xde {
        Form::Dict(Length::Field(2))
    } else if b == 0xdf {
        Form::Dict(Length::Field(4))
    } else {
        Form::Unknown
    }
}

fn form_of(b: u8) -> (r: Form)
    ensures
        r == form(b),
{
    match b {
        0x00..=0x7f => Form::Small(b as u64),
        0x80..=0x8f => Form::Dict(Length::Given((b - 0x80) as u64)),
        0x90..=0x9f => Form::List(Length::Given((b - 0x90) as u64)),
        0xa0..=0xbf => Form::Text(Length::Given((b - 0xa0) as u64)),
        0xe0..=0xff => Form::Negative(b as i64 - 0x100),
        0xc0 => Form::Nil,
        0xc2 => Form::Bool(false),
        0xc3 => Form::Bool(true),
        0xc4 => Form::Bytes(Length::Field(1)),
        0xc5 => Form::Bytes(Length::Field(2)),
        0xc6 => Form::Bytes(Length::Field(4)),
        0xc7 => Form::Extension(Length::Field(1)),
        0xc8 => Form::Extension(Length::Field(2)),
        0xc9 => Form::Extension(Length::Field(4)),
        0xca => Form::Single,
        0xcb => Form::Double,
        0xcc => Form::Unsigned(1),
        0xcd => Form::Unsigned(2),
        0xce => Form::Unsigned(4),
        0xcf => Form::Unsigned(8),
        0xd0 => Form::Signed(1),
        0xd1 => Form::Signed(2),
        0xd2 => Form::Signed(4),
        0xd3 => Form::Signed(8),
        0xd4 => Form::Extension(Length::Given(1)),
        0xd5 => Form::Extension(Length::Given(2)),
        0xd6 => Form::Extension(Length::Given(4)),
        0xd7 => Form::Extension(Length::Given(8)),
        0xd8 => Form::Extension(Length::Given(16)),
        0xd9 => Form::Text(Length::Field(1)),
        0xda => Form::Text(Length::Field(2)),
        0xdb => Form::Text(Length::Field(4)),
        0xdc => Form::List(Length::Field(2)),
        0xdd => Form::List(Length::Field(4)),
        0xde => Form::Dict(Length::Field(2)),
        0xdf => Form::Dict(Length::Field(4)),
        _ => Form::Unknown,
    }
}

/// The number that bytes stand for, the most significant one first.
pub open spec fn be(b: Seq<u8>) -> nat
    decreases b.len(),
{
    if b.len() == 0 {
        0
    } else {
        be(b.drop_last()) * 256 + b.last() as nat
    }
}

/// The number that so many bytes at a place stand for.
pub open spec fn be_at(b: Seq<u8>, p: int, k: int) -> nat {
    be(b.subrange(p, p + k))
}

/// A number of so many bytes, read as a two's complement.
pub open spec fn signed(n: nat, k: usize) -> i64 {
    if k == 1 {
        if n < 0x80 {
            n as i64
        } else {
            (n - 0x100) as i64
        }
    } else if k == 2 {
        if n < 0x8000 {
            n as i64
        } else {
            (n - 0x1_0000) as i64
        }
    } else if k == 4 {
        if n < 0x8000_0000 {
            n as i64
        } else {
            (n - 0x1_0000_0000) as i64
        }
    } else {
        if n < 0x8000_0000_0000_0000 {
            n as i64
        } else {
            (n - 0x1_0000_0000_0000_0000) as i64
        }
    }
}

/// An integer as a value: only a negative one is signed.
pub open spec fn lossless(i: i64) -> MsgV {
    if i >= 0 {
        MsgV::Uint(i as u64)
    } else {
        MsgV::Int(i)
    }
}

/// The type byte of an extension.
pub open spec fn type_byte(b: u8) -> i8 {
    if b < 0x80 {
        b as i8
    } else {
        (b - 0x100) as i8
    }
}

/// A place and a reason.
pub struct MsgFault {
    pub at: int,
    pub kind: Seq<char>,
}

impl View for DecodeError {
    type V = MsgFault;

    open spec fn view(&self) -> MsgFault {
        MsgFault { at: self.at as int, kind: self.kind@ }
    }
}

/// The fault that more bytes may mend.
pub open spec fn eof(at: int) -> MsgFault {
    MsgFault { at, kind: "eof"@ }
}

/// A length, and the place behind it.
pub open spec fn length_at(b: Seq<u8>, p: int, l: Length) -> Result<(nat, int), MsgFault> {
    match l {
        Length::Given(n) => Ok((n as nat, p)),
        Length::Field(k) => if p + k <= b.len() {
            Ok((be_at(b, p, k as int), p + k))
        } else {
            Err(eof(p))
        },
    }
}

/// A body of a length, and the place behind it.
pub open spec fn body_at(b: Seq<u8>, p: int, l: Length) -> Result<(Seq<u8>, int), MsgFault> {
    match length_at(b, p, l) {
        Err(f) => Err(f),
        Ok((n, q)) => if q + n <= b.len() {
            Ok((b.subrange(q, q + n), q + n))
        } else {
            Err(eof(q))
        },
    }
}

/// The most items that a list or a map may have.
pub const MAX_ITEMS: u64 = 1_048_576;

/// The value at a place, and the place behind it.
pub open spec fn msg_at(b: Seq<u8>, p: int) -> Result<(MsgV, int), MsgFault>
    decreases b.len() - p, 0nat,
{
    if !(0 <= p < b.len()) {
        Err(eof(p))
    } else {
        let q = p + 1;
        match form(b[p]) {
            Form::Nil => Ok((MsgV::Nil, q)),
            Form::Bool(x) => Ok((MsgV::Bool(x), q)),
            Form::Small(n) => Ok((MsgV::Uint(n), q)),
            Form::Negative(i) => Ok((MsgV::Int(i), q)),
            Form::Unsigned(k) => if q + k <= b.len() {
                Ok((MsgV::Uint(be_at(b, q, k as int) as u64), q + k))
            } else {
                Err(eof(q))
            },
            Form::Signed(k) => if q + k <= b.len() {
                Ok((lossless(signed(be_at(b, q, k as int), k)), q + k))
            } else {
                Err(eof(q))
            },
            Form::Single => if q + 4 <= b.len() {
                Ok((MsgV::F64(widened(be_at(b, q, 4) as u32)), q + 4))
            } else {
                Err(eof(q))
            },
            Form::Double => if q + 8 <= b.len() {
                Ok((MsgV::F64(be_at(b, q, 8) as u64), q + 8))
            } else {
                Err(eof(q))
            },
            Form::Text(l) => match body_at(b, q, l) {
                Ok((x, r)) => Ok((MsgV::Str(lossy_text(x)), r)),
                Err(f) => Err(f),
            },
            Form::Bytes(l) => match body_at(b, q, l) {
                Ok((x, r)) => Ok((MsgV::Bin(x), r)),
                Err(f) => Err(f),
            },
            Form::List(l) => match length_at(b, q, l) {
                Err(f) => Err(f),
                Ok((n, r)) => if n > MAX_ITEMS {
                    Err(MsgFault { at: r, kind: "array too large"@ })
                } else if q <= r <= b.len() {
                    match items_at(b, r, n, Seq::empty()) {
                        Ok((items, t)) => Ok((MsgV::Array(items), t)),
                        Err(f) => Err(f),
                    }
                } else {
                    Err(eof(r))
                },
            },
            Form::Dict(l) => match length_at(b, q, l) {
                Err(f) => Err(f),
                Ok((n, r)) => if n > MAX_ITEMS {
                    Err(MsgFault { at: r, kind: "map too large"@ })
                } else if q <= r <= b.len() {
                    match members_at(b, r, n, Seq::empty()) {
                        Ok((pairs, t)) => Ok((MsgV::Dict(pairs), t)),
                        Err(f) => Err(f),
                    }
                } else {
                    Err(eof(r))
                },
            },
            Form::Extension(l) => match length_at(b, q, l) {
                Err(f) => Err(f),
                Ok((n, r)) => if r >= b.len() {
                    Err(eof(r))
                } else if r + 1 + n <= b.len() {
                    Ok((MsgV::Ext(type_byte(b[r]), b.subrange(r + 1, r + 1 + n)), r + 1 + n))
                } else {
                    Err(eof(r + 1))
                },
            },
            Form::Unknown => Err(MsgFault { at: q, kind: "unsupported marker"@ }),
        }
    }
}

/// So many values from a place on, after those read so far.
pub open spec fn items_at(b: Seq<u8>, p: int, n: nat, done: Seq<MsgV>) -> Result<
    (Seq<MsgV>, int),
    MsgFault,
>
    decreases b.len() - p, n + 1,
{
    if n == 0 {
        Ok((done, p))
    } else {
        match msg_at(b, p) {
            Err(f) => Err(f),
            Ok((v, q)) => if p < q <= b.len() {
                items_at(b, q, (n - 1) as nat, done.push(v))
            } else {
                Err(eof(p))
            },
        }
    }
}

/// The text of a key.
pub open spec fn key_text(k: MsgV) -> Seq<char> {
    match msg_text(k) {
        Some(t) => t,
        None => Seq::empty(),
    }
}

/// So many pairs from a place on, after those read so far.
pub open spec fn members_at(b: Seq<u8>, p: int, n: nat, done: Seq<(Seq<char>, MsgV)>) -> Result<
    (Seq<(Seq<char>, MsgV)>, int),
    MsgFault,
>
    decreases b.len() - p, n + 1,
{
    if n == 0 {
        Ok((done, p))
    } else {
        match msg_at(b, p) {
            Err(f) => Err(f),
            Ok((k, q)) => if p < q <= b.len() {
                match msg_at(b, q) {
                    Err(f) => Err(f),
                    Ok((v, r)) => if q < r <= b.len() {
                        members_at(b, r, (n - 1) as nat, done.push((key_text(k), v)))
                    } else {
                        Err(eof(q))
                    },
                }
            } else {
                Err(eof(p))
            },
        }
    }
}

// ---------------------------------------------------------------------
// Decoding
// ---------------------------------------------------------------------
fn fail(at: usize, kind: &'static str) -> (r: DecodeError)
    ensures
        r@ == (MsgFault { at: at as int, kind: kind@ }),
{
    DecodeError { at, kind }
}

pub proof fn lemma_be_bound(b: Seq<u8>)
    ensures
        b.len() <= 1 ==> be(b) < 0x100,
        b.len() <= 2 ==> be(b) < 0x1_0000,
        b.len() <= 4 ==> be(b) < 0x1_0000_0000,
        b.len() <= 8 ==> be(b) < 0x1_0000_0000_0000_0000,
{
    lemma_be_pow(b);
    vstd::arithmetic::power2::lemma2_to64();
    if b.len() <= 8 {
        lemma_pow_of(b.len());
    }
}

spec fn byte_pow(n: nat) -> nat
    decreases n,
{
    if n == 0 {
        1
    } else {
        256 * byte_pow((n - 1) as nat)
    }
}

proof fn lemma_be_pow(b: Seq<u8>)
    ensures
        be(b) < byte_pow(b.len()),
    decreases b.len(),
{
    if b.len() > 0 {
        lemma_be_pow(b.drop_last());
    }
}

proof fn lemma_pow_of(n: nat)
    requires
        n <= 8,
    ensures
        n <= 1 ==> byte_pow(n) <= 0x100,
        n <= 2 ==> byte_pow(n) <= 0x1_0000,
        n <= 4 ==> byte_pow(n) <= 0x1_0000_0000,
        n <= 8 ==> byte_pow(n) <= 0x1_0000_0000_0000_0000,
{
    reveal_with_fuel(byte_pow, 9);
}

/// The number that up to eight bytes stand for.
pub fn be_number(b: &[u8]) -> (r: u64)
    requires
        b@.len() <= 8,
    ensures
        r == be(b@),
{
    let mut n: u64 = 0;
    for i in 0..b.len()
        invariant
            b@.len() <= 8,
            n == be(b@.take(i as int)),
    {
        let ghost t = b@.take(i + 1);
        assert(t.drop_last() == b@.take(i as int));
        proof {
            lemma_be_bound(t);
        }
        n = n * 256 + b[i] as u64;
    }
    assert(b@.take(b@.len() as int) == b@);
    n
}

fn number_at(b: &[u8], p: usize, k: usize) -> (r: Option<u64>)
    requires
        p <= b@.len(),
        k <= 8,
    ensures
        match r {
            Some(n) => p + k <= b@.len() && n == be_at(b@, p as int, k as int),
            None => p + k > b@.len(),
        },
{
    if k <= b.len() - p {
        Some(be_number(slice_subrange(b, p, p + k)))
    } else {
        None
    }
}

fn read_length(b: &[u8], p: usize, l: Length) -> (r: Result<(u64, usize), DecodeError>)
    requires
        p <= b@.len(),
        l matches Length::Field(k) ==> k <= 4,
        l matches Length::Given(n) ==> n < 0x1_0000_0000,
    ensures
        match r {
            Ok((n, q)) => length_at(b@, p as int, l) == Ok::<(nat, int), MsgFault>(
                (n as nat, q as int),
            ) && p <= q <= b@.len() && n < 0x1_0000_0000,
            Err(e) => length_at(b@, p as int, l) == Err::<(nat, int), MsgFault>(e@),
        },
{
    let end: usize = b.len();
    assert(end == b@.len());
    match l {
        Length::Given(n) => Ok((n, p)),
        Length::Field(k) => match number_at(b, p, k) {
            Some(n) => {
                proof {
                    lemma_be_bound(b@.subrange(p as int, p + k));
                }
                Ok((n, p + k))
            },
            None => Err(fail(p, "eof")),
        },
    }
}

fn read_body<'a>(b: &'a [u8], p: usize, l: Length) -> (r: Result<(&'a [u8], usize), DecodeError>)
    requires
        p <= b@.len(),
        l matches Length::Field(k) ==> k <= 4,
        l matches Length::Given(n) ==> n < 0x1_0000_0000,
    ensures
        match r {
            Ok((x, q)) => body_at(b@, p as int, l) == Ok::<(Seq<u8>, int), MsgFault>(
                (x@, q as int),
            ) && p <= q <= b@.len(),
            Err(e) => body_at(b@, p as int, l) == Err::<(Seq<u8>, int), MsgFault>(e@),
        },
{
    match read_length(b, p, l) {
        Err(e) => Err(e),
        Ok((n, q)) => {
            let room: u64 = (b.len() - q) as u64;
            if n <= room {
                Ok((slice_subrange(b, q, q + n as usize), q + n as usize))
            } else {
                Err(fail(q, "eof"))
            }
        },
    }
}

fn to_signed(n: u64, k: usize) -> (r: i64)
    requires
        k == 1 ==> n < 0x100,
        k == 2 ==> n < 0x1_0000,
        k == 4 ==> n < 0x1_0000_0000,
    ensures
        r == signed(n as nat, k),
{
    if k == 1 {
        if n < 0x80 {
            n as i64
        } else {
            n as i64 - 0x100
        }
    } else if k == 2 {
        if n < 0x8000 {
            n as i64
        } else {
            n as i64 - 0x1_0000
        }
    } else if k == 4 {
        if n < 0x8000_0000 {
            n as i64
        } else {
            n as i64 - 0x1_0000_0000
        }
    } else {
        if n < 0x8000_0000_0000_0000 {
            n as i64
        } else {
            -((0xffff_ffff_ffff_ffff - n) as i64) - 1
        }
    }
}

fn to_type(b: u8) -> (r: i8)
    ensures
        r == type_byte(b),
{
    if b < 0x80 {
        b as i8
    } else {
        (b as i16 - 0x100) as i8
    }
}

/// What the decoding of a value says.
pub open spec fn one_view(r: Result<(MsgValue, usize), DecodeError>) -> Result<
    (MsgV, int),
    MsgFault,
> {
    match r {
        Ok((v, q)) => Ok((v@, q as int)),
        Err(e) => Err(e@),
    }
}

fn read_one(b: &[u8], p: usize) -> (r: Result<(MsgValue, usize), DecodeError>)
    requires
        p <= b@.len(),
    ensures
        one_view(r) == msg_at(b@, p as int),
        r matches Ok(x) ==> p < x.1 <= b@.len(),
    decreases b@.len() - p, 0nat,
{
    broadcast use lemma_msg_view;

    if p >= b.len() {
        return Err(fail(p, "eof"));
    }
    let q: usize = p + 1;
    match form_of(b[p]) {
        Form::Nil => Ok((MsgValue::Nil, q)),
        Form::Bool(x) => Ok((MsgValue::Bool(x), q)),
        Form::Small(n) => Ok((MsgValue::Uint(n), q)),
        Form::Negative(i) => Ok((MsgValue::Int(i), q)),
        Form::Unsigned(k) => match number_at(b, q, k) {
            Some(n) => Ok((MsgValue::Uint(n), q + k)),
            None => Err(fail(q, "eof")),
        },
        Form::Signed(k) => match number_at(b, q, k) {
            Some(n) => {
                proof {
                    lemma_be_bound(b@.subrange(q as int, q + k));
                }
                let i: i64 = to_signed(n, k);
                if i >= 0 {
                    Ok((MsgValue::Uint(i as u64), q + k))
                } else {
                    Ok((MsgValue::Int(i), q + k))
                }
            },
            None => Err(fail(q, "eof")),
        },
        Form::Single => match number_at(b, q, 4) {
            Some(n) => {
                proof {
                    lemma_be_bound(b@.subrange(q as int, q + 4));
                }
                Ok((MsgValue::F64(widen(n as u32)), q + 4))
            },
            None => Err(fail(q, "eof")),
        },
        Form::Double => match number_at(b, q, 8) {
            Some(n) => Ok((MsgValue::F64(n), q + 8)),
            None => Err(fail(q, "eof")),
        },
        Form::Text(l) => match read_body(b, q, l) {
            Ok((x, r)) => Ok((MsgValue::Str(text_lossy(x)), r)),
            Err(e) => Err(e),
        },
        Form::Bytes(l) => match read_body(b, q, l) {
            Ok((x, r)) => Ok((MsgValue::Bin(slice_to_vec(x)), r)),
            Err(e) => Err(e),
        },
        Form::List(l) => match read_length(b, q, l) {
            Ok((n, r)) => if n > MAX_ITEMS {
                Err(fail(r, "array too large"))
            } else {
                match read_array(b, r, n) {
                    Ok((items, t)) => Ok((MsgValue::Array(items), t)),
                    Err(e) => Err(e),
                }
            },
            Err(e) => Err(e),
        },
        Form::Dict(l) => match read_length(b, q, l) {
            Ok((n, r)) => if n > MAX_ITEMS {
                Err(fail(r, "map too large"))
            } else {
                match read_map(b, r, n) {
                    Ok((pairs, t)) => Ok((MsgValue::Dict(pairs), t)),
                    Err(e) => Err(e),
                }
            },
            Err(e) => Err(e),
        },
        Form::Extension(l) => match read_length(b, q, l) {
            Ok((n, r)) => {
                if r >= b.len() {
                    return Err(fail(r, "eof"));
                }
                let t = to_type(b[r]);
                let room: u64 = (b.len() - r - 1) as u64;
                if n <= room {
                    let end: usize = r + 1 + n as usize;
                    Ok((MsgValue::Ext(t, slice_to_vec(slice_subrange(b, r + 1, end))), end))
                } else {
                    Err(fail(r + 1, "eof"))
                }
            },
            Err(e) => Err(e),
        },
        Form::Unknown => Err(fail(q, "unsupported marker")),
    }
}

fn read_array(b: &[u8], p: usize, n: u64) -> (r: Result<(Vec<MsgValue>, usize), DecodeError>)
    requires
        p <= b@.len(),
    ensures
        match r {
            Ok((items, q)) => items_at(b@, p as int, n as nat, Seq::empty()) == Ok::<
                (Seq<MsgV>, int),
                MsgFault,
            >((msgs_view(items@), q as int)) && p <= q <= b@.len(),
            Err(e) => items_at(b@, p as int, n as nat, Seq::empty()) == Err::<
                (Seq<MsgV>, int),
                MsgFault,
            >(e@),
        },
    decreases b@.len() - p, n + 1,
{
    let mut out: Vec<MsgValue> = Vec::new();
    let mut pos: usize = p;
    let mut left: u64 = n;
    let ghost goal = items_at(b@, p as int, n as nat, Seq::empty());
    assert(msgs_view(out@) == Seq::<MsgV>::empty());
    while left > 0
        invariant
            p <= pos <= b@.len(),
            left <= n,
            items_at(b@, pos as int, left as nat, msgs_view(out@)) == goal,
            goal == items_at(b@, p as int, n as nat, Seq::empty()),
        decreases left,
    {
        match read_one(b, pos) {
            Ok((v, q)) => {
                let ghost before = msgs_view(out@);
                let ghost added = v@;
                out.push(v);
                assert(msgs_view(out@) == before.push(added));
                pos = q;
                left = left - 1;
            },
            Err(e) => return Err(e),
        }
    }
    Ok((out, pos))
}

fn read_map(b: &[u8], p: usize, n: u64) -> (r: Result<
    (Vec<(String, MsgValue)>, usize),
    DecodeError,
>)
    requires
        p <= b@.len(),
    ensures
        match r {
            Ok((pairs, q)) => members_at(b@, p as int, n as nat, Seq::empty()) == Ok::<
                (Seq<(Seq<char>, MsgV)>, int),
                MsgFault,
            >((pairs_view(pairs@), q as int)) && p <= q <= b@.len(),
            Err(e) => members_at(b@, p as int, n as nat, Seq::empty()) == Err::<
                (Seq<(Seq<char>, MsgV)>, int),
                MsgFault,
            >(e@),
        },
    decreases b@.len() - p, n + 1,
{
    let mut out: Vec<(String, MsgValue)> = Vec::new();
    let mut pos: usize = p;
    let mut left: u64 = n;
    let ghost goal = members_at(b@, p as int, n as nat, Seq::empty());
    assert(pairs_view(out@) == Seq::<(Seq<char>, MsgV)>::empty());
    while left > 0
        invariant
            p <= pos <= b@.len(),
            left <= n,
            members_at(b@, pos as int, left as nat, pairs_view(out@)) == goal,
            goal == members_at(b@, p as int, n as nat, Seq::empty()),
        decreases left,
    {
        let (key, q) = match read_one(b, pos) {
            Ok(x) => x,
            Err(e) => return Err(e),
        };
        let (value, r) = match read_one(b, q) {
            Ok(x) => x,
            Err(e) => return Err(e),
        };
        let ghost before = pairs_view(out@);
        let ghost added = (key_text(key@), value@);
        let text = match key.to_string_lossy() {
            Some(t) => t,
            None => String::new(),
        };
        out.push((text, value));
        assert(pairs_view(out@) == before.push(added));
        pos = r;
        left = left - 1;
    }
    Ok((out, pos))
}

/// What a decoding that may need more bytes says.
pub open spec fn some_view(r: Result<Option<(MsgValue, usize)>, DecodeError>) -> Result<
    Option<(MsgV, int)>,
    MsgFault,
> {
    match r {
        Ok(Some((v, q))) => Ok(Some((v@, q as int))),
        Ok(None) => Ok(None),
        Err(e) => Err(e@),
    }
}

/// Decodes the value at a place of a buffer, and gives the place behind it. At the
/// end of the buffer there is none.
pub fn read_value(buf: &[u8], start: usize) -> (r: Result<Option<(MsgValue, usize)>, DecodeError>)
    requires
        start <= buf@.len(),
    ensures
        some_view(r) == (match msg_at(buf@, start as int) {
            Ok(x) => Ok(Some(x)),
            Err(f) => if f.kind == "eof"@ && f.at == start {
                Ok(None)
            } else {
                Err(f)
            },
        }),
{
    match read_one(buf, start) {
        Ok(x) => Ok(Some(x)),
        Err(e) => if same(e.kind, "eof") && e.at == start {
            Ok(None)
        } else {
            Err(e)
        },
    }
}

/// What can be decoded at the beginning of a buffer: a value and how many bytes it
/// takes, nothing yet, or a fault that no further byte mends.
pub open spec fn decoded(b: Seq<u8>) -> Result<Option<(MsgV, int)>, MsgFault> {
    match msg_at(b, 0) {
        Ok(x) => Ok(Some(x)),
        Err(f) => if f.kind == "eof"@ {
            Ok(None)
        } else {
            Err(f)
        },
    }
}

/// Decodes the value at the beginning of a buffer, if it is complete.
pub fn try_decode(buf: &[u8]) -> (r: Result<Option<(MsgValue, usize)>, DecodeError>)
    ensures
        some_view(r) == decoded(buf@),
        r matches Ok(Some(x)) ==> 0 < x.1 <= buf@.len(),
{
    match read_one(buf, 0) {
        Ok(x) => Ok(Some(x)),
        Err(e) => if same(e.kind, "eof") {
            Ok(None)
        } else {
            Err(e)
        },
    }
}

} // verus!
