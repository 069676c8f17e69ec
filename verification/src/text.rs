//! Text primitives: the small vocabulary of string operations that the rest of
//! the crate is written and specified in. A string is viewed as the sequence of
//! its characters.
use vstd::prelude::*;
use vstd::slice::*;
use vstd::string::*;
use vstd::utf8::{decode_utf8, encode_scalar, encode_utf8, valid_utf8};

verus! {

// ---------------------------------------------------------------------
// Trusted: functions of std.
// ---------------------------------------------------------------------
/// `String::push` appends one character.
pub assume_specification[ String::push ](s: &mut String, c: char)
    ensures
        final(s)@ == old(s)@.push(c),
;

/// `std::str::from_utf8`: a text where the bytes are valid UTF-8, and then the
/// text whose bytes they are.
#[verifier::external_body]
pub(crate) fn utf8_text(bytes: &[u8]) -> (r: Option<String>)
    ensures
        match r {
            Some(s) => valid_utf8(bytes@) && s@ == decode_utf8(bytes@),
            None => !valid_utf8(bytes@),
        },
{
    std::str::from_utf8(bytes).ok().map(|s| s.to_string())
}

/// The text of bytes, with a replacement character for what is no UTF-8.
pub uninterp spec fn lossy_text(bytes: Seq<u8>) -> Seq<char>;

/// `String::from_utf8_lossy`: a text that depends on the bytes alone, and that has
/// these bytes where they are valid UTF-8.
#[verifier::external_body]
pub(crate) fn text_lossy(bytes: &[u8]) -> (r: String)
    ensures
        r@ == lossy_text(bytes@),
        valid_utf8(bytes@) ==> r@ == decode_utf8(bytes@),
{
    String::from_utf8_lossy(bytes).into_owned()
}

/// `==` on `str` holds exactly when the two strings have the same characters.
pub assume_specification[ <str as PartialEq>::eq ](a: &str, b: &str) -> (r: bool)
    ensures
        r == (a@ == b@),
;

// ---------------------------------------------------------------------
// Conversions and equality
// ---------------------------------------------------------------------
/// Whether two strings are equal.
pub fn same(a: &str, b: &str) -> (r: bool)
    ensures
        r == (a@ == b@),
{
    *a == *b
}

/// The characters of `s`.
pub fn chars_of(s: &str) -> (r: Vec<char>)
    ensures
        r@ == s@,
{
    let mut out: Vec<char> = Vec::new();
    for c in it: s.chars()
        invariant
            out@ == it.seq().take(it.index() as int),
            it.seq() == s@,
    {
        out.push(c);
    }
    out
}

/// The string with the characters of `v`.
pub fn string_of(v: &[char]) -> (r: String)
    ensures
        r@ == v@,
{
    let mut out = String::new();
    for i in 0..v.len()
        invariant
            out@ == v@.take(i as int),
    {
        out.push(v[i]);
        assert(v@.take(i + 1) == v@.take(i as int).push(v@[i as int]));
    }
    assert(v@.take(v@.len() as int) == v@);
    out
}

/// The string with the characters of `v` from `i` up to, not including, `j`.
pub fn string_between(v: &[char], i: usize, j: usize) -> (r: String)
    requires
        i <= j <= v@.len(),
    ensures
        r@ == v@.subrange(i as int, j as int),
{
    string_of(slice_subrange(v, i, j))
}

/// The texts that a list of strings holds.
pub open spec fn texts(v: Seq<String>) -> Seq<Seq<char>> {
    Seq::new(v.len(), |i: int| v[i]@)
}

/// Two strings, one after the other.
pub fn cat(a: &str, b: &str) -> (r: String)
    ensures
        r@ == a@ + b@,
{
    let mut s = a.to_owned();
    s.append(b);
    s
}

/// Three strings, one after the other.
pub fn cat3(a: &str, b: &str, c: &str) -> (r: String)
    ensures
        r@ == a@ + b@ + c@,
{
    let mut s = a.to_owned();
    s.append(b);
    s.append(c);
    s
}

/// Five strings, one after the other.
pub fn cat5(a: &str, b: &str, c: &str, d: &str, e: &str) -> (r: String)
    ensures
        r@ == a@ + b@ + c@ + d@ + e@,
{
    let mut s = a.to_owned();
    s.append(b);
    s.append(c);
    s.append(d);
    s.append(e);
    s
}

/// A copy of a list of strings.
pub fn clone_strings(v: &[String]) -> (r: Vec<String>)
    ensures
        texts(r@) == texts(v@),
        r@ == v@,
{
    let mut out: Vec<String> = Vec::new();
    for i in 0..v.len()
        invariant
            out@ == v@.take(i as int),
    {
        out.push(v[i].clone());
        assert(v@.take(i + 1) == v@.take(i as int).push(v@[i as int]));
    }
    assert(v@.take(v@.len() as int) == v@);
    out
}

/// Whether `x` is one of the strings in `v`.
pub fn list_contains(v: &[String], x: &str) -> (r: bool)
    ensures
        r == texts(v@).contains(x@),
{
    for i in 0..v.len()
        invariant
            forall|j: int| 0 <= j < i ==> v@[j]@ != x@,
    {
        if same(v[i].as_str(), x) {
            assert(texts(v@)[i as int] == x@);
            return true;
        }
    }
    assert forall|j: int| 0 <= j < texts(v@).len() implies texts(v@)[j] != x@ by {
        assert(v@[j]@ != x@);
    }
    false
}

// ---------------------------------------------------------------------
// Character classes
// ---------------------------------------------------------------------
/// The characters with the Unicode `White_Space` property.
pub open spec fn is_space(c: char) -> bool {
    let n = c as u32;
    9 <= n <= 13 || n == 32 || n == 0x85 || n == 0xa0 || n == 0x1680 || 0x2000 <= n <= 0x200a || n
        == 0x2028 || n == 0x2029 || n == 0x202f || n == 0x205f || n == 0x3000
}

pub open spec fn is_digit(c: char) -> bool {
    '0' <= c && c <= '9'
}

pub open spec fn is_upper(c: char) -> bool {
    'A' <= c && c <= 'Z'
}

pub open spec fn is_lower(c: char) -> bool {
    'a' <= c && c <= 'z'
}

/// ASCII letters.
pub open spec fn is_alpha(c: char) -> bool {
    is_upper(c) || is_lower(c)
}

/// ASCII letters and digits.
pub open spec fn is_alnum(c: char) -> bool {
    is_alpha(c) || is_digit(c)
}

/// ASCII letters, digits and the underscore.
pub open spec fn is_word_char(c: char) -> bool {
    is_alnum(c) || c == '_'
}

/// Whether every character of `s` is a letter, a digit or an underscore.
pub open spec fn all_word_chars(s: Seq<char>) -> bool {
    forall|i: int| 0 <= i < s.len() ==> is_word_char(#[trigger] s[i])
}

pub fn char_is_space(c: char) -> (r: bool)
    ensures
        r == is_space(c),
{
    let n: u32 = c as u32;
    (9 <= n && n <= 13) || n == 32 || n == 0x85 || n == 0xa0 || n == 0x1680 || (0x2000 <= n && n
        <= 0x200a) || n == 0x2028 || n == 0x2029 || n == 0x202f || n == 0x205f || n == 0x3000
}

pub fn char_is_digit(c: char) -> (r: bool)
    ensures
        r == is_digit(c),
{
    '0' <= c && c <= '9'
}

pub fn char_is_alpha(c: char) -> (r: bool)
    ensures
        r == is_alpha(c),
{
    ('A' <= c && c <= 'Z') || ('a' <= c && c <= 'z')
}

pub fn char_is_alnum(c: char) -> (r: bool)
    ensures
        r == is_alnum(c),
{
    char_is_alpha(c) || char_is_digit(c)
}

/// Whether every character is a letter, a digit or an underscore.
pub fn only_word_chars(v: &[char]) -> (r: bool)
    ensures
        r == all_word_chars(v@),
{
    for i in 0..v.len()
        invariant
            forall|k: int| 0 <= k < i ==> is_word_char(#[trigger] v@[k]),
    {
        if !(char_is_alnum(v[i]) || v[i] == '_') {
            return false;
        }
    }
    true
}

/// Whether every character is a digit.
pub fn only_digits(v: &[char]) -> (r: bool)
    ensures
        r == all_digits(v@),
{
    for i in 0..v.len()
        invariant
            forall|k: int| 0 <= k < i ==> is_digit(#[trigger] v@[k]),
    {
        if !char_is_digit(v[i]) {
            return false;
        }
    }
    true
}

/// Lower-cases an ASCII letter and leaves every other character alone.
pub open spec fn lower_char(c: char) -> char {
    if is_upper(c) {
        ((c as u32) + 32) as char
    } else {
        c
    }
}

/// Upper-cases an ASCII letter and leaves every other character alone.
pub open spec fn upper_char(c: char) -> char {
    if is_lower(c) {
        ((c as u32) - 32) as char
    } else {
        c
    }
}

/// `s` with its ASCII letters in lower case.
pub open spec fn lower(s: Seq<char>) -> Seq<char> {
    Seq::new(s.len(), |i: int| lower_char(s[i]))
}

/// `s` with its ASCII letters in upper case.
pub open spec fn upper(s: Seq<char>) -> Seq<char> {
    Seq::new(s.len(), |i: int| upper_char(s[i]))
}

pub fn char_to_lower(c: char) -> (r: char)
    ensures
        r == lower_char(c),
{
    if 'A' <= c && c <= 'Z' {
        ((c as u32 as u8) + 32) as char
    } else {
        c
    }
}

pub fn char_to_upper(c: char) -> (r: char)
    ensures
        r == upper_char(c),
{
    if 'a' <= c && c <= 'z' {
        ((c as u32 as u8) - 32) as char
    } else {
        c
    }
}

/// `str::to_ascii_lowercase`.
pub fn to_lower(s: &str) -> (r: String)
    ensures
        r@ == lower(s@),
{
    let v = chars_of(s);
    let mut out = String::new();
    for i in 0..v.len()
        invariant
            v@ == s@,
            out@ == lower(s@).take(i as int),
    {
        out.push(char_to_lower(v[i]));
        assert(lower(s@).take(i + 1) == lower(s@).take(i as int).push(lower(s@)[i as int]));
    }
    assert(lower(s@).take(s@.len() as int) == lower(s@));
    out
}

/// `str::to_ascii_uppercase`.
pub fn to_upper(s: &str) -> (r: String)
    ensures
        r@ == upper(s@),
{
    let v = chars_of(s);
    let mut out = String::new();
    for i in 0..v.len()
        invariant
            v@ == s@,
            out@ == upper(s@).take(i as int),
    {
        out.push(char_to_upper(v[i]));
        assert(upper(s@).take(i + 1) == upper(s@).take(i as int).push(upper(s@)[i as int]));
    }
    assert(upper(s@).take(s@.len() as int) == upper(s@));
    out
}

// ---------------------------------------------------------------------
// Trimming
// ---------------------------------------------------------------------
/// The class of white space, as a predicate.
pub open spec fn space_class() -> spec_fn(char) -> bool {
    |c: char| is_space(c)
}

/// The class that holds one character.
pub open spec fn just(x: char) -> spec_fn(char) -> bool {
    |c: char| c == x
}

/// `s` without the characters of the class at its start.
pub open spec fn trim_start_by(s: Seq<char>, p: spec_fn(char) -> bool) -> Seq<char>
    decreases s.len(),
{
    if s.len() > 0 && p(s[0]) {
        trim_start_by(s.drop_first(), p)
    } else {
        s
    }
}

/// `s` without the characters of the class at its end.
pub open spec fn trim_end_by(s: Seq<char>, p: spec_fn(char) -> bool) -> Seq<char>
    decreases s.len(),
{
    if s.len() > 0 && p(s.last()) {
        trim_end_by(s.drop_last(), p)
    } else {
        s
    }
}

/// `s` without white space at either end.
pub open spec fn trim(s: Seq<char>) -> Seq<char> {
    trim_end_by(trim_start_by(s, space_class()), space_class())
}

pub proof fn lemma_trim_start(s: Seq<char>, p: spec_fn(char) -> bool, k: int)
    requires
        0 <= k <= s.len(),
        forall|i: int| 0 <= i < k ==> p(#[trigger] s[i]),
        k == s.len() || !p(s[k]),
    ensures
        trim_start_by(s, p) == s.subrange(k, s.len() as int),
    decreases k,
{
    if k == 0 {
        assert(s.subrange(0, s.len() as int) == s);
    } else {
        assert(p(s[0]));
        let t = s.drop_first();
        assert forall|i: int| 0 <= i < k - 1 implies p(#[trigger] t[i]) by {
            assert(p(s[i + 1]));
        }
        lemma_trim_start(t, p, k - 1);
        assert(t.subrange(k - 1, t.len() as int) == s.subrange(k, s.len() as int));
    }
}

pub proof fn lemma_trim_end(s: Seq<char>, p: spec_fn(char) -> bool, k: int)
    requires
        0 <= k <= s.len(),
        forall|i: int| k <= i < s.len() ==> p(#[trigger] s[i]),
        k == 0 || !p(s[k - 1]),
    ensures
        trim_end_by(s, p) == s.subrange(0, k),
    decreases s.len() - k,
{
    if k == s.len() {
        assert(s.subrange(0, k) == s);
    } else {
        assert(p(s[s.len() - 1]));
        let t = s.drop_last();
        assert forall|i: int| k <= i < t.len() implies p(#[trigger] t[i]) by {
            assert(p(s[i]));
        }
        lemma_trim_end(t, p, k);
        assert(t.subrange(0, k) == s.subrange(0, k));
    }
}

/// `str::trim_start`.
pub fn trimmed_start(s: &str) -> (r: String)
    ensures
        r@ == trim_start_by(s@, space_class()),
{
    let v = chars_of(s);
    let n: usize = v.len();
    let mut i: usize = 0;
    while i < n && char_is_space(v[i])
        invariant
            n == v@.len(),
            i <= n,
            v@ == s@,
            forall|k: int| 0 <= k < i ==> is_space(#[trigger] v@[k]),
        decreases n - i,
    {
        i = i + 1;
    }
    proof {
        lemma_trim_start(s@, space_class(), i as int);
    }
    string_between(v.as_slice(), i, n)
}

/// `str::trim`.
pub fn trimmed(s: &str) -> (r: String)
    ensures
        r@ == trim(s@),
{
    let v = chars_of(s);
    let n: usize = v.len();
    let mut i: usize = 0;
    while i < n && char_is_space(v[i])
        invariant
            n == v@.len(),
            i <= n,
            forall|k: int| 0 <= k < i ==> space_class()(#[trigger] v@[k]),
        decreases n - i,
    {
        i += 1;
    }
    proof {
        lemma_trim_start(v@, space_class(), i as int);
    }
    let ghost t = v@.subrange(i as int, n as int);
    let mut j: usize = n;
    while j > i && char_is_space(v[j - 1])
        invariant
            n == v@.len(),
            i <= j <= n,
            t == v@.subrange(i as int, n as int),
            forall|k: int| j - i <= k < t.len() ==> space_class()(#[trigger] t[k]),
        decreases j,
    {
        j -= 1;
        assert(t[j - i] == v@[j as int]);
    }
    proof {
        lemma_trim_end(t, space_class(), j - i);
        assert(t.subrange(0, j - i) == v@.subrange(i as int, j as int));
    }
    string_between(v.as_slice(), i, j)
}

/// `str::trim_start_matches` with one character.
pub fn trim_start_char(s: &str, c: char) -> (r: String)
    ensures
        r@ == trim_start_by(s@, just(c)),
{
    let v = chars_of(s);
    let n: usize = v.len();
    let mut i: usize = 0;
    while i < n && v[i] == c
        invariant
            n == v@.len(),
            i <= n,
            forall|k: int| 0 <= k < i ==> just(c)(#[trigger] v@[k]),
        decreases n - i,
    {
        i += 1;
    }
    proof {
        lemma_trim_start(v@, just(c), i as int);
    }
    string_between(v.as_slice(), i, n)
}

/// `str::trim_end_matches` with one character.
pub fn trim_end_char(s: &str, c: char) -> (r: String)
    ensures
        r@ == trim_end_by(s@, just(c)),
{
    let v = chars_of(s);
    let n: usize = v.len();
    let mut j: usize = n;
    while j > 0 && v[j - 1] == c
        invariant
            n == v@.len(),
            j <= n,
            forall|k: int| j <= k < n ==> just(c)(#[trigger] v@[k]),
        decreases j,
    {
        j -= 1;
    }
    proof {
        lemma_trim_end(v@, just(c), j as int);
    }
    string_between(v.as_slice(), 0, j)
}

// ---------------------------------------------------------------------
// Searching
// ---------------------------------------------------------------------
/// The place of the first character of the class, or the length of `s` where
/// there is none.
pub open spec fn find_by(s: Seq<char>, p: spec_fn(char) -> bool) -> int
    decreases s.len(),
{
    if s.len() == 0 {
        0
    } else if p(s[0]) {
        0
    } else {
        1 + find_by(s.drop_first(), p)
    }
}

pub proof fn lemma_find_by(s: Seq<char>, p: spec_fn(char) -> bool, k: int)
    requires
        0 <= k <= s.len(),
        forall|i: int| 0 <= i < k ==> !p(#[trigger] s[i]),
        k == s.len() || p(s[k]),
    ensures
        find_by(s, p) == k,
    decreases k,
{
    if k > 0 {
        assert(!p(s[0]));
        let t = s.drop_first();
        assert forall|i: int| 0 <= i < k - 1 implies !p(#[trigger] t[i]) by {
            assert(!p(s[i + 1]));
        }
        lemma_find_by(t, p, k - 1);
    }
}

pub proof fn lemma_find_by_range(s: Seq<char>, p: spec_fn(char) -> bool)
    ensures
        0 <= find_by(s, p) <= s.len(),
        find_by(s, p) < s.len() ==> p(s[find_by(s, p)]),
        forall|i: int| 0 <= i < find_by(s, p) ==> !p(#[trigger] s[i]),
    decreases s.len(),
{
    if s.len() > 0 && !p(s[0]) {
        let t = s.drop_first();
        lemma_find_by_range(t, p);
        assert forall|i: int| 0 <= i < find_by(s, p) implies !p(#[trigger] s[i]) by {
            if i > 0 {
                assert(!p(t[i - 1]));
            }
        }
    }
}

/// The place behind the last character that is no white space.
proof fn lemma_last_ink(s: Seq<char>) -> (k: int)
    ensures
        0 <= k <= s.len(),
        forall|i: int| k <= i < s.len() ==> is_space(#[trigger] s[i]),
        k == 0 || !is_space(s[k - 1]),
    decreases s.len(),
{
    if s.len() == 0 || !is_space(s.last()) {
        s.len() as int
    } else {
        let k = lemma_last_ink(s.drop_last());
        assert forall|i: int| k <= i < s.len() implies is_space(#[trigger] s[i]) by {
            if i < s.len() - 1 {
                assert(is_space(s.drop_last()[i]));
            }
        }
        k
    }
}

/// Where the trimmed text lies in a text.
pub proof fn lemma_trim_bounds(s: Seq<char>) -> (b: (int, int))
    ensures
        0 <= b.0 <= b.1 <= s.len(),
        trim(s) == s.subrange(b.0, b.1),
        forall|i: int| 0 <= i < b.0 ==> is_space(#[trigger] s[i]),
        forall|i: int| b.1 <= i < s.len() ==> is_space(#[trigger] s[i]),
        b.0 < b.1 ==> !is_space(s[b.0]) && !is_space(s[b.1 - 1]),
{
    let ink = |c: char| !is_space(c);
    let k = find_by(s, ink);
    lemma_find_by_range(s, ink);
    assert forall|i: int| 0 <= i < k implies is_space(#[trigger] s[i]) by {
        assert(!ink(s[i]));
    }
    lemma_trim_start(s, space_class(), k);
    let t = s.subrange(k, s.len() as int);
    let m = lemma_last_ink(t);
    lemma_trim_end(t, space_class(), m);
    assert(t.subrange(0, m) =~= s.subrange(k, k + m));
    assert forall|i: int| k + m <= i < s.len() implies is_space(#[trigger] s[i]) by {
        assert(is_space(t[i - k]));
    }
    (k, k + m)
}

/// What lies between white space is the trimmed text.
pub proof fn lemma_trim_is(x: Seq<char>, lo: int, hi: int)
    requires
        0 <= lo < hi <= x.len(),
        forall|i: int| 0 <= i < lo ==> is_space(#[trigger] x[i]),
        forall|i: int| hi <= i < x.len() ==> is_space(#[trigger] x[i]),
        !is_space(x[lo]),
        !is_space(x[hi - 1]),
    ensures
        trim(x) == x.subrange(lo, hi),
{
    lemma_trim_start(x, space_class(), lo);
    let t = x.subrange(lo, x.len() as int);
    assert forall|i: int| hi - lo <= i < t.len() implies space_class()(#[trigger] t[i]) by {
        assert(is_space(x[lo + i]));
    }
    lemma_trim_end(t, space_class(), hi - lo);
    assert(t.subrange(0, hi - lo) =~= x.subrange(lo, hi));
}

/// The place of the first `c` in `v`, or its length.
pub fn find_char(v: &[char], c: char) -> (r: usize)
    ensures
        r == find_by(v@, just(c)),
        r <= v@.len(),
        r < v@.len() ==> v@[r as int] == c,
        forall|i: int| 0 <= i < r ==> v@[i] != c,
{
    let mut i: usize = 0;
    while i < v.len() && v[i] != c
        invariant
            i <= v@.len(),
            forall|k: int| 0 <= k < i ==> !just(c)(#[trigger] v@[k]),
        decreases v@.len() - i,
    {
        i += 1;
    }
    proof {
        lemma_find_by(v@, just(c), i as int);
    }
    i
}

/// Whether `needle` occurs at place `i` of `s`.
pub open spec fn occurs_at(s: Seq<char>, needle: Seq<char>, i: int) -> bool {
    0 <= i && i + needle.len() <= s.len() && s.subrange(i, i + needle.len()) == needle
}

/// Whether `needle` occurs in `s`.
pub open spec fn has_text(s: Seq<char>, needle: Seq<char>) -> bool {
    exists|i: int| occurs_at(s, needle, i)
}

/// Whether the characters of `needle` stand at place `i` of `v`.
pub fn matches_at(v: &[char], needle: &[char], i: usize) -> (r: bool)
    requires
        i + needle@.len() <= v@.len(),
    ensures
        r == occurs_at(v@, needle@, i as int),
{
    for k in 0..needle.len()
        invariant
            i + needle@.len() <= v@.len(),
            v.len() == v@.len(),
            forall|j: int| 0 <= j < k ==> v@[i + j] == needle@[j],
    {
        if v[i + k] != needle[k] {
            assert(v@.subrange(i as int, i + needle@.len())[k as int] != needle@[k as int]);
            return false;
        }
    }
    assert(v@.subrange(i as int, i + needle@.len()) =~= needle@);
    true
}

/// `str::contains` with a string.
pub fn contains_text(s: &str, needle: &str) -> (r: bool)
    ensures
        r == has_text(s@, needle@),
{
    let v = chars_of(s);
    let w = chars_of(needle);
    if w.len() > v.len() {
        return false;
    }
    let last: usize = v.len() - w.len();
    let mut i: usize = 0;
    while i <= last
        invariant
            v@ == s@,
            w@ == needle@,
            w@.len() <= v@.len(),
            last == v@.len() - w@.len(),
            i <= last + 1,
            forall|j: int| 0 <= j < i ==> !occurs_at(v@, w@, j),
        decreases last + 1 - i,
    {
        if matches_at(v.as_slice(), w.as_slice(), i) {
            return true;
        }
        if i == last {
            assert forall|j: int| !occurs_at(s@, needle@, j) by {}
            return false;
        }
        i += 1;
    }
    false
}

/// Whether a string holds a given character.
pub fn contains_char(s: &str, c: char) -> (r: bool)
    ensures
        r == s@.contains(c),
{
    let v = chars_of(s);
    let i: usize = find_char(v.as_slice(), c);
    if i < v.len() {
        assert(v@[i as int] == c);
        true
    } else {
        false
    }
}

/// Whether `s` begins with `p`.
pub open spec fn begins(s: Seq<char>, p: Seq<char>) -> bool {
    p.len() <= s.len() && s.subrange(0, p.len() as int) == p
}

/// Whether `s` ends with `p`.
pub open spec fn ends(s: Seq<char>, p: Seq<char>) -> bool {
    p.len() <= s.len() && s.subrange(s.len() - p.len(), s.len() as int) == p
}

/// `str::starts_with` with a string.
pub fn starts_with(s: &str, p: &str) -> (r: bool)
    ensures
        r == begins(s@, p@),
{
    let v = chars_of(s);
    let w = chars_of(p);
    w.len() <= v.len() && matches_at(v.as_slice(), w.as_slice(), 0)
}

/// What follows the prefix `p` in `s`, where `s` begins with it.
pub open spec fn after_prefix(s: Seq<char>, p: Seq<char>) -> Option<Seq<char>> {
    if begins(s, p) {
        Some(s.subrange(p.len() as int, s.len() as int))
    } else {
        None
    }
}

/// What precedes the suffix `p` in `s`, where `s` ends with it.
pub open spec fn before_suffix(s: Seq<char>, p: Seq<char>) -> Option<Seq<char>> {
    if ends(s, p) {
        Some(s.subrange(0, s.len() - p.len()))
    } else {
        None
    }
}

/// The text of an optional string.
pub open spec fn opt_text(o: Option<String>) -> Option<Seq<char>> {
    match o {
        Some(s) => Some(s@),
        None => None,
    }
}

/// A copy of a text that may be there.
pub fn copy_opt(o: &Option<String>) -> (r: Option<String>)
    ensures
        opt_text(r) == opt_text(*o),
{
    match o {
        Some(s) => Some(s.clone()),
        None => None,
    }
}

/// `str::strip_prefix` with a string.
pub fn strip_prefix(s: &str, p: &str) -> (r: Option<String>)
    ensures
        opt_text(r) == after_prefix(s@, p@),
{
    let v = chars_of(s);
    let w = chars_of(p);
    if w.len() <= v.len() && matches_at(v.as_slice(), w.as_slice(), 0) {
        Some(string_between(v.as_slice(), w.len(), v.len()))
    } else {
        None
    }
}

/// `str::strip_suffix` with a string.
pub fn strip_suffix(s: &str, p: &str) -> (r: Option<String>)
    ensures
        opt_text(r) == before_suffix(s@, p@),
{
    let v = chars_of(s);
    let w = chars_of(p);
    if w.len() <= v.len() && matches_at(v.as_slice(), w.as_slice(), v.len() - w.len()) {
        Some(string_between(v.as_slice(), 0, v.len() - w.len()))
    } else {
        None
    }
}

/// `str::trim_matches` with one character.
pub fn trim_char(s: &str, c: char) -> (r: String)
    ensures
        r@ == trim_end_by(trim_start_by(s@, just(c)), just(c)),
{
    let t = trim_start_char(s, c);
    trim_end_char(t.as_str(), c)
}

// ---------------------------------------------------------------------
// Splitting and joining
// ---------------------------------------------------------------------
/// The pieces of `s` between the separators: always at least one.
pub open spec fn split(s: Seq<char>, sep: char) -> Seq<Seq<char>>
    decreases s.len(),
{
    let i = find_by(s, just(sep));
    if 0 <= i < s.len() {
        seq![s.subrange(0, i)] + split(s.subrange(i + 1, s.len() as int), sep)
    } else {
        seq![s]
    }
}

pub proof fn lemma_split_some(s: Seq<char>, sep: char)
    ensures
        split(s, sep).len() > 0,
{
}

/// `str::split` with one character.
pub fn split_on(s: &str, sep: char) -> (r: Vec<String>)
    ensures
        texts(r@) == split(s@, sep),
        r@.len() >= 1,
{
    let v = chars_of(s);
    let mut out: Vec<String> = Vec::new();
    let mut start: usize = 0;
    proof {
        assert(v@.subrange(0, v@.len() as int) == v@);
        assert(texts(out@) + split(s@, sep) == split(s@, sep));
    }
    loop
        invariant
            v@ == s@,
            start <= v@.len(),
            texts(out@) + split(v@.subrange(start as int, v@.len() as int), sep) == split(s@, sep),
        decreases v@.len() - start,
    {
        let rest = slice_subrange(v.as_slice(), start, v.len());
        let i: usize = find_char(rest, sep);
        let ghost before = texts(out@);
        if i < rest.len() {
            out.push(string_between(rest, 0, i));
            assert(texts(out@) == before.push(rest@.subrange(0, i as int)));
            assert(rest@.subrange(i + 1, rest@.len() as int) == v@.subrange(
                start + i + 1,
                v@.len() as int,
            ));
            assert(before.push(rest@.subrange(0, i as int)) + split(
                v@.subrange(start + i + 1, v@.len() as int),
                sep,
            ) == before + (seq![rest@.subrange(0, i as int)] + split(
                v@.subrange(start + i + 1, v@.len() as int),
                sep,
            )));
            start = start + i + 1;
        } else {
            out.push(string_of(rest));
            assert(texts(out@) == before.push(rest@));
            assert(before.push(rest@) == before + seq![rest@]);
            return out;
        }
    }
}

/// Everything before the first `sep` and everything after it.
pub open spec fn split_once(s: Seq<char>, sep: char) -> Option<(Seq<char>, Seq<char>)> {
    let i = find_by(s, just(sep));
    if 0 <= i < s.len() {
        Some((s.subrange(0, i), s.subrange(i + 1, s.len() as int)))
    } else {
        None
    }
}

/// `str::split_once` with one character.
pub fn split_once_at(s: &str, sep: char) -> (r: Option<(String, String)>)
    ensures
        match r {
            Some((a, b)) => split_once(s@, sep) == Some((a@, b@)),
            None => split_once(s@, sep) is None,
        },
{
    let v = chars_of(s);
    let i: usize = find_char(v.as_slice(), sep);
    if i < v.len() {
        Some((string_between(v.as_slice(), 0, i), string_between(v.as_slice(), i + 1, v.len())))
    } else {
        None
    }
}

/// The pieces one after the other, with `sep` between them.
pub open spec fn join(parts: Seq<Seq<char>>, sep: Seq<char>) -> Seq<char>
    decreases parts.len(),
{
    if parts.len() == 0 {
        Seq::empty()
    } else if parts.len() == 1 {
        parts[0]
    } else {
        join(parts.drop_last(), sep) + sep + parts.last()
    }
}

/// `[String]::join`.
pub fn join_with(parts: &[String], sep: &str) -> (r: String)
    ensures
        r@ == join(texts(parts@), sep@),
{
    let mut out = String::new();
    for i in 0..parts.len()
        invariant
            out@ == join(texts(parts@).take(i as int), sep@),
    {
        let ghost t = texts(parts@).take(i + 1);
        assert(t.drop_last() == texts(parts@).take(i as int));
        if i > 0 {
            out.append(sep);
        } else {
            assert(parts@[0]@ == Seq::<char>::empty() + parts@[0]@);
        }
        out.append(parts[i].as_str());
    }
    assert(texts(parts@).take(parts@.len() as int) == texts(parts@));
    out
}

/// Everything before the last `sep` and everything after it.
pub open spec fn rsplit_once(s: Seq<char>, sep: char) -> Option<(Seq<char>, Seq<char>)>
    decreases s.len(),
{
    if s.len() == 0 {
        None
    } else if s.last() == sep {
        Some((s.drop_last(), Seq::empty()))
    } else {
        match rsplit_once(s.drop_last(), sep) {
            Some((a, b)) => Some((a, b.push(s.last()))),
            None => None,
        }
    }
}

proof fn lemma_rsplit_once(s: Seq<char>, sep: char, k: int)
    requires
        0 <= k <= s.len(),
        forall|i: int| k <= i < s.len() ==> s[i] != sep,
        k == 0 || s[k - 1] == sep,
    ensures
        rsplit_once(s, sep) == (if k == 0 {
            None::<(Seq<char>, Seq<char>)>
        } else {
            Some((s.subrange(0, k - 1), s.subrange(k, s.len() as int)))
        }),
    decreases s.len(),
{
    if s.len() > 0 {
        if k < s.len() {
            lemma_rsplit_once(s.drop_last(), sep, k);
            if k > 0 {
                let t = s.drop_last();
                assert(t.subrange(0, k - 1) == s.subrange(0, k - 1));
                assert(t.subrange(k, t.len() as int).push(s.last()) == s.subrange(k, s.len() as int));
            }
        } else {
            assert(s.drop_last() == s.subrange(0, k - 1));
            assert(s.subrange(k, s.len() as int) == Seq::<char>::empty());
        }
    }
}

/// `str::rsplit_once` with one character.
pub fn rsplit_once_at(s: &str, sep: char) -> (r: Option<(String, String)>)
    ensures
        match r {
            Some((a, b)) => rsplit_once(s@, sep) == Some((a@, b@)),
            None => rsplit_once(s@, sep) is None,
        },
{
    let v = chars_of(s);
    let mut k: usize = v.len();
    while k > 0 && v[k - 1] != sep
        invariant
            v@ == s@,
            k <= v@.len(),
            forall|i: int| k <= i < v@.len() ==> v@[i] != sep,
        decreases k,
    {
        k -= 1;
    }
    proof {
        lemma_rsplit_once(s@, sep, k as int);
    }
    if k == 0 {
        None
    } else {
        Some((string_between(v.as_slice(), 0, k - 1), string_between(v.as_slice(), k, v.len())))
    }
}

/// The first `n` characters of `s`, or all of it.
pub open spec fn first_chars(s: Seq<char>, n: int) -> Seq<char> {
    if s.len() <= n {
        s
    } else {
        s.take(n)
    }
}

/// The first `n` characters of `s`, or all of it.
pub fn take_chars(s: &str, n: usize) -> (r: String)
    ensures
        r@ == first_chars(s@, n as int),
{
    let v = chars_of(s);
    if v.len() <= n {
        s.to_owned()
    } else {
        string_between(v.as_slice(), 0, n)
    }
}

/// One line of text without the carriage return that may end it.
pub open spec fn chomp_cr(s: Seq<char>) -> Seq<char> {
    if s.len() > 0 && s.last() == '\r' {
        s.drop_last()
    } else {
        s
    }
}

/// The lines of a text: what `\n` ends, each without a final `\r`, and a last
/// line that nothing ends, as it stands, unless it is empty.
pub open spec fn lines(s: Seq<char>) -> Seq<Seq<char>>
    decreases s.len(),
{
    let i = find_by(s, just('\n'));
    if 0 <= i < s.len() {
        seq![chomp_cr(s.subrange(0, i))] + lines(s.subrange(i + 1, s.len() as int))
    } else if s.len() > 0 {
        seq![s]
    } else {
        Seq::empty()
    }
}

/// `str::lines`.
pub fn lines_of(s: &str) -> (r: Vec<String>)
    ensures
        texts(r@) == lines(s@),
{
    let v = chars_of(s);
    let mut out: Vec<String> = Vec::new();
    let mut start: usize = 0;
    proof {
        assert(v@.subrange(0, v@.len() as int) == v@);
        assert(texts(out@) + lines(s@) == lines(s@));
    }
    loop
        invariant
            v@ == s@,
            start <= v@.len(),
            texts(out@) + lines(v@.subrange(start as int, v@.len() as int)) == lines(s@),
        decreases v@.len() - start,
    {
        let rest = slice_subrange(v.as_slice(), start, v.len());
        let i: usize = find_char(rest, '\n');
        let ghost before = texts(out@);
        if i < rest.len() {
            let ghost line = chomp_cr(rest@.subrange(0, i as int));
            if i > 0 && rest[i - 1] == '\r' {
                out.push(string_between(rest, 0, i - 1));
                assert(line == rest@.subrange(0, i - 1));
            } else {
                out.push(string_between(rest, 0, i));
            }
            assert(texts(out@) == before.push(line));
            let ghost tail = v@.subrange(start + i + 1, v@.len() as int);
            assert(rest@.subrange(i + 1, rest@.len() as int) == tail);
            assert(before.push(line) + lines(tail) == before + (seq![line] + lines(tail)));
            start = start + i + 1;
        } else {
            if rest.len() > 0 {
                out.push(string_of(rest));
                assert(texts(out@) == before.push(rest@));
                assert(before.push(rest@) == before + seq![rest@]);
            } else {
                assert(before == before + Seq::<Seq<char>>::empty());
            }
            return out;
        }
    }
}

// ---------------------------------------------------------------------
// Decimal numbers
// ---------------------------------------------------------------------
/// The character for a digit.
pub open spec fn digit(d: int) -> char {
    (48 + d) as char
}

/// A natural number in decimal.
pub open spec fn dec(n: nat) -> Seq<char>
    decreases n,
{
    if n < 10 {
        seq![digit(n as int)]
    } else {
        dec(n / 10).push(digit((n % 10) as int))
    }
}

/// An integer in decimal.
pub open spec fn dec_int(i: int) -> Seq<char> {
    if i < 0 {
        seq!['-'] + dec((-i) as nat)
    } else {
        dec(i as nat)
    }
}

/// `u64::to_string`.
pub fn dec_of(n: u64) -> (r: String)
    ensures
        r@ == dec(n as nat),
    decreases n,
{
    let d = ((n % 10) as u8 + 48) as char;
    if n < 10 {
        let mut s = String::new();
        s.push(d);
        assert(s@ == seq![digit(n as int)]);
        s
    } else {
        let mut s = dec_of(n / 10);
        s.push(d);
        s
    }
}

/// `u128::to_string`.
pub fn dec_of_wide(n: u128) -> (r: String)
    ensures
        r@ == dec(n as nat),
    decreases n,
{
    let d = ((n % 10) as u8 + 48) as char;
    if n < 10 {
        let mut s = String::new();
        s.push(d);
        assert(s@ == seq![digit(n as int)]);
        s
    } else {
        let mut s = dec_of_wide(n / 10);
        s.push(d);
        s
    }
}

/// `i64::to_string`.
pub fn dec_of_int(i: i64) -> (r: String)
    ensures
        r@ == dec_int(i as int),
{
    if i >= 0 {
        return dec_of(i as u64);
    }
    let magnitude: u64 = if i == i64::MIN {
        9223372036854775808
    } else {
        (-i) as u64
    };
    let mut s = String::new();
    s.push('-');
    assert(s@ == seq!['-']);
    let d = dec_of(magnitude);
    s.append(d.as_str());
    s
}

/// Whether every character is a digit.
pub open spec fn all_digits(s: Seq<char>) -> bool {
    forall|i: int| 0 <= i < s.len() ==> is_digit(#[trigger] s[i])
}

/// The number that a sequence of digits stands for.
pub open spec fn digits_value(s: Seq<char>) -> nat
    decreases s.len(),
{
    if s.len() == 0 {
        0
    } else {
        (digits_value(s.drop_last()) * 10 + (s.last() as u32 - 48)) as nat
    }
}

/// The natural number that `s` spells: digits, at least one, after an optional
/// plus sign.
pub open spec fn parse_nat(s: Seq<char>) -> Option<nat> {
    let d = if s.len() > 0 && s[0] == '+' {
        s.drop_first()
    } else {
        s
    };
    if d.len() > 0 && all_digits(d) {
        Some(digits_value(d))
    } else {
        None
    }
}

/// What `str::parse::<u64>` gives.
pub open spec fn parse_u64_text(s: Seq<char>) -> Option<u64> {
    match parse_nat(s) {
        Some(n) => if n <= u64::MAX {
            Some(n as u64)
        } else {
            None
        },
        None => None,
    }
}

/// What `str::parse::<i64>` gives.
pub open spec fn parse_i64_text(s: Seq<char>) -> Option<i64> {
    if s.len() > 0 && s[0] == '-' {
        let d = s.drop_first();
        if d.len() > 0 && all_digits(d) && digits_value(d) <= -(i64::MIN as int) {
            Some((-digits_value(d)) as i64)
        } else {
            None
        }
    } else {
        match parse_nat(s) {
            Some(n) => if n <= i64::MAX {
                Some(n as i64)
            } else {
                None
            },
            None => None,
        }
    }
}

proof fn lemma_digits_value_take(s: Seq<char>, i: int)
    requires
        0 <= i <= s.len(),
        all_digits(s),
    ensures
        digits_value(s.take(i)) <= digits_value(s),
    decreases s.len(),
{
    if i == s.len() {
        assert(s.take(i) == s);
    } else {
        let t = s.drop_last();
        assert(t.take(i) == s.take(i));
        assert forall|k: int| 0 <= k < t.len() implies is_digit(#[trigger] t[k]) by {
            assert(is_digit(s[k]));
        }
        lemma_digits_value_take(t, i);
        assert(is_digit(s[s.len() - 1]));
    }
}

/// The value of a run of digits, where there is at least one, nothing else, and
/// the value is at most `u64::MAX`.
pub fn digits_to_u64(v: &[char]) -> (r: Option<u64>)
    ensures
        match r {
            Some(n) => v@.len() > 0 && all_digits(v@) && digits_value(v@) == n,
            None => v@.len() == 0 || !all_digits(v@) || digits_value(v@) > u64::MAX,
        },
{
    if v.len() == 0 {
        return None;
    }
    for i in 0..v.len()
        invariant
            forall|k: int| 0 <= k < i ==> is_digit(#[trigger] v@[k]),
    {
        if !char_is_digit(v[i]) {
            return None;
        }
    }
    let mut n: u64 = 0;
    for i in 0..v.len()
        invariant
            all_digits(v@),
            n == digits_value(v@.take(i as int)),
    {
        assert(is_digit(v@[i as int]));
        let d: u64 = (v[i] as u32 - 48) as u64;
        let ghost t = v@.take(i + 1);
        assert(t.drop_last() == v@.take(i as int));
        proof {
            lemma_digits_value_take(v@, i + 1);
        }
        if n > 1844674407370955161 || (n == 1844674407370955161 && d > 5) {
            return None;
        }
        n = n * 10 + d;
    }
    assert(v@.take(v@.len() as int) == v@);
    Some(n)
}

/// `str::parse::<u64>`.
pub fn parse_u64(s: &str) -> (r: Option<u64>)
    ensures
        r == parse_u64_text(s@),
{
    let v = chars_of(s);
    if v.len() > 0 && v[0] == '+' {
        assert(v@.subrange(1, v@.len() as int) == s@.drop_first());
        digits_to_u64(slice_subrange(v.as_slice(), 1, v.len()))
    } else {
        digits_to_u64(v.as_slice())
    }
}

/// `str::parse::<i64>`.
pub fn parse_i64(s: &str) -> (r: Option<i64>)
    ensures
        r == parse_i64_text(s@),
{
    let v = chars_of(s);
    if v.len() > 0 && v[0] == '-' {
        assert(v@.subrange(1, v@.len() as int) == s@.drop_first());
        match digits_to_u64(slice_subrange(v.as_slice(), 1, v.len())) {
            Some(n) => if n < 9223372036854775808 {
                Some(-(n as i64))
            } else if n == 9223372036854775808 {
                Some(i64::MIN)
            } else {
                None
            },
            None => None,
        }
    } else {
        match parse_u64(s) {
            Some(n) => if n <= 9223372036854775807 {
                Some(n as i64)
            } else {
                None
            },
            None => None,
        }
    }
}

// ---------------------------------------------------------------------
// The text of a floating-point number
// ---------------------------------------------------------------------
/// `s` without the sign that may begin it.
pub open spec fn unsigned(s: Seq<char>) -> Seq<char> {
    if s.len() > 0 && (s[0] == '+' || s[0] == '-') {
        s.drop_first()
    } else {
        s
    }
}

/// The class of the letter that begins an exponent.
pub open spec fn exponent_class() -> spec_fn(char) -> bool {
    |c: char| c == 'e' || c == 'E'
}

/// Digits with at most one point among them, and at least one digit.
pub open spec fn is_mantissa(m: Seq<char>) -> bool {
    let k = find_by(m, just('.'));
    if 0 <= k < m.len() {
        all_digits(m.subrange(0, k)) && all_digits(m.subrange(k + 1, m.len() as int)) && m.len() > 1
    } else {
        all_digits(m) && m.len() > 0
    }
}

/// What follows the exponent letter: digits, at least one, after an optional sign.
pub open spec fn is_exponent(x: Seq<char>) -> bool {
    all_digits(unsigned(x)) && unsigned(x).len() > 0
}

/// Whether `s` is accepted by `str::parse::<f64>`: after an optional sign, the
/// words `inf`, `infinity` and `nan` in any case, or a mantissa with an optional
/// exponent.
pub open spec fn is_float_text(s: Seq<char>) -> bool {
    let t = unsigned(s);
    let k = find_by(t, exponent_class());
    lower(t) == "inf"@ || lower(t) == "infinity"@ || lower(t) == "nan"@ || if 0 <= k < t.len() {
        is_mantissa(t.subrange(0, k)) && is_exponent(t.subrange(k + 1, t.len() as int))
    } else {
        is_mantissa(t)
    }
}

fn without_sign(v: &[char]) -> (r: &[char])
    ensures
        r@ == unsigned(v@),
{
    if v.len() > 0 && (v[0] == '+' || v[0] == '-') {
        assert(v@.subrange(1, v@.len() as int) == v@.drop_first());
        slice_subrange(v, 1, v.len())
    } else {
        v
    }
}

/// The string without the sign that may begin it.
pub fn unsigned_text(s: &str) -> (r: String)
    ensures
        r@ == unsigned(s@),
{
    let v = chars_of(s);
    string_of(without_sign(v.as_slice()))
}

/// Whether the characters are a mantissa.
pub fn mantissa_ok(m: &[char]) -> (r: bool)
    ensures
        r == is_mantissa(m@),
{
    let k: usize = find_char(m, '.');
    if k < m.len() {
        only_digits(slice_subrange(m, 0, k)) && only_digits(slice_subrange(m, k + 1, m.len()))
            && m.len() > 1
    } else {
        only_digits(m) && m.len() > 0
    }
}

/// Whether `str::parse::<f64>` accepts the string.
pub fn float_text_ok(s: &str) -> (r: bool)
    ensures
        r == is_float_text(s@),
{
    let v = chars_of(s);
    let t = without_sign(v.as_slice());
    let word = to_lower(string_of(t).as_str());
    if same(word.as_str(), "inf") || same(word.as_str(), "infinity") || same(word.as_str(), "nan") {
        return true;
    }
    let mut k: usize = 0;
    while k < t.len() && t[k] != 'e' && t[k] != 'E'
        invariant
            k <= t@.len(),
            forall|i: int| 0 <= i < k ==> !exponent_class()(#[trigger] t@[i]),
        decreases t@.len() - k,
    {
        k += 1;
    }
    proof {
        lemma_find_by(t@, exponent_class(), k as int);
    }
    if k < t.len() {
        let x = without_sign(slice_subrange(t, k + 1, t.len()));
        mantissa_ok(slice_subrange(t, 0, k)) && only_digits(x) && x.len() > 0
    } else {
        mantissa_ok(t)
    }
}

// ---------------------------------------------------------------------
// Bytes
// ---------------------------------------------------------------------
/// The bytes of two texts, one after the other.
pub proof fn lemma_utf8_add(a: Seq<char>, b: Seq<char>)
    ensures
        encode_utf8(a + b) == encode_utf8(a) + encode_utf8(b),
    decreases a.len(),
{
    if a.len() == 0 {
        assert(a + b == b);
        assert(encode_utf8(a) + encode_utf8(b) == encode_utf8(b));
    } else {
        assert((a + b).drop_first() == a.drop_first() + b);
        lemma_utf8_add(a.drop_first(), b);
        assert(encode_scalar(a[0] as u32) + (encode_utf8(a.drop_first()) + encode_utf8(b)) == (
        encode_scalar(a[0] as u32) + encode_utf8(a.drop_first())) + encode_utf8(b));
    }
}

/// The bytes of a text and one more character.
pub proof fn lemma_utf8_push(a: Seq<char>, c: char)
    ensures
        encode_utf8(a.push(c)) == encode_utf8(a) + encode_scalar(c as u32),
{
    assert(a.push(c) == a + seq![c]);
    lemma_utf8_add(a, seq![c]);
    assert(seq![c].drop_first() == Seq::<char>::empty());
    reveal_with_fuel(encode_utf8, 2);
    assert(encode_utf8(seq![c]) == encode_scalar(c as u32));
}

/// The number of bytes of a character.
pub fn char_width(c: char) -> (r: usize)
    ensures
        r == encode_scalar(c as u32).len(),
        1 <= r <= 4,
{
    let n: u32 = c as u32;
    if n <= 0x7f {
        1
    } else if n <= 0x7ff {
        2
    } else if n <= 0xffff {
        3
    } else {
        4
    }
}

/// The longest beginning of `s` that takes at most `max` bytes.
pub open spec fn fitting_prefix(s: Seq<char>, max: int) -> Seq<char>
    decreases s.len(),
{
    if s.len() == 0 || encode_utf8(s).len() <= max {
        s
    } else {
        fitting_prefix(s.drop_last(), max)
    }
}

proof fn lemma_fitting_prefix(s: Seq<char>, max: int, k: int)
    requires
        0 <= k < s.len(),
        encode_utf8(s.take(k)).len() <= max,
        encode_utf8(s.take(k + 1)).len() > max,
    ensures
        fitting_prefix(s, max) == s.take(k),
    decreases s.len() - k,
{
    assert(s.take(k + 1) + s.subrange(k + 1, s.len() as int) == s);
    lemma_utf8_add(s.take(k + 1), s.subrange(k + 1, s.len() as int));
    if k + 1 == s.len() {
        assert(s.drop_last() == s.take(k));
        reveal_with_fuel(fitting_prefix, 2);
    } else {
        let t = s.drop_last();
        assert(t.take(k) == s.take(k));
        assert(t.take(k + 1) == s.take(k + 1));
        lemma_fitting_prefix(t, max, k);
    }
}

/// A fitting beginning is no longer than the text.
pub proof fn lemma_fitting_prefix_len(s: Seq<char>, max: int)
    ensures
        fitting_prefix(s, max).len() <= s.len(),
    decreases s.len(),
{
    if s.len() > 0 {
        lemma_fitting_prefix_len(s.drop_last(), max);
    }
}

/// The longest beginning of `s` that takes at most `max` bytes, and whether that
/// is less than all of it.
pub fn cut_to_bytes(s: &str, max: usize) -> (r: (String, bool))
    ensures
        r.0@ == fitting_prefix(s@, max as int),
        r.1 == (encode_utf8(s@).len() > max),
{
    let v = chars_of(s);
    let mut used: usize = 0;
    let mut i: usize = 0;
    assert(v@.take(0) == Seq::<char>::empty());
    while i < v.len()
        invariant
            v@ == s@,
            i <= v@.len(),
            used <= max,
            used == encode_utf8(v@.take(i as int)).len(),
        decreases v@.len() - i,
    {
        let w: usize = char_width(v[i]);
        assert(v@.take(i + 1) == v@.take(i as int).push(v@[i as int]));
        proof {
            lemma_utf8_push(v@.take(i as int), v@[i as int]);
        }
        if w > max - used {
            proof {
                lemma_fitting_prefix(v@, max as int, i as int);
                assert(v@.take(i + 1) + v@.subrange(i + 1, v@.len() as int) == v@);
                lemma_utf8_add(v@.take(i + 1), v@.subrange(i + 1, v@.len() as int));
                assert(v@.take(i as int) == v@.subrange(0, i as int));
            }
            return (string_between(v.as_slice(), 0, i), true);
        }
        used = used + w;
        i += 1;
    }
    assert(v@.take(v@.len() as int) == v@);
    (s.to_owned(), false)
}

/// Appends bytes.
pub fn push_all(out: &mut Vec<u8>, b: &[u8])
    ensures
        final(out)@ == old(out)@ + b@,
{
    let ghost start = out@;
    assert(start + b@.take(0) =~= start);
    for i in 0..b.len()
        invariant
            out@ == start + b@.take(i as int),
    {
        out.push(b[i]);
        assert(start + b@.take(i + 1) =~= (start + b@.take(i as int)).push(b@[i as int]));
    }
    assert(b@.take(b@.len() as int) == b@);
}

/// Appends the bytes of a string.
pub fn push_bytes(out: &mut Vec<u8>, s: &str)
    ensures
        final(out)@ == old(out)@ + encode_utf8(s@),
{
    let b = s.as_bytes();
    let ghost start = out@;
    for i in 0..b.len()
        invariant
            b@ == encode_utf8(s@),
            out@ == start + b@.take(i as int),
    {
        out.push(b[i]);
        assert(b@.take(i + 1) == b@.take(i as int).push(b@[i as int]));
    }
    assert(b@.take(b@.len() as int) == b@);
}

// ---------------------------------------------------------------------
// Hexadecimal
// ---------------------------------------------------------------------
/// The lower-case character for a hexadecimal digit.
pub open spec fn hex_digit(d: int) -> char {
    if d < 10 {
        (48 + d) as char
    } else {
        (87 + d) as char
    }
}

/// Bytes in hexadecimal, two lower-case digits each.
pub open spec fn hex(b: Seq<u8>) -> Seq<char>
    decreases b.len(),
{
    if b.len() == 0 {
        Seq::empty()
    } else {
        hex(b.drop_last()).push(hex_digit(b.last() as int / 16)).push(hex_digit(b.last() as int % 16))
    }
}

pub fn hex_char(d: u8) -> (r: char)
    requires
        d < 16,
    ensures
        r == hex_digit(d as int),
{
    if d < 10 {
        (48 + d) as char
    } else {
        (87 + d) as char
    }
}

/// Bytes in hexadecimal.
pub fn hex_of(b: &[u8]) -> (r: String)
    ensures
        r@ == hex(b@),
{
    let mut out = String::new();
    for i in 0..b.len()
        invariant
            out@ == hex(b@.take(i as int)),
    {
        assert(b@.take(i + 1).drop_last() == b@.take(i as int));
        out.push(hex_char(b[i] / 16));
        out.push(hex_char(b[i] % 16));
    }
    assert(b@.take(b@.len() as int) == b@);
    out
}

/// Whether a character is a hexadecimal digit, in either case.
pub open spec fn is_hex(c: char) -> bool {
    is_digit(c) || ('a' <= c && c <= 'f') || ('A' <= c && c <= 'F')
}

/// Whether every character is a hexadecimal digit.
pub open spec fn all_hex(s: Seq<char>) -> bool {
    forall|i: int| 0 <= i < s.len() ==> is_hex(#[trigger] s[i])
}

/// Whether every character is a hexadecimal digit.
pub fn only_hex(v: &[char]) -> (r: bool)
    ensures
        r == all_hex(v@),
{
    for i in 0..v.len()
        invariant
            forall|k: int| 0 <= k < i ==> is_hex(#[trigger] v@[k]),
    {
        let c = v[i];
        if !(char_is_digit(c) || ('a' <= c && c <= 'f') || ('A' <= c && c <= 'F')) {
            return false;
        }
    }
    true
}

/// Bytes in hexadecimal are hexadecimal digits, two for each byte.
pub proof fn lemma_hex_len(b: Seq<u8>)
    ensures
        hex(b).len() == 2 * b.len(),
        all_hex(hex(b)),
    decreases b.len(),
{
    if b.len() > 0 {
        lemma_hex_len(b.drop_last());
        let h = hex(b);
        let before = hex(b.drop_last());
        assert forall|i: int| 0 <= i < h.len() implies is_hex(#[trigger] h[i]) by {
            if i < before.len() {
                assert(h[i] == before[i]);
            }
        }
    }
}

} // verus!
