//! What holds of numbers and texts as the library writes and reads them.
use vstd::prelude::*;

use crate::json::{JsonV, nat_of};
use crate::text::{
    all_digits, dec, dec_int, digit, digits_value, hex, hex_digit, is_digit, is_space, just,
    lemma_find_by, lemma_hex_len, lemma_trim_bounds, lines, lower_char, parse_i64_text, parse_nat,
    parse_u64_text, split, trim, upper_char,
};

verus! {

proof fn lemma_digits_of(n: nat)
    ensures
        dec(n).len() > 0,
        all_digits(dec(n)),
        digits_value(dec(n)) == n,
    decreases n,
{
    let d = dec(n);
    if n >= 10 {
        lemma_digits_of(n / 10);
        assert(d.drop_last() =~= dec(n / 10));
        assert(d.last() == digit((n % 10) as int));
    } else {
        assert(d.drop_last() =~= Seq::<char>::empty());
        assert(digits_value(d.drop_last()) == 0);
    }
    assert(d.last() as u32 == 48 + n % 10);
    assert forall|i: int| 0 <= i < d.len() implies is_digit(#[trigger] d[i]) by {
        if i < d.len() - 1 {
            assert(d[i] == dec(n / 10)[i]);
            assert(is_digit(dec(n / 10)[i]));
        }
    }
}

/// A natural number reads back as it was written, and is made of digits.
pub proof fn law_naturals_read_back(n: nat)
    ensures
        parse_nat(dec(n)) == Some(n),
        n <= u64::MAX ==> parse_u64_text(dec(n)) == Some(n as u64),
        dec(n).len() > 0,
        all_digits(dec(n)),
{
    lemma_digits_of(n);
    assert(is_digit(dec(n)[0]));
}

/// A number reads back as it was written.
pub proof fn law_numbers_read_back(n: i64)
    ensures
        parse_i64_text(dec_int(n as int)) == Some(n),
{
    if n < 0 {
        lemma_digits_of((-n) as nat);
        let s = dec_int(n as int);
        assert(s[0] == '-');
        assert(s.drop_first() =~= dec((-n) as nat));
    } else {
        lemma_digits_of(n as nat);
        let s = dec(n as nat);
        assert(is_digit(s[0]));
    }
}

// ---------------------------------------------------------------------
// Characters
// ---------------------------------------------------------------------
/// Case is a matter of the letters of the alphabet alone, and of a distance of 32.
pub proof fn law_case_of_letters(c: char)
    ensures
        'A' <= c && c <= 'Z' ==> lower_char(c) as u32 == c as u32 + 32 && upper_char(c) == c,
        'a' <= c && c <= 'z' ==> upper_char(c) as u32 == c as u32 - 32 && lower_char(c) == c,
        !('A' <= c && c <= 'Z') && !('a' <= c && c <= 'z') ==> lower_char(c) == c && upper_char(c)
            == c,
{
}

/// Blanks, tabs and the ends of lines are white space; no other character that can be typed
/// is.
pub proof fn law_white_space(c: char)
    ensures
        is_space(' ') && is_space('\t') && is_space('\n') && is_space('\r'),
        32 < c as u32 && (c as u32) < 127 ==> !is_space(c),
        c as u32 == 0xa0 || c as u32 == 0x3000 ==> is_space(c),
{
}

/// Trimming takes the white space off both ends, all of it and nothing else.
pub proof fn law_trimming(s: Seq<char>) -> (b: (int, int))
    ensures
        0 <= b.0 <= b.1 <= s.len(),
        trim(s) == s.subrange(b.0, b.1),
        forall|i: int| 0 <= i < b.0 ==> is_space(#[trigger] s[i]),
        forall|i: int| b.1 <= i < s.len() ==> is_space(#[trigger] s[i]),
        trim(s).len() > 0 ==> !is_space(trim(s)[0]) && !is_space(trim(s).last()),
{
    lemma_trim_bounds(s)
}

// ---------------------------------------------------------------------
// Pieces
// ---------------------------------------------------------------------
/// A text without a separator is one piece.
pub proof fn law_no_separator(s: Seq<char>, sep: char)
    requires
        forall|i: int| 0 <= i < s.len() ==> #[trigger] s[i] != sep,
    ensures
        split(s, sep) == seq![s],
{
    assert forall|i: int| 0 <= i < s.len() implies !just(sep)(#[trigger] s[i]) by {
        assert(s[i] != sep);
    }
    lemma_find_by(s, just(sep), s.len() as int);
}

/// A separator ends a piece, and what follows is split on.
pub proof fn law_split_at_a_separator(a: Seq<char>, b: Seq<char>, sep: char)
    requires
        forall|i: int| 0 <= i < a.len() ==> #[trigger] a[i] != sep,
    ensures
        split(a + seq![sep] + b, sep) == seq![a] + split(b, sep),
{
    let s = a + seq![sep] + b;
    let n = a.len() as int;
    assert forall|i: int| 0 <= i < n implies !just(sep)(#[trigger] s[i]) by {
        assert(s[i] == a[i]);
    }
    assert(s[n] == sep);
    lemma_find_by(s, just(sep), n);
    assert(s.subrange(0, n) =~= a);
    assert(s.subrange(n + 1, s.len() as int) =~= b);
}

/// A line ends at its line feed, and a carriage return before that is no part of it.
pub proof fn law_lines_end(a: Seq<char>, b: Seq<char>)
    requires
        forall|i: int| 0 <= i < a.len() ==> #[trigger] a[i] != '\n',
        a.len() > 0 ==> a.last() != '\r',
    ensures
        lines(a + seq!['\n'] + b) == seq![a] + lines(b),
        lines(a + seq!['\r', '\n'] + b) == seq![a] + lines(b),
        a.len() > 0 ==> lines(a) == seq![a],
        lines(Seq::empty()) == Seq::<Seq<char>>::empty(),
{
    let s = a + seq!['\n'] + b;
    let t = a + seq!['\r', '\n'] + b;
    let n = a.len() as int;
    assert forall|i: int| 0 <= i < n implies !just('\n')(#[trigger] s[i]) by {
        assert(s[i] == a[i]);
    }
    assert(s[n] == '\n');
    lemma_find_by(s, just('\n'), n);
    assert(s.subrange(0, n) =~= a);
    assert(s.subrange(n + 1, s.len() as int) =~= b);
    assert forall|i: int| 0 <= i < n + 1 implies !just('\n')(#[trigger] t[i]) by {
        if i < n {
            assert(t[i] == a[i]);
        } else {
            assert(t[i] == '\r');
        }
    }
    assert(t[n + 1] == '\n');
    lemma_find_by(t, just('\n'), n + 1);
    assert(t.subrange(0, n + 1) =~= a.push('\r'));
    assert(a.push('\r').drop_last() =~= a);
    assert(t.subrange(n + 2, t.len() as int) =~= b);
    assert forall|i: int| 0 <= i < n implies !just('\n')(#[trigger] a[i]) by {
        assert(a[i] != '\n');
    }
    lemma_find_by(a, just('\n'), n);
}

/// Two digits for each byte, the greater half first.
pub proof fn law_bytes_in_hexadecimal(b: Seq<u8>, c: u8)
    ensures
        hex(b.push(c)) == hex(b).push(hex_digit(c as int / 16)).push(hex_digit(c as int % 16)),
        hex(b).len() == 2 * b.len(),
        hex_digit(0) == '0' && hex_digit(9) == '9' && hex_digit(10) == 'a' && hex_digit(15) == 'f',
{
    assert(b.push(c).drop_last() =~= b);
    lemma_hex_len(b);
}

/// A number without a sign is read from a value that holds one, and from no text.
pub proof fn law_numbers_in_values(n: u64, s: Seq<char>)
    ensures
        nat_of(JsonV::Num(dec(n as nat))) == Some(n),
        nat_of(JsonV::Str(s)) is None,
        nat_of(JsonV::Null) is None,
{
    law_naturals_read_back(n as nat);
}

} // verus!
