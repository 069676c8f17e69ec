//! The texts of IP addresses.
use vstd::prelude::*;
use vstd::string::*;

use crate::text::{
    all_digits, all_hex, chars_of, digits_to_u64, digits_value, only_digits, only_hex, split,
    split_on, string_between, texts,
};

verus! {

/// A number from 0 to 255 in decimal, without a leading zero.
pub open spec fn is_octet(s: Seq<char>) -> bool {
    &&& 1 <= s.len() <= 3
    &&& all_digits(s)
    &&& s.len() > 1 ==> s[0] != '0'
    &&& digits_value(s) <= 255
}

/// An address of version 4: four numbers with dots between them.
pub open spec fn is_ipv4(s: Seq<char>) -> bool {
    let parts = split(s, '.');
    parts.len() == 4 && forall|i: int| 0 <= i < 4 ==> is_octet(#[trigger] parts[i])
}

/// A group of an address of version 6: up to four hexadecimal digits.
pub open spec fn is_group(s: Seq<char>) -> bool {
    1 <= s.len() <= 4 && all_hex(s)
}

/// How many groups texts make up, where the last one may be an address of version 4,
/// which counts for two.
pub open spec fn group_count(parts: Seq<Seq<char>>, v4: bool) -> Option<nat>
    decreases parts.len(),
{
    if parts.len() == 0 {
        Some(0)
    } else {
        match group_count(parts.drop_last(), false) {
            None => None,
            Some(n) => if is_group(parts.last()) {
                Some(n + 1)
            } else if v4 && is_ipv4(parts.last()) {
                Some(n + 2)
            } else {
                None
            },
        }
    }
}

/// How many groups a text makes up, with colons between them; the empty text none.
pub open spec fn side_count(s: Seq<char>, v4: bool) -> Option<nat> {
    if s.len() == 0 {
        Some(0)
    } else {
        group_count(split(s, ':'), v4)
    }
}

/// Where the first double colon stands, or the length of the text.
pub open spec fn double_colon(s: Seq<char>) -> int
    decreases s.len(),
{
    if s.len() < 2 {
        s.len() as int
    } else if s[0] == ':' && s[1] == ':' {
        0
    } else {
        1 + double_colon(s.drop_first())
    }
}

/// An address of version 6: eight groups, or fewer where a double colon stands for
/// those that are missing.
pub open spec fn is_ipv6(s: Seq<char>) -> bool {
    let k = double_colon(s);
    if k >= s.len() {
        s.len() > 0 && side_count(s, true) == Some(8nat)
    } else {
        match (side_count(s.subrange(0, k), false), side_count(s.subrange(k + 2, s.len() as int), true)) {
            (Some(a), Some(b)) => a + b <= 7,
            _ => false,
        }
    }
}

fn octet_ok(s: &str) -> (r: bool)
    ensures
        r == is_octet(s@),
{
    let v = chars_of(s);
    let n: usize = v.len();
    if n < 1 || n > 3 || !only_digits(v.as_slice()) || (n > 1 && v[0] == '0') {
        return false;
    }
    match digits_to_u64(v.as_slice()) {
        Some(x) => x <= 255,
        None => false,
    }
}

fn ipv4_ok(s: &str) -> (r: bool)
    ensures
        r == is_ipv4(s@),
{
    let parts = split_on(s, '.');
    let ghost all = texts(parts@);
    assert(parts@.len() == 4 ==> all[0] == parts@[0]@ && all[1] == parts@[1]@ && all[2]
        == parts@[2]@ && all[3] == parts@[3]@);
    parts.len() == 4 && octet_ok(parts[0].as_str()) && octet_ok(parts[1].as_str()) && octet_ok(
        parts[2].as_str(),
    ) && octet_ok(parts[3].as_str())
}

fn group_ok(s: &str) -> (r: bool)
    ensures
        r == is_group(s@),
{
    let v = chars_of(s);
    1 <= v.len() && v.len() <= 4 && only_hex(v.as_slice())
}

proof fn lemma_not_groups(parts: Seq<Seq<char>>, n: int, v4: bool)
    requires
        0 < n < parts.len(),
        group_count(parts.take(n), false) is None,
    ensures
        group_count(parts, v4) is None,
    decreases parts.len() - n,
{
    let d = parts.drop_last();
    if n == d.len() {
        assert(parts.take(n) == d);
    } else {
        assert(d.take(n) == parts.take(n));
        lemma_not_groups(d, n, false);
    }
}

fn count_groups(parts: &Vec<String>, v4: bool) -> (r: Option<u128>)
    ensures
        match r {
            Some(n) => group_count(texts(parts@), v4) == Some(n as nat),
            None => group_count(texts(parts@), v4) is None,
        },
{
    let n: usize = parts.len();
    let ghost all = texts(parts@);
    let mut count: u128 = 0;
    for i in 0..n
        invariant
            n == parts@.len(),
            all == texts(parts@),
            i < n ==> group_count(all.take(i as int), false) == Some(count as nat),
            i == n ==> group_count(all, v4) == Some(count as nat),
            count <= n + 1,
            i < n ==> count == i,
    {
        assert(all.take(i + 1).drop_last() == all.take(i as int));
        assert(all.take(i + 1).last() == parts@[i as int]@);
        if i + 1 == n {
            assert(all.take(n as int) == all);
        }
        if group_ok(parts[i].as_str()) {
            count = count + 1;
        } else if i + 1 == n && v4 && ipv4_ok(parts[i].as_str()) {
            count = count + 2;
        } else {
            proof {
                if i + 1 < n {
                    lemma_not_groups(all, i + 1, v4);
                }
            }
            return None;
        }
    }
    Some(count)
}

fn count_side(s: &str, v4: bool) -> (r: Option<u128>)
    ensures
        match r {
            Some(n) => side_count(s@, v4) == Some(n as nat),
            None => side_count(s@, v4) is None,
        },
{
    if s.is_empty() {
        return Some(0);
    }
    let parts = split_on(s, ':');
    count_groups(&parts, v4)
}

fn find_double_colon(v: &[char]) -> (r: usize)
    ensures
        r == double_colon(v@),
        r <= v@.len(),
{
    let n: usize = v.len();
    let mut i: usize = 0;
    assert(v@.subrange(0, n as int) == v@);
    while i < n
        invariant
            i <= n,
            n == v@.len(),
            double_colon(v@) == i + double_colon(v@.subrange(i as int, n as int)),
        decreases n - i,
    {
        let ghost left = v@.subrange(i as int, n as int);
        if n - i < 2 {
            return n;
        }
        if v[i] == ':' && v[i + 1] == ':' {
            return i;
        }
        assert(left.drop_first() == v@.subrange(i + 1, n as int));
        i = i + 1;
    }
    n
}

fn ipv6_ok(s: &str) -> (r: bool)
    ensures
        r == is_ipv6(s@),
{
    let v = chars_of(s);
    let n: usize = v.len();
    let k: usize = find_double_colon(v.as_slice());
    if k >= n {
        return n > 0 && match count_side(s, true) {
            Some(c) => c == 8,
            None => false,
        };
    }
    proof {
        lemma_double_colon(v@);
    }
    let left = string_between(v.as_slice(), 0, k);
    let right = string_between(v.as_slice(), k + 2, n);
    match (count_side(left.as_str(), false), count_side(right.as_str(), true)) {
        (Some(a), Some(b)) => a <= 7 && b <= 7 - a,
        _ => false,
    }
}

proof fn lemma_double_colon(s: Seq<char>)
    ensures
        double_colon(s) <= s.len(),
        double_colon(s) < s.len() ==> double_colon(s) + 2 <= s.len(),
    decreases s.len(),
{
    if s.len() >= 2 && !(s[0] == ':' && s[1] == ':') {
        lemma_double_colon(s.drop_first());
    }
}

/// Whether a text is an IP address.
pub fn is_plausible_ip(s: &str) -> (r: bool)
    ensures
        r == (is_ipv4(s@) || is_ipv6(s@)),
{
    ipv4_ok(s) || ipv6_ok(s)
}

} // verus!
