//! What holds of fingerprints and of the samples of a group.
use vstd::prelude::*;
use vstd::utf8::{encode_scalar, encode_utf8, encode_utf8_decode_utf8};

use crate::errors::{
    GroupEvent, GroupWrite, StoredGroup, Transition, error_rank, exception_parts,
    fingerprint_input, frame_parts, group_level, lists_texts, message_parts, normalized, run_text,
    sampled, samples_kept, squashed, stored_texts, stored_values, string_values, top_frames,
    word_text, word_texts, writes,
};
use crate::json::{JsonV, is_plain, raw_mark};
use crate::text::{all_digits, is_digit, is_space, is_word_char, join, opt_text};

verus! {

// ---------------------------------------------------------------------
// Fingerprints
// ---------------------------------------------------------------------
proof fn lemma_input_prefix(tag: Seq<char>, parts: Seq<Seq<char>>)
    ensures
        fingerprint_input(tag, parts).len() >= encode_utf8(tag).len(),
        fingerprint_input(tag, parts).take(encode_utf8(tag).len() as int) == encode_utf8(tag),
    decreases parts.len(),
{
    let e = encode_utf8(tag);
    let n = e.len() as int;
    if parts.len() == 0 {
        assert(e.take(n) == e);
    } else {
        lemma_input_prefix(tag, parts.drop_last());
        let before = fingerprint_input(tag, parts.drop_last());
        assert(fingerprint_input(tag, parts).take(n) =~= before.take(n));
    }
}

/// What is digested for one kind of fingerprint is never digested for another: the
/// tags keep them apart, whatever the parts are.
pub proof fn law_kinds_of_fingerprints_keep_apart(
    tag: Seq<char>,
    parts: Seq<Seq<char>>,
    other: Seq<char>,
    others: Seq<Seq<char>>,
)
    requires
        encode_utf8(tag).len() == encode_utf8(other).len(),
        tag != other,
    ensures
        fingerprint_input(tag, parts) != fingerprint_input(other, others),
{
    lemma_input_prefix(tag, parts);
    lemma_input_prefix(other, others);
    encode_utf8_decode_utf8(tag);
    encode_utf8_decode_utf8(other);
}

/// Whether a text holds no unit separator.
pub open spec fn is_unseparated(s: Seq<char>) -> bool {
    forall|i: int| 0 <= i < s.len() ==> #[trigger] s[i] as u32 != 0x1f
}

proof fn lemma_scalar_bytes(v: u32)
    requires
        v != 0x1f,
    ensures
        forall|i: int| 0 <= i < encode_scalar(v).len() ==> #[trigger] encode_scalar(v)[i] != 0x1f,
{
    if v <= 0x7f {
        assert(v <= 0x7f && v != 0x1f ==> (v & 0x7F) as u8 != 0x1f) by (bit_vector);
    }
    assert(0xC0 | ((v >> 6) & 0x1F) as u8 >= 0x80) by (bit_vector);
    assert(0xE0 | ((v >> 12) & 0x0F) as u8 >= 0x80) by (bit_vector);
    assert(0xF0 | ((v >> 18) & 0x7) as u8 >= 0x80) by (bit_vector);
    assert(0x80 | (v & 0x3F) as u8 >= 0x80) by (bit_vector);
    assert(0x80 | ((v >> 6) & 0x3F) as u8 >= 0x80) by (bit_vector);
    assert(0x80 | ((v >> 12) & 0x3F) as u8 >= 0x80) by (bit_vector);
}

proof fn lemma_unseparated_bytes(s: Seq<char>)
    requires
        is_unseparated(s),
    ensures
        forall|i: int| 0 <= i < encode_utf8(s).len() ==> #[trigger] encode_utf8(s)[i] != 0x1f,
    decreases s.len(),
{
    if s.len() > 0 {
        let rest = s.drop_first();
        assert forall|i: int| 0 <= i < rest.len() implies #[trigger] rest[i] as u32 != 0x1f by {
            assert(s[i + 1] as u32 != 0x1f);
        }
        lemma_unseparated_bytes(rest);
        assert(s[0] as u32 != 0x1f);
        lemma_scalar_bytes(s[0] as u32);
        let first = encode_scalar(s[0] as u32);
        let all = encode_utf8(s);
        assert forall|i: int| 0 <= i < all.len() implies #[trigger] all[i] != 0x1f by {
            if i < first.len() {
                assert(all[i] == first[i]);
            } else {
                assert(all[i] == encode_utf8(rest)[i - first.len()]);
            }
        }
    }
}

/// Two services or two normalized messages are digested as different bytes, where the
/// services hold no unit separator: their fingerprints are alike only where the digests
/// of different bytes are.
pub proof fn law_messages_keep_apart(
    service: Seq<char>,
    message: Seq<char>,
    service2: Seq<char>,
    message2: Seq<char>,
)
    requires
        is_unseparated(service),
        is_unseparated(service2),
        service != service2 || normalized(message) != normalized(message2),
    ensures
        fingerprint_input("m"@, message_parts(service, message)) != fingerprint_input(
            "m"@,
            message_parts(service2, message2),
        ),
{
    let n = normalized(message);
    let n2 = normalized(message2);
    let (t, a, b, a2, b2) = (
        encode_utf8("m"@),
        encode_utf8(service),
        encode_utf8(n),
        encode_utf8(service2),
        encode_utf8(n2),
    );
    let x = fingerprint_input("m"@, seq![service, n]);
    let x2 = fingerprint_input("m"@, seq![service2, n2]);
    lemma_two_parts("m"@, service, n);
    lemma_two_parts("m"@, service2, n2);
    lemma_unseparated_bytes(service);
    lemma_unseparated_bytes(service2);
    if x == x2 {
        let k = t.len() as int + 1;
        if a.len() < a2.len() {
            assert(x[k + a.len()] == 0x1f);
            assert(x2[k + a.len()] == a2[a.len() as int]);
        } else if a2.len() < a.len() {
            assert(x2[k + a2.len()] == 0x1f);
            assert(x[k + a2.len()] == a[a2.len() as int]);
        }
        assert forall|i: int| 0 <= i < a.len() implies a[i] == a2[i] by {
            assert(x[k + i] == a[i] && x2[k + i] == a2[i]);
        }
        assert(a =~= a2);
        assert(x.len() == k + a.len() + 1 + b.len());
        assert(x2.len() == k + a2.len() + 1 + b2.len());
        assert forall|i: int| 0 <= i < b.len() implies b[i] == b2[i] by {
            assert(x[k + a.len() + 1 + i] == b[i] && x2[k + a.len() + 1 + i] == b2[i]);
        }
        assert(b =~= b2);
        encode_utf8_decode_utf8(service);
        encode_utf8_decode_utf8(service2);
        encode_utf8_decode_utf8(n);
        encode_utf8_decode_utf8(n2);
    }
}

proof fn lemma_two_parts(tag: Seq<char>, a: Seq<char>, b: Seq<char>)
    ensures
        fingerprint_input(tag, seq![a, b]) == encode_utf8(tag) + seq![0x1fu8] + encode_utf8(a)
            + seq![0x1fu8] + encode_utf8(b),
{
    reveal_with_fuel(fingerprint_input, 3);
    assert(seq![a, b].drop_last() =~= seq![a]);
    assert(seq![a].drop_last() =~= Seq::<Seq<char>>::empty());
}

/// Whether no part holds a unit separator.
pub open spec fn are_unseparated(parts: Seq<Seq<char>>) -> bool {
    forall|i: int| 0 <= i < parts.len() ==> is_unseparated(#[trigger] parts[i])
}

/// The bytes behind the last separator are the last part.
proof fn lemma_last_part(x: Seq<u8>, a: Seq<u8>, y: Seq<u8>, b: Seq<u8>)
    requires
        x + seq![0x1fu8] + a == y + seq![0x1fu8] + b,
        forall|i: int| 0 <= i < a.len() ==> #[trigger] a[i] != 0x1f,
        forall|i: int| 0 <= i < b.len() ==> #[trigger] b[i] != 0x1f,
    ensures
        x == y,
        a == b,
{
    let p = x + seq![0x1fu8] + a;
    let q = y + seq![0x1fu8] + b;
    let n = x.len() as int;
    let m = y.len() as int;
    assert(p.len() == n + 1 + a.len() && q.len() == m + 1 + b.len());
    assert(p[n] == 0x1f && q[m] == 0x1f);
    if n < m {
        assert(p[m] == a[m - n - 1]);
    } else if m < n {
        assert(q[n] == b[n - m - 1]);
    }
    assert(x =~= p.take(n));
    assert(y =~= q.take(m));
    assert(a =~= p.subrange(n + 1, p.len() as int));
    assert(b =~= q.subrange(m + 1, q.len() as int));
}

/// Different parts are digested as different bytes, where no part holds a unit separator:
/// no part is left out, none is taken for another, and their number counts.
pub proof fn law_parts_keep_apart(tag: Seq<char>, a: Seq<Seq<char>>, b: Seq<Seq<char>>)
    requires
        is_unseparated(tag),
        are_unseparated(a),
        are_unseparated(b),
        fingerprint_input(tag, a) == fingerprint_input(tag, b),
    ensures
        a == b,
    decreases a.len() + b.len(),
{
    lemma_unseparated_bytes(tag);
    let x = fingerprint_input(tag, a);
    let y = fingerprint_input(tag, b);
    let t = encode_utf8(tag);
    if a.len() == 0 && b.len() == 0 {
        assert(a =~= b);
    } else if a.len() == 0 {
        let k = fingerprint_input(tag, b.drop_last()).len() as int;
        assert(y[k] == 0x1f);
        assert(t[k] != 0x1f);
    } else if b.len() == 0 {
        let k = fingerprint_input(tag, a.drop_last()).len() as int;
        assert(x[k] == 0x1f);
        assert(t[k] != 0x1f);
    } else {
        let c = a.drop_last();
        let d = b.drop_last();
        assert(is_unseparated(a[a.len() - 1]));
        assert(is_unseparated(b[b.len() - 1]));
        lemma_unseparated_bytes(a.last());
        lemma_unseparated_bytes(b.last());
        lemma_last_part(
            fingerprint_input(tag, c),
            encode_utf8(a.last()),
            fingerprint_input(tag, d),
            encode_utf8(b.last()),
        );
        assert forall|i: int| 0 <= i < c.len() implies is_unseparated(#[trigger] c[i]) by {
            assert(is_unseparated(a[i]));
        }
        assert forall|i: int| 0 <= i < d.len() implies is_unseparated(#[trigger] d[i]) by {
            assert(is_unseparated(b[i]));
        }
        law_parts_keep_apart(tag, c, d);
        encode_utf8_decode_utf8(a.last());
        encode_utf8_decode_utf8(b.last());
        assert(a =~= c.push(a.last()));
        assert(b =~= d.push(b.last()));
    }
}

/// What a frame says: its module, its function and its file.
pub open spec fn frame_texts(f: (String, String, String)) -> (Seq<char>, Seq<char>, Seq<char>) {
    (f.0@, f.1@, f.2@)
}

/// Whether no text of a frame holds a unit separator.
pub open spec fn frames_unseparated(frames: Seq<(String, String, String)>) -> bool {
    forall|i: int|
        0 <= i < frames.len() ==> is_unseparated((#[trigger] frames[i]).0@) && is_unseparated(
            frames[i].1@,
        ) && is_unseparated(frames[i].2@)
}

proof fn lemma_frame_parts(frames: Seq<(String, String, String)>)
    ensures
        frame_parts(frames).len() == 3 * frames.len(),
        forall|i: int|
            0 <= i < frames.len() ==> frame_parts(frames)[3 * i] == (#[trigger] frames[i]).0@
                && frame_parts(frames)[3 * i + 1] == frames[i].1@ && frame_parts(frames)[3 * i + 2]
                == frames[i].2@,
        frames_unseparated(frames) ==> are_unseparated(frame_parts(frames)),
    decreases frames.len(),
{
    if frames.len() > 0 {
        let d = frames.drop_last();
        let n = d.len() as int;
        lemma_frame_parts(d);
        let all = frame_parts(frames);
        assert forall|i: int| 0 <= i < frames.len() implies all[3 * i] == (
        #[trigger] frames[i]).0@ && all[3 * i + 1] == frames[i].1@ && all[3 * i + 2]
            == frames[i].2@ by {
            if i < n {
                assert(d[i] == frames[i]);
                assert(all[3 * i] == frame_parts(d)[3 * i]);
                assert(all[3 * i + 1] == frame_parts(d)[3 * i + 1]);
                assert(all[3 * i + 2] == frame_parts(d)[3 * i + 2]);
            }
        }
        if frames_unseparated(frames) {
            assert forall|i: int| 0 <= i < d.len() implies is_unseparated((#[trigger] d[i]).0@)
                && is_unseparated(d[i].1@) && is_unseparated(d[i].2@) by {
                assert(is_unseparated(frames[i].0@));
            }
            assert(is_unseparated(frames[n].0@));
            assert forall|i: int| 0 <= i < all.len() implies is_unseparated(
                #[trigger] all[i],
            ) by {
                if i < 3 * n {
                    assert(all[i] == frame_parts(d)[i]);
                }
            }
        }
    }
}

/// Every character of a normalized text is one of the text, or one of those that stand for
/// what was taken out.
pub(crate) proof fn lemma_normalized_unseparated(s: Seq<char>)
    requires
        is_unseparated(s),
    ensures
        is_unseparated(normalized(s)),
{
    lemma_squashed_unseparated(s, None);
    let t = squashed(s, None);
    lemma_words_unseparated(t, Seq::empty());
    lemma_join_unseparated(word_texts(t, Seq::empty()));
}

proof fn lemma_squashed_unseparated(s: Seq<char>, quote: Option<char>)
    requires
        is_unseparated(s),
    ensures
        is_unseparated(squashed(s, quote)),
    decreases s.len(),
{
    reveal_strlit("'S");
    if s.len() > 0 {
        let rest = s.drop_first();
        assert forall|i: int| 0 <= i < rest.len() implies #[trigger] rest[i] as u32 != 0x1f by {
            assert(s[i + 1] as u32 != 0x1f);
        }
        assert(s[0] as u32 != 0x1f);
        lemma_squashed_unseparated(rest, None);
        lemma_squashed_unseparated(rest, Some(s[0]));
        lemma_squashed_unseparated(rest, quote);
    }
}

proof fn lemma_word_unseparated(w: Seq<char>, run: Seq<char>)
    requires
        is_unseparated(w),
        is_unseparated(run),
    ensures
        is_unseparated(word_text(w, run)),
    decreases w.len(),
{
    assert(is_unseparated(run_text(run)));
    if w.len() > 0 {
        let rest = w.drop_first();
        assert forall|i: int| 0 <= i < rest.len() implies #[trigger] rest[i] as u32 != 0x1f by {
            assert(w[i + 1] as u32 != 0x1f);
        }
        assert(w[0] as u32 != 0x1f);
        lemma_word_unseparated(rest, run.push(w[0]));
        lemma_word_unseparated(rest, Seq::empty());
    }
}

proof fn lemma_words_unseparated(s: Seq<char>, word: Seq<char>)
    requires
        is_unseparated(s),
        is_unseparated(word),
    ensures
        are_unseparated(word_texts(s, word)),
    decreases s.len(),
{
    lemma_word_unseparated(word, Seq::empty());
    if s.len() > 0 {
        let rest = s.drop_first();
        assert forall|i: int| 0 <= i < rest.len() implies #[trigger] rest[i] as u32 != 0x1f by {
            assert(s[i + 1] as u32 != 0x1f);
        }
        assert(s[0] as u32 != 0x1f);
        lemma_words_unseparated(rest, Seq::empty());
        lemma_words_unseparated(rest, word.push(s[0]));
    }
}

proof fn lemma_join_unseparated(parts: Seq<Seq<char>>)
    requires
        are_unseparated(parts),
    ensures
        is_unseparated(join(parts, " "@)),
    decreases parts.len(),
{
    reveal_strlit(" ");
    if parts.len() > 0 {
        let d = parts.drop_last();
        assert forall|i: int| 0 <= i < d.len() implies is_unseparated(#[trigger] d[i]) by {
            assert(is_unseparated(parts[i]));
        }
        lemma_join_unseparated(d);
        assert(is_unseparated(parts[0]));
        assert(is_unseparated(parts[parts.len() - 1]));
    }
}

/// Two exceptions are digested as the same bytes only where they have the same type, the
/// same normalized value and the same first five frames, each with its module, its function
/// and its file.
pub proof fn law_exceptions_keep_apart(
    exc_type: Seq<char>,
    exc_value: Seq<char>,
    frames: Seq<(String, String, String)>,
    exc_type2: Seq<char>,
    exc_value2: Seq<char>,
    frames2: Seq<(String, String, String)>,
)
    requires
        is_unseparated(exc_type),
        is_unseparated(exc_type2),
        is_unseparated(exc_value),
        is_unseparated(exc_value2),
        frames_unseparated(frames),
        frames_unseparated(frames2),
        fingerprint_input("s"@, exception_parts(exc_type, exc_value, frames)) == fingerprint_input(
            "s"@,
            exception_parts(exc_type2, exc_value2, frames2),
        ),
    ensures
        exc_type == exc_type2,
        normalized(exc_value) == normalized(exc_value2),
        forall|i: int|
            0 <= i < 5 && i < frames.len() ==> i < frames2.len() && frame_texts(
                #[trigger] frames[i],
            ) == frame_texts(frames2[i]),
        frames.len() < 5 || frames2.len() < 5 ==> frames.len() == frames2.len(),
{
    reveal_strlit("s");
    let top = top_frames(frames);
    let top2 = top_frames(frames2);
    let fp = frame_parts(top);
    let fp2 = frame_parts(top2);
    let a = exception_parts(exc_type, exc_value, frames);
    let b = exception_parts(exc_type2, exc_value2, frames2);
    lemma_top_unseparated(frames);
    lemma_top_unseparated(frames2);
    lemma_frame_parts(top);
    lemma_frame_parts(top2);
    lemma_normalized_unseparated(exc_value);
    lemma_normalized_unseparated(exc_value2);
    assert forall|i: int| 0 <= i < a.len() implies is_unseparated(#[trigger] a[i]) by {
        if i >= 2 {
            assert(a[i] == fp[i - 2]);
        }
    }
    assert forall|i: int| 0 <= i < b.len() implies is_unseparated(#[trigger] b[i]) by {
        if i >= 2 {
            assert(b[i] == fp2[i - 2]);
        }
    }
    law_parts_keep_apart("s"@, a, b);
    assert(a[0] == exc_type && b[0] == exc_type2);
    assert(a[1] == normalized(exc_value) && b[1] == normalized(exc_value2));
    assert(a.len() == 2 + 3 * top.len() && b.len() == 2 + 3 * top2.len());
    assert forall|i: int| 0 <= i < 5 && i < frames.len() implies i < frames2.len()
        && frame_texts(#[trigger] frames[i]) == frame_texts(frames2[i]) by {
        assert(top[i] == frames[i]);
        assert(top2[i] == frames2[i]);
        assert(a[2 + 3 * i] == fp[3 * i] && b[2 + 3 * i] == fp2[3 * i]);
        assert(a[2 + 3 * i + 1] == fp[3 * i + 1] && b[2 + 3 * i + 1] == fp2[3 * i + 1]);
        assert(a[2 + 3 * i + 2] == fp[3 * i + 2] && b[2 + 3 * i + 2] == fp2[3 * i + 2]);
    }
}

proof fn lemma_top_unseparated(frames: Seq<(String, String, String)>)
    requires
        frames_unseparated(frames),
    ensures
        frames_unseparated(top_frames(frames)),
        top_frames(frames).len() == if frames.len() < 5 {
            frames.len()
        } else {
            5
        },
{
    let top = top_frames(frames);
    assert forall|i: int| 0 <= i < top.len() implies is_unseparated((#[trigger] top[i]).0@)
        && is_unseparated(top[i].1@) && is_unseparated(top[i].2@) by {
        assert(top[i] == frames[i]);
        assert(is_unseparated(frames[i].0@));
    }
}

/// The frames after the fifth do not count, nor do the numbers in the value.
pub proof fn law_exceptions_of_one_group(
    exc_type: Seq<char>,
    exc_value: Seq<char>,
    exc_value2: Seq<char>,
    frames: Seq<(String, String, String)>,
    more: Seq<(String, String, String)>,
)
    requires
        normalized(exc_value) == normalized(exc_value2),
        frames.len() == 5,
    ensures
        exception_parts(exc_type, exc_value, frames) == exception_parts(
            exc_type,
            exc_value2,
            frames + more,
        ),
{
    assert((frames + more).take(5) =~= frames);
    if more.len() == 0 {
        assert(frames + more =~= frames);
    }
}

// ---------------------------------------------------------------------
// Numbers
// ---------------------------------------------------------------------
/// The quote that is open behind a text.
pub open spec fn open_quote(s: Seq<char>, quote: Option<char>) -> Option<char>
    decreases s.len(),
{
    if s.len() == 0 {
        quote
    } else {
        open_quote(
            s.drop_first(),
            match quote {
                Some(q) => if s[0] == q || s[0] == '\n' {
                    None
                } else {
                    quote
                },
                None => if s[0] == '"' || s[0] == '\'' {
                    Some(s[0])
                } else {
                    None
                },
            },
        )
    }
}

proof fn lemma_squashed_parts(a: Seq<char>, b: Seq<char>, quote: Option<char>)
    ensures
        squashed(a + b, quote) == squashed(a, quote) + squashed(b, open_quote(a, quote)),
    decreases a.len(),
{
    if a.len() == 0 {
        assert(a + b =~= b);
        assert(squashed(a, quote) + squashed(b, quote) =~= squashed(b, quote));
    } else {
        let c = a + b;
        assert(c.drop_first() =~= a.drop_first() + b);
        let next = match quote {
            Some(q) => if a[0] == q || a[0] == '\n' {
                None
            } else {
                quote
            },
            None => if a[0] == '"' || a[0] == '\'' {
                Some(a[0])
            } else {
                None
            },
        };
        lemma_squashed_parts(a.drop_first(), b, next);
        assert(squashed(c, quote) =~= squashed(a, quote) + squashed(b, open_quote(a, quote)));
    }
}

proof fn lemma_quotes_are_quotes(s: Seq<char>, quote: Option<char>)
    requires
        quote matches Some(q) ==> q == '"' || q == '\'',
    ensures
        open_quote(s, quote) matches Some(q) ==> q == '"' || q == '\'',
    decreases s.len(),
{
    if s.len() > 0 {
        lemma_quotes_are_quotes(
            s.drop_first(),
            match quote {
                Some(q) => if s[0] == q || s[0] == '\n' {
                    None
                } else {
                    quote
                },
                None => if s[0] == '"' || s[0] == '\'' {
                    Some(s[0])
                } else {
                    None
                },
            },
        );
    }
}

proof fn lemma_digits_in_quote(d: Seq<char>, b: Seq<char>, q: char)
    requires
        all_digits(d),
        q == '"' || q == '\'',
    ensures
        squashed(d + b, Some(q)) == squashed(b, Some(q)),
    decreases d.len(),
{
    if d.len() == 0 {
        assert(d + b =~= b);
    } else {
        let c = d + b;
        assert(is_digit(d[0]));
        assert(c.drop_first() =~= d.drop_first() + b);
        assert forall|i: int| 0 <= i < d.drop_first().len() implies is_digit(
            #[trigger] d.drop_first()[i],
        ) by {
            assert(is_digit(d[i + 1]));
        }
        lemma_digits_in_quote(d.drop_first(), b, q);
    }
}

proof fn lemma_digits_outside(d: Seq<char>)
    requires
        all_digits(d),
    ensures
        squashed(d, None) == d,
        open_quote(d, None) is None,
    decreases d.len(),
{
    if d.len() > 0 {
        assert(is_digit(d[0]));
        assert forall|i: int| 0 <= i < d.drop_first().len() implies is_digit(
            #[trigger] d.drop_first()[i],
        ) by {
            assert(is_digit(d[i + 1]));
        }
        lemma_digits_outside(d.drop_first());
        assert(seq![d[0]] + d.drop_first() =~= d);
    }
}

proof fn lemma_quoted_start(b: Seq<char>, q: char)
    requires
        q == '"' || q == '\'',
    ensures
        squashed(b, Some(q)).len() == 0 || !is_word_char(squashed(b, Some(q))[0]),
    decreases b.len(),
{
    if b.len() > 0 {
        if b[0] == q {
            reveal_strlit("'S");
        } else if b[0] != '\n' {
            lemma_quoted_start(b.drop_first(), q);
        }
    }
}

/// Behind a space that no quote holds, a squashed text ends with a space.
proof fn lemma_squashed_end(a: Seq<char>)
    requires
        a.len() > 0,
        is_space(a.last()),
        open_quote(a, None) is None,
    ensures
        squashed(a, None).len() > 0,
        is_space(squashed(a, None).last()),
{
    let init = a.drop_last();
    let last = seq![a.last()];
    assert(a =~= init + last);
    lemma_squashed_parts(init, last, None);
    lemma_open_parts(init, last, None);
    lemma_quotes_are_quotes(init, None);
    let q = open_quote(init, None);
    let none = Seq::<char>::empty();
    assert(last.drop_first() =~= none);
    assert(squashed(none, None) =~= none);
    assert(squashed(none, q) =~= none);
    reveal_with_fuel(squashed, 2);
    reveal_with_fuel(open_quote, 2);
    match q {
        Some(x) => {
            assert(a.last() == '\n');
            assert(squashed(last, q) =~= seq![' ']);
        },
        None => {
            assert(squashed(last, q) =~= last);
        },
    }
}

proof fn lemma_open_parts(a: Seq<char>, b: Seq<char>, quote: Option<char>)
    ensures
        open_quote(a + b, quote) == open_quote(b, open_quote(a, quote)),
    decreases a.len(),
{
    if a.len() == 0 {
        assert(a + b =~= b);
    } else {
        let c = a + b;
        assert(c.drop_first() =~= a.drop_first() + b);
        lemma_open_parts(
            a.drop_first(),
            b,
            match quote {
                Some(q) => if a[0] == q || a[0] == '\n' {
                    None
                } else {
                    quote
                },
                None => if a[0] == '"' || a[0] == '\'' {
                    Some(a[0])
                } else {
                    None
                },
            },
        );
    }
}

/// Words end at a space.
proof fn lemma_words_at_space(a: Seq<char>, t: Seq<char>, w: Seq<char>)
    requires
        a.len() > 0,
        is_space(a.last()),
    ensures
        word_texts(a + t, w) == word_texts(a, w) + word_texts(t, Seq::empty()),
    decreases a.len(),
{
    let c = a + t;
    assert(c.drop_first() =~= a.drop_first() + t);
    let rest = a.drop_first();
    if rest.len() == 0 {
        assert(a[0] == a.last());
        assert(rest + t =~= t);
        assert(word_texts(rest, Seq::empty()) =~= Seq::<Seq<char>>::empty());
        assert(word_texts(c, w) =~= word_texts(a, w) + word_texts(t, Seq::empty()));
    } else {
        assert(rest.last() == a.last());
        if is_space(a[0]) {
            lemma_words_at_space(rest, t, Seq::empty());
            assert(word_texts(c, w) =~= word_texts(a, w) + word_texts(t, Seq::empty()));
        } else {
            lemma_words_at_space(rest, t, w.push(a[0]));
        }
    }
}

/// What is no space joins the word in progress.
proof fn lemma_word_grows(d: Seq<char>, t: Seq<char>, w: Seq<char>)
    requires
        all_digits(d),
    ensures
        word_texts(d + t, w) == word_texts(t, w + d),
    decreases d.len(),
{
    if d.len() == 0 {
        assert(d + t =~= t);
        assert(w + d =~= w);
    } else {
        let c = d + t;
        assert(is_digit(d[0]));
        assert(!is_space(d[0]));
        assert(c.drop_first() =~= d.drop_first() + t);
        assert forall|i: int| 0 <= i < d.drop_first().len() implies is_digit(
            #[trigger] d.drop_first()[i],
        ) by {
            assert(is_digit(d[i + 1]));
        }
        lemma_word_grows(d.drop_first(), t, w.push(d[0]));
        assert(w.push(d[0]) + d.drop_first() =~= w + d);
    }
}

/// A word that starts with a number, up to what is no word character.
proof fn lemma_number_word(d: Seq<char>, x: Seq<char>, run: Seq<char>)
    requires
        all_digits(d),
        all_digits(run),
        d.len() + run.len() > 0,
        x.len() > 0 ==> !is_word_char(x[0]),
    ensures
        word_text(d + x, run) == seq!['N'] + word_text(x, Seq::empty()),
    decreases d.len(),
{
    if d.len() == 0 {
        assert(d + x =~= x);
        if x.len() == 0 {
            assert(word_text(x, Seq::empty()) =~= Seq::<char>::empty());
            assert(word_text(x, run) =~= seq!['N'] + word_text(x, Seq::empty()));
        } else {
            let rest = word_text(x.drop_first(), Seq::empty());
            assert(word_text(x, run) == seq!['N'] + seq![x[0]] + rest);
            assert(word_text(x, Seq::empty()) =~= seq![x[0]] + rest);
            assert(word_text(x, run) =~= seq!['N'] + word_text(x, Seq::empty()));
        }
    } else {
        let c = d + x;
        assert(is_digit(d[0]));
        assert(is_word_char(d[0]));
        assert(c.drop_first() =~= d.drop_first() + x);
        let longer = run.push(d[0]);
        assert forall|i: int| 0 <= i < d.drop_first().len() implies is_digit(
            #[trigger] d.drop_first()[i],
        ) by {
            assert(is_digit(d[i + 1]));
        }
        assert forall|i: int| 0 <= i < longer.len() implies is_digit(#[trigger] longer[i]) by {
            if i < run.len() {
                assert(is_digit(run[i]));
            }
        }
        lemma_number_word(d.drop_first(), x, longer);
    }
}

/// Two words in progress that come out alike however they go on.
spec fn alike(v: Seq<char>, w: Seq<char>) -> bool {
    v.len() > 0 && w.len() > 0 && forall|x: Seq<char>| #[trigger]
        word_text(v + x, Seq::empty()) == word_text(w + x, Seq::empty())
}

proof fn lemma_alike(t: Seq<char>, v: Seq<char>, w: Seq<char>)
    requires
        alike(v, w),
    ensures
        word_texts(t, v) == word_texts(t, w),
    decreases t.len(),
{
    let none = Seq::<char>::empty();
    assert(v + none =~= v && w + none =~= w);
    assert(word_text(v + none, Seq::empty()) == word_text(w + none, Seq::empty()));
    if t.len() > 0 && !is_space(t[0]) {
        let c = t[0];
        assert forall|x: Seq<char>| #[trigger]
            word_text(v.push(c) + x, Seq::empty()) == word_text(w.push(c) + x, Seq::empty()) by {
            let y = seq![c] + x;
            assert(v.push(c) + x =~= v + y);
            assert(w.push(c) + x =~= w + y);
            assert(word_text(v + y, Seq::empty()) == word_text(w + y, Seq::empty()));
        }
        lemma_alike(t.drop_first(), v.push(c), w.push(c));
    }
}

proof fn lemma_numbers_alike(t: Seq<char>, d: Seq<char>, e: Seq<char>)
    requires
        all_digits(d),
        all_digits(e),
        d.len() > 0,
        e.len() > 0,
        t.len() > 0 ==> !is_word_char(t[0]),
    ensures
        word_texts(t, d) == word_texts(t, e),
{
    let none = Seq::<char>::empty();
    assert(d + none =~= d && e + none =~= e);
    lemma_number_word(d, none, none);
    lemma_number_word(e, none, none);
    if t.len() > 0 && !is_space(t[0]) {
        let c = t[0];
        assert forall|x: Seq<char>| #[trigger]
            word_text(d.push(c) + x, Seq::empty()) == word_text(e.push(c) + x, Seq::empty()) by {
            let y = seq![c] + x;
            assert(d.push(c) + x =~= d + y);
            assert(e.push(c) + x =~= e + y);
            lemma_number_word(d, y, none);
            lemma_number_word(e, y, none);
        }
        lemma_alike(t.drop_first(), d.push(c), e.push(c));
    }
}

/// The number in a message does not count: two messages that differ in a number,
/// which stands at the start of a word and ends where word characters end, are
/// normalized alike, and so have one fingerprint.
pub proof fn law_numbers_do_not_split_groups(
    before: Seq<char>,
    d: Seq<char>,
    e: Seq<char>,
    after: Seq<char>,
)
    requires
        all_digits(d),
        all_digits(e),
        d.len() > 0,
        e.len() > 0,
        before.len() > 0 ==> is_space(before.last()),
        after.len() > 0 ==> !is_word_char(after[0]),
    ensures
        normalized(before + d + after) == normalized(before + e + after),
{
    let q = open_quote(before, None);
    lemma_quotes_are_quotes(before, None);
    assert(before + d + after =~= before + (d + after));
    assert(before + e + after =~= before + (e + after));
    lemma_squashed_parts(before, d + after, None);
    lemma_squashed_parts(before, e + after, None);
    match q {
        Some(x) => {
            lemma_digits_in_quote(d, after, x);
            lemma_digits_in_quote(e, after, x);
        },
        None => {
            lemma_squashed_parts(d, after, None);
            lemma_squashed_parts(e, after, None);
            lemma_digits_outside(d);
            lemma_digits_outside(e);
            let a = squashed(before, None);
            let t = squashed(after, None);
            if after.len() > 0 && (after[0] == '"' || after[0] == '\'') {
                lemma_quoted_start(after.drop_first(), after[0]);
            }
            let none = Seq::<char>::empty();
            lemma_word_grows(d, t, none);
            lemma_word_grows(e, t, none);
            assert(none + d =~= d && none + e =~= e);
            lemma_numbers_alike(t, d, e);
            if before.len() > 0 {
                lemma_squashed_end(before);
                lemma_words_at_space(a, d + t, none);
                lemma_words_at_space(a, e + t, none);
            } else {
                assert(a =~= none);
                assert(a + (d + t) =~= d + t);
                assert(a + (e + t) =~= e + t);
            }
        },
    }
}

// ---------------------------------------------------------------------
// Samples
// ---------------------------------------------------------------------
/// The samples of a group keep in step with their hashes, never get more than the
/// limit allows, and the first one stays.
pub proof fn law_samples_are_bounded_and_keep_the_first(
    samples: Seq<JsonV>,
    variants: Seq<Seq<char>>,
    sample: JsonV,
    variant: Seq<char>,
    max: int,
)
    requires
        samples.len() == variants.len(),
        samples.len() <= max,
    ensures
        ({
            let (s, v) = sampled(samples, variants, sample, variant, max);
            &&& s.len() == v.len()
            &&& s.len() <= max
            &&& samples.len() > 0 ==> s[0] == samples[0] && v[0] == variants[0]
            &&& variants.no_duplicates() ==> v.no_duplicates()
        }),
{
    let (s, v) = sampled(samples, variants, sample, variant, max);
    if variants.no_duplicates() {
        assert forall|i: int, j: int| 0 <= i < v.len() && 0 <= j < v.len() && i != j implies v[i]
            != v[j] by {
        }
    }
}

/// A trace that is known changes nothing.
pub proof fn law_known_variants_change_nothing(
    samples: Seq<JsonV>,
    variants: Seq<Seq<char>>,
    sample: JsonV,
    variant: Seq<char>,
    max: int,
)
    requires
        variants.contains(variant),
    ensures
        sampled(samples, variants, sample, variant, max) == (samples, variants),
{
}

/// The samples of a stored row; none where there is no row.
pub open spec fn row_samples(row: Option<&StoredGroup>) -> Seq<JsonV> {
    match row {
        Some(g) => stored_values(opt_text(g.samples)),
        None => Seq::empty(),
    }
}

/// The hashes of a stored row; none where there is no row.
pub open spec fn row_variants(row: Option<&StoredGroup>) -> Seq<Seq<char>> {
    match row {
        Some(g) => stored_texts(opt_text(g.variant_hashes)),
        None => Seq::empty(),
    }
}

/// Whether the samples and hashes of a row are those that were written.
pub open spec fn keeps_samples(next: StoredGroup, w: GroupWrite) -> bool {
    match w {
        GroupWrite::Insert { samples, variant_hashes, .. } => opt_text(next.samples) == Some(
            samples@,
        ) && opt_text(next.variant_hashes) == Some(variant_hashes@),
        GroupWrite::Update { samples, variant_hashes, .. } => opt_text(next.samples) == Some(
            samples@,
        ) && opt_text(next.variant_hashes) == Some(variant_hashes@),
    }
}

proof fn lemma_plain_list(items: Seq<JsonV>)
    requires
        forall|i: int| 0 <= i < items.len() ==> is_plain(#[trigger] items[i], 126),
    ensures
        is_plain(JsonV::Arr(items), 127),
{
}

proof fn lemma_plain_items(items: Seq<JsonV>, levels: nat)
    requires
        is_plain(JsonV::Arr(items), levels),
    ensures
        levels > 0,
        forall|i: int|
            0 <= i < items.len() ==> is_plain(#[trigger] items[i], (levels - 1) as nat),
{
    let v = JsonV::Arr(items);
    assert(v->Arr_0 == items);
}

proof fn lemma_strings_are_read(text: Seq<char>, v: Seq<Seq<char>>)
    requires
        lists_texts(text, v),
    ensures
        stored_texts(Some(text)) == v,
{
    let items = string_values(v);
    lemma_plain_list(items);
    assert(stored_texts(Some(text)) =~= v);
}

/// What is written of a group's samples is what the next event finds: from event to
/// event they go on as `sampled` says, and they can always be read again.
pub proof fn law_samples_span_events(
    row: Option<&StoredGroup>,
    max: usize,
    ev: GroupEvent,
    w: GroupWrite,
    t: Transition,
    next: StoredGroup,
)
    requires
        writes(w, t, row, max, ev),
        keeps_samples(next, w),
        is_plain(JsonV::Arr(row_samples(row)), 127),
    ensures
        (row_samples(Some(&next)), row_variants(Some(&next))) == sampled(
            row_samples(row),
            row_variants(row),
            ev.sample(),
            ev.variant(),
            samples_kept(max),
        ),
        is_plain(JsonV::Arr(row_samples(Some(&next))), 127),
{
    let before = row_samples(row);
    let (ss, vs) = sampled(
        before,
        row_variants(row),
        ev.sample(),
        ev.variant(),
        samples_kept(max),
    );
    lemma_plain_items(before, 127);
    assert(is_plain(ev.sample(), 126)) by {
        reveal_with_fuel(is_plain, 2);
        reveal_strlit("$serde_json::private::RawValue");
        reveal_strlit("variant_hash");
        reveal_strlit("first_seen");
        reveal_strlit("stack");
        assert(raw_mark()[0] == '$');
        assert("variant_hash"@[0] == 'v' && "first_seen"@[0] == 'f' && "stack"@[0] == 's');
    }
    assert forall|i: int| 0 <= i < ss.len() implies is_plain(#[trigger] ss[i], 126) by {
        if ss == before.push(ev.sample()) {
            if i < before.len() {
                assert(ss[i] == before[i]);
            }
        } else if ss != before {
            assert(ss == before.remove(1).push(ev.sample()));
            if i < ss.len() - 1 {
                assert(ss[i] == before[if i < 1 {
                    i
                } else {
                    i + 1
                }]);
            }
        }
    }
    lemma_plain_list(ss);
    if row is None {
        assert(ss =~= seq![ev.sample()]);
        assert(vs =~= seq![ev.variant()]);
    }
    lemma_strings_are_read(opt_text(next.variant_hashes)->0, vs);
}

/// The samples and hashes of a group after events.
pub open spec fn history(evs: Seq<GroupEvent>, max: int) -> (Seq<JsonV>, Seq<Seq<char>>)
    decreases evs.len(),
{
    if evs.len() == 0 {
        (Seq::empty(), Seq::empty())
    } else {
        let (ss, vs) = history(evs.drop_last(), max);
        sampled(ss, vs, evs.last().sample(), evs.last().variant(), max)
    }
}

/// However many events a group gets, it keeps at most so many samples, no two of one
/// trace; the first event's stays at the front, and the newest trace is among them
/// where there is room for two.
pub proof fn law_samples_over_a_history(evs: Seq<GroupEvent>, max: int)
    requires
        max >= 1,
        evs.len() > 0,
    ensures
        ({
            let (ss, vs) = history(evs, max);
            &&& 0 < ss.len() == vs.len()
            &&& ss.len() <= max
            &&& ss[0] == evs[0].sample()
            &&& vs[0] == evs[0].variant()
            &&& vs.no_duplicates()
            &&& max >= 2 ==> vs.contains(evs.last().variant())
        }),
    decreases evs.len(),
{
    let (ss, vs) = history(evs.drop_last(), max);
    let e = evs.last();
    if evs.len() > 1 {
        law_samples_over_a_history(evs.drop_last(), max);
        assert(evs.drop_last()[0] == evs[0]);
    }
    law_samples_are_bounded_and_keep_the_first(ss, vs, e.sample(), e.variant(), max);
    let (s2, v2) = history(evs, max);
    if !vs.contains(e.variant()) && max >= 2 {
        assert(v2.last() == e.variant());
        assert(v2[v2.len() - 1] == e.variant());
    }
}

/// A group's level never falls, and is never less than that of the event.
pub proof fn law_levels_never_fall(
    stored: Option<Seq<char>>,
    title: Option<Seq<char>>,
    level: Seq<char>,
)
    ensures
        ({
            let after = group_level(stored, title, level);
            &&& error_rank(after) >= error_rank(level)
            &&& stored matches Some(l) ==> error_rank(after) >= error_rank(l)
        }),
{
    reveal_strlit("fatal");
    reveal_strlit("error");
    reveal_strlit("warn");
}

} // verus!
