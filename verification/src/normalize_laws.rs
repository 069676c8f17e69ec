//! What holds of every normalized error text: its shape, and that normalizing it once more
//! changes nothing.
use vstd::prelude::*;

use crate::errors::{normalized, run_text, squashed, word_text, word_texts};
use crate::text::{all_digits, all_hex, all_word_chars, is_digit, is_space, is_word_char, join};

verus! {

/// Whether a text is made of word characters.
spec fn is_run(s: Seq<char>) -> bool {
    forall|i: int| 0 <= i < s.len() ==> is_word_char(#[trigger] s[i])
}

/// Whether a text holds no white space.
spec fn is_inked(s: Seq<char>) -> bool {
    forall|i: int| 0 <= i < s.len() ==> !is_space(#[trigger] s[i])
}

/// Whether a text holds no quote.
pub open spec fn is_unquoted(s: Seq<char>) -> bool {
    forall|i: int| 0 <= i < s.len() ==> (#[trigger] s[i]) != '"' && s[i] != '\''
}

proof fn lemma_unquoted_stays(s: Seq<char>)
    requires
        is_unquoted(s),
    ensures
        squashed(s, None) == s,
    decreases s.len(),
{
    if s.len() > 0 {
        let rest = s.drop_first();
        assert forall|i: int| 0 <= i < rest.len() implies (#[trigger] rest[i]) != '"' && rest[i]
            != '\'' by {
            assert(s[i + 1] != '"' && s[i + 1] != '\'');
        }
        lemma_unquoted_stays(rest);
        assert(s[0] != '"' && s[0] != '\'');
        assert(seq![s[0]] + rest =~= s);
    }
    assert(squashed(s, None) =~= s);
}

// ---------------------------------------------------------------------
// Words
// ---------------------------------------------------------------------
proof fn lemma_run_settled(run: Seq<char>)
    requires
        is_run(run),
    ensures
        run_text(run_text(run)) == run_text(run),
        is_run(run_text(run)),
        run_text(run).len() <= run.len(),
        run.len() > 0 ==> run_text(run).len() > 0,
{
    let t = run_text(run);
    if run.len() > 0 && t != run {
        assert(t.len() == 1 && (t[0] == 'N' || t[0] == 'H'));
        assert(!is_digit(t[0]));
        assert(!all_digits(t));
    }
}

proof fn lemma_push_run(run: Seq<char>, c: char)
    requires
        is_run(run),
        is_word_char(c),
    ensures
        is_run(run.push(c)),
{
}

proof fn lemma_word_of_run(x: Seq<char>, run: Seq<char>)
    requires
        is_run(x),
    ensures
        word_text(x, run) == run_text(run + x),
    decreases x.len(),
{
    if x.len() == 0 {
        assert(run + x =~= run);
    } else {
        let rest = x.drop_first();
        assert forall|i: int| 0 <= i < rest.len() implies is_word_char(#[trigger] rest[i]) by {
            assert(is_word_char(x[i + 1]));
        }
        assert(is_word_char(x[0]));
        lemma_word_of_run(rest, run.push(x[0]));
        assert(run.push(x[0]) + rest =~= run + x);
    }
}

proof fn lemma_word_split(a: Seq<char>, c: char, b: Seq<char>, run: Seq<char>)
    requires
        !is_word_char(c),
    ensures
        word_text(a + seq![c] + b, run) == word_text(a, run) + seq![c] + word_text(
            b,
            Seq::empty(),
        ),
    decreases a.len(),
{
    let all = a + seq![c] + b;
    let last = word_text(b, Seq::empty());
    if a.len() == 0 {
        assert(all[0] == c);
        assert(all.drop_first() =~= b);
    } else {
        let rest = a.drop_first();
        assert(all[0] == a[0]);
        assert(all.drop_first() =~= rest + seq![c] + b);
        if is_word_char(a[0]) {
            lemma_word_split(rest, c, b, run.push(a[0]));
        } else {
            lemma_word_split(rest, c, b, Seq::empty());
            let mid = word_text(rest, Seq::empty());
            assert(run_text(run) + seq![a[0]] + (mid + seq![c] + last) =~= run_text(run) + seq![
                a[0],
            ] + mid + seq![c] + last);
        }
    }
}

proof fn lemma_word_settled(w: Seq<char>, run: Seq<char>)
    requires
        is_run(run),
    ensures
        word_text(word_text(w, run), Seq::empty()) == word_text(w, run),
        word_text(w, run).len() <= w.len() + run.len(),
        w.len() + run.len() > 0 ==> word_text(w, run).len() > 0,
    decreases w.len(),
{
    let none = Seq::<char>::empty();
    lemma_run_settled(run);
    if w.len() == 0 {
        lemma_word_of_run(run_text(run), none);
        assert(none + run_text(run) =~= run_text(run));
    } else if is_word_char(w[0]) {
        lemma_push_run(run, w[0]);
        lemma_word_settled(w.drop_first(), run.push(w[0]));
    } else {
        let rest = word_text(w.drop_first(), none);
        lemma_word_settled(w.drop_first(), none);
        lemma_word_split(run_text(run), w[0], rest, none);
        lemma_word_of_run(run_text(run), none);
        assert(none + run_text(run) =~= run_text(run));
    }
}

/// No white space and no quote comes in.
proof fn lemma_word_chars(w: Seq<char>, run: Seq<char>)
    requires
        is_inked(w),
        is_run(run),
    ensures
        is_inked(word_text(w, run)),
        is_unquoted(w) ==> is_unquoted(word_text(w, run)),
    decreases w.len(),
{
    lemma_run_settled(run);
    let t = run_text(run);
    assert forall|i: int| 0 <= i < t.len() implies !is_space(#[trigger] t[i]) && t[i] != '"'
        && t[i] != '\'' by {
        assert(is_word_char(t[i]));
    }
    if w.len() > 0 {
        let rest = w.drop_first();
        assert forall|i: int| 0 <= i < rest.len() implies !is_space(#[trigger] rest[i]) by {
            assert(!is_space(w[i + 1]));
        }
        if is_unquoted(w) {
            assert forall|i: int| 0 <= i < rest.len() implies (#[trigger] rest[i]) != '"'
                && rest[i] != '\'' by {
                assert(w[i + 1] != '"' && w[i + 1] != '\'');
            }
        }
        assert(!is_space(w[0]));
        if is_word_char(w[0]) {
            lemma_push_run(run, w[0]);
            lemma_word_chars(rest, run.push(w[0]));
        } else {
            lemma_word_chars(rest, Seq::empty());
            let later = word_text(rest, Seq::empty());
            let all = word_text(w, run);
            assert forall|i: int| 0 <= i < all.len() implies !is_space(#[trigger] all[i]) by {
                if i < t.len() {
                    assert(all[i] == t[i]);
                } else if i > t.len() {
                    assert(all[i] == later[i - t.len() - 1]);
                }
            }
            if is_unquoted(w) {
                assert forall|i: int| 0 <= i < all.len() implies (#[trigger] all[i]) != '"'
                    && all[i] != '\'' by {
                    if i < t.len() {
                        assert(all[i] == t[i]);
                    } else if i > t.len() {
                        assert(all[i] == later[i - t.len() - 1]);
                    } else {
                        assert(all[i] == w[0]);
                    }
                }
            }
        }
    }
}

// ---------------------------------------------------------------------
// Texts of words
// ---------------------------------------------------------------------
/// Whether a word stays as it is.
spec fn is_settled(w: Seq<char>) -> bool {
    w.len() > 0 && is_inked(w) && word_text(w, Seq::empty()) == w
}

/// Whether every word stays as it is, and holds no quote if that is asked for.
spec fn all_settled(ws: Seq<Seq<char>>, unquoted: bool) -> bool {
    forall|i: int|
        0 <= i < ws.len() ==> is_settled(#[trigger] ws[i]) && (unquoted ==> is_unquoted(ws[i]))
}

proof fn lemma_words_settled(s: Seq<char>, word: Seq<char>, unquoted: bool)
    requires
        is_inked(word),
        unquoted ==> is_unquoted(s) && is_unquoted(word),
    ensures
        all_settled(word_texts(s, word), unquoted),
    decreases s.len(),
{
    lemma_word_settled(word, Seq::empty());
    lemma_word_chars(word, Seq::empty());
    if s.len() > 0 {
        let rest = s.drop_first();
        if unquoted {
            assert(s[0] != '"' && s[0] != '\'');
            assert forall|i: int| 0 <= i < rest.len() implies (#[trigger] rest[i]) != '"'
                && rest[i] != '\'' by {
                assert(s[i + 1] != '"' && s[i + 1] != '\'');
            }
        }
        if is_space(s[0]) {
            lemma_words_settled(rest, Seq::empty(), unquoted);
        } else {
            lemma_words_settled(rest, word.push(s[0]), unquoted);
        }
    }
}

proof fn lemma_words_split(a: Seq<char>, b: Seq<char>, word: Seq<char>)
    ensures
        word_texts(a + seq![' '] + b, word) == word_texts(a, word) + word_texts(b, Seq::empty()),
    decreases a.len(),
{
    let all = a + seq![' '] + b;
    let later = word_texts(b, Seq::empty());
    if a.len() == 0 {
        assert(all[0] == ' ');
        assert(all.drop_first() =~= b);
    } else {
        let rest = a.drop_first();
        assert(all[0] == a[0]);
        assert(all.drop_first() =~= rest + seq![' '] + b);
        if is_space(a[0]) {
            lemma_words_split(rest, b, Seq::empty());
            assert(word_texts(all, word) =~= word_texts(a, word) + later);
        } else {
            lemma_words_split(rest, b, word.push(a[0]));
        }
    }
}

proof fn lemma_one_word(w: Seq<char>, word: Seq<char>)
    requires
        is_inked(w),
        w.len() + word.len() > 0,
    ensures
        word_texts(w, word) == seq![word_text(word + w, Seq::empty())],
    decreases w.len(),
{
    if w.len() == 0 {
        assert(word + w =~= word);
    } else {
        let rest = w.drop_first();
        assert forall|i: int| 0 <= i < rest.len() implies !is_space(#[trigger] rest[i]) by {
            assert(!is_space(w[i + 1]));
        }
        assert(!is_space(w[0]));
        lemma_one_word(rest, word.push(w[0]));
        assert(word.push(w[0]) + rest =~= word + w);
    }
}

/// Whether white space stands between words only, one space at a time.
pub open spec fn is_spaced(r: Seq<char>) -> bool {
    &&& r.len() > 0 ==> !is_space(r[0]) && !is_space(r.last())
    &&& forall|i: int|
        0 <= i < r.len() && is_space(#[trigger] r[i]) ==> r[i] == ' ' && i + 1 < r.len()
            && !is_space(r[i + 1])
}

/// Settled words joined by spaces.
proof fn lemma_joined(ws: Seq<Seq<char>>, unquoted: bool)
    requires
        all_settled(ws, unquoted),
    ensures
        word_texts(join(ws, " "@), Seq::empty()) == ws,
        word_text(join(ws, " "@), Seq::empty()) == join(ws, " "@),
        unquoted ==> is_unquoted(join(ws, " "@)),
        is_spaced(join(ws, " "@)),
        ws.len() > 0 ==> join(ws, " "@).len() > 0,
    decreases ws.len(),
{
    reveal_strlit(" ");
    let sep = seq![' '];
    assert(" "@ =~= sep);
    let none = Seq::<char>::empty();
    let r = join(ws, " "@);
    if ws.len() > 0 {
        let w = ws.last();
        assert(is_settled(ws[ws.len() - 1]));
        lemma_one_word(w, none);
        assert(none + w =~= w);
        if ws.len() == 1 {
            assert(ws =~= seq![w]);
            assert(r =~= w);
        } else {
            let front = ws.drop_last();
            let a = join(front, " "@);
            assert forall|i: int| 0 <= i < front.len() implies is_settled(#[trigger] front[i]) && (
            unquoted ==> is_unquoted(front[i])) by {
                assert(is_settled(ws[i]));
            }
            lemma_joined(front, unquoted);
            assert(r =~= a + sep + w);
            lemma_words_split(a, w, none);
            lemma_word_split(a, ' ', w, none);
            assert(front + seq![w] =~= ws);
            let n = a.len() as int;
            assert forall|i: int| 0 <= i < r.len() && is_space(#[trigger] r[i]) implies r[i] == ' '
                && i + 1 < r.len() && !is_space(r[i + 1]) by {
                if i < n {
                    assert(is_space(a[i]));
                    assert(r[i + 1] == a[i + 1]);
                } else if i > n {
                    assert(r[i] == w[i - n - 1]);
                } else {
                    assert(r[i + 1] == w[0]);
                }
            }
            assert(r[0] == a[0]);
            assert(r.last() == w[w.len() - 1]);
            if unquoted {
                assert forall|i: int| 0 <= i < r.len() implies (#[trigger] r[i]) != '"' && r[i]
                    != '\'' by {
                    if i < n {
                        assert(r[i] == a[i]);
                    } else if i > n {
                        assert(r[i] == w[i - n - 1]);
                    }
                }
            }
        }
    }
}

/// Whether a longest run of word characters stands from `lo` to `hi`.
pub open spec fn run_between(r: Seq<char>, lo: int, hi: int) -> bool {
    &&& 0 <= lo < hi <= r.len()
    &&& all_word_chars(r.subrange(lo, hi))
    &&& lo == 0 || !is_word_char(r[lo - 1])
    &&& hi == r.len() || !is_word_char(r[hi])
}

/// A run that begins a text which stays as it is stays as it is.
proof fn lemma_first_run(y: Seq<char>, n: int)
    requires
        word_text(y, Seq::empty()) == y,
        run_between(y, 0, n),
    ensures
        run_text(y.subrange(0, n)) == y.subrange(0, n),
{
    let none = Seq::<char>::empty();
    let x = y.subrange(0, n);
    assert forall|i: int| 0 <= i < x.len() implies is_word_char(#[trigger] x[i]) by {}
    lemma_word_of_run(x, none);
    lemma_run_settled(x);
    assert(none + x =~= x);
    if n == y.len() {
        assert(x =~= y);
    } else {
        let tail = y.subrange(n + 1, y.len() as int);
        assert(y =~= x + seq![y[n]] + tail);
        lemma_word_split(x, y[n], tail, none);
        lemma_word_settled(tail, none);
        let later = word_text(tail, none);
        assert(run_text(x).len() == n);
        assert(run_text(x) =~= (run_text(x) + seq![y[n]] + later).subrange(0, n));
    }
}

proof fn lemma_any_run(r: Seq<char>, lo: int, hi: int)
    requires
        word_text(r, Seq::empty()) == r,
        run_between(r, lo, hi),
    ensures
        run_text(r.subrange(lo, hi)) == r.subrange(lo, hi),
{
    let none = Seq::<char>::empty();
    let y = r.subrange(lo, r.len() as int);
    assert(y.subrange(0, hi - lo) =~= r.subrange(lo, hi));
    if lo == 0 {
        assert(y =~= r);
    } else {
        let a = r.subrange(0, lo - 1);
        let c = r[lo - 1];
        assert(r =~= a + seq![c] + y);
        lemma_word_split(a, c, y, none);
        lemma_word_settled(a, none);
        lemma_word_settled(y, none);
        let b = word_text(a, none);
        let z = word_text(y, none);
        assert(b.len() == a.len() && z.len() == y.len());
        assert(z =~= (b + seq![c] + z).subrange(lo, r.len() as int));
    }
    lemma_first_run(y, hi - lo);
}

/// A normalized text has no white space at its ends and single spaces between its words,
/// and none of its runs of word characters is a number or a long hexadecimal id.
pub proof fn law_normalized_texts_hold_no_detail(s: Seq<char>, lo: int, hi: int)
    ensures
        is_spaced(normalized(s)),
        run_between(normalized(s), lo, hi) ==> !all_digits(normalized(s).subrange(lo, hi)) && !(hi
            - lo >= 8 && all_hex(normalized(s).subrange(lo, hi))),
{
    let r = normalized(s);
    let ws = word_texts(squashed(s, None), Seq::empty());
    lemma_words_settled(squashed(s, None), Seq::empty(), false);
    lemma_joined(ws, false);
    if run_between(r, lo, hi) {
        lemma_any_run(r, lo, hi);
        let x = r.subrange(lo, hi);
        if all_digits(x) {
            assert(run_text(x)[0] == 'N');
            assert(is_digit(x[0]));
        }
    }
}

/// To normalize a text without quotes once more changes nothing.
pub proof fn law_normalizing_settles(s: Seq<char>)
    requires
        is_unquoted(s),
    ensures
        normalized(normalized(s)) == normalized(s),
{
    lemma_unquoted_stays(s);
    let ws = word_texts(s, Seq::empty());
    lemma_words_settled(s, Seq::empty(), true);
    lemma_joined(ws, true);
    lemma_unquoted_stays(normalized(s));
}

} // verus!
