//! What holds of every filter text: an `AND` between two filters may be left out, and a
//! minus before a filter in parentheses selects what the filter does not.
use vstd::prelude::*;

use crate::insert::http::holds;
use crate::query::{
    ClauseV, ExprV, FilterFault, Parsed, ParsedList, TokenV, and_expr, and_rest, at_operand,
    at_word, atom, ends_in_op, filter_of, glued, negation, or_expr, or_rest, tokens_from,
    tokens_of, unary, with_word,
};
use crate::query_laws::{
    law_implicit_and, lemma_or_progress, lemma_or_rest_progress, lemma_shift_and_rest,
    lemma_shift_or, lemma_shift_or_rest, lemma_shift_unary, lemma_unary_progress, list_shifted,
    shifted,
};
use crate::text::{
    find_by, is_space, just, lemma_find_by, lemma_find_by_range, lemma_trim_bounds, lemma_trim_is,
    lower, trim,
};

verus! {

// ---------------------------------------------------------------------
// Tokens that follow
// ---------------------------------------------------------------------
/// Whether nothing follows the first `k` tokens, or a closing parenthesis does.
pub open spec fn closed_at(ts: Seq<TokenV>, k: int) -> bool {
    k == ts.len() || ts[k] is RParen
}

proof fn lemma_more_or(ts: Seq<TokenV>, k: int, p: int)
    requires
        0 <= p,
        0 <= k <= ts.len(),
    ensures
        or_expr(ts.take(k), p) matches Ok(x) ==> x.1 < k || closed_at(ts, k) ==> or_expr(ts, p)
            == or_expr(ts.take(k), p),
    decreases k - p, 5int,
{
    let a = ts.take(k);
    lemma_more_and(ts, k, p);
    if let Ok((e, q)) = and_expr(a, p) {
        if p < q <= k {
            lemma_more_or_rest(ts, k, seq![e], q);
            lemma_or_rest_progress(a, seq![e], q);
        }
    }
}

proof fn lemma_more_or_rest(ts: Seq<TokenV>, k: int, items: Seq<ExprV>, p: int)
    requires
        0 <= p <= k <= ts.len(),
    ensures
        or_rest(ts.take(k), items, p) matches Ok(x) ==> x.1 < k || closed_at(ts, k) ==> or_rest(
            ts,
            items,
            p,
        ) == or_rest(ts.take(k), items, p),
    decreases k - p, 4int,
{
    let a = ts.take(k);
    if p < k {
        assert(a[p] == ts[p]);
    }
    if at_word(a, p, "or"@) {
        lemma_more_and(ts, k, p + 1);
        if let Ok((e, q)) = and_expr(a, p + 1) {
            if p < q <= k {
                lemma_more_or_rest(ts, k, items.push(e), q);
                lemma_or_rest_progress(a, items.push(e), q);
            }
        }
    }
}

proof fn lemma_more_and(ts: Seq<TokenV>, k: int, p: int)
    requires
        0 <= p,
        0 <= k <= ts.len(),
    ensures
        and_expr(ts.take(k), p) matches Ok(x) ==> x.1 < k || closed_at(ts, k) ==> and_expr(ts, p)
            == and_expr(ts.take(k), p),
    decreases k - p, 3int,
{
    let a = ts.take(k);
    lemma_more_unary(ts, k, p);
    if let Ok((e, q)) = unary(a, p) {
        if p < q <= k {
            lemma_more_and_rest(ts, k, seq![e], q);
        }
    }
}

proof fn lemma_more_and_rest(ts: Seq<TokenV>, k: int, items: Seq<ExprV>, p: int)
    requires
        0 <= p <= k <= ts.len(),
    ensures
        and_rest(ts.take(k), items, p) matches Ok(x) ==> x.1 < k || closed_at(ts, k) ==> and_rest(
            ts,
            items,
            p,
        ) == and_rest(ts.take(k), items, p),
    decreases k - p, 2int,
{
    let a = ts.take(k);
    if p < k {
        assert(a[p] == ts[p]);
    }
    let from = if at_word(a, p, "and"@) {
        p + 1
    } else {
        p
    };
    if at_word(a, p, "and"@) || at_operand(a, p) {
        lemma_more_unary(ts, k, from);
        if let Ok((e, q)) = unary(a, from) {
            if p < q <= k {
                lemma_more_and_rest(ts, k, items.push(e), q);
            }
        }
    }
}

proof fn lemma_more_unary(ts: Seq<TokenV>, k: int, p: int)
    requires
        0 <= p,
        0 <= k <= ts.len(),
    ensures
        unary(ts.take(k), p) is Ok ==> unary(ts, p) == unary(ts.take(k), p),
    decreases k - p, 1int,
{
    let a = ts.take(k);
    if p < k {
        assert(a[p] == ts[p]);
        if a[p] == TokenV::Word("-"@) {
            lemma_more_unary(ts, k, p + 1);
        } else {
            lemma_more_atom(ts, k, p);
        }
    } else {
        assert(atom(a, p) is Err);
    }
}

proof fn lemma_more_atom(ts: Seq<TokenV>, k: int, p: int)
    requires
        0 <= p < k <= ts.len(),
    ensures
        atom(ts.take(k), p) is Ok ==> atom(ts, p) == atom(ts.take(k), p),
    decreases k - p, 0int,
{
    let a = ts.take(k);
    assert(a[p] == ts[p]);
    if a[p] is LParen {
        lemma_more_or(ts, k, p + 1);
        if let Ok((e, q)) = or_expr(a, p + 1) {
            if 0 <= q < k {
                assert(a[q] == ts[q]);
            }
        }
    }
}

// ---------------------------------------------------------------------
// An `AND` between two filters
// ---------------------------------------------------------------------
proof fn lemma_and_rest_progress(ts: Seq<TokenV>, items: Seq<ExprV>, p: int)
    requires
        p <= ts.len(),
    ensures
        and_rest(ts, items, p) matches Ok(x) ==> p <= x.1 <= ts.len(),
    decreases ts.len() - p,
{
    let from = if at_word(ts, p, "and"@) {
        p + 1
    } else {
        p
    };
    if at_word(ts, p, "and"@) || at_operand(ts, p) {
        if let Ok((e, q)) = unary(ts, from) {
            if p < q <= ts.len() {
                lemma_and_rest_progress(ts, items.push(e), q);
            }
        }
    }
}

proof fn lemma_and_progress(ts: Seq<TokenV>, p: int)
    ensures
        and_expr(ts, p) matches Ok(x) ==> p < x.1 <= ts.len(),
{
    if let Ok((e, q)) = unary(ts, p) {
        if p < q <= ts.len() {
            lemma_and_rest_progress(ts, seq![e], q);
        }
    }
}

/// Whether an `AND` stands at `k`, before an operand.
spec fn and_at(ts: Seq<TokenV>, k: int) -> bool {
    0 <= k < ts.len() && at_word(ts, k, "and"@) && at_operand(ts, k + 1)
}

proof fn lemma_without_and_rest(ts: Seq<TokenV>, k: int, items: Seq<ExprV>, p: int)
    requires
        and_at(ts, k),
        0 <= p <= k,
        and_rest(ts.take(k), items, p) matches Ok(x) && x.1 == k,
    ensures
        and_rest(ts, items, p) == list_shifted(and_rest(ts.remove(k), items, p)),
        and_rest(ts.remove(k), items, p) matches Ok(x) ==> k <= x.1,
    decreases k - p,
{
    let a = ts.take(k);
    let us = ts.remove(k);
    assert(us.take(k) == a);
    if p == k {
        law_implicit_and(ts, items, p);
        lemma_and_rest_progress(us, items, p);
    } else {
        assert(a[p] == ts[p] && a[p] == us[p]);
        let from = if at_word(a, p, "and"@) {
            p + 1
        } else {
            p
        };
        lemma_more_unary(ts, k, from);
        lemma_more_unary(us, k, from);
        if let Ok((e, q)) = unary(a, from) {
            lemma_without_and_rest(ts, k, items.push(e), q);
        }
    }
}

proof fn lemma_without_and(ts: Seq<TokenV>, k: int, p: int)
    requires
        and_at(ts, k),
        0 <= p < k,
        and_expr(ts.take(k), p) matches Ok(x) && x.1 == k,
    ensures
        and_expr(ts, p) == shifted(and_expr(ts.remove(k), p)),
        and_expr(ts.remove(k), p) matches Ok(x) ==> k <= x.1,
{
    let a = ts.take(k);
    let us = ts.remove(k);
    assert(us.take(k) == a);
    lemma_more_unary(ts, k, p);
    lemma_more_unary(us, k, p);
    if let Ok((e, q)) = unary(a, p) {
        lemma_without_and_rest(ts, k, seq![e], q);
    }
}

proof fn lemma_without_or_rest(ts: Seq<TokenV>, k: int, items: Seq<ExprV>, p: int)
    requires
        and_at(ts, k),
        0 <= p < k,
        or_rest(ts.take(k), items, p) matches Ok(x) && x.1 == k,
    ensures
        or_rest(ts, items, p) == list_shifted(or_rest(ts.remove(k), items, p)),
    decreases k - p,
{
    let a = ts.take(k);
    let us = ts.remove(k);
    assert(us.take(k) == a);
    assert(a[p] == ts[p] && a[p] == us[p]);
    lemma_and_progress(a, p + 1);
    if let Ok((e, q)) = and_expr(a, p + 1) {
        if q < k {
            lemma_or_rest_progress(a, items.push(e), q);
        }
        lemma_and_progress(us, p + 1);
        lemma_without_step(ts, k, items, p + 1, e, q);
    }
}

/// One operand of an `Or`, and what follows it.
proof fn lemma_without_step(
    ts: Seq<TokenV>,
    k: int,
    items: Seq<ExprV>,
    p: int,
    e: ExprV,
    q: int,
)
    requires
        and_at(ts, k),
        0 <= p < q <= k,
        and_expr(ts.take(k), p) == Ok::<(ExprV, int), FilterFault>((e, q)),
        or_rest(ts.take(k), items.push(e), q) matches Ok(x) && x.1 == k,
    ensures
        q < k ==> {
            &&& and_expr(ts, p) == Ok::<(ExprV, int), FilterFault>((e, q))
            &&& and_expr(ts.remove(k), p) == Ok::<(ExprV, int), FilterFault>((e, q))
            &&& or_rest(ts, items.push(e), q) == list_shifted(
                or_rest(ts.remove(k), items.push(e), q),
            )
        },
        q == k ==> {
            &&& and_expr(ts, p) == shifted(and_expr(ts.remove(k), p))
            &&& and_expr(ts.remove(k), p) matches Ok(x) ==> or_rest(ts, items.push(x.0), x.1 + 1)
                == list_shifted(or_rest(ts.remove(k), items.push(x.0), x.1))
        },
    decreases k - p, 1int,
{
    let a = ts.take(k);
    let us = ts.remove(k);
    assert(us.take(k) == a);
    if q < k {
        lemma_more_and(ts, k, p);
        lemma_more_and(us, k, p);
        lemma_without_or_rest(ts, k, items.push(e), q);
    } else {
        lemma_without_and(ts, k, p);
        lemma_and_progress(us, p);
        if let Ok((f, r)) = and_expr(us, p) {
            lemma_shift_or_rest(ts, k, items.push(f), r);
        }
    }
}

proof fn lemma_without(ts: Seq<TokenV>, k: int)
    requires
        and_at(ts, k),
        or_expr(ts.take(k), 0) matches Ok(x) && x.1 == k,
    ensures
        or_expr(ts, 0) == shifted(or_expr(ts.remove(k), 0)),
{
    let a = ts.take(k);
    lemma_and_progress(a, 0);
    lemma_and_progress(ts.remove(k), 0);
    if let Ok((e, q)) = and_expr(a, 0) {
        let none = Seq::<ExprV>::empty();
        assert(none.push(e) == seq![e]);
        lemma_or_rest_progress(a, seq![e], q);
        lemma_without_step(ts, k, none, 0, e, q);
        if let Ok((f, r)) = and_expr(ts.remove(k), 0) {
            assert(none.push(f) == seq![f]);
        }
    }
}

// ---------------------------------------------------------------------
// Two filters side by side
// ---------------------------------------------------------------------
/// The result of parsing so many tokens further on.
spec fn moved(r: Parsed, n: int) -> Parsed {
    match r {
        Ok((e, q)) => Ok((e, q + n)),
        Err(f) => Err(f),
    }
}

/// Whether a list is parsed up to a place.
spec fn ends_at(r: ParsedList, q: int) -> bool {
    r matches Ok(x) && x.1 == q
}

/// What follows other tokens is parsed alike.
proof fn lemma_after_unary(a: Seq<TokenV>, b: Seq<TokenV>, p: int)
    requires
        0 <= p < b.len(),
    ensures
        unary(a + b, a.len() + p) == moved(unary(b, p), a.len() as int),
    decreases a.len(),
{
    let ts = a + b;
    if a.len() == 0 {
        assert(ts =~= b);
    } else {
        assert(ts.remove(0) =~= a.drop_first() + b);
        lemma_shift_unary(ts, 0, a.len() + p - 1);
        lemma_after_unary(a.drop_first(), b, p);
    }
}

proof fn lemma_after_and_rest(a: Seq<TokenV>, b: Seq<TokenV>, items: Seq<ExprV>, p: int, q: int)
    requires
        0 <= p <= b.len(),
        ends_at(and_rest(b, items, p), q),
    ensures
        ends_at(and_rest(a + b, items, a.len() + p), a.len() + q),
    decreases a.len(),
{
    let ts = a + b;
    if a.len() == 0 {
        assert(ts =~= b);
    } else {
        assert(ts.remove(0) =~= a.drop_first() + b);
        lemma_shift_and_rest(ts, 0, items, a.len() + p - 1);
        lemma_after_and_rest(a.drop_first(), b, items, p, q);
    }
}

proof fn lemma_after_or_rest(a: Seq<TokenV>, b: Seq<TokenV>, items: Seq<ExprV>, p: int, q: int)
    requires
        0 <= p <= b.len(),
        ends_at(or_rest(b, items, p), q),
    ensures
        ends_at(or_rest(a + b, items, a.len() + p), a.len() + q),
    decreases a.len(),
{
    let ts = a + b;
    if a.len() == 0 {
        assert(ts =~= b);
    } else {
        assert(ts.remove(0) =~= a.drop_first() + b);
        lemma_shift_or_rest(ts, 0, items, a.len() + p - 1);
        lemma_after_or_rest(a.drop_first(), b, items, p, q);
    }
}

/// Where a list ends does not depend on what stands before it.
proof fn lemma_and_rest_end(
    ts: Seq<TokenV>,
    items: Seq<ExprV>,
    others: Seq<ExprV>,
    p: int,
    q: int,
)
    requires
        ends_at(and_rest(ts, items, p), q),
    ensures
        ends_at(and_rest(ts, others, p), q),
    decreases ts.len() - p,
{
    let from = if at_word(ts, p, "and"@) {
        p + 1
    } else {
        p
    };
    if at_word(ts, p, "and"@) || at_operand(ts, p) {
        if let Ok((e, r)) = unary(ts, from) {
            if p < r <= ts.len() {
                lemma_and_rest_end(ts, items.push(e), others.push(e), r, q);
            }
        }
    }
}

proof fn lemma_or_rest_end(
    ts: Seq<TokenV>,
    items: Seq<ExprV>,
    others: Seq<ExprV>,
    p: int,
    q: int,
)
    requires
        ends_at(or_rest(ts, items, p), q),
    ensures
        ends_at(or_rest(ts, others, p), q),
    decreases ts.len() - p,
{
    if at_word(ts, p, "or"@) {
        if let Ok((e, r)) = and_expr(ts, p + 1) {
            if p < r <= ts.len() {
                lemma_or_rest_end(ts, items.push(e), others.push(e), r, q);
            }
        }
    }
}

/// Operands that go on behind the first tokens.
proof fn lemma_goes_on(ts: Seq<TokenV>, k: int, items: Seq<ExprV>, p: int, q: int)
    requires
        0 <= p <= k < ts.len(),
        ends_at(and_rest(ts.take(k), items, p), k),
        forall|x: Seq<ExprV>| ends_at(#[trigger] and_rest(ts, x, k), q),
    ensures
        ends_at(and_rest(ts, items, p), q),
    decreases k - p,
{
    let a = ts.take(k);
    if p < k {
        assert(a[p] == ts[p]);
        let from = if at_word(a, p, "and"@) {
            p + 1
        } else {
            p
        };
        lemma_more_unary(ts, k, from);
        if let Ok((e, r)) = unary(a, from) {
            lemma_goes_on(ts, k, items.push(e), r, q);
        }
    }
}

/// The operands of the second filter's first `And` are read behind the first filter.
proof fn lemma_joined_operands(a: Seq<TokenV>, b: Seq<TokenV>, e: ExprV, q: int, x: Seq<ExprV>)
    requires
        at_operand(b, 0),
        and_expr(b, 0) == Ok::<(ExprV, int), FilterFault>((e, q)),
    ensures
        ends_at(and_rest(a + b, x, a.len() as int), a.len() + q),
{
    let ts = a + b;
    let k = a.len() as int;
    reveal_strlit("and");
    assert(ts[k] == b[0]);
    assert(at_operand(ts, k) && !at_word(ts, k, "and"@));
    lemma_after_unary(a, b, 0);
    lemma_unary_progress(b, 0);
    if let Ok((f, r)) = unary(b, 0) {
        lemma_after_and_rest(a, b, seq![f], r, q);
        lemma_and_rest_end(ts, seq![f], x.push(f), k + r, k + q);
    }
}

/// An `And` of the first filter that runs to its end goes on with the second filter's
/// first one, and what follows that is read as it was.
proof fn lemma_joined_and(a: Seq<TokenV>, b: Seq<TokenV>, p: int, items: Seq<ExprV>)
    requires
        0 <= p < a.len(),
        and_expr(a, p) matches Ok(x) && x.1 == a.len(),
        at_operand(b, 0),
        or_expr(b, 0) matches Ok(x) && x.1 == b.len(),
    ensures
        and_expr(a + b, p) matches Ok(x) && p < x.1 <= a.len() + b.len() && ends_at(
            or_rest(a + b, items.push(x.0), x.1),
            (a.len() + b.len()) as int,
        ),
{
    let ts = a + b;
    let k = a.len() as int;
    assert(ts.take(k) =~= a);
    lemma_and_progress(b, 0);
    if let Ok((e, q)) = and_expr(b, 0) {
        assert forall|x: Seq<ExprV>| ends_at(#[trigger] and_rest(ts, x, k), k + q) by {
            lemma_joined_operands(a, b, e, q, x);
        }
        lemma_more_unary(ts, k, p);
        lemma_unary_progress(a, p);
        if let Ok((f, r)) = unary(a, p) {
            lemma_goes_on(ts, k, seq![f], r, k + q);
        }
        assert(ends_at(or_rest(b, seq![e], q), b.len() as int));
        lemma_after_or_rest(a, b, seq![e], q, b.len() as int);
        if let Ok((g, s)) = and_expr(ts, p) {
            assert(s == k + q);
            lemma_or_rest_end(ts, seq![e], items.push(g), k + q, (k + b.len()) as int);
        }
    }
}

proof fn lemma_joined_or_rest(a: Seq<TokenV>, b: Seq<TokenV>, items: Seq<ExprV>, p: int)
    requires
        0 <= p < a.len(),
        ends_at(or_rest(a, items, p), a.len() as int),
        at_operand(b, 0),
        or_expr(b, 0) matches Ok(x) && x.1 == b.len(),
    ensures
        ends_at(or_rest(a + b, items, p), (a.len() + b.len()) as int),
    decreases a.len() - p,
{
    let ts = a + b;
    let k = a.len() as int;
    assert(ts.take(k) =~= a);
    assert(ts[p] == a[p]);
    lemma_and_progress(a, p + 1);
    if let Ok((e, q)) = and_expr(a, p + 1) {
        if q == k {
            lemma_joined_and(a, b, p + 1, items);
        } else {
            lemma_more_and(ts, k, p + 1);
            lemma_joined_or_rest(a, b, items.push(e), q);
        }
    }
}

/// Two filters side by side are a filter.
proof fn lemma_joined(a: Seq<TokenV>, b: Seq<TokenV>)
    requires
        or_expr(a, 0) matches Ok(x) && x.1 == a.len(),
        at_operand(b, 0),
        or_expr(b, 0) matches Ok(x) && x.1 == b.len(),
    ensures
        or_expr(a + b, 0) matches Ok(x) && x.1 == a.len() + b.len(),
{
    let ts = a + b;
    let k = a.len() as int;
    let none = Seq::<ExprV>::empty();
    assert(ts.take(k) =~= a);
    lemma_and_progress(a, 0);
    if let Ok((e, q)) = and_expr(a, 0) {
        if q == k {
            lemma_joined_and(a, b, 0, none);
            if let Ok((g, s)) = and_expr(ts, 0) {
                assert(none.push(g) =~= seq![g]);
            }
        } else {
            lemma_more_and(ts, k, 0);
            lemma_joined_or_rest(a, b, seq![e], q);
        }
    }
}

// ---------------------------------------------------------------------
// Texts within texts
// ---------------------------------------------------------------------
/// Whether a character ends a word.
pub open spec fn ends_word(c: char) -> bool {
    is_space(c) || c == '(' || c == ')'
}

/// A part of a text that has tokens of its own gives them there too, where nothing
/// goes on with its last word.
proof fn lemma_tokens_part(
    x: Seq<char>,
    p: int,
    n: int,
    i: int,
    before: Seq<TokenV>,
    out: Seq<TokenV>,
    word: Seq<char>,
)
    requires
        0 <= p,
        0 <= i <= n,
        p + n <= x.len(),
        p + n == x.len() || ends_word(x[p + n]),
        tokens_from(x.subrange(p, p + n), i, out, word) is Ok,
    ensures
        tokens_from(x, p + i, before + out, word) == tokens_from(
            x,
            p + n,
            before + tokens_from(x.subrange(p, p + n), i, out, word)->Ok_0,
            Seq::empty(),
        ),
    decreases n - i,
{
    let a = x.subrange(p, p + n);
    let w = with_word(out, word);
    let none = Seq::<char>::empty();
    assert(with_word(before + out, word) =~= before + w);
    if i == n {
        assert(with_word(before + w, none) == before + w);
    } else {
        assert(a[i] == x[p + i]);
        if is_space(a[i]) {
            lemma_tokens_part(x, p, n, i + 1, before, w, none);
        } else if a[i] == '(' {
            assert((before + w).push(TokenV::LParen) =~= before + w.push(TokenV::LParen));
            lemma_tokens_part(x, p, n, i + 1, before, w.push(TokenV::LParen), none);
        } else if a[i] == ')' {
            assert((before + w).push(TokenV::RParen) =~= before + w.push(TokenV::RParen));
            lemma_tokens_part(x, p, n, i + 1, before, w.push(TokenV::RParen), none);
        } else if a[i] == '"' {
            let rest = a.subrange(i + 1, a.len() as int);
            let full = x.subrange(p + i + 1, x.len() as int);
            let m = find_by(rest, just('"'));
            lemma_find_by_range(rest, just('"'));
            assert forall|j: int| 0 <= j < rest.len() implies #[trigger] full[j] == rest[j] by {}
            lemma_find_by(full, just('"'), m);
            assert(full.subrange(0, m) =~= rest.subrange(0, m));
            let t = TokenV::Quoted(rest.subrange(0, m));
            assert((before + w).push(t) =~= before + w.push(t));
            lemma_tokens_part(x, p, n, i + 1 + m + 1, before, w.push(t), none);
        } else {
            lemma_tokens_part(x, p, n, i + 1, before, out, word.push(a[i]));
        }
    }
}

/// White space between words gives nothing.
proof fn lemma_tokens_gap(x: Seq<char>, i: int, j: int, out: Seq<TokenV>)
    requires
        0 <= i <= j <= x.len(),
        forall|n: int| i <= n < j ==> is_space(#[trigger] x[n]),
    ensures
        tokens_from(x, i, out, Seq::empty()) == tokens_from(x, j, out, Seq::empty()),
    decreases j - i,
{
    if i < j {
        assert(is_space(x[i]));
        lemma_tokens_gap(x, i + 1, j, out);
    }
}

/// The tokens of two texts with a separator between them, which holds tokens from `u`
/// to `v` and white space around them.
proof fn lemma_tokens_joined(a: Seq<char>, sep: Seq<char>, b: Seq<char>, u: int, v: int)
    requires
        0 <= u <= v < sep.len(),
        is_space(sep[0]),
        forall|i: int| 0 <= i < u || v <= i < sep.len() ==> is_space(#[trigger] sep[i]),
        tokens_of(sep.subrange(u, v)) is Ok,
        trim(a).len() > 0,
        trim(b).len() > 0,
        tokens_of(trim(a)) is Ok,
        tokens_of(trim(b)) is Ok,
    ensures
        trim(a + sep + b).len() > 0,
        tokens_of(trim(a + sep + b)) == Ok::<Seq<TokenV>, FilterFault>(
            tokens_of(trim(a))->Ok_0 + tokens_of(sep.subrange(u, v))->Ok_0 + tokens_of(
                trim(b),
            )->Ok_0,
        ),
{
    let x = a + sep + b;
    let none = Seq::<char>::empty();
    let nothing = Seq::<TokenV>::empty();
    let (la, ha) = lemma_trim_bounds(a);
    let (lb, hb) = lemma_trim_bounds(b);
    let at_b: int = (a.len() + sep.len()) as int;
    assert forall|i: int| 0 <= i < la implies is_space(#[trigger] x[i]) by {
        assert(x[i] == a[i]);
    }
    assert forall|i: int| at_b + hb <= i < x.len() implies is_space(#[trigger] x[i]) by {
        assert(x[i] == b[i - at_b]);
    }
    assert(x[la] == a[la] && x[at_b + hb - 1] == b[hb - 1]);
    lemma_trim_is(x, la, at_b + hb);
    let t = x.subrange(la, at_b + hb);
    let ta = tokens_of(trim(a))->Ok_0;
    let tm = tokens_of(sep.subrange(u, v))->Ok_0;
    let tb = tokens_of(trim(b))->Ok_0;
    let n = ha - la;
    let c1 = a.len() - la;
    assert(t.subrange(0, n) =~= trim(a));
    assert(t[c1] == sep[0]);
    if n < c1 {
        assert(t[n] == a[ha]);
    }
    lemma_tokens_part(t, 0, n, 0, nothing, nothing, none);
    assert(nothing + nothing =~= nothing && nothing + ta =~= ta);
    assert forall|i: int| n <= i < c1 + u implies is_space(#[trigger] t[i]) by {
        if i < c1 {
            assert(t[i] == a[i + la]);
        } else {
            assert(t[i] == sep[i - c1]);
        }
    }
    lemma_tokens_gap(t, n, c1 + u, ta);
    assert(t.subrange(c1 + u, c1 + v) =~= sep.subrange(u, v));
    assert(t[c1 + v] == sep[v]);
    lemma_tokens_part(t, c1 + u, v - u, 0, ta, nothing, none);
    assert(ta + nothing =~= ta);
    let c3 = c1 + sep.len() + lb;
    assert forall|i: int| c1 + v <= i < c3 implies is_space(#[trigger] t[i]) by {
        if i < c1 + sep.len() {
            assert(t[i] == sep[i - c1]);
        } else {
            assert(t[i] == b[i - c1 - sep.len()]);
        }
    }
    lemma_tokens_gap(t, c1 + v, c3, ta + tm);
    assert(t.len() == c3 + (hb - lb));
    assert(t.subrange(c3, c3 + (hb - lb)) =~= trim(b));
    lemma_tokens_part(t, c3, hb - lb, 0, ta + tm, nothing, none);
    assert(ta + tm + nothing =~= ta + tm);
}

/// Whether a quoted string after these tokens would be glued to the last of them.
pub open spec fn awaits_value(ts: Seq<TokenV>) -> bool {
    ts.len() > 0 && ts.last() is Word && ends_in_op(ts.last()->Word_0)
}

proof fn lemma_glued_add(x: Seq<TokenV>, y: Seq<TokenV>)
    requires
        !(awaits_value(x) && y.len() > 0 && y[0] is Quoted),
    ensures
        glued(x + y) == glued(x) + glued(y),
    decreases x.len(),
{
    let all = x + y;
    if x.len() == 0 {
        assert(all =~= y);
        assert(glued(x) + glued(y) =~= glued(y));
    } else {
        assert(all[0] == x[0]);
        if x.len() > 1 {
            assert(all[1] == x[1]);
        } else if y.len() > 0 {
            assert(all[1] == y[0]);
        }
        let n: int = if x[0] is Word && ends_in_op(x[0]->Word_0) && x.len() > 1 && x[1] is Quoted {
            2
        } else {
            1
        };
        let rest = x.subrange(n, x.len() as int);
        assert(all.subrange(n, all.len() as int) =~= rest + y);
        if rest.len() > 0 {
            assert(rest.last() == x.last());
        }
        lemma_glued_add(rest, y);
        assert(glued(all) =~= glued(x) + glued(y));
    }
}

/// The last token is a word only where the text ends in that word.
proof fn lemma_last_token(s: Seq<char>, i: int, out: Seq<TokenV>, word: Seq<char>)
    requires
        0 <= i <= s.len(),
        s.len() > 0,
        !is_space(s.last()),
        word.len() > 0 ==> i > 0 && word.last() == s[i - 1],
        word.len() == 0 && i > 0 ==> is_space(s[i - 1]) || out.len() > 0 && !(out.last() is Word),
    ensures
        tokens_from(s, i, out, word) matches Ok(ts) ==> ts.len() > 0 && (ts.last() is Word
            ==> ts.last()->Word_0.len() > 0 && ts.last()->Word_0.last() == s.last()),
    decreases s.len() - i,
{
    let none = Seq::<char>::empty();
    let w = with_word(out, word);
    if i < s.len() {
        if is_space(s[i]) {
            lemma_last_token(s, i + 1, w, none);
        } else if s[i] == '(' {
            lemma_last_token(s, i + 1, w.push(TokenV::LParen), none);
        } else if s[i] == ')' {
            lemma_last_token(s, i + 1, w.push(TokenV::RParen), none);
        } else if s[i] == '"' {
            let rest = s.subrange(i + 1, s.len() as int);
            let m = find_by(rest, just('"'));
            lemma_find_by_range(rest, just('"'));
            if m < rest.len() {
                lemma_last_token(
                    s,
                    i + 1 + m + 1,
                    w.push(TokenV::Quoted(rest.subrange(0, m))),
                    none,
                );
            }
        } else {
            lemma_last_token(s, i + 1, out, word.push(s[i]));
        }
    }
}

/// The first token stays.
proof fn lemma_first_token(s: Seq<char>, i: int, out: Seq<TokenV>, word: Seq<char>)
    ensures
        tokens_from(s, i, out, word) matches Ok(ts) ==> (with_word(out, word).len() > 0
            ==> ts.len() > 0) && (out.len() > 0 ==> ts[0] == out[0]) && (out.len() == 0
            && word.len() > 0 ==> ts[0] is Word),
    decreases s.len() - i,
{
    let none = Seq::<char>::empty();
    let w = with_word(out, word);
    if 0 <= i < s.len() {
        if is_space(s[i]) {
            lemma_first_token(s, i + 1, w, none);
        } else if s[i] == '(' {
            lemma_first_token(s, i + 1, w.push(TokenV::LParen), none);
        } else if s[i] == ')' {
            lemma_first_token(s, i + 1, w.push(TokenV::RParen), none);
        } else if s[i] == '"' {
            let rest = s.subrange(i + 1, s.len() as int);
            let m = find_by(rest, just('"'));
            if 0 <= m < rest.len() {
                lemma_first_token(
                    s,
                    i + 1 + m + 1,
                    w.push(TokenV::Quoted(rest.subrange(0, m))),
                    none,
                );
            }
        } else {
            lemma_first_token(s, i + 1, out, word.push(s[i]));
        }
    }
}

/// A text begins with a quoted string only where it begins with a quote.
proof fn lemma_quote_first(s: Seq<char>)
    requires
        s.len() > 0,
        !is_space(s[0]),
        s[0] != '"',
        tokens_of(s) is Ok,
    ensures
        tokens_of(s)->Ok_0.len() > 0,
        !(tokens_of(s)->Ok_0[0] is Quoted),
{
    let none = Seq::<char>::empty();
    let nothing = Seq::<TokenV>::empty();
    if s[0] == '(' {
        lemma_first_token(s, 1, nothing.push(TokenV::LParen), none);
    } else if s[0] == ')' {
        lemma_first_token(s, 1, nothing.push(TokenV::RParen), none);
    } else {
        lemma_first_token(s, 1, nothing, none.push(s[0]));
    }
}

/// A connector is one word.
proof fn lemma_connector(word: Seq<char>)
    requires
        word == "AND"@ || word == "and"@,
    ensures
        word.len() == 3,
        lower(word) == "and"@,
        !ends_in_op(word),
        tokens_of(word) == Ok::<Seq<TokenV>, FilterFault>(seq![TokenV::Word(word)]),
        tokens_of(Seq::<char>::empty()) == Ok::<Seq<TokenV>, FilterFault>(Seq::empty()),
{
    reveal_strlit("and");
    reveal_strlit("AND");
    let t = TokenV::Word(word);
    assert(lower(word) =~= "and"@);
    reveal_with_fuel(tokens_from, 5);
    assert(Seq::<char>::empty().push(word[0]).push(word[1]).push(word[2]) =~= word);
    assert(Seq::<TokenV>::empty().push(t) =~= seq![t]);
}

/// A filter that can be parsed begins with an operand.
proof fn lemma_begins_with_operand(ts: Seq<TokenV>)
    requires
        or_expr(ts, 0) is Ok,
    ensures
        at_operand(ts, 0),
{
    reveal_strlit("-");
    reveal_strlit("or");
    reveal_strlit("and");
    lemma_or_progress(ts, 0);
    assert(unary(ts, 0) is Ok);
    if ts[0] == TokenV::Word("-"@) {
        assert(lower("-"@).len() == 1);
    } else {
        assert(atom(ts, 0) is Ok);
    }
}

/// The tokens of two filters side by side, glued.
proof fn lemma_glued_joined(ta: Seq<TokenV>, tb: Seq<TokenV>, word: Seq<char>)
    requires
        !(awaits_value(ta) && tb.len() > 0 && tb[0] is Quoted),
        !ends_in_op(word),
    ensures
        glued(ta + tb) == glued(ta) + glued(tb),
        glued(ta + seq![TokenV::Word(word)] + tb) == glued(ta) + (seq![TokenV::Word(word)]
            + glued(tb)),
{
    let t = seq![TokenV::Word(word)];
    lemma_glued_add(ta, tb);
    assert(ta + t + tb =~= ta + (t + tb));
    assert((t + tb)[0] == t[0]);
    lemma_glued_add(ta, t + tb);
    lemma_glued_add(t, tb);
    assert(t.subrange(1, 1) =~= Seq::<TokenV>::empty());
    assert(glued(t.subrange(1, 1)) =~= Seq::<TokenV>::empty());
    assert(glued(t) =~= t);
}

/// The tokens of two filters with a connector between them, and without it.
proof fn lemma_joined_tokens(a: Seq<char>, b: Seq<char>, word: Seq<char>)
    requires
        word == "AND"@ || word == "and"@,
        trim(a).len() > 0,
        trim(b).len() > 0,
        tokens_of(trim(a)) is Ok,
        tokens_of(trim(b)) is Ok,
    ensures
        trim(a + (" "@ + word + " "@) + b).len() > 0,
        trim(a + " "@ + b).len() > 0,
        tokens_of(trim(a + (" "@ + word + " "@) + b)) == Ok::<Seq<TokenV>, FilterFault>(
            tokens_of(trim(a))->Ok_0 + seq![TokenV::Word(word)] + tokens_of(trim(b))->Ok_0,
        ),
        tokens_of(trim(a + " "@ + b)) == Ok::<Seq<TokenV>, FilterFault>(
            tokens_of(trim(a))->Ok_0 + tokens_of(trim(b))->Ok_0,
        ),
{
    reveal_strlit(" ");
    lemma_connector(word);
    let sep = " "@ + word + " "@;
    assert(sep.subrange(1, 4) =~= word);
    lemma_tokens_joined(a, sep, b, 1, 4);
    assert(" "@.subrange(0, 0) =~= Seq::<char>::empty());
    lemma_tokens_joined(a, " "@, b, 0, 0);
    let ta = tokens_of(trim(a))->Ok_0;
    assert(ta + Seq::<TokenV>::empty() =~= ta);
}

/// No quoted string follows an operator where two texts meet.
proof fn lemma_no_value_follows(a: Seq<char>, b: Seq<char>)
    requires
        trim(a).len() > 0,
        trim(b).len() > 0,
        tokens_of(trim(a)) is Ok,
        tokens_of(trim(b)) is Ok,
        !(ends_in_op(trim(a)) && trim(b)[0] == '"'),
    ensures
        !(awaits_value(tokens_of(trim(a))->Ok_0) && tokens_of(trim(b))->Ok_0.len() > 0
            && tokens_of(trim(b))->Ok_0[0] is Quoted),
{
    let (la, ha) = lemma_trim_bounds(a);
    let (lb, hb) = lemma_trim_bounds(b);
    lemma_last_token(trim(a), 0, Seq::empty(), Seq::empty());
    if trim(b)[0] != '"' {
        lemma_quote_first(trim(b));
    }
}

/// What is asked for by two filters does not depend on a connector between them.
proof fn lemma_joined_filters(a: Seq<char>, b: Seq<char>, word: Seq<char>)
    requires
        filter_of(a) matches Ok(Some(_)),
        filter_of(b) matches Ok(Some(_)),
        !(ends_in_op(trim(a)) && trim(b)[0] == '"'),
        word == "AND"@ || word == "and"@,
    ensures
        filter_of(a + (" "@ + word + " "@) + b) == filter_of(a + " "@ + b),
        filter_of(a + " "@ + b) matches Ok(Some(_)),
{
    let ga = glued(tokens_of(trim(a))->Ok_0);
    let gb = glued(tokens_of(trim(b))->Ok_0);
    lemma_connector(word);
    lemma_joined_tokens(a, b, word);
    lemma_no_value_follows(a, b);
    lemma_glued_joined(tokens_of(trim(a))->Ok_0, tokens_of(trim(b))->Ok_0, word);
    lemma_with_connector(ga, gb, word);
    lemma_joined(ga, gb);
}

proof fn lemma_with_connector(ga: Seq<TokenV>, gb: Seq<TokenV>, word: Seq<char>)
    requires
        lower(word) == "and"@,
        or_expr(ga, 0) matches Ok(x) && x.1 == ga.len(),
        or_expr(gb, 0) is Ok,
    ensures
        or_expr(ga + (seq![TokenV::Word(word)] + gb), 0) == shifted(or_expr(ga + gb, 0)),
        at_operand(gb, 0),
{
    let ts = ga + (seq![TokenV::Word(word)] + gb);
    let k: int = ga.len() as int;
    assert(ts.take(k) =~= ga);
    assert(ts.remove(k) =~= ga + gb);
    lemma_begins_with_operand(gb);
    assert(ts[k] == TokenV::Word(word));
    assert(ts[k + 1] == gb[0]);
    lemma_without(ts, k);
}

/// Two filters one after the other are a filter, and an `AND` between them may be written
/// in either case or left out. A quoted string after an operator is its value, so the
/// second filter does not begin with one where the first ends in an operator.
pub proof fn law_and_may_be_left_out(a: Seq<char>, b: Seq<char>)
    requires
        filter_of(a) matches Ok(Some(_)),
        filter_of(b) matches Ok(Some(_)),
        !(ends_in_op(trim(a)) && trim(b)[0] == '"'),
    ensures
        filter_of(a + " AND "@ + b) == filter_of(a + " "@ + b),
        filter_of(a + " and "@ + b) == filter_of(a + " "@ + b),
        filter_of(a + " "@ + b) matches Ok(Some(_)),
        filter_of(a + " AND "@ + b) matches Ok(Some(_)),
        filter_of(a + " and "@ + b) matches Ok(Some(_)),
{
    reveal_strlit(" ");
    reveal_strlit("and");
    reveal_strlit("AND");
    reveal_strlit(" and ");
    reveal_strlit(" AND ");
    assert(" AND "@ =~= " "@ + "AND"@ + " "@);
    assert(" and "@ =~= " "@ + "and"@ + " "@);
    lemma_joined_filters(a, b, "AND"@);
    lemma_joined_filters(a, b, "and"@);
}

// ---------------------------------------------------------------------
// What a filter selects
// ---------------------------------------------------------------------
/// A clause without its minus.
pub open spec fn positive(c: ClauseV) -> ClauseV {
    match c {
        ClauseV::Comparison { key, op, value, .. } => ClauseV::Comparison {
            key,
            op,
            value,
            negated: false,
        },
        ClauseV::TextSearch { text, .. } => ClauseV::TextSearch { text, negated: false },
    }
}

/// Whether a clause has a minus.
pub open spec fn is_negated(c: ClauseV) -> bool {
    match c {
        ClauseV::Comparison { negated, .. } => negated,
        ClauseV::TextSearch { negated, .. } => negated,
    }
}

/// Whether an expression selects a row of which `holds` says which clauses hold.
pub open spec fn selects(e: ExprV, holds: spec_fn(ClauseV) -> bool) -> bool
    decreases e,
{
    match e {
        ExprV::Term(c) => holds(positive(c)) != is_negated(c),
        ExprV::Not(inner) => !selects(*inner, holds),
        ExprV::And(items) => forall|i: int|
            0 <= i < items.len() ==> selects(#[trigger] items[i], holds),
        ExprV::Or(items) => exists|i: int|
            0 <= i < items.len() && selects(#[trigger] items[i], holds),
    }
}

/// The tokens of a text behind a minus and in parentheses.
proof fn lemma_tokens_negated(s: Seq<char>)
    requires
        trim(s).len() > 0,
        tokens_of(trim(s)) is Ok,
    ensures
        trim("-("@ + s + ")"@) == "-("@ + s + ")"@,
        tokens_of("-("@ + s + ")"@) == Ok::<Seq<TokenV>, FilterFault>(
            seq![TokenV::Word("-"@), TokenV::LParen] + tokens_of(trim(s))->Ok_0
                + seq![TokenV::RParen],
        ),
{
    reveal_strlit("-(");
    reveal_strlit("-");
    reveal_strlit(")");
    let x = "-("@ + s + ")"@;
    let none = Seq::<char>::empty();
    let nothing = Seq::<TokenV>::empty();
    let end = x.len() - 1;
    assert(x[0] == '-' && x[1] == '(' && x[end] == ')');
    lemma_trim_is(x, 0, x.len() as int);
    assert(x.subrange(0, x.len() as int) =~= x);
    let (lo, hi) = lemma_trim_bounds(s);
    let open = seq![TokenV::Word("-"@), TokenV::LParen];
    let ts = tokens_of(trim(s))->Ok_0;
    assert(tokens_of(x) == tokens_from(x, 2, open, none)) by {
        reveal_with_fuel(tokens_from, 3);
        assert(none.push('-') =~= "-"@);
        assert(nothing.push(TokenV::Word("-"@)).push(TokenV::LParen) =~= open);
    }
    assert forall|i: int| 2 <= i < 2 + lo implies is_space(#[trigger] x[i]) by {
        assert(x[i] == s[i - 2]);
    }
    lemma_tokens_gap(x, 2, 2 + lo, open);
    assert(x.subrange(2 + lo, 2 + hi) =~= trim(s));
    if hi < s.len() {
        assert(x[2 + hi] == s[hi]);
    }
    lemma_tokens_part(x, 2 + lo, hi - lo, 0, open, nothing, none);
    assert(open + nothing =~= open);
    assert forall|i: int| 2 + hi <= i < end implies is_space(#[trigger] x[i]) by {
        assert(x[i] == s[i - 2]);
    }
    lemma_tokens_gap(x, 2 + hi, end, open + ts);
    let all = (open + ts).push(TokenV::RParen);
    assert(tokens_from(x, end, open + ts, none) == tokens_from(x, end + 1, all, none));
    assert(all =~= open + ts + seq![TokenV::RParen]);
}

/// The glued tokens of a filter behind a minus and in parentheses.
proof fn lemma_glued_negated(raw: Seq<TokenV>)
    ensures
        glued(seq![TokenV::Word("-"@), TokenV::LParen] + raw + seq![TokenV::RParen]) == seq![
            TokenV::Word("-"@),
            TokenV::LParen,
        ] + (glued(raw) + seq![TokenV::RParen]),
{
    reveal_strlit("-");
    let open = seq![TokenV::Word("-"@), TokenV::LParen];
    let close = seq![TokenV::RParen];
    let nothing = Seq::<TokenV>::empty();
    lemma_glued_add(raw, close);
    assert(open + raw + close =~= open + (raw + close));
    lemma_glued_add(open, raw + close);
    let tail = open.subrange(1, 2);
    assert(tail.subrange(1, 1) =~= nothing);
    assert(glued(tail.subrange(1, 1)) =~= nothing);
    assert(glued(tail) =~= tail);
    assert(glued(open) =~= open);
    assert(close.subrange(1, 1) =~= nothing);
    assert(glued(close.subrange(1, 1)) =~= nothing);
    assert(glued(close) =~= close);
}

/// A minus before the last operand.
proof fn lemma_parse_minus(all: Seq<TokenV>, e: ExprV)
    requires
        all.len() > 2,
        all[0] == TokenV::Word("-"@),
        all[1] is LParen,
        all.last() is RParen,
        or_expr(all, 2) == Ok::<(ExprV, int), FilterFault>((e, all.len() - 1)),
    ensures
        unary(all, 0) == Ok::<(ExprV, int), FilterFault>((negation(e), all.len() as int)),
{
    assert(all[all.len() - 1] is RParen);
    assert(atom(all, 1) == Ok::<(ExprV, int), FilterFault>((e, all.len() as int)));
    assert(unary(all, 1) == atom(all, 1));
}

/// An operand that is all there is.
pub(crate) proof fn lemma_parse_only(all: Seq<TokenV>, e: ExprV)
    requires
        all.len() > 0,
        unary(all, 0) == Ok::<(ExprV, int), FilterFault>((e, all.len() as int)),
    ensures
        or_expr(all, 0) == Ok::<(ExprV, int), FilterFault>((e, all.len() as int)),
{
    let n = all.len() as int;
    let items = seq![e];
    assert(and_rest(all, items, n) == Ok::<(Seq<ExprV>, int), FilterFault>((items, n)));
    assert(and_expr(all, 0) == Ok::<(ExprV, int), FilterFault>((e, n)));
    assert(or_rest(all, items, n) == Ok::<(Seq<ExprV>, int), FilterFault>((items, n)));
}

/// The tree of a filter behind a minus and in parentheses.
proof fn lemma_parse_negated(ts: Seq<TokenV>, all: Seq<TokenV>, e: ExprV)
    requires
        or_expr(ts, 0) == Ok::<(ExprV, int), FilterFault>((e, ts.len() as int)),
        all == seq![TokenV::Word("-"@), TokenV::LParen] + (ts + seq![TokenV::RParen]),
    ensures
        or_expr(all, 0) == Ok::<(ExprV, int), FilterFault>((negation(e), all.len() as int)),
{
    let inner = ts + seq![TokenV::RParen];
    let one = all.remove(0);
    let k = ts.len() as int;
    assert(one.remove(0) =~= inner);
    assert(inner.take(k) =~= ts);
    assert(or_expr(all, 2) == Ok::<(ExprV, int), FilterFault>((e, all.len() - 1))) by {
        lemma_more_or(inner, k, 0);
        lemma_shift_or(one, 0, 0);
        lemma_shift_or(all, 0, 1);
    }
    lemma_parse_minus(all, e);
    lemma_parse_only(all, negation(e));
}

/// The negation of an expression selects what the expression does not.
pub proof fn law_negation_selects_the_rest(e: ExprV, holds: spec_fn(ClauseV) -> bool)
    ensures
        selects(negation(e), holds) == !selects(e, holds),
{
    match e {
        ExprV::Term(c) => {
            assert(negation(e) is Term);
        },
        _ => {
            assert(negation(e) == ExprV::Not(Box::new(e)));
        },
    }
}

/// A minus before a filter in parentheses gives a filter that selects exactly the rows
/// that the filter does not select.
pub proof fn law_minus_selects_the_rest(s: Seq<char>, holds: spec_fn(ClauseV) -> bool)
    requires
        filter_of(s) matches Ok(Some(_)),
    ensures
        filter_of("-("@ + s + ")"@) == Ok::<Option<ExprV>, FilterFault>(
            Some(negation(filter_of(s)->Ok_0->0)),
        ),
        selects(filter_of("-("@ + s + ")"@)->Ok_0->0, holds) == !selects(
            filter_of(s)->Ok_0->0,
            holds,
        ),
{
    let e = filter_of(s)->Ok_0->0;
    let raw = tokens_of(trim(s))->Ok_0;
    lemma_tokens_negated(s);
    lemma_glued_negated(raw);
    let open = seq![TokenV::Word("-"@), TokenV::LParen];
    lemma_parse_negated(glued(raw), open + (glued(raw) + seq![TokenV::RParen]), e);
    law_negation_selects_the_rest(e, holds);
    let x = "-("@ + s + ")"@;
    reveal_strlit(")");
    assert(x.len() > 0);
    assert(trim(x).len() > 0);
}

// ---------------------------------------------------------------------
// Groups side by side
// ---------------------------------------------------------------------
proof fn lemma_after_or(a: Seq<TokenV>, b: Seq<TokenV>)
    requires
        b.len() > 0,
    ensures
        or_expr(a + b, a.len() as int) == moved(or_expr(b, 0), a.len() as int),
    decreases a.len(),
{
    let ts = a + b;
    if a.len() == 0 {
        assert(ts =~= b);
    } else {
        assert(ts.remove(0) =~= a.drop_first() + b);
        lemma_shift_or(ts, 0, a.len() - 1);
        lemma_after_or(a.drop_first(), b);
    }
}

/// A group in parentheses is read as the filter that it holds.
proof fn lemma_group_at(pre: Seq<TokenV>, g: Seq<TokenV>, more: Seq<TokenV>, e: ExprV)
    requires
        or_expr(g, 0) == Ok::<(ExprV, int), FilterFault>((e, g.len() as int)),
    ensures
        unary(
            pre + seq![TokenV::LParen] + (g + seq![TokenV::RParen] + more),
            pre.len() as int,
        ) == Ok::<(ExprV, int), FilterFault>((e, (pre.len() + g.len() + 2) as int)),
{
    let inner = g + seq![TokenV::RParen] + more;
    let head = pre + seq![TokenV::LParen];
    let ts = head + inner;
    let k = g.len() as int;
    let p = pre.len() as int;
    assert(inner.take(k) =~= g);
    assert(inner[k] == TokenV::RParen);
    lemma_more_or(inner, k, 0);
    lemma_after_or(head, inner);
    assert(ts[p] == TokenV::LParen);
    assert(ts[p + 1 + k] == inner[k]);
    assert(atom(ts, p) == Ok::<(ExprV, int), FilterFault>((e, p + k + 2)));
    assert(unary(ts, p) == atom(ts, p));
}

/// The tokens of a group within a text.
proof fn lemma_tokens_group(x: Seq<char>, p: int, s: Seq<char>, out: Seq<TokenV>)
    requires
        0 <= p,
        p + s.len() + 2 <= x.len(),
        x[p] == '(',
        x.subrange(p + 1, p + 1 + s.len()) == s,
        x[p + 1 + s.len()] == ')',
        trim(s).len() > 0,
        tokens_of(trim(s)) is Ok,
    ensures
        tokens_from(x, p, out, Seq::empty()) == tokens_from(
            x,
            p + s.len() + 2,
            out + (seq![TokenV::LParen] + tokens_of(trim(s))->Ok_0 + seq![TokenV::RParen]),
            Seq::empty(),
        ),
{
    let none = Seq::<char>::empty();
    let nothing = Seq::<TokenV>::empty();
    let (lo, hi) = lemma_trim_bounds(s);
    let ts = tokens_of(trim(s))->Ok_0;
    let open = out.push(TokenV::LParen);
    let q = p + 1;
    let end = q + s.len();
    assert forall|i: int| 0 <= i < s.len() implies x[q + i] == #[trigger] s[i] by {
        assert(x.subrange(q, q + s.len())[i] == x[q + i]);
    }
    assert(tokens_from(x, p, out, none) == tokens_from(x, q, open, none));
    assert forall|i: int| q <= i < q + lo implies is_space(#[trigger] x[i]) by {
        assert(x[q + (i - q)] == s[i - q]);
    }
    lemma_tokens_gap(x, q, q + lo, open);
    assert(x.subrange(q + lo, q + hi) =~= trim(s)) by {
        assert forall|j: int| 0 <= j < hi - lo implies x.subrange(q + lo, q + hi)[j] == trim(s)[j] by {
            assert(x[q + (lo + j)] == s[lo + j]);
        }
    }
    if hi < s.len() {
        assert(x[q + hi] == s[hi]);
        assert(is_space(s[hi]));
    }
    lemma_tokens_part(x, q + lo, hi - lo, 0, open, nothing, none);
    assert(open + nothing =~= open);
    assert forall|i: int| q + hi <= i < end implies is_space(#[trigger] x[i]) by {
        assert(x[q + (i - q)] == s[i - q]);
    }
    lemma_tokens_gap(x, q + hi, end, open + ts);
    let all = (open + ts).push(TokenV::RParen);
    assert(tokens_from(x, end, open + ts, none) == tokens_from(x, end + 1, all, none));
    assert(all =~= out + (seq![TokenV::LParen] + ts + seq![TokenV::RParen]));
}

/// The tokens of a word between blanks.
proof fn lemma_tokens_blank_word(x: Seq<char>, p: int, word: Seq<char>, out: Seq<TokenV>)
    requires
        0 <= p,
        word.len() == 2 || word.len() == 3,
        p + word.len() + 2 <= x.len(),
        x[p] == ' ',
        x.subrange(p + 1, p + 1 + word.len()) == word,
        x[p + 1 + word.len()] == ' ',
        tokens_of(word) == Ok::<Seq<TokenV>, FilterFault>(seq![TokenV::Word(word)]),
    ensures
        tokens_from(x, p, out, Seq::empty()) == tokens_from(
            x,
            p + word.len() + 2,
            out.push(TokenV::Word(word)),
            Seq::empty(),
        ),
{
    let none = Seq::<char>::empty();
    let nothing = Seq::<TokenV>::empty();
    let n = word.len() as int;
    lemma_tokens_gap(x, p, p + 1, out);
    lemma_tokens_part(x, p + 1, n, 0, out, nothing, none);
    assert(out + nothing =~= out);
    assert(out + seq![TokenV::Word(word)] =~= out.push(TokenV::Word(word)));
    lemma_tokens_gap(x, p + 1 + n, p + 2 + n, out.push(TokenV::Word(word)));
}

/// The tree of two groups with a connector between them.
proof fn lemma_parse_groups(
    ga: Seq<TokenV>,
    gb: Seq<TokenV>,
    ea: ExprV,
    eb: ExprV,
    word: Seq<char>,
    ts: Seq<TokenV>,
)
    requires
        or_expr(ga, 0) == Ok::<(ExprV, int), FilterFault>((ea, ga.len() as int)),
        or_expr(gb, 0) == Ok::<(ExprV, int), FilterFault>((eb, gb.len() as int)),
        ts == seq![TokenV::LParen] + (ga + seq![TokenV::RParen] + (seq![TokenV::Word(word)] + (seq![
            TokenV::LParen,
        ] + (gb + seq![TokenV::RParen])))),
        lower(word) == "or"@ || lower(word) == "and"@,
    ensures
        lower(word) == "or"@ ==> or_expr(ts, 0) == Ok::<(ExprV, int), FilterFault>(
            (ExprV::Or(seq![ea, eb]), ts.len() as int),
        ),
        lower(word) == "and"@ ==> or_expr(ts, 0) == Ok::<(ExprV, int), FilterFault>(
            (ExprV::And(seq![ea, eb]), ts.len() as int),
        ),
{
    reveal_strlit("or");
    reveal_strlit("and");
    assert("or"@.len() == 2 && "and"@.len() == 3);
    let nothing = Seq::<TokenV>::empty();
    let w = TokenV::Word(word);
    let tail = seq![w] + (seq![TokenV::LParen] + (gb + seq![TokenV::RParen]));
    let n = ts.len() as int;
    let q = ga.len() as int + 2;
    lemma_group_at(nothing, ga, tail, ea);
    assert(nothing + seq![TokenV::LParen] + (ga + seq![TokenV::RParen] + tail) =~= ts);
    let pre = seq![TokenV::LParen] + (ga + seq![TokenV::RParen] + seq![w]);
    lemma_group_at(pre, gb, nothing, eb);
    assert(pre + seq![TokenV::LParen] + (gb + seq![TokenV::RParen] + nothing) =~= ts);
    assert(pre.len() == q + 1);
    assert(n == q + 1 + gb.len() + 2);
    assert(unary(ts, 0) == Ok::<(ExprV, int), FilterFault>((ea, q)));
    assert(unary(ts, q + 1) == Ok::<(ExprV, int), FilterFault>((eb, n)));
    assert(ts[q] == w);
    let one = seq![ea];
    let two = one.push(eb);
    assert(two =~= seq![ea, eb]);
    assert(and_rest(ts, two, n) == Ok::<(Seq<ExprV>, int), FilterFault>((two, n)));
    assert(and_rest(ts, seq![eb], n) == Ok::<(Seq<ExprV>, int), FilterFault>((seq![eb], n)));
    assert(or_rest(ts, two, n) == Ok::<(Seq<ExprV>, int), FilterFault>((two, n)));
    assert(or_rest(ts, seq![ExprV::And(two)], n) == Ok::<(Seq<ExprV>, int), FilterFault>(
        (seq![ExprV::And(two)], n),
    ));
    if lower(word) == "or"@ {
        assert(and_rest(ts, one, q) == Ok::<(Seq<ExprV>, int), FilterFault>((one, q)));
        assert(and_expr(ts, 0) == Ok::<(ExprV, int), FilterFault>((ea, q)));
        assert(and_expr(ts, q + 1) == Ok::<(ExprV, int), FilterFault>((eb, n)));
        assert(or_rest(ts, one, q) == or_rest(ts, two, n));
    } else {
        assert(and_rest(ts, one, q) == and_rest(ts, two, n));
        assert(and_expr(ts, 0) == Ok::<(ExprV, int), FilterFault>((ExprV::And(two), n)));
    }
}

/// The glued tokens of two groups.
proof fn lemma_glued_groups(ta: Seq<TokenV>, tb: Seq<TokenV>, word: Seq<char>)
    requires
        !ends_in_op(word),
    ensures
        ({
            let l = seq![TokenV::LParen];
            let r = seq![TokenV::RParen];
            let w = seq![TokenV::Word(word)];
            glued((l + ta + r).push(TokenV::Word(word)) + (l + tb + r)) == l + (glued(ta) + r + (w
                + (l + (glued(tb) + r))))
        }),
{
    let l = seq![TokenV::LParen];
    let r = seq![TokenV::RParen];
    let w = seq![TokenV::Word(word)];
    let none = Seq::<TokenV>::empty();
    assert(glued(l.subrange(1, 1)) =~= none);
    assert(glued(r.subrange(1, 1)) =~= none);
    assert(glued(w.subrange(1, 1)) =~= none);
    assert(glued(l) =~= l);
    assert(glued(r) =~= r);
    assert(glued(w) =~= w);
    lemma_glued_add(tb, r);
    lemma_glued_add(l, tb + r);
    lemma_glued_add(w, l + (tb + r));
    lemma_glued_add(r, w + (l + (tb + r)));
    lemma_glued_add(ta, r + (w + (l + (tb + r))));
    lemma_glued_add(l, ta + (r + (w + (l + (tb + r)))));
    let all = (l + ta + r).push(TokenV::Word(word)) + (l + tb + r);
    assert(all =~= l + (ta + (r + (w + (l + (tb + r))))));
    assert(glued(all) =~= l + (glued(ta) + r + (w + (l + (glued(tb) + r)))));
}

proof fn lemma_group_words(word: Seq<char>)
    requires
        word == "AND"@ || word == "OR"@,
    ensures
        word == "AND"@ ==> lower(word) == "and"@ && word.len() == 3,
        word == "OR"@ ==> lower(word) == "or"@ && word.len() == 2,
        !ends_in_op(word),
        tokens_of(word) == Ok::<Seq<TokenV>, FilterFault>(seq![TokenV::Word(word)]),
{
    reveal_strlit("AND");
    reveal_strlit("OR");
    reveal_strlit("and");
    reveal_strlit("or");
    let t = TokenV::Word(word);
    reveal_with_fuel(tokens_from, 5);
    if word == "AND"@ {
        assert(lower(word) =~= "and"@);
        assert(Seq::<char>::empty().push(word[0]).push(word[1]).push(word[2]) =~= word);
    } else {
        assert(lower(word) =~= "or"@);
        assert(Seq::<char>::empty().push(word[0]).push(word[1]) =~= word);
    }
    assert(Seq::<TokenV>::empty().push(t) =~= seq![t]);
}

/// The tokens of two groups with a connector between them.
proof fn lemma_tokens_groups(a: Seq<char>, b: Seq<char>, word: Seq<char>)
    requires
        trim(a).len() > 0,
        tokens_of(trim(a)) is Ok,
        trim(b).len() > 0,
        tokens_of(trim(b)) is Ok,
        word == "AND"@ || word == "OR"@,
    ensures
        ({
            let x = seq!['('] + a + seq![')', ' '] + word + seq![' ', '('] + b + seq![')'];
            let l = seq![TokenV::LParen];
            let r = seq![TokenV::RParen];
            &&& x.len() > 0 && trim(x) == x
            &&& tokens_of(x) == Ok::<Seq<TokenV>, FilterFault>(
                (l + tokens_of(trim(a))->Ok_0 + r).push(TokenV::Word(word)) + (l + tokens_of(
                    trim(b),
                )->Ok_0 + r),
            )
        }),
{
    let x = seq!['('] + a + seq![')', ' '] + word + seq![' ', '('] + b + seq![')'];
    let ta = tokens_of(trim(a))->Ok_0;
    let tb = tokens_of(trim(b))->Ok_0;
    let l = seq![TokenV::LParen];
    let r = seq![TokenV::RParen];
    let none = Seq::<TokenV>::empty();
    let n = a.len() as int;
    let k = word.len() as int;
    let m = b.len() as int;
    lemma_group_words(word);
    assert(x.len() == n + k + m + 6);
    assert(x[0] == '(' && x[x.len() - 1] == ')');
    lemma_trim_is(x, 0, x.len() as int);
    assert(x.subrange(0, x.len() as int) =~= x);
    assert(x.subrange(1, 1 + n) =~= a);
    assert(x[1 + n] == ')' && x[2 + n] == ' ');
    lemma_tokens_group(x, 0, a, none);
    let t1 = none + (l + ta + r);
    assert(t1 =~= l + ta + r);
    assert(x.subrange(3 + n, 3 + n + k) =~= word);
    assert(x[3 + n + k] == ' ' && x[4 + n + k] == '(');
    lemma_tokens_blank_word(x, 2 + n, word, t1);
    let t2 = t1.push(TokenV::Word(word));
    assert(x.subrange(5 + n + k, 5 + n + k + m) =~= b);
    assert(x[5 + n + k + m] == ')');
    lemma_tokens_group(x, 4 + n + k, b, t2);
    let t3 = t2 + (l + tb + r);
    assert(tokens_from(x, x.len() as int, t3, Seq::empty()) == Ok::<Seq<TokenV>, FilterFault>(t3));
    assert(tokens_of(x) == Ok::<Seq<TokenV>, FilterFault>(t3));
    assert(t3 == (l + ta + r).push(TokenV::Word(word)) + (l + tb + r));
}

/// Two filters in parentheses: with `AND` between them a row is selected where both select
/// it, with `OR` where either does.
pub proof fn law_connectors_combine(
    a: Seq<char>,
    b: Seq<char>,
    word: Seq<char>,
    holds: spec_fn(ClauseV) -> bool,
)
    requires
        filter_of(a) matches Ok(Some(_)),
        filter_of(b) matches Ok(Some(_)),
        word == "AND"@ || word == "OR"@,
    ensures
        ({
            let x = seq!['('] + a + seq![')', ' '] + word + seq![' ', '('] + b + seq![')'];
            let ea = filter_of(a)->Ok_0->0;
            let eb = filter_of(b)->Ok_0->0;
            &&& filter_of(x) matches Ok(Some(e)) && {
                &&& word == "AND"@ ==> e == ExprV::And(seq![ea, eb]) && selects(e, holds) == (
                selects(ea, holds) && selects(eb, holds))
                &&& word == "OR"@ ==> e == ExprV::Or(seq![ea, eb]) && selects(e, holds) == (
                selects(ea, holds) || selects(eb, holds))
            }
        }),
{
    let ea = filter_of(a)->Ok_0->0;
    let eb = filter_of(b)->Ok_0->0;
    let ta = tokens_of(trim(a))->Ok_0;
    let tb = tokens_of(trim(b))->Ok_0;
    let l = seq![TokenV::LParen];
    let r = seq![TokenV::RParen];
    lemma_group_words(word);
    lemma_tokens_groups(a, b, word);
    lemma_glued_groups(ta, tb, word);
    let ts = l + (glued(ta) + r + (seq![TokenV::Word(word)] + (l + (glued(tb) + r))));
    lemma_parse_groups(glued(ta), glued(tb), ea, eb, word, ts);
    reveal_strlit("AND");
    reveal_strlit("OR");
    assert("AND"@.len() == 3 && "OR"@.len() == 2);
    lemma_selects_pair(ea, eb, holds);
}

proof fn lemma_selects_pair(ea: ExprV, eb: ExprV, holds: spec_fn(ClauseV) -> bool)
    ensures
        selects(ExprV::And(seq![ea, eb]), holds) == (selects(ea, holds) && selects(eb, holds)),
        selects(ExprV::Or(seq![ea, eb]), holds) == (selects(ea, holds) || selects(eb, holds)),
{
    reveal_with_fuel(selects, 2);
    let all = ExprV::And(seq![ea, eb]);
    let any = ExprV::Or(seq![ea, eb]);
    let xs = all->And_0;
    let ys = any->Or_0;
    assert(xs.len() == 2 && xs[0] == ea && xs[1] == eb);
    assert(ys.len() == 2 && ys[0] == ea && ys[1] == eb);
    assert(selects(all, holds) == forall|i: int|
        0 <= i < xs.len() ==> selects(#[trigger] xs[i], holds));
    assert(selects(any, holds) == exists|i: int|
        0 <= i < ys.len() && selects(#[trigger] ys[i], holds));
    if selects(ea, holds) {
        assert(selects(ys[0], holds));
    }
    if selects(eb, holds) {
        assert(selects(ys[1], holds));
    }
    if selects(all, holds) {
        assert(selects(xs[0], holds) && selects(xs[1], holds));
    }
}

} // verus!
