//! What the filter language means: each operator compares as its sign says, a quoted value
//! counts as it stands, plain words are searched for, and connectors combine what their
//! sides select.
use vstd::prelude::*;
use vstd::utf8::encode_utf8;

use crate::assoc::entry_map;
use crate::hot::{HotAttributeV, HotType};
use crate::query::{
    BoundValueV, ClauseV, ColumnType, Ctx, ExprV, FilterFault, Op, TokenV, atom, bound_value,
    builtin_columns, clause_of, clause_sql, expr_sql, filter_of, glued, hot_columns, is_op_char,
    list_sql, looks_like_timestamp, op_at, op_class, or_expr, sql_op_text, standard_columns,
    tokens_from, tokens_of, unary, with_word,
};
use crate::query_text_laws::{ends_word, lemma_parse_only};
use crate::text::{
    all_word_chars, dec_int, is_float_text, is_space, is_word_char, join, just, lemma_find_by,
    lemma_trim_is, lower, parse_i64_text, trim,
};
use crate::text_laws::law_numbers_read_back;

verus! {

// ---------------------------------------------------------------------
// Operators
// ---------------------------------------------------------------------
/// How the value in a row stands to the value in a filter.
pub enum Side {
    Less,
    Equal,
    Greater,
}

/// Whether a comparison written in SQL holds.
pub open spec fn sql_compares(sign: Seq<char>, s: Side) -> bool {
    ||| sign == seq!['='] && s is Equal
    ||| sign == seq!['!', '='] && !(s is Equal)
    ||| sign == seq!['>'] && s is Greater
    ||| sign == seq!['>', '='] && !(s is Less)
    ||| sign == seq!['<'] && s is Less
    ||| sign == seq!['<', '='] && !(s is Greater)
}

proof fn lemma_signs()
    ensures
        "="@ == seq!['='],
        "!="@ == seq!['!', '='],
        ">"@ == seq!['>'],
        ">="@ == seq!['>', '='],
        "<"@ == seq!['<'],
        "<="@ == seq!['<', '='],
        ":"@ == seq![':'],
        "~"@ == seq!['~'],
{
    reveal_strlit("=");
    reveal_strlit("!=");
    reveal_strlit(">");
    reveal_strlit(">=");
    reveal_strlit("<");
    reveal_strlit("<=");
    reveal_strlit(":");
    reveal_strlit("~");
    assert("="@ =~= seq!['=']);
    assert("!="@ =~= seq!['!', '=']);
    assert(">"@ =~= seq!['>']);
    assert(">="@ =~= seq!['>', '=']);
    assert("<"@ =~= seq!['<']);
    assert("<="@ =~= seq!['<', '=']);
    assert(":"@ =~= seq![':']);
    assert("~"@ =~= seq!['~']);
}

/// Whether an operator holds, by its name.
pub open spec fn compares(op: Op, s: Side) -> bool {
    match op {
        Op::Eq => s is Equal,
        Op::Ne => !(s is Equal),
        Op::Gt => s is Greater,
        Op::Ge => s is Greater || s is Equal,
        Op::Lt => s is Less,
        Op::Le => s is Less || s is Equal,
        Op::Like => false,
    }
}

/// Every operator is written as the comparison that it names, and under a minus as one
/// that holds exactly where it does not.
pub proof fn law_operators_compare_as_named(op: Op, negated: bool, s: Side)
    requires
        op != Op::Like,
    ensures
        sql_compares(sql_op_text(op, negated), s) == (compares(op, s) != negated),
        sql_compares(sql_op_text(op, negated), s) != sql_compares(sql_op_text(op, !negated), s),
{
    lemma_signs();
    let a = seq!['='];
    let b = seq!['!', '='];
    let c = seq!['>'];
    let d = seq!['>', '='];
    let e = seq!['<'];
    let f = seq!['<', '='];
    assert(a[0] == '=' && b[0] == '!' && c[0] == '>' && d[0] == '>' && e[0] == '<' && f[0] == '<');
    assert(a.len() == 1 && b.len() == 2 && c.len() == 1 && d.len() == 2 && e.len() == 1 && f.len()
        == 2);
}

/// `ILIKE` looks for a value, and `NOT ILIKE` under a minus.
pub proof fn law_likeness_is_turned_over()
    ensures
        sql_op_text(Op::Like, true) == "NOT "@ + sql_op_text(Op::Like, false),
        sql_op_text(Op::Like, false) == seq!['I', 'L', 'I', 'K', 'E'],
{
    reveal_strlit("ILIKE");
    reveal_strlit("NOT ILIKE");
    reveal_strlit("NOT ");
    assert("NOT ILIKE"@ =~= "NOT "@ + "ILIKE"@);
    assert("ILIKE"@ =~= seq!['I', 'L', 'I', 'K', 'E']);
}

/// The operator that a sign stands for in a filter.
pub open spec fn signed(sign: Seq<char>) -> Option<Op> {
    if sign == seq![':'] || sign == seq!['='] {
        Some(Op::Eq)
    } else if sign == seq!['!', '='] {
        Some(Op::Ne)
    } else if sign == seq!['>'] {
        Some(Op::Gt)
    } else if sign == seq!['>', '='] {
        Some(Op::Ge)
    } else if sign == seq!['<'] {
        Some(Op::Lt)
    } else if sign == seq!['<', '='] {
        Some(Op::Le)
    } else if sign == seq!['~'] {
        Some(Op::Like)
    } else {
        None
    }
}

/// Whether a key, a sign and a value can stand side by side: after `>` and `<` a value
/// does not begin with `=`.
pub open spec fn is_triple(key: Seq<char>, sign: Seq<char>, value: Seq<char>) -> bool {
    &&& key.len() > 0
    &&& all_word_chars(key)
    &&& signed(sign) is Some
    &&& value.len() > 0
    &&& !((sign == seq!['>'] || sign == seq!['<']) && value[0] == '=')
}

proof fn lemma_sign(key: Seq<char>, sign: Seq<char>, value: Seq<char>)
    requires
        is_triple(key, sign, value),
    ensures
        sign.len() == 1 || sign.len() == 2,
        is_op_char(sign[0]),
        sign.len() == 2 ==> sign[1] == '=',
        op_at(key + sign + value, key.len() as int) == Some(
            (signed(sign)->0, (key.len() + sign.len()) as int),
        ),
{
    let w = key + sign + value;
    let k = key.len() as int;
    let all = seq![
        seq![':'],
        seq!['='],
        seq!['!', '='],
        seq!['>'],
        seq!['>', '='],
        seq!['<'],
        seq!['<', '='],
        seq!['~'],
    ];
    assert(w[k] == sign[0]);
    if sign.len() == 2 {
        assert(w[k + 1] == sign[1]);
    } else {
        assert(w[k + 1] == value[0]);
    }
    assert(all[0][0] == ':' && all[1][0] == '=' && all[2][0] == '!' && all[3][0] == '>');
    assert(all[4][0] == '>' && all[5][0] == '<' && all[6][0] == '<' && all[7][0] == '~');
}

/// A word that is a key, a sign and a value is the comparison of that column with that
/// value by the operator of that sign; behind a minus it is negated.
pub proof fn law_signs_give_operators(key: Seq<char>, sign: Seq<char>, value: Seq<char>)
    requires
        is_triple(key, sign, value),
    ensures
        clause_of(key + sign + value) == Ok::<ClauseV, FilterFault>(
            ClauseV::Comparison { key, op: signed(sign)->0, value, negated: false },
        ),
        clause_of(seq!['-'] + (key + sign + value)) == Ok::<ClauseV, FilterFault>(
            ClauseV::Comparison { key, op: signed(sign)->0, value, negated: true },
        ),
{
    let w = key + sign + value;
    let k = key.len() as int;
    lemma_sign(key, sign, value);
    assert(w[0] == key[0]);
    assert(is_word_char(key[0]));
    assert forall|i: int| 0 <= i < k implies !op_class()(#[trigger] w[i]) by {
        assert(w[i] == key[i]);
        assert(is_word_char(key[i]));
    }
    assert(w[k] == sign[0]);
    lemma_find_by(w, op_class(), k);
    assert(w.subrange(0, k) =~= key);
    assert(w.subrange(k + sign.len(), w.len() as int) =~= value);
    let n = seq!['-'] + w;
    assert(n[0] == '-');
    assert(n.drop_first() =~= w);
}

/// What a comparison becomes in SQL: the column, the comparison and a placeholder, with the
/// value bound beside it, between percent signs for a likeness.
pub proof fn law_comparisons_in_sql(
    key: Seq<char>,
    sign: Seq<char>,
    value: Seq<char>,
    cols: Map<Seq<char>, ColumnType>,
)
    requires
        is_triple(key, sign, value),
        clause_of(key + sign + value) is Ok,
        clause_sql(clause_of(key + sign + value)->Ok_0, cols) is Ok,
    ensures
        clause_sql(clause_of(key + sign + value)->Ok_0, cols)->Ok_0 == (
            if sign == seq!['~'] {
                (key + " ILIKE ?"@, "%"@ + value + "%"@)
            } else if sign == seq![':'] {
                (key + " = ?"@, value)
            } else {
                (key + " "@ + sign + " ?"@, value)
            }
        ),
{
    law_signs_give_operators(key, sign, value);
    lemma_signs();
    reveal_strlit("ILIKE");
    reveal_strlit(" ILIKE ?");
    reveal_strlit(" = ?");
    reveal_strlit(" ");
    reveal_strlit(" ?");
    assert(key + " "@ + "ILIKE"@ + " ?"@ =~= key + " ILIKE ?"@);
    assert(key + " "@ + "="@ + " ?"@ =~= key + " = ?"@);
    let all = seq![seq![':'], seq!['='], seq!['!', '='], seq!['>'], seq!['<'], seq!['~']];
    assert(all[0][0] == ':' && all[1][0] == '=' && all[2][0] == '!' && all[3][0] == '>');
    assert(all[4][0] == '<' && all[5][0] == '~');
}

/// A comparison can be rendered exactly where its column is listed, an order is asked for
/// of a numeric column and a likeness of a text column, and the value is a number where the
/// column is numeric.
pub proof fn law_comparisons_that_are_rendered(
    key: Seq<char>,
    op: Op,
    value: Seq<char>,
    negated: bool,
    cols: Map<Seq<char>, ColumnType>,
)
    ensures
        clause_sql(ClauseV::Comparison { key, op, value, negated }, cols) is Ok <==> {
            &&& cols.contains_key(key)
            &&& op == Op::Gt || op == Op::Ge || op == Op::Lt || op == Op::Le ==> cols[key]
                == ColumnType::Bigint || cols[key] == ColumnType::Double
            &&& op == Op::Like ==> cols[key] == ColumnType::Text
            &&& cols[key] == ColumnType::Bigint ==> parse_i64_text(trim(value)) is Some
            &&& cols[key] == ColumnType::Double ==> is_float_text(trim(value))
        },
        !cols.contains_key(key) ==> clause_sql(
            ClauseV::Comparison { key, op, value, negated },
            cols,
        ) == Err::<(Seq<char>, Seq<char>), FilterFault>(FilterFault::UnknownColumn(key)),
{
}

// ---------------------------------------------------------------------
// From text to SQL
// ---------------------------------------------------------------------
/// Whether a text is one word: no white space, no parenthesis and no quote.
pub open spec fn is_one_word(s: Seq<char>) -> bool {
    forall|i: int|
        0 <= i < s.len() ==> !ends_word(#[trigger] s[i]) && s[i] != '"'
}

proof fn lemma_one_word(s: Seq<char>, i: int, word: Seq<char>)
    requires
        is_one_word(s),
        0 <= i <= s.len(),
        word == s.take(i),
    ensures
        tokens_from(s, i, Seq::empty(), word) == Ok::<Seq<TokenV>, FilterFault>(
            with_word(Seq::empty(), s),
        ),
    decreases s.len() - i,
{
    if i < s.len() {
        assert(!ends_word(s[i]) && s[i] != '"');
        assert(word.push(s[i]) =~= s.take(i + 1));
        lemma_one_word(s, i + 1, word.push(s[i]));
    } else {
        assert(s.take(i) =~= s);
    }
}

proof fn lemma_trim_word(s: Seq<char>)
    requires
        s.len() > 0,
        !is_space(s[0]),
        !is_space(s.last()),
    ensures
        trim(s) == s,
{
    lemma_trim_is(s, 0, s.len() as int);
    assert(s.subrange(0, s.len() as int) =~= s);
}

proof fn lemma_single(w: Seq<char>)
    ensures
        glued(seq![TokenV::Word(w)]) == seq![TokenV::Word(w)],
{
    let t = seq![TokenV::Word(w)];
    let rest = t.subrange(1, 1);
    assert(rest =~= Seq::<TokenV>::empty());
    assert(glued(rest) =~= Seq::<TokenV>::empty());
    assert(glued(t) =~= t);
}

/// A clause on its own is the whole filter.
proof fn lemma_filter_of_clause(w: Seq<char>, c: ClauseV)
    requires
        w != "-"@,
        lower(w) != "and"@,
        lower(w) != "or"@,
        clause_of(w) == Ok::<ClauseV, FilterFault>(c),
    ensures
        or_expr(seq![TokenV::Word(w)], 0) == Ok::<(ExprV, int), FilterFault>((ExprV::Term(c), 1)),
{
    let ts = seq![TokenV::Word(w)];
    assert(ts[0] == TokenV::Word(w));
    assert(atom(ts, 0) == Ok::<(ExprV, int), FilterFault>((ExprV::Term(c), 1)));
    assert(unary(ts, 0) == atom(ts, 0));
    lemma_parse_only(ts, ExprV::Term(c));
}

/// A word with a sign in it is no connector.
proof fn lemma_no_connector(w: Seq<char>, i: int)
    requires
        0 <= i < w.len(),
        is_op_char(w[i]),
        w.len() > 1,
    ensures
        w != "-"@,
        lower(w) != "and"@,
        lower(w) != "or"@,
{
    reveal_strlit("-");
    reveal_strlit("and");
    reveal_strlit("or");
    assert(lower(w).len() == w.len() && lower(w)[i] == w[i]);
    assert("and"@[0] == 'a' && "and"@[1] == 'n' && "and"@[2] == 'd');
    assert("or"@[0] == 'o' && "or"@[1] == 'r');
    if lower(w) == "and"@ {
        assert(i == 0 || i == 1 || i == 2);
    }
    if lower(w) == "or"@ {
        assert(i == 0 || i == 1);
    }
}

/// The filter that is a key, a sign and a value selects by that comparison alone.
pub proof fn law_a_comparison_is_a_filter(key: Seq<char>, sign: Seq<char>, value: Seq<char>)
    requires
        is_triple(key, sign, value),
        is_one_word(value),
    ensures
        filter_of(key + sign + value) == Ok::<Option<ExprV>, FilterFault>(
            Some(
                ExprV::Term(
                    ClauseV::Comparison { key, op: signed(sign)->0, value, negated: false },
                ),
            ),
        ),
        filter_of(seq!['-'] + (key + sign + value)) == Ok::<Option<ExprV>, FilterFault>(
            Some(
                ExprV::Term(ClauseV::Comparison { key, op: signed(sign)->0, value, negated: true }),
            ),
        ),
{
    let w = key + sign + value;
    let n = seq!['-'] + w;
    let k = key.len() as int;
    lemma_sign(key, sign, value);
    law_signs_give_operators(key, sign, value);
    assert forall|i: int| 0 <= i < w.len() implies !ends_word(#[trigger] w[i]) && w[i] != '"' by {
        if i < k {
            assert(is_word_char(key[i]));
            assert(w[i] == key[i]);
        } else if i < k + sign.len() {
            assert(w[i] == sign[i - k]);
        } else {
            assert(w[i] == value[i - k - sign.len()]);
        }
    }
    assert forall|i: int| 0 <= i < n.len() implies !ends_word(#[trigger] n[i]) && n[i] != '"' by {
        if i > 0 {
            assert(n[i] == w[i - 1]);
        }
    }
    assert(w[k] == sign[0] && n[k + 1] == sign[0]);
    assert(!ends_word(w[0]) && !ends_word(w[w.len() - 1]));
    assert(!ends_word(n[0]) && !ends_word(n[n.len() - 1]));
    lemma_whole_word(w, ClauseV::Comparison { key, op: signed(sign)->0, value, negated: false }, k);
    lemma_whole_word(
        n,
        ClauseV::Comparison { key, op: signed(sign)->0, value, negated: true },
        k + 1,
    );
}

proof fn lemma_whole_word(w: Seq<char>, c: ClauseV, i: int)
    requires
        w.len() > 1,
        is_one_word(w),
        0 <= i < w.len(),
        is_op_char(w[i]),
        clause_of(w) == Ok::<ClauseV, FilterFault>(c),
    ensures
        filter_of(w) == Ok::<Option<ExprV>, FilterFault>(Some(ExprV::Term(c))),
{
    assert(!ends_word(w[0]) && !ends_word(w[w.len() - 1]));
    lemma_trim_word(w);
    assert(w.take(0) =~= Seq::<char>::empty());
    lemma_one_word(w, 0, Seq::empty());
    assert(with_word(Seq::empty(), w) =~= seq![TokenV::Word(w)]);
    lemma_single(w);
    lemma_no_connector(w, i);
    lemma_filter_of_clause(w, c);
}

/// A value in quotes counts as it stands between them, white space and parentheses too.
pub proof fn law_quoted_values_count_as_they_stand(
    key: Seq<char>,
    sign: Seq<char>,
    value: Seq<char>,
)
    requires
        is_triple(key, sign, value),
        forall|i: int| 0 <= i < value.len() ==> #[trigger] value[i] != '"',
    ensures
        filter_of(key + sign + seq!['"'] + value + seq!['"']) == Ok::<Option<ExprV>, FilterFault>(
            Some(
                ExprV::Term(
                    ClauseV::Comparison { key, op: signed(sign)->0, value, negated: false },
                ),
            ),
        ),
{
    let h = key + sign;
    let x = h + seq!['"'] + value + seq!['"'];
    let k = key.len() as int;
    let n = h.len() as int;
    let none = Seq::<char>::empty();
    let nothing = Seq::<TokenV>::empty();
    lemma_sign(key, sign, value);
    law_signs_give_operators(key, sign, value);
    assert(is_word_char(key[0]));
    assert(x[0] == key[0] && x[x.len() - 1] == '"');
    lemma_trim_word(x);
    assert(x.take(n) =~= h);
    assert(h.take(0) =~= none);
    lemma_head(h, x, key, sign, 0, none);
    let rest = x.subrange(n + 1, x.len() as int);
    assert(rest =~= value + seq!['"']);
    assert forall|i: int| 0 <= i < value.len() implies !just('"')(#[trigger] rest[i]) by {
        assert(rest[i] == value[i]);
    }
    assert(rest[value.len() as int] == '"');
    lemma_find_by(rest, just('"'), value.len() as int);
    assert(rest.subrange(0, value.len() as int) =~= value);
    assert(x[n] == '"');
    assert(with_word(nothing, h) =~= seq![TokenV::Word(h)]);
    let ts = seq![TokenV::Word(h), TokenV::Quoted(value)];
    assert(seq![TokenV::Word(h)].push(TokenV::Quoted(value)) =~= ts);
    assert(tokens_from(x, n, nothing, h) == tokens_from(x, x.len() as int, ts, none));
    assert(tokens_of(x) == Ok::<Seq<TokenV>, FilterFault>(ts));
    assert(h.last() == sign.last());
    let w = h + value;
    assert(w =~= key + sign + value);
    let tail = ts.subrange(2, 2);
    assert(tail =~= nothing);
    assert(glued(tail) =~= nothing);
    assert(glued(ts) =~= seq![TokenV::Word(w)]);
    assert(w[k] == sign[0]);
    lemma_no_connector(w, k);
    lemma_filter_of_clause(
        w,
        ClauseV::Comparison { key, op: signed(sign)->0, value, negated: false },
    );
}

proof fn lemma_head(
    h: Seq<char>,
    x: Seq<char>,
    key: Seq<char>,
    sign: Seq<char>,
    i: int,
    word: Seq<char>,
)
    requires
        h == key + sign,
        all_word_chars(key),
        forall|j: int| 0 <= j < sign.len() ==> is_op_char(#[trigger] sign[j]),
        h.len() <= x.len(),
        x.take(h.len() as int) == h,
        0 <= i <= h.len(),
        word == h.take(i),
    ensures
        tokens_from(x, i, Seq::empty(), word) == tokens_from(x, h.len() as int, Seq::empty(), h),
    decreases h.len() - i,
{
    if i < h.len() {
        assert(x[i] == x.take(h.len() as int)[i]);
        if i < key.len() {
            assert(is_word_char(key[i]));
            assert(h[i] == key[i]);
        } else {
            assert(h[i] == sign[i - key.len()]);
        }
        assert(word.push(x[i]) =~= h.take(i + 1));
        lemma_head(h, x, key, sign, i + 1, word.push(x[i]));
    } else {
        assert(h.take(i) =~= h);
    }
}

/// A word without a sign is searched for in the messages, whatever its case; behind a minus
/// it must not be there.
pub proof fn law_words_are_searched_for(w: Seq<char>, cols: Map<Seq<char>, ColumnType>)
    requires
        w.len() > 0,
        w[0] != '-',
        is_one_word(w),
        forall|i: int| 0 <= i < w.len() ==> !is_op_char(#[trigger] w[i]),
        lower(w) != "and"@,
        lower(w) != "or"@,
    ensures
        filter_of(w) matches Ok(Some(e)) && expr_sql(e, Ctx::Top, cols) == Ok::<
            (Seq<char>, Seq<Seq<char>>),
            FilterFault,
        >(("message ILIKE ?"@, seq!["%"@ + w + "%"@])),
        filter_of(seq!['-'] + w) matches Ok(Some(e)) && expr_sql(e, Ctx::Top, cols) == Ok::<
            (Seq<char>, Seq<Seq<char>>),
            FilterFault,
        >(("NOT (message ILIKE ?)"@, seq!["%"@ + w + "%"@])),
{
    reveal_strlit("-");
    let n = seq!['-'] + w;
    let plain = ClauseV::TextSearch { text: w, negated: false };
    let minus = ClauseV::TextSearch { text: w, negated: true };
    assert forall|i: int| 0 <= i < w.len() implies !op_class()(#[trigger] w[i]) by {
        assert(!is_op_char(w[i]));
    }
    lemma_find_by(w, op_class(), w.len() as int);
    assert(n[0] == '-' && n.drop_first() =~= w);
    assert(clause_of(w) == Ok::<ClauseV, FilterFault>(plain));
    assert(clause_of(n) == Ok::<ClauseV, FilterFault>(minus));
    assert forall|i: int| 0 <= i < n.len() implies !ends_word(#[trigger] n[i]) && n[i] != '"' by {
        if i > 0 {
            assert(n[i] == w[i - 1]);
        }
    }
    assert(lower(n)[0] == '-');
    reveal_strlit("and");
    reveal_strlit("or");
    assert("and"@[0] == 'a' && "or"@[0] == 'o');
    assert(w != "-"@) by {
        assert("-"@[0] == '-');
    }
    lemma_plain_word(w, plain);
    lemma_plain_word(n, minus);
}

proof fn lemma_plain_word(w: Seq<char>, c: ClauseV)
    requires
        w.len() > 0,
        is_one_word(w),
        w != "-"@,
        lower(w) != "and"@,
        lower(w) != "or"@,
        clause_of(w) == Ok::<ClauseV, FilterFault>(c),
    ensures
        filter_of(w) == Ok::<Option<ExprV>, FilterFault>(Some(ExprV::Term(c))),
{
    assert(!ends_word(w[0]) && !ends_word(w[w.len() - 1]));
    lemma_trim_word(w);
    assert(w.take(0) =~= Seq::<char>::empty());
    lemma_one_word(w, 0, Seq::empty());
    assert(with_word(Seq::empty(), w) =~= seq![TokenV::Word(w)]);
    lemma_single(w);
    lemma_filter_of_clause(w, c);
}

// ---------------------------------------------------------------------
// Connectors
// ---------------------------------------------------------------------
/// Two expressions that are both asked for stand on either side of `AND`, and their values
/// one after the other.
pub proof fn law_and_in_sql(a: ExprV, b: ExprV, ctx: Ctx, cols: Map<Seq<char>, ColumnType>)
    requires
        expr_sql(a, Ctx::InAnd, cols) is Ok,
        expr_sql(b, Ctx::InAnd, cols) is Ok,
    ensures
        expr_sql(ExprV::And(seq![a, b]), ctx, cols) matches Ok(x) && {
            let body = expr_sql(a, Ctx::InAnd, cols)->Ok_0.0 + " AND "@ + expr_sql(
                b,
                Ctx::InAnd,
                cols,
            )->Ok_0.0;
            &&& x.0 == body || x.0 == "("@ + body + ")"@
            &&& ctx == Ctx::InOr ==> x.0 == "("@ + body + ")"@
            &&& x.1 == expr_sql(a, Ctx::InAnd, cols)->Ok_0.1 + expr_sql(
                b,
                Ctx::InAnd,
                cols,
            )->Ok_0.1
        },
{
    lemma_pair(a, b, Ctx::InAnd, cols, " AND "@);
}

/// Two expressions of which one is enough stand on either side of `OR`, in parentheses
/// where an `AND` stands around them.
pub proof fn law_or_in_sql(a: ExprV, b: ExprV, ctx: Ctx, cols: Map<Seq<char>, ColumnType>)
    requires
        expr_sql(a, Ctx::InOr, cols) is Ok,
        expr_sql(b, Ctx::InOr, cols) is Ok,
    ensures
        expr_sql(ExprV::Or(seq![a, b]), ctx, cols) matches Ok(x) && {
            let body = expr_sql(a, Ctx::InOr, cols)->Ok_0.0 + " OR "@ + expr_sql(
                b,
                Ctx::InOr,
                cols,
            )->Ok_0.0;
            &&& x.0 == body || x.0 == "("@ + body + ")"@
            &&& ctx == Ctx::InAnd ==> x.0 == "("@ + body + ")"@
            &&& x.1 == expr_sql(a, Ctx::InOr, cols)->Ok_0.1 + expr_sql(
                b,
                Ctx::InOr,
                cols,
            )->Ok_0.1
        },
{
    lemma_pair(a, b, Ctx::InOr, cols, " OR "@);
}

/// What is ruled out stands behind `NOT`, in parentheses.
pub proof fn law_not_in_sql(a: ExprV, ctx: Ctx, cols: Map<Seq<char>, ColumnType>)
    requires
        expr_sql(a, Ctx::InNot, cols) is Ok,
    ensures
        expr_sql(ExprV::Not(Box::new(a)), ctx, cols) == Ok::<
            (Seq<char>, Seq<Seq<char>>),
            FilterFault,
        >(
            (
                "NOT ("@ + expr_sql(a, Ctx::InNot, cols)->Ok_0.0 + ")"@,
                expr_sql(a, Ctx::InNot, cols)->Ok_0.1,
            ),
        ),
{
}

proof fn lemma_pair(
    a: ExprV,
    b: ExprV,
    ctx: Ctx,
    cols: Map<Seq<char>, ColumnType>,
    sep: Seq<char>,
)
    requires
        expr_sql(a, ctx, cols) is Ok,
        expr_sql(b, ctx, cols) is Ok,
    ensures
        list_sql(seq![a, b], ctx, cols) matches Ok(x) && join(x.0, sep) == expr_sql(
            a,
            ctx,
            cols,
        )->Ok_0.0 + sep + expr_sql(b, ctx, cols)->Ok_0.0 && x.1 == expr_sql(a, ctx, cols)->Ok_0.1
            + expr_sql(b, ctx, cols)->Ok_0.1,
{
    let one = seq![a];
    let two = seq![a, b];
    assert(two.drop_last() =~= one);
    assert(one.drop_last() =~= Seq::<ExprV>::empty());
    let (x, p) = expr_sql(a, ctx, cols)->Ok_0;
    let (y, q) = expr_sql(b, ctx, cols)->Ok_0;
    assert(list_sql(one.drop_last(), ctx, cols) == Ok::<
        (Seq<Seq<char>>, Seq<Seq<char>>),
        FilterFault,
    >((Seq::empty(), Seq::empty())));
    assert(Seq::<Seq<char>>::empty().push(x) =~= seq![x]);
    assert(Seq::<Seq<char>>::empty() + p =~= p);
    assert(list_sql(one, ctx, cols) == Ok::<(Seq<Seq<char>>, Seq<Seq<char>>), FilterFault>(
        (seq![x], p),
    ));
    let parts = seq![x].push(y);
    assert(parts.drop_last() =~= seq![x]);
    assert(join(parts.drop_last(), sep) == x);
    assert(join(parts, sep) == x + sep + y);
}

// ---------------------------------------------------------------------
// Columns and values
// ---------------------------------------------------------------------
proof fn lemma_entry(s: Seq<(Seq<char>, ColumnType)>, i: int)
    requires
        0 <= i < s.len(),
        forall|j: int| i < j < s.len() ==> (#[trigger] s[j]).0 != s[i].0,
    ensures
        entry_map(s).contains_key(s[i].0),
        entry_map(s)[s[i].0] == s[i].1,
    decreases s.len(),
{
    if i < s.len() - 1 {
        assert(s[s.len() - 1].0 != s[i].0);
        let d = s.drop_last();
        assert forall|j: int| i < j < d.len() implies (#[trigger] d[j]).0 != d[i].0 by {
            assert(s[j].0 != s[i].0);
        }
        lemma_entry(d, i);
    }
}

/// Every deployment can filter by these columns: all of them are texts but the length, which
/// is a number.
pub proof fn law_builtin_columns()
    ensures
        ({
            let c = standard_columns(Seq::empty());
            &&& c.contains_key("service"@) && c["service"@] == ColumnType::Text
            &&& c.contains_key("level"@) && c["level"@] == ColumnType::Text
            &&& c.contains_key("source_host"@) && c["source_host"@] == ColumnType::Text
            &&& c.contains_key("host"@) && c["host"@] == ColumnType::Text
            &&& c.contains_key("protocol"@) && c["protocol"@] == ColumnType::Text
            &&& c.contains_key("trace_id"@) && c["trace_id"@] == ColumnType::Text
            &&& c.contains_key("span_id"@) && c["span_id"@] == ColumnType::Text
            &&& c.contains_key("geo_country"@) && c["geo_country"@] == ColumnType::Text
            &&& c.contains_key("message"@) && c["message"@] == ColumnType::Text
            &&& c.contains_key("fingerprint"@) && c["fingerprint"@] == ColumnType::Text
            &&& c.contains_key("raw_len"@) && c["raw_len"@] == ColumnType::Bigint
        }),
{
    reveal_strlit("service");
    reveal_strlit("level");
    reveal_strlit("source_host");
    reveal_strlit("host");
    reveal_strlit("protocol");
    reveal_strlit("trace_id");
    reveal_strlit("span_id");
    reveal_strlit("geo_country");
    reveal_strlit("message");
    reveal_strlit("fingerprint");
    reveal_strlit("raw_len");
    assert("service"@.len() == 7);
    assert("level"@.len() == 5);
    assert("source_host"@.len() == 11);
    assert("host"@.len() == 4);
    assert("protocol"@.len() == 8);
    assert("trace_id"@.len() == 8);
    assert("span_id"@.len() == 7);
    assert("geo_country"@.len() == 11);
    assert("message"@.len() == 7);
    assert("fingerprint"@.len() == 11);
    assert("raw_len"@.len() == 7);
    assert("fingerprint"@[0] == 'f');
    assert("geo_country"@[0] == 'g');
    assert("message"@[0] == 'm');
    assert("protocol"@[0] == 'p');
    assert("raw_len"@[0] == 'r');
    assert("service"@[0] == 's');
    assert("service"@[1] == 'e');
    assert("source_host"@[0] == 's');
    assert("span_id"@[0] == 's');
    assert("span_id"@[1] == 'p');
    assert("trace_id"@[0] == 't');
    let s = builtin_columns() + hot_columns(Seq::empty());
    assert(s =~= builtin_columns());
    assert(s[0].0 == "service"@);
    assert(s[1].0 == "level"@);
    assert(s[2].0 == "source_host"@);
    assert(s[3].0 == "host"@);
    assert(s[4].0 == "protocol"@);
    assert(s[5].0 == "trace_id"@);
    assert(s[6].0 == "span_id"@);
    assert(s[7].0 == "geo_country"@);
    assert(s[8].0 == "message"@);
    assert(s[9].0 == "fingerprint"@);
    assert(s[10].0 == "raw_len"@);
    lemma_entry(s, 0);
    lemma_entry(s, 1);
    lemma_entry(s, 2);
    lemma_entry(s, 3);
    lemma_entry(s, 4);
    lemma_entry(s, 5);
    lemma_entry(s, 6);
    lemma_entry(s, 7);
    lemma_entry(s, 8);
    lemma_entry(s, 9);
    lemma_entry(s, 10);
}

/// A promoted attribute is a column of its own type.
pub proof fn law_promoted_columns(hot: Seq<HotAttributeV>, i: int)
    requires
        0 <= i < hot.len(),
        forall|j: int| i < j < hot.len() ==> (#[trigger] hot[j]).name != hot[i].name,
    ensures
        ({
            let c = standard_columns(hot);
            &&& c.contains_key(hot[i].name)
            &&& hot[i].duckdb_type == HotType::Bigint ==> c[hot[i].name] == ColumnType::Bigint
            &&& hot[i].duckdb_type == HotType::Double ==> c[hot[i].name] == ColumnType::Double
            &&& hot[i].duckdb_type == HotType::Varchar ==> c[hot[i].name] == ColumnType::Text
            &&& hot[i].duckdb_type == HotType::Boolean ==> c[hot[i].name] == ColumnType::Boolean
        }),
{
    let b = builtin_columns();
    let s = b + hot_columns(hot);
    let k = b.len() + i;
    assert(s[k] == hot_columns(hot)[i]);
    assert forall|j: int| k < j < s.len() implies (#[trigger] s[j]).0 != s[k].0 by {
        assert(s[j] == hot_columns(hot)[j - b.len()]);
        assert(hot[j - b.len()].name != hot[i].name);
    }
    lemma_entry(s, k);
}

/// A whole number is bound as a number, a text as a text.
pub proof fn law_values_are_bound_by_their_kind(n: i64, s: Seq<char>)
    ensures
        !looks_like_timestamp(encode_utf8(dec_int(n as int))) ==> bound_value(dec_int(n as int))
            == BoundValueV::BigInt(n),
        parse_i64_text(s) is None && !is_float_text(s) ==> bound_value(s) == BoundValueV::Text(s),
        looks_like_timestamp(encode_utf8(s)) ==> bound_value(s) == BoundValueV::Text(s),
{
    law_numbers_read_back(n);
}

} // verus!
