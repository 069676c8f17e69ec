//! What holds of every filter: its SQL holds one placeholder for each value, no
//! part of it comes from a value, and it names whitelisted columns only.
use vstd::prelude::*;

use crate::query::{
    ClauseV, ColumnType, Ctx, ExprV, FilterFault, Op, Parsed, ParsedList, TokenV, and_expr,
    and_rest, at_operand, at_word, atom, clause_sql, expr_sql, fault, filter_of, filter_sql,
    glued, leaves, list_leaves, list_sql, negation, or_expr, or_rest, sql_op_text, terms_of,
    tokens_of, unary,
};
use crate::text::{all_word_chars, is_word_char, join, trim};

verus! {

/// How often a character occurs in a text.
pub open spec fn count_char(s: Seq<char>, c: char) -> nat
    decreases s.len(),
{
    if s.len() == 0 {
        0
    } else {
        count_char(s.drop_last(), c) + if s.last() == c {
            1nat
        } else {
            0nat
        }
    }
}

proof fn lemma_count_add(a: Seq<char>, b: Seq<char>, c: char)
    ensures
        count_char(a + b, c) == count_char(a, c) + count_char(b, c),
    decreases b.len(),
{
    if b.len() == 0 {
        assert(a + b == a);
    } else {
        assert((a + b).drop_last() == a + b.drop_last());
        lemma_count_add(a, b.drop_last(), c);
    }
}

proof fn lemma_count_none(s: Seq<char>, c: char)
    requires
        forall|i: int| 0 <= i < s.len() ==> s[i] != c,
    ensures
        count_char(s, c) == 0,
    decreases s.len(),
{
    if s.len() > 0 {
        lemma_count_none(s.drop_last(), c);
    }
}

/// How often a character occurs in a list of texts.
pub open spec fn count_in_all(parts: Seq<Seq<char>>, c: char) -> nat
    decreases parts.len(),
{
    if parts.len() == 0 {
        0
    } else {
        count_in_all(parts.drop_last(), c) + count_char(parts.last(), c)
    }
}

proof fn lemma_count_join(parts: Seq<Seq<char>>, sep: Seq<char>, c: char)
    requires
        count_char(sep, c) == 0,
    ensures
        count_char(join(parts, sep), c) == count_in_all(parts, c),
    decreases parts.len(),
{
    if parts.len() == 1 {
        assert(count_in_all(parts.drop_last(), c) == 0);
    } else if parts.len() > 1 {
        lemma_count_join(parts.drop_last(), sep, c);
        lemma_count_add(join(parts.drop_last(), sep), sep, c);
        lemma_count_add(join(parts.drop_last(), sep) + sep, parts.last(), c);
    }
}

proof fn lemma_count_op(op: Op, negated: bool)
    ensures
        count_char(sql_op_text(op, negated), '?') == 0,
{
    reveal_strlit("=");
    reveal_strlit("!=");
    reveal_strlit(">");
    reveal_strlit(">=");
    reveal_strlit("<");
    reveal_strlit("<=");
    reveal_strlit("ILIKE");
    reveal_strlit("NOT ILIKE");
    lemma_count_none(sql_op_text(op, negated), '?');
}

/// Whether the key of a clause, where it has one, is made of word characters.
pub open spec fn key_is_word(c: ClauseV) -> bool {
    match c {
        ClauseV::Comparison { key, .. } => all_word_chars(key),
        ClauseV::TextSearch { .. } => true,
    }
}

/// Whether a text holds no placeholder.
pub open spec fn is_unmarked(s: Seq<char>) -> bool {
    forall|i: int| 0 <= i < s.len() ==> #[trigger] s[i] != '?'
}

/// Whether the key of a clause, where it has one, holds no placeholder.
spec fn key_is_unmarked(c: ClauseV) -> bool {
    match c {
        ClauseV::Comparison { key, .. } => is_unmarked(key),
        ClauseV::TextSearch { .. } => true,
    }
}

/// Whether no key in a tree holds a placeholder.
spec fn keys_are_unmarked(e: ExprV) -> bool {
    forall|i: int| 0 <= i < leaves(e).len() ==> key_is_unmarked(#[trigger] leaves(e)[i])
}

/// Whether no column has a placeholder in its name.
pub open spec fn columns_are_unmarked(cols: Map<Seq<char>, ColumnType>) -> bool {
    forall|k: Seq<char>| #[trigger] cols.contains_key(k) ==> is_unmarked(k)
}

proof fn lemma_clause_count(c: ClauseV, cols: Map<Seq<char>, ColumnType>)
    requires
        key_is_unmarked(c),
        clause_sql(c, cols) is Ok,
    ensures
        count_char(clause_sql(c, cols)->Ok_0.0, '?') == 1,
{
    match c {
        ClauseV::TextSearch { text, negated } => {
            reveal_strlit("NOT (message ILIKE ?)");
            reveal_strlit("message ILIKE ?");
            if negated {
                let s = "NOT (message ILIKE ?)"@;
                lemma_count_none(s.subrange(0, 19), '?');
                lemma_count_none(s.subrange(20, 21), '?');
                assert(s == s.subrange(0, 19) + seq!['?'] + s.subrange(20, 21));
                lemma_count_add(s.subrange(0, 19), seq!['?'], '?');
                lemma_count_add(s.subrange(0, 19) + seq!['?'], s.subrange(20, 21), '?');
                assert(seq!['?'].drop_last() == Seq::<char>::empty());
                reveal_with_fuel(count_char, 2);
            } else {
                let s = "message ILIKE ?"@;
                lemma_count_none(s.drop_last(), '?');
            }
        },
        ClauseV::Comparison { key, op, value, negated } => {
            reveal_strlit(" ");
            reveal_strlit(" ?");
            lemma_count_none(" "@, '?');
            lemma_count_none(" ?"@.drop_last(), '?');
            lemma_count_none(key, '?');
            lemma_count_op(op, negated);
            lemma_count_add(key, " "@, '?');
            lemma_count_add(key + " "@, sql_op_text(op, negated), '?');
            lemma_count_add(key + " "@ + sql_op_text(op, negated), " ?"@, '?');
        },
    }
}

/// Whether every key in a tree is made of word characters.
pub open spec fn keys_are_words(e: ExprV) -> bool {
    forall|i: int| 0 <= i < leaves(e).len() ==> key_is_word(#[trigger] leaves(e)[i])
}

proof fn lemma_wrapped(body: Seq<char>, c: char)
    requires
        c == '?',
    ensures
        count_char("("@ + body + ")"@, c) == count_char(body, c),
        count_char("NOT ("@ + body + ")"@, c) == count_char(body, c),
{
    reveal_strlit("(");
    reveal_strlit("NOT (");
    reveal_strlit(")");
    lemma_count_none("("@, c);
    lemma_count_none("NOT ("@, c);
    lemma_count_none(")"@, c);
    lemma_count_add("("@, body, c);
    lemma_count_add("("@ + body, ")"@, c);
    lemma_count_add("NOT ("@, body, c);
    lemma_count_add("NOT ("@ + body, ")"@, c);
}

proof fn lemma_placeholders(e: ExprV, ctx: Ctx, cols: Map<Seq<char>, ColumnType>)
    requires
        keys_are_unmarked(e),
        expr_sql(e, ctx, cols) is Ok,
    ensures
        count_char(expr_sql(e, ctx, cols)->Ok_0.0, '?') == expr_sql(e, ctx, cols)->Ok_0.1.len(),
        expr_sql(e, ctx, cols)->Ok_0.1.len() == leaves(e).len(),
    decreases e,
{
    reveal_strlit(" AND ");
    reveal_strlit(" OR ");
    match e {
        ExprV::Term(c) => {
            assert(key_is_unmarked(leaves(e)[0]));
            lemma_clause_count(c, cols);
        },
        ExprV::Not(inner) => {
            assert(leaves(e) == leaves(*inner));
            lemma_placeholders(*inner, Ctx::InNot, cols);
            lemma_wrapped(expr_sql(*inner, Ctx::InNot, cols)->Ok_0.0, '?');
        },
        ExprV::And(items) => {
            assert(leaves(e) == list_leaves(items));
            lemma_list_placeholders(items, Ctx::InAnd, cols);
            let parts = list_sql(items, Ctx::InAnd, cols)->Ok_0.0;
            lemma_count_none(" AND "@, '?');
            lemma_count_join(parts, " AND "@, '?');
            lemma_wrapped(join(parts, " AND "@), '?');
        },
        ExprV::Or(items) => {
            assert(leaves(e) == list_leaves(items));
            lemma_list_placeholders(items, Ctx::InOr, cols);
            let parts = list_sql(items, Ctx::InOr, cols)->Ok_0.0;
            lemma_count_none(" OR "@, '?');
            lemma_count_join(parts, " OR "@, '?');
            lemma_wrapped(join(parts, " OR "@), '?');
        },
    }
}

proof fn lemma_list_placeholders(items: Seq<ExprV>, ctx: Ctx, cols: Map<Seq<char>, ColumnType>)
    requires
        forall|i: int|
            0 <= i < list_leaves(items).len() ==> key_is_unmarked(#[trigger] list_leaves(items)[i]),
        list_sql(items, ctx, cols) is Ok,
    ensures
        count_in_all(list_sql(items, ctx, cols)->Ok_0.0, '?') == list_sql(
            items,
            ctx,
            cols,
        )->Ok_0.1.len(),
        list_sql(items, ctx, cols)->Ok_0.1.len() == list_leaves(items).len(),
    decreases items,
{
    if items.len() > 0 {
        let front = items.drop_last();
        let e = items.last();
        assert forall|i: int| 0 <= i < list_leaves(front).len() implies key_is_unmarked(
            #[trigger] list_leaves(front)[i],
        ) by {
            assert(list_leaves(items)[i] == list_leaves(front)[i]);
        }
        assert forall|i: int| 0 <= i < leaves(e).len() implies key_is_unmarked(
            #[trigger] leaves(e)[i],
        ) by {
            assert(list_leaves(items)[list_leaves(front).len() + i] == leaves(e)[i]);
        }
        lemma_list_placeholders(front, ctx, cols);
        lemma_placeholders(e, ctx, cols);
        let parts = list_sql(front, ctx, cols)->Ok_0.0;
        let sql = expr_sql(e, ctx, cols)->Ok_0.0;
        assert(parts.push(sql).drop_last() == parts);
    }
}

/// The value that a clause binds: what it asks for, between percent signs for a text
/// search and for `Like`.
pub open spec fn bound_for(c: ClauseV) -> Seq<char> {
    match c {
        ClauseV::TextSearch { text, .. } => "%"@ + text + "%"@,
        ClauseV::Comparison { op, value, .. } => if op == Op::Like {
            "%"@ + value + "%"@
        } else {
            value
        },
    }
}

/// The values that clauses bind, in their order.
pub open spec fn all_bound(cs: Seq<ClauseV>) -> Seq<Seq<char>> {
    Seq::new(cs.len(), |i: int| bound_for(cs[i]))
}

/// The values of a rendered filter are those of its leaves, from left to right.
pub proof fn law_values_are_those_of_the_leaves(
    e: ExprV,
    ctx: Ctx,
    cols: Map<Seq<char>, ColumnType>,
)
    requires
        expr_sql(e, ctx, cols) is Ok,
    ensures
        expr_sql(e, ctx, cols)->Ok_0.1 == all_bound(leaves(e)),
    decreases e,
{
    match e {
        ExprV::Term(c) => {
            assert(expr_sql(e, ctx, cols)->Ok_0.1 =~= all_bound(leaves(e)));
        },
        ExprV::Not(inner) => law_values_are_those_of_the_leaves(*inner, Ctx::InNot, cols),
        ExprV::And(items) => lemma_list_values(items, Ctx::InAnd, cols),
        ExprV::Or(items) => lemma_list_values(items, Ctx::InOr, cols),
    }
}

proof fn lemma_list_values(items: Seq<ExprV>, ctx: Ctx, cols: Map<Seq<char>, ColumnType>)
    requires
        list_sql(items, ctx, cols) is Ok,
    ensures
        list_sql(items, ctx, cols)->Ok_0.1 == all_bound(list_leaves(items)),
    decreases items,
{
    if items.len() > 0 {
        let front = items.drop_last();
        lemma_list_values(front, ctx, cols);
        law_values_are_those_of_the_leaves(items.last(), ctx, cols);
        assert(all_bound(list_leaves(front)) + all_bound(leaves(items.last())) =~= all_bound(
            list_leaves(items),
        ));
    }
    assert(list_sql(items, ctx, cols)->Ok_0.1 =~= all_bound(list_leaves(items)));
}

/// Whether a clause names a whitelisted column, or none.
pub open spec fn key_is_listed(c: ClauseV, cols: Map<Seq<char>, ColumnType>) -> bool {
    match c {
        ClauseV::Comparison { key, .. } => cols.contains_key(key),
        ClauseV::TextSearch { .. } => true,
    }
}

/// A filter is rendered only if every key in it is a whitelisted column.
pub proof fn law_only_listed_columns(e: ExprV, ctx: Ctx, cols: Map<Seq<char>, ColumnType>)
    requires
        expr_sql(e, ctx, cols) is Ok,
    ensures
        forall|i: int| 0 <= i < leaves(e).len() ==> key_is_listed(#[trigger] leaves(e)[i], cols),
    decreases e,
{
    match e {
        ExprV::Term(c) => {},
        ExprV::Not(inner) => {
            assert(leaves(e) == leaves(*inner));
            law_only_listed_columns(*inner, Ctx::InNot, cols);
        },
        ExprV::And(items) => {
            assert(leaves(e) == list_leaves(items));
            lemma_list_listed(items, Ctx::InAnd, cols);
        },
        ExprV::Or(items) => {
            assert(leaves(e) == list_leaves(items));
            lemma_list_listed(items, Ctx::InOr, cols);
        },
    }
}

proof fn lemma_list_listed(items: Seq<ExprV>, ctx: Ctx, cols: Map<Seq<char>, ColumnType>)
    requires
        list_sql(items, ctx, cols) is Ok,
    ensures
        forall|i: int|
            0 <= i < list_leaves(items).len() ==> key_is_listed(
                #[trigger] list_leaves(items)[i],
                cols,
            ),
    decreases items,
{
    if items.len() > 0 {
        let front = items.drop_last();
        lemma_list_listed(front, ctx, cols);
        law_only_listed_columns(items.last(), ctx, cols);
        assert forall|i: int| 0 <= i < list_leaves(items).len() implies key_is_listed(
            #[trigger] list_leaves(items)[i],
            cols,
        ) by {
            let n = list_leaves(front).len();
            if i < n {
                assert(list_leaves(items)[i] == list_leaves(front)[i]);
            } else {
                assert(list_leaves(items)[i] == leaves(items.last())[i - n]);
            }
        }
    }
}

/// Whether two trees differ at most in the values and texts that they hold.
pub open spec fn same_shape(a: ExprV, b: ExprV) -> bool
    decreases a,
{
    match (a, b) {
        (ExprV::Term(c), ExprV::Term(d)) => match (c, d) {
            (
                ClauseV::Comparison { key, op, negated, .. },
                ClauseV::Comparison { key: key2, op: op2, negated: negated2, .. },
            ) => key == key2 && op == op2 && negated == negated2,
            (
                ClauseV::TextSearch { negated, .. },
                ClauseV::TextSearch { negated: negated2, .. },
            ) => negated == negated2,
            _ => false,
        },
        (ExprV::Not(x), ExprV::Not(y)) => same_shape(*x, *y),
        (ExprV::And(xs), ExprV::And(ys)) => xs.len() == ys.len() && forall|i: int|
            0 <= i < xs.len() ==> same_shape(#[trigger] xs[i], ys[i]),
        (ExprV::Or(xs), ExprV::Or(ys)) => xs.len() == ys.len() && forall|i: int|
            0 <= i < xs.len() ==> same_shape(#[trigger] xs[i], ys[i]),
        _ => false,
    }
}

/// No part of the SQL comes from a value: two filters that differ in their
/// values only, and that are both rendered, have the same SQL.
pub proof fn law_sql_holds_no_value(
    a: ExprV,
    b: ExprV,
    ctx: Ctx,
    cols: Map<Seq<char>, ColumnType>,
)
    requires
        same_shape(a, b),
        expr_sql(a, ctx, cols) is Ok,
        expr_sql(b, ctx, cols) is Ok,
    ensures
        expr_sql(a, ctx, cols)->Ok_0.0 == expr_sql(b, ctx, cols)->Ok_0.0,
    decreases a,
{
    match (a, b) {
        (ExprV::Not(x), ExprV::Not(y)) => law_sql_holds_no_value(*x, *y, Ctx::InNot, cols),
        (ExprV::And(xs), ExprV::And(ys)) => lemma_list_holds_no_value(xs, ys, Ctx::InAnd, cols),
        (ExprV::Or(xs), ExprV::Or(ys)) => lemma_list_holds_no_value(xs, ys, Ctx::InOr, cols),
        _ => {},
    }
}

proof fn lemma_list_holds_no_value(
    xs: Seq<ExprV>,
    ys: Seq<ExprV>,
    ctx: Ctx,
    cols: Map<Seq<char>, ColumnType>,
)
    requires
        xs.len() == ys.len(),
        forall|i: int| 0 <= i < xs.len() ==> same_shape(#[trigger] xs[i], ys[i]),
        list_sql(xs, ctx, cols) is Ok,
        list_sql(ys, ctx, cols) is Ok,
    ensures
        list_sql(xs, ctx, cols)->Ok_0.0 == list_sql(ys, ctx, cols)->Ok_0.0,
    decreases xs,
{
    if xs.len() > 0 {
        assert(same_shape(xs[xs.len() - 1], ys[xs.len() - 1]));
        assert forall|i: int| 0 <= i < xs.len() - 1 implies same_shape(
            #[trigger] xs.drop_last()[i],
            ys.drop_last()[i],
        ) by {
            assert(same_shape(xs[i], ys[i]));
        }
        lemma_list_holds_no_value(xs.drop_last(), ys.drop_last(), ctx, cols);
        law_sql_holds_no_value(xs.last(), ys.last(), ctx, cols);
    }
}

/// What the grammar gives for a clause: a word as its key, and a value.
pub open spec fn well_formed_clause(c: ClauseV) -> bool {
    match c {
        ClauseV::Comparison { key, value, .. } => key.len() > 0 && all_word_chars(key)
            && value.len() > 0,
        ClauseV::TextSearch { .. } => true,
    }
}

/// Whether every leaf of a tree is well-formed.
pub open spec fn well_formed(e: ExprV) -> bool {
    forall|i: int| 0 <= i < leaves(e).len() ==> well_formed_clause(#[trigger] leaves(e)[i])
}

/// Whether every leaf of several trees is well-formed.
pub open spec fn all_well_formed(items: Seq<ExprV>) -> bool {
    forall|i: int|
        0 <= i < list_leaves(items).len() ==> well_formed_clause(#[trigger] list_leaves(items)[i])
}

proof fn lemma_push_well_formed(items: Seq<ExprV>, e: ExprV)
    requires
        all_well_formed(items),
        well_formed(e),
    ensures
        all_well_formed(items.push(e)),
{
    let all = items.push(e);
    assert(all.drop_last() == items);
    assert forall|i: int| 0 <= i < list_leaves(all).len() implies well_formed_clause(
        #[trigger] list_leaves(all)[i],
    ) by {
        let n = list_leaves(items).len();
        if i < n {
            assert(list_leaves(all)[i] == list_leaves(items)[i]);
        } else {
            assert(list_leaves(all)[i] == leaves(e)[i - n]);
        }
    }
}

proof fn lemma_single_well_formed(e: ExprV)
    requires
        well_formed(e),
    ensures
        all_well_formed(seq![e]),
{
    assert(seq![e] == Seq::<ExprV>::empty().push(e));
    lemma_push_well_formed(Seq::empty(), e);
}

proof fn lemma_group(items: Seq<ExprV>)
    requires
        all_well_formed(items),
        items.len() == 1,
    ensures
        well_formed(items[0]),
{
    assert(list_leaves(items.drop_last()) == Seq::<ClauseV>::empty());
    assert(list_leaves(items) == leaves(items[0]));
}

proof fn lemma_or_well_formed(ts: Seq<TokenV>, p: int)
    ensures
        or_expr(ts, p) matches Ok(x) ==> well_formed(x.0),
    decreases ts.len() - p, 5int,
{
    lemma_and_well_formed(ts, p);
    if let Ok((e, q)) = and_expr(ts, p) {
        if p < q <= ts.len() {
            lemma_single_well_formed(e);
            lemma_or_rest_well_formed(ts, seq![e], q);
            if let Ok((items, r)) = or_rest(ts, seq![e], q) {
                if items.len() == 1 {
                    lemma_group(items);
                } else {
                    assert(leaves(ExprV::Or(items)) == list_leaves(items));
                }
            }
        }
    }
}

proof fn lemma_or_rest_well_formed(ts: Seq<TokenV>, items: Seq<ExprV>, p: int)
    requires
        all_well_formed(items),
    ensures
        or_rest(ts, items, p) matches Ok(x) ==> all_well_formed(x.0),
    decreases ts.len() - p, 4int,
{
    if at_word(ts, p, "or"@) {
        lemma_and_well_formed(ts, p + 1);
        if let Ok((e, q)) = and_expr(ts, p + 1) {
            if p < q <= ts.len() {
                lemma_push_well_formed(items, e);
                lemma_or_rest_well_formed(ts, items.push(e), q);
            }
        }
    }
}

proof fn lemma_and_well_formed(ts: Seq<TokenV>, p: int)
    ensures
        and_expr(ts, p) matches Ok(x) ==> well_formed(x.0),
    decreases ts.len() - p, 3int,
{
    lemma_unary_well_formed(ts, p);
    if let Ok((e, q)) = unary(ts, p) {
        if p < q <= ts.len() {
            lemma_single_well_formed(e);
            lemma_and_rest_well_formed(ts, seq![e], q);
            if let Ok((items, r)) = and_rest(ts, seq![e], q) {
                if items.len() == 1 {
                    lemma_group(items);
                } else {
                    assert(leaves(ExprV::And(items)) == list_leaves(items));
                }
            }
        }
    }
}

proof fn lemma_and_rest_well_formed(ts: Seq<TokenV>, items: Seq<ExprV>, p: int)
    requires
        all_well_formed(items),
    ensures
        and_rest(ts, items, p) matches Ok(x) ==> all_well_formed(x.0),
    decreases ts.len() - p, 2int,
{
    let from = if at_word(ts, p, "and"@) {
        p + 1
    } else {
        p
    };
    if at_word(ts, p, "and"@) || at_operand(ts, p) {
        lemma_unary_well_formed(ts, from);
        if let Ok((e, q)) = unary(ts, from) {
            if p < q <= ts.len() {
                lemma_push_well_formed(items, e);
                lemma_and_rest_well_formed(ts, items.push(e), q);
            }
        }
    }
}

proof fn lemma_unary_well_formed(ts: Seq<TokenV>, p: int)
    ensures
        unary(ts, p) matches Ok(x) ==> well_formed(x.0),
    decreases ts.len() - p, 1int,
{
    if 0 <= p < ts.len() && ts[p] == TokenV::Word("-"@) {
        lemma_unary_well_formed(ts, p + 1);
        if let Ok((e, q)) = unary(ts, p + 1) {
            if e is Term {
                assert(well_formed_clause(leaves(e)[0]));
            } else {
                assert(leaves(negation(e)) == leaves(e));
            }
        }
    } else {
        lemma_atom_well_formed(ts, p);
    }
}

proof fn lemma_atom_well_formed(ts: Seq<TokenV>, p: int)
    ensures
        atom(ts, p) matches Ok(x) ==> well_formed(x.0),
    decreases ts.len() - p, 0int,
{
    if 0 <= p < ts.len() {
        match ts[p] {
            TokenV::LParen => lemma_or_well_formed(ts, p + 1),
            _ => {},
        }
    }
}

/// Every key that a filter text gives is made of letters, digits and
/// underscores, and no value is empty.
pub proof fn law_parsed_clauses_are_well_formed(input: Seq<char>)
    ensures
        filter_of(input) matches Ok(Some(e)) ==> well_formed(e) && keys_are_words(e),
{
    if let Ok(raw) = tokens_of(trim(input)) {
        lemma_or_well_formed(glued(raw), 0);
    }
    if let Ok(Some(e)) = filter_of(input) {
        assert forall|i: int| 0 <= i < leaves(e).len() implies key_is_word(
            #[trigger] leaves(e)[i],
        ) by {
            assert(well_formed_clause(leaves(e)[i]));
        }
    }
}

/// From text to SQL: what a filter text compiles to binds the values of its terms in
/// their order, and holds one placeholder for each.
pub proof fn law_compiled_sql_is_parameterized(
    input: Seq<char>,
    cols: Map<Seq<char>, ColumnType>,
)
    requires
        filter_of(input) is Ok,
        filter_sql(filter_of(input)->Ok_0, cols) is Ok,
    ensures
        filter_sql(filter_of(input)->Ok_0, cols)->Ok_0.1 == all_bound(
            terms_of(filter_of(input)->Ok_0),
        ),
        count_char(filter_sql(filter_of(input)->Ok_0, cols)->Ok_0.0, '?') == terms_of(
            filter_of(input)->Ok_0,
        ).len(),
{
    law_parsed_clauses_are_well_formed(input);
    match filter_of(input)->Ok_0 {
        Some(e) => {
            assert forall|i: int| 0 <= i < leaves(e).len() implies key_is_unmarked(
                #[trigger] leaves(e)[i],
            ) by {
                assert(key_is_word(leaves(e)[i]));
                lemma_word_is_unmarked(leaves(e)[i]);
            }
            lemma_placeholders(e, Ctx::Top, cols);
            law_values_are_those_of_the_leaves(e, Ctx::Top, cols);
        },
        None => {
            assert(Seq::<Seq<char>>::empty() =~= all_bound(Seq::empty()));
        },
    }
}

proof fn lemma_word_is_unmarked(c: ClauseV)
    requires
        key_is_word(c),
    ensures
        key_is_unmarked(c),
{
    if let ClauseV::Comparison { key, .. } = c {
        assert forall|i: int| 0 <= i < key.len() implies #[trigger] key[i] != '?' by {
            assert(is_word_char(key[i]));
        }
    }
}

/// Whether two filters differ at most in the values and texts that they hold.
pub open spec fn same_filter_shape(f: Option<ExprV>, g: Option<ExprV>) -> bool {
    match (f, g) {
        (Some(a), Some(b)) => same_shape(a, b),
        (None, None) => true,
        _ => false,
    }
}

/// Values are always bound and never part of the SQL, whatever the filter: filters that
/// differ in their values only have the same SQL, which holds one placeholder for each
/// term, and the values that are bound are those of the terms, in their order.
pub proof fn law_values_are_always_bound(
    f: Option<ExprV>,
    g: Option<ExprV>,
    cols: Map<Seq<char>, ColumnType>,
)
    requires
        columns_are_unmarked(cols),
        same_filter_shape(f, g),
        filter_sql(f, cols) is Ok,
        filter_sql(g, cols) is Ok,
    ensures
        filter_sql(f, cols)->Ok_0.0 == filter_sql(g, cols)->Ok_0.0,
        filter_sql(f, cols)->Ok_0.1 == all_bound(terms_of(f)),
        filter_sql(f, cols)->Ok_0.1.len() == terms_of(f).len(),
        count_char(filter_sql(f, cols)->Ok_0.0, '?') == terms_of(f).len(),
{
    match (f, g) {
        (Some(a), Some(b)) => {
            law_sql_holds_no_value(a, b, Ctx::Top, cols);
            law_only_listed_columns(a, Ctx::Top, cols);
            assert forall|i: int| 0 <= i < leaves(a).len() implies key_is_unmarked(
                #[trigger] leaves(a)[i],
            ) by {
                assert(key_is_listed(leaves(a)[i], cols));
            }
            lemma_placeholders(a, Ctx::Top, cols);
            law_values_are_those_of_the_leaves(a, Ctx::Top, cols);
        },
        _ => {
            assert(Seq::<Seq<char>>::empty() =~= all_bound(Seq::empty()));
        },
    }
}

/// Two filter texts that differ in their values only compile to the same SQL.
pub proof fn law_texts_of_one_shape_have_one_sql(
    a: Seq<char>,
    b: Seq<char>,
    cols: Map<Seq<char>, ColumnType>,
)
    requires
        filter_of(a) matches Ok(Some(_)),
        filter_of(b) matches Ok(Some(_)),
        same_shape(filter_of(a)->Ok_0->0, filter_of(b)->Ok_0->0),
        filter_sql(filter_of(a)->Ok_0, cols) is Ok,
        filter_sql(filter_of(b)->Ok_0, cols) is Ok,
    ensures
        filter_sql(filter_of(a)->Ok_0, cols)->Ok_0.0 == filter_sql(
            filter_of(b)->Ok_0,
            cols,
        )->Ok_0.0,
{
    law_sql_holds_no_value(filter_of(a)->Ok_0->0, filter_of(b)->Ok_0->0, Ctx::Top, cols);
}

/// Negation inverts an operator: the negation of the inverse is the operator.
pub proof fn law_negation_inverts(a: Op, b: Op)
    requires
        sql_op_text(a, true) == sql_op_text(b, false),
    ensures
        sql_op_text(b, true) == sql_op_text(a, false),
{
    reveal_strlit("=");
    reveal_strlit("!=");
    reveal_strlit(">");
    reveal_strlit(">=");
    reveal_strlit("<");
    reveal_strlit("<=");
    reveal_strlit("ILIKE");
    reveal_strlit("NOT ILIKE");
    let x = sql_op_text(a, true);
    assert(x.len() > 0);
    if x.len() == 1 {
        assert(x[0] == sql_op_text(b, false)[0]);
    } else {
        assert(x[0] == sql_op_text(b, false)[0] && x[1] == sql_op_text(b, false)[1]);
    }
}

/// The result of parsing one token further on.
pub open spec fn shifted(r: Parsed) -> Parsed {
    match r {
        Ok((e, q)) => Ok((e, q + 1)),
        Err(f) => Err(f),
    }
}

/// The list result of parsing one token further on.
pub open spec fn list_shifted(r: ParsedList) -> ParsedList {
    match r {
        Ok((es, q)) => Ok((es, q + 1)),
        Err(f) => Err(f),
    }
}

pub(crate) proof fn lemma_shift_or(ts: Seq<TokenV>, k: int, p: int)
    requires
        0 <= k <= p < ts.len(),
    ensures
        or_expr(ts, p + 1) == shifted(or_expr(ts.remove(k), p)),
    decreases ts.len() - p, 5int,
{
    let us = ts.remove(k);
    lemma_shift_and(ts, k, p);
    if let Ok((e, q)) = and_expr(us, p) {
        if p < q <= us.len() {
            lemma_shift_or_rest(ts, k, seq![e], q);
        }
    }
}

pub(crate) proof fn lemma_shift_or_rest(ts: Seq<TokenV>, k: int, items: Seq<ExprV>, p: int)
    requires
        0 <= k <= p <= ts.len() - 1,
    ensures
        or_rest(ts, items, p + 1) == list_shifted(or_rest(ts.remove(k), items, p)),
    decreases ts.len() - p, 4int,
{
    let us = ts.remove(k);
    if p < us.len() {
        assert(us[p] == ts[p + 1]);
    }
    if at_word(us, p, "or"@) {
        if p + 1 < ts.len() - 1 {
            lemma_shift_and(ts, k, p + 1);
        } else {
            lemma_end(us, p + 1);
            lemma_end(ts, p + 2);
        }
        if let Ok((e, q)) = and_expr(us, p + 1) {
            if p < q <= us.len() {
                lemma_shift_or_rest(ts, k, items.push(e), q);
            }
        }
    }
}

/// Nothing can be parsed at the end.
proof fn lemma_end(ts: Seq<TokenV>, p: int)
    requires
        p >= ts.len(),
    ensures
        unary(ts, p) == Err::<(ExprV, int), FilterFault>(fault("unexpected end of filter"@)),
        and_expr(ts, p) == Err::<(ExprV, int), FilterFault>(fault("unexpected end of filter"@)),
        or_expr(ts, p) == Err::<(ExprV, int), FilterFault>(fault("unexpected end of filter"@)),
{
    reveal_with_fuel(or_expr, 2);
    reveal_with_fuel(and_expr, 2);
    reveal_with_fuel(unary, 2);
    reveal_with_fuel(atom, 2);
}

proof fn lemma_shift_and(ts: Seq<TokenV>, k: int, p: int)
    requires
        0 <= k <= p < ts.len(),
    ensures
        and_expr(ts, p + 1) == shifted(and_expr(ts.remove(k), p)),
    decreases ts.len() - p, 3int,
{
    let us = ts.remove(k);
    lemma_shift_unary(ts, k, p);
    if let Ok((e, q)) = unary(us, p) {
        if p < q <= us.len() {
            lemma_shift_and_rest(ts, k, seq![e], q);
        }
    }
}

pub(crate) proof fn lemma_shift_and_rest(ts: Seq<TokenV>, k: int, items: Seq<ExprV>, p: int)
    requires
        0 <= k <= p <= ts.len() - 1,
    ensures
        and_rest(ts, items, p + 1) == list_shifted(and_rest(ts.remove(k), items, p)),
    decreases ts.len() - p, 2int,
{
    let us = ts.remove(k);
    if p < us.len() {
        assert(us[p] == ts[p + 1]);
    }
    let from = if at_word(us, p, "and"@) {
        p + 1
    } else {
        p
    };
    if at_word(us, p, "and"@) || at_operand(us, p) {
        if from < ts.len() - 1 {
            lemma_shift_unary(ts, k, from);
        } else {
            lemma_end(us, from);
            lemma_end(ts, from + 1);
        }
        if let Ok((e, q)) = unary(us, from) {
            if p < q <= us.len() {
                lemma_shift_and_rest(ts, k, items.push(e), q);
            }
        }
    }
}

pub(crate) proof fn lemma_shift_unary(ts: Seq<TokenV>, k: int, p: int)
    requires
        0 <= k <= p < ts.len(),
    ensures
        unary(ts, p + 1) == shifted(unary(ts.remove(k), p)),
    decreases ts.len() - p, 1int,
{
    let us = ts.remove(k);
    if p < us.len() {
        assert(us[p] == ts[p + 1]);
        if us[p] == TokenV::Word("-"@) {
            lemma_shift_unary(ts, k, p + 1);
        } else {
            lemma_shift_atom(ts, k, p);
        }
    } else {
        lemma_end(us, p);
        lemma_end(ts, p + 1);
    }
}

proof fn lemma_shift_atom(ts: Seq<TokenV>, k: int, p: int)
    requires
        0 <= k <= p < ts.len() - 1,
    ensures
        atom(ts, p + 1) == shifted(atom(ts.remove(k), p)),
    decreases ts.len() - p, 0int,
{
    let us = ts.remove(k);
    assert(us[p] == ts[p + 1]);
    match us[p] {
        TokenV::LParen => {
            lemma_shift_or(ts, k, p + 1);
            if let Ok((e, q)) = or_expr(us, p + 1) {
                lemma_or_progress(us, p + 1);
                if q < us.len() {
                    assert(us[q] == ts[q + 1]);
                }
            }
        },
        _ => {},
    }
}

pub(crate) proof fn lemma_or_progress(ts: Seq<TokenV>, p: int)
    ensures
        or_expr(ts, p) matches Ok(x) ==> p < x.1 <= ts.len(),
    decreases ts.len() - p,
{
    if let Ok((e, q)) = and_expr(ts, p) {
        if p < q <= ts.len() {
            lemma_or_rest_progress(ts, seq![e], q);
        }
    }
}

pub(crate) proof fn lemma_or_rest_progress(ts: Seq<TokenV>, items: Seq<ExprV>, p: int)
    requires
        p <= ts.len(),
    ensures
        or_rest(ts, items, p) matches Ok(x) ==> p <= x.1 <= ts.len(),
    decreases ts.len() - p,
{
    if at_word(ts, p, "or"@) {
        if let Ok((e, q)) = and_expr(ts, p + 1) {
            if p < q <= ts.len() {
                lemma_or_rest_progress(ts, items.push(e), q);
            }
        }
    }
}

/// Adjacent operands mean what operands joined by `AND` mean: after any
/// operands, an `AND` before an operand may be left out.
pub proof fn law_implicit_and(ts: Seq<TokenV>, items: Seq<ExprV>, p: int)
    requires
        at_word(ts, p, "and"@),
        at_operand(ts, p + 1),
    ensures
        and_rest(ts, items, p) == list_shifted(and_rest(ts.remove(p), items, p)),
{
    let us = ts.remove(p);
    assert(us[p] == ts[p + 1]);
    reveal_strlit("and");
    lemma_shift_unary(ts, p, p);
    if let Ok((e, q)) = unary(us, p) {
        lemma_unary_progress(us, p);
        lemma_shift_and_rest(ts, p, items.push(e), q);
    }
}

pub(crate) proof fn lemma_unary_progress(ts: Seq<TokenV>, p: int)
    ensures
        unary(ts, p) matches Ok(x) ==> p < x.1 <= ts.len(),
    decreases ts.len() - p,
{
    reveal_with_fuel(unary, 2);
    reveal_with_fuel(atom, 2);
    if 0 <= p < ts.len() {
        if ts[p] == TokenV::Word("-"@) {
            lemma_unary_progress(ts, p + 1);
        } else if ts[p] is LParen {
            lemma_or_progress(ts, p + 1);
        }
    }
}

} // verus!
