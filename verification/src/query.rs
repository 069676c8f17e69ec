//! The filter language of the search bar:
//! `service:api level:error user_id:42 "connection refused"`.
//!
//! A filter compiles to the body of a SQL `WHERE` clause and a list of bound
//! parameters. Keys are looked up in a whitelist of columns; values are always
//! bound, never written into the SQL.
//!
//! ```text
//! filter     := or_expr
//! or_expr    := and_expr ( OR and_expr )*
//! and_expr   := unary ( (AND)? unary )*
//! unary      := '-' unary | atom
//! atom       := '(' or_expr ')' | clause
//! clause     := key op value | bare_text
//! op         := ':' | '=' | '!=' | '>=' | '<=' | '>' | '<' | '~'
//! ```
use vstd::prelude::*;
use vstd::slice::slice_subrange;
use vstd::string::*;
use vstd::utf8::encode_utf8;

use crate::assoc::{entry_map, lemma_entry_dom, lemma_entry_last};
use crate::hot::{HotAttribute, HotAttributeV, HotType, attrs_view};
use crate::text::{
    all_word_chars, cat, cat3, cat5, char_is_space, chars_of, dec, dec_of, find_by, find_char,
    float_text_ok, is_float_text, is_space, join, join_with, just, lemma_find_by, lower,
    only_word_chars, parse_i64, parse_i64_text, same, string_between, string_of, texts, to_lower,
    trim, trimmed,
};
use crate::time::Timestamp;

verus! {

/// Operator between the key and the value of a comparison.
#[derive(Debug, Clone, Copy, PartialEq, Eq, Structural)]
pub enum Op {
    Eq,
    Ne,
    Gt,
    Ge,
    Lt,
    Le,
    /// Substring match, `~`.
    Like,
}

/// One leaf of a filter.
#[derive(Debug, PartialEq)]
pub enum Clause {
    /// `key op value`, or its negation.
    Comparison { key: String, op: Op, value: String, negated: bool },
    /// Text that the message must hold, or must not hold.
    TextSearch { text: String, negated: bool },
}

/// A filter as a tree of clauses.
#[derive(Debug, PartialEq)]
pub enum Expr {
    Term(Clause),
    /// A negated group. A negated clause carries its own flag instead.
    Not(Box<Expr>),
    And(Vec<Expr>),
    Or(Vec<Expr>),
}

/// A compiled filter. No root: nothing was asked for.
#[derive(Debug, PartialEq)]
pub struct CompiledFilter {
    pub root: Option<Expr>,
}

/// Type of a column that a filter may name.
#[derive(Debug, Clone, Copy, PartialEq, Eq, Structural)]
pub enum ColumnType {
    Text,
    Bigint,
    Double,
    Boolean,
    Timestamp,
}

/// The columns that a filter may name.
#[derive(Debug, Clone)]
pub struct ColumnWhitelist {
    entries: Vec<(String, ColumnType)>,
}

/// Why a filter was refused.
#[derive(Debug, Clone, PartialEq)]
pub enum FilterError {
    /// The text is no filter; `pos` counts bytes.
    Syntax { pos: usize, msg: String },
    UnknownColumn(String),
    NumericOpOnText { key: String, op: Op },
    LikeOnNonText(String),
    ValueParseError { key: String, value: String, expected: String },
}

/// Which connector directly encloses a node.
#[derive(Debug, Clone, Copy, PartialEq, Eq, Structural)]
pub enum Ctx {
    Top,
    InAnd,
    InOr,
    InNot,
}

/// A token of the filter language.
#[derive(Debug, PartialEq)]
pub enum Token {
    Word(String),
    Quoted(String),
    LParen,
    RParen,
}

/// A value bound to a placeholder.
#[derive(Debug, Clone, PartialEq)]
pub enum BoundValue {
    Text(String),
    BigInt(i64),
    /// The text of a floating-point number.
    Double(String),
}

// ---------------------------------------------------------------------
// Views
// ---------------------------------------------------------------------
/// What a [`Clause`] says.
pub enum ClauseV {
    Comparison { key: Seq<char>, op: Op, value: Seq<char>, negated: bool },
    TextSearch { text: Seq<char>, negated: bool },
}

/// What an [`Expr`] says.
pub enum ExprV {
    Term(ClauseV),
    Not(Box<ExprV>),
    And(Seq<ExprV>),
    Or(Seq<ExprV>),
}

/// What a [`Token`] says.
pub enum TokenV {
    Word(Seq<char>),
    Quoted(Seq<char>),
    LParen,
    RParen,
}

/// What a [`FilterError`] says.
pub enum FilterFault {
    Syntax { pos: usize, msg: Seq<char> },
    UnknownColumn(Seq<char>),
    NumericOpOnText { key: Seq<char>, op: Op },
    LikeOnNonText(Seq<char>),
    ValueParseError { key: Seq<char>, value: Seq<char>, expected: Seq<char> },
}

/// What a [`BoundValue`] says.
pub enum BoundValueV {
    Text(Seq<char>),
    BigInt(i64),
    Double(Seq<char>),
}

impl View for Clause {
    type V = ClauseV;

    open spec fn view(&self) -> ClauseV {
        match *self {
            Clause::Comparison { key, op, value, negated } => ClauseV::Comparison {
                key: key@,
                op,
                value: value@,
                negated,
            },
            Clause::TextSearch { text, negated } => ClauseV::TextSearch { text: text@, negated },
        }
    }
}

impl View for Token {
    type V = TokenV;

    open spec fn view(&self) -> TokenV {
        match *self {
            Token::Word(w) => TokenV::Word(w@),
            Token::Quoted(q) => TokenV::Quoted(q@),
            Token::LParen => TokenV::LParen,
            Token::RParen => TokenV::RParen,
        }
    }
}

impl View for FilterError {
    type V = FilterFault;

    open spec fn view(&self) -> FilterFault {
        match *self {
            FilterError::Syntax { pos, msg } => FilterFault::Syntax { pos, msg: msg@ },
            FilterError::UnknownColumn(k) => FilterFault::UnknownColumn(k@),
            FilterError::NumericOpOnText { key, op } => FilterFault::NumericOpOnText {
                key: key@,
                op,
            },
            FilterError::LikeOnNonText(k) => FilterFault::LikeOnNonText(k@),
            FilterError::ValueParseError {
                key,
                value,
                expected,
            } => FilterFault::ValueParseError { key: key@, value: value@, expected: expected@ },
        }
    }
}

impl View for BoundValue {
    type V = BoundValueV;

    open spec fn view(&self) -> BoundValueV {
        match *self {
            BoundValue::Text(t) => BoundValueV::Text(t@),
            BoundValue::BigInt(i) => BoundValueV::BigInt(i),
            BoundValue::Double(t) => BoundValueV::Double(t@),
        }
    }
}

/// The view of an expression.
pub open spec fn expr_view(e: Expr) -> ExprV
    decreases e,
{
    match e {
        Expr::Term(c) => ExprV::Term(c@),
        Expr::Not(inner) => ExprV::Not(Box::new(expr_view(*inner))),
        Expr::And(items) => ExprV::And(
            Seq::new(
                items@.len(),
                |i: int|
                    if 0 <= i < items.len() {
                        expr_view(items[i])
                    } else {
                        arbitrary()
                    },
            ),
        ),
        Expr::Or(items) => ExprV::Or(
            Seq::new(
                items@.len(),
                |i: int|
                    if 0 <= i < items.len() {
                        expr_view(items[i])
                    } else {
                        arbitrary()
                    },
            ),
        ),
    }
}

impl View for Expr {
    type V = ExprV;

    open spec fn view(&self) -> ExprV {
        expr_view(*self)
    }
}

/// The views of a list of expressions.
pub open spec fn exprs_view(v: Seq<Expr>) -> Seq<ExprV> {
    Seq::new(v.len(), |i: int| expr_view(v[i]))
}

/// The views of a list of tokens.
pub open spec fn tokens_view(v: Seq<Token>) -> Seq<TokenV> {
    Seq::new(v.len(), |i: int| v[i]@)
}

impl CompiledFilter {
    /// The tree, where there is one.
    pub open spec fn tree(self) -> Option<ExprV> {
        match self.root {
            Some(e) => Some(e@),
            None => None,
        }
    }
}

// ---------------------------------------------------------------------
// Columns
// ---------------------------------------------------------------------
impl ColumnType {
    /// Whether the column holds text.
    pub fn is_text(&self) -> (r: bool)
        ensures
            r == (*self == ColumnType::Text),
    {
        matches!(self, ColumnType::Text)
    }

    /// Whether the column holds numbers.
    pub fn is_numeric(&self) -> (r: bool)
        ensures
            r == (*self == ColumnType::Bigint || *self == ColumnType::Double),
    {
        matches!(self, ColumnType::Bigint | ColumnType::Double)
    }

    /// The column type of a promoted attribute.
    pub open spec fn of_hot(t: HotType) -> ColumnType {
        match t {
            HotType::Varchar => ColumnType::Text,
            HotType::Bigint => ColumnType::Bigint,
            HotType::Double => ColumnType::Double,
            HotType::Boolean => ColumnType::Boolean,
        }
    }
}

impl From<HotType> for ColumnType {
    fn from(t: HotType) -> (r: ColumnType) {
        match t {
            HotType::Varchar => ColumnType::Text,
            HotType::Bigint => ColumnType::Bigint,
            HotType::Double => ColumnType::Double,
            HotType::Boolean => ColumnType::Boolean,
        }
    }
}

impl vstd::std_specs::convert::FromSpecImpl<HotType> for ColumnType {
    open spec fn obeys_from_spec() -> bool {
        true
    }

    open spec fn from_spec(t: HotType) -> ColumnType {
        ColumnType::of_hot(t)
    }
}

/// The columns that every deployment has, with their types.
pub open spec fn builtin_columns() -> Seq<(Seq<char>, ColumnType)> {
    seq![
        ("service"@, ColumnType::Text),
        ("level"@, ColumnType::Text),
        ("source_host"@, ColumnType::Text),
        ("host"@, ColumnType::Text),
        ("protocol"@, ColumnType::Text),
        ("trace_id"@, ColumnType::Text),
        ("span_id"@, ColumnType::Text),
        ("geo_country"@, ColumnType::Text),
        ("message"@, ColumnType::Text),
        ("fingerprint"@, ColumnType::Text),
        ("raw_len"@, ColumnType::Bigint),
    ]
}

/// The columns that a list of promoted attributes adds.
pub open spec fn hot_columns(hot: Seq<HotAttributeV>) -> Seq<(Seq<char>, ColumnType)> {
    Seq::new(hot.len(), |i: int| (hot[i].name, ColumnType::of_hot(hot[i].duckdb_type)))
}

/// The standard columns: the built-in ones, then the promoted attributes, of
/// which the last one under a name counts.
pub open spec fn standard_columns(hot: Seq<HotAttributeV>) -> Map<Seq<char>, ColumnType> {
    entry_map(builtin_columns() + hot_columns(hot))
}

/// The named entries of a whitelist.
pub open spec fn column_entries(v: Seq<(String, ColumnType)>) -> Seq<(Seq<char>, ColumnType)> {
    Seq::new(v.len(), |i: int| (v[i].0@, v[i].1))
}

impl ColumnWhitelist {
    pub closed spec fn entries_view(&self) -> Seq<(Seq<char>, ColumnType)> {
        column_entries(self.entries@)
    }
}

impl View for ColumnWhitelist {
    type V = Map<Seq<char>, ColumnType>;

    open spec fn view(&self) -> Map<Seq<char>, ColumnType> {
        entry_map(self.entries_view())
    }
}

fn push_text_column(v: &mut Vec<(String, ColumnType)>, name: &str)
    ensures
        column_entries(final(v)@) == column_entries(old(v)@).push((name@, ColumnType::Text)),
{
    let ghost before = column_entries(v@);
    v.push((name.to_owned(), ColumnType::Text));
    assert(column_entries(v@) == before.push((name@, ColumnType::Text)));
}

impl ColumnWhitelist {
    /// The built-in columns and the promoted attributes.
    pub fn standard(hot: &[HotAttribute]) -> (r: Self)
        ensures
            r@ == standard_columns(attrs_view(hot@)),
    {
        let mut entries: Vec<(String, ColumnType)> = Vec::new();
        push_text_column(&mut entries, "service");
        push_text_column(&mut entries, "level");
        push_text_column(&mut entries, "source_host");
        push_text_column(&mut entries, "host");
        push_text_column(&mut entries, "protocol");
        push_text_column(&mut entries, "trace_id");
        push_text_column(&mut entries, "span_id");
        push_text_column(&mut entries, "geo_country");
        push_text_column(&mut entries, "message");
        push_text_column(&mut entries, "fingerprint");
        let ghost before = column_entries(entries@);
        entries.push(("raw_len".to_owned(), ColumnType::Bigint));
        assert(column_entries(entries@) == before.push(("raw_len"@, ColumnType::Bigint)));
        assert(column_entries(entries@) == builtin_columns());
        let ghost all = hot_columns(attrs_view(hot@));
        assert(builtin_columns() + all.take(0) == builtin_columns());
        for i in 0..hot.len()
            invariant
                all == hot_columns(attrs_view(hot@)),
                column_entries(entries@) == builtin_columns() + all.take(i as int),
        {
            let ghost before = column_entries(entries@);
            entries.push((hot[i].name.clone(), ColumnType::from(hot[i].duckdb_type)));
            assert(column_entries(entries@) == before.push(all[i as int]));
            assert(all.take(i + 1) == all.take(i as int).push(all[i as int]));
            assert(before.push(all[i as int]) == builtin_columns() + all.take(i + 1));
        }
        assert(all.take(all.len() as int) == all);
        ColumnWhitelist { entries }
    }

    /// The type of a column, where the whitelist holds it.
    pub fn get(&self, key: &str) -> (r: Option<ColumnType>)
        ensures
            r == (if self@.contains_key(key@) {
                Some(self@[key@])
            } else {
                None
            }),
    {
        let ghost s = self.entries_view();
        let mut i: usize = self.entries.len();
        while i > 0
            invariant
                i <= self.entries@.len(),
                s == column_entries(self.entries@),
                forall|j: int| i <= j < s.len() ==> (#[trigger] s[j]).0 != key@,
            decreases i,
        {
            i -= 1;
            if same(self.entries[i].0.as_str(), key) {
                assert(s[i as int].0 == key@);
                proof {
                    lemma_entry_last(s, i as int);
                }
                return Some(self.entries[i].1);
            }
        }
        proof {
            lemma_entry_dom(s, key@);
        }
        None
    }

    /// The names of the columns, each once.
    pub fn keys(&self) -> (r: Vec<&str>)
        ensures
            str_texts(r@).no_duplicates(),
            str_texts(r@).to_set() == self@.dom(),
    {
        let ghost s = self.entries_view();
        let mut out: Vec<&str> = Vec::new();
        for i in 0..self.entries.len()
            invariant
                s == column_entries(self.entries@),
                str_texts(out@).no_duplicates(),
                forall|k: Seq<char>|
                    str_texts(out@).contains(k) <==> exists|j: int| 0 <= j < i && #[trigger] s[j].0 == k,
        {
            let name = self.entries[i].0.as_str();
            assert(s[i as int].0 == name@);
            if !strs_contain(out.as_slice(), name) {
                let ghost before = str_texts(out@);
                out.push(name);
                assert(str_texts(out@) == before.push(name@));
                assert forall|k: Seq<char>|
                    str_texts(out@).contains(k) <==> exists|j: int|
                        0 <= j < i + 1 && #[trigger] s[j].0 == k by {
                    if before.contains(k) {
                        let w = choose|w: int| 0 <= w < before.len() && before[w] == k;
                        assert(before.push(name@)[w] == k);
                    }
                    if k == name@ {
                        assert(before.push(name@)[before.len() as int] == k);
                    }
                }
            }
        }
        assert forall|k: Seq<char>| str_texts(out@).to_set().contains(k) <==> self@.dom().contains(
            k,
        ) by {
            lemma_entry_dom(s, k);
        }
        assert(str_texts(out@).to_set() =~= self@.dom());
        out
    }
}

/// The texts of a list of string slices.
pub open spec fn str_texts(v: Seq<&str>) -> Seq<Seq<char>> {
    Seq::new(v.len(), |i: int| v[i]@)
}

fn strs_contain(v: &[&str], x: &str) -> (r: bool)
    ensures
        r == str_texts(v@).contains(x@),
{
    for i in 0..v.len()
        invariant
            forall|j: int| 0 <= j < i ==> v@[j]@ != x@,
    {
        if same(v[i], x) {
            assert(str_texts(v@)[i as int] == x@);
            return true;
        }
    }
    assert forall|j: int| 0 <= j < str_texts(v@).len() implies str_texts(v@)[j] != x@ by {
        assert(v@[j]@ != x@);
    }
    false
}


// ---------------------------------------------------------------------
// Copies
// ---------------------------------------------------------------------
proof fn lemma_list_view(items: Vec<Expr>)
    ensures
        expr_view(Expr::And(items)) == ExprV::And(exprs_view(items@)),
        expr_view(Expr::Or(items)) == ExprV::Or(exprs_view(items@)),
{
    assert(expr_view(Expr::And(items))->And_0 =~= exprs_view(items@));
    assert(expr_view(Expr::Or(items))->Or_0 =~= exprs_view(items@));
}

impl Clone for Clause {
    fn clone(&self) -> (r: Self)
        ensures
            r@ == self@,
    {
        match self {
            Clause::Comparison { key, op, value, negated } => Clause::Comparison {
                key: key.clone(),
                op: *op,
                value: value.clone(),
                negated: *negated,
            },
            Clause::TextSearch { text, negated } => Clause::TextSearch {
                text: text.clone(),
                negated: *negated,
            },
        }
    }
}

impl Clone for Expr {
    fn clone(&self) -> (r: Self)
        ensures
            r@ == self@,
        decreases self,
    {
        match self {
            Expr::Term(c) => Expr::Term(c.clone()),
            Expr::Not(inner) => Expr::Not(Box::new((**inner).clone())),
            Expr::And(items) => {
                let copy = copy_exprs(items);
                proof {
                    lemma_list_view(*items);
                    lemma_list_view(copy);
                }
                Expr::And(copy)
            },
            Expr::Or(items) => {
                let copy = copy_exprs(items);
                proof {
                    lemma_list_view(*items);
                    lemma_list_view(copy);
                }
                Expr::Or(copy)
            },
        }
    }
}

fn copy_exprs(v: &Vec<Expr>) -> (r: Vec<Expr>)
    ensures
        exprs_view(r@) == exprs_view(v@),
    decreases v,
{
    let mut out: Vec<Expr> = Vec::new();
    for i in 0..v.len()
        invariant
            exprs_view(out@) == exprs_view(v@).take(i as int),
    {
        let ghost before = exprs_view(out@);
        out.push(v[i].clone());
        assert(exprs_view(out@) == before.push(expr_view(v@[i as int])));
    }
    out
}

impl Clone for CompiledFilter {
    fn clone(&self) -> (r: Self)
        ensures
            r.tree() == self.tree(),
    {
        match &self.root {
            Some(e) => CompiledFilter { root: Some(e.clone()) },
            None => CompiledFilter { root: None },
        }
    }
}

impl Default for CompiledFilter {
    fn default() -> (r: Self)
        ensures
            r.tree() is None,
    {
        CompiledFilter { root: None }
    }
}

// ---------------------------------------------------------------------
// Rendering
// ---------------------------------------------------------------------
/// The SQL text of an operator; under negation, of its inverse.
pub open spec fn sql_op_text(op: Op, negated: bool) -> Seq<char> {
    match (op, negated) {
        (Op::Eq, false) => "="@,
        (Op::Eq, true) => "!="@,
        (Op::Ne, false) => "!="@,
        (Op::Ne, true) => "="@,
        (Op::Gt, false) => ">"@,
        (Op::Gt, true) => "<="@,
        (Op::Ge, false) => ">="@,
        (Op::Ge, true) => "<"@,
        (Op::Lt, false) => "<"@,
        (Op::Lt, true) => ">="@,
        (Op::Le, false) => "<="@,
        (Op::Le, true) => ">"@,
        (Op::Like, false) => "ILIKE"@,
        (Op::Like, true) => "NOT ILIKE"@,
    }
}

fn sql_op(op: Op, negated: bool) -> (r: &'static str)
    ensures
        r@ == sql_op_text(op, negated),
{
    match (op, negated) {
        (Op::Eq, false) => "=",
        (Op::Eq, true) => "!=",
        (Op::Ne, false) => "!=",
        (Op::Ne, true) => "=",
        (Op::Gt, false) => ">",
        (Op::Gt, true) => "<=",
        (Op::Ge, false) => ">=",
        (Op::Ge, true) => "<",
        (Op::Lt, false) => "<",
        (Op::Lt, true) => ">=",
        (Op::Le, false) => "<=",
        (Op::Le, true) => ">",
        (Op::Like, false) => "ILIKE",
        (Op::Like, true) => "NOT ILIKE",
    }
}

/// Whether an operator compares by size.
pub open spec fn is_numeric_op(op: Op) -> bool {
    op == Op::Gt || op == Op::Ge || op == Op::Lt || op == Op::Le
}

/// Whether a value can be bound to a column of a type: a number to a numeric
/// column, anything to another.
pub open spec fn value_fits(value: Seq<char>, ty: ColumnType) -> bool {
    match ty {
        ColumnType::Bigint => parse_i64_text(trim(value)) is Some,
        ColumnType::Double => is_float_text(trim(value)),
        _ => true,
    }
}

/// The SQL of one clause and the value that it binds.
pub open spec fn clause_sql(c: ClauseV, cols: Map<Seq<char>, ColumnType>) -> Result<
    (Seq<char>, Seq<char>),
    FilterFault,
> {
    match c {
        ClauseV::TextSearch { text, negated } => Ok(
            (
                if negated {
                    "NOT (message ILIKE ?)"@
                } else {
                    "message ILIKE ?"@
                },
                "%"@ + text + "%"@,
            ),
        ),
        ClauseV::Comparison { key, op, value, negated } => {
            if !cols.contains_key(key) {
                Err(FilterFault::UnknownColumn(key))
            } else {
                let ty = cols[key];
                let numeric = ty == ColumnType::Bigint || ty == ColumnType::Double;
                if is_numeric_op(op) && !numeric {
                    Err(FilterFault::NumericOpOnText { key, op })
                } else if op == Op::Like && ty != ColumnType::Text {
                    Err(FilterFault::LikeOnNonText(key))
                } else if !value_fits(value, ty) {
                    Err(
                        FilterFault::ValueParseError {
                            key,
                            value,
                            expected: if ty == ColumnType::Bigint {
                                "Bigint"@
                            } else {
                                "Double"@
                            },
                        },
                    )
                } else {
                    Ok(
                        (
                            key + " "@ + sql_op_text(op, negated) + " ?"@,
                            if op == Op::Like {
                                "%"@ + value + "%"@
                            } else {
                                value
                            },
                        ),
                    )
                }
            }
        },
    }
}

/// The SQL of an expression in its context, and the values that it binds from
/// left to right. An `And` is put in parentheses inside an `Or`, and an `Or`
/// inside an `And`.
pub open spec fn expr_sql(e: ExprV, ctx: Ctx, cols: Map<Seq<char>, ColumnType>) -> Result<
    (Seq<char>, Seq<Seq<char>>),
    FilterFault,
>
    decreases e,
{
    match e {
        ExprV::Term(c) => match clause_sql(c, cols) {
            Ok((sql, p)) => Ok((sql, seq![p])),
            Err(f) => Err(f),
        },
        ExprV::Not(inner) => match expr_sql(*inner, Ctx::InNot, cols) {
            Ok((sql, ps)) => Ok(("NOT ("@ + sql + ")"@, ps)),
            Err(f) => Err(f),
        },
        ExprV::And(items) => match list_sql(items, Ctx::InAnd, cols) {
            Ok((parts, ps)) => {
                let body = join(parts, " AND "@);
                Ok(
                    (
                        if ctx == Ctx::InOr {
                            "("@ + body + ")"@
                        } else {
                            body
                        },
                        ps,
                    ),
                )
            },
            Err(f) => Err(f),
        },
        ExprV::Or(items) => match list_sql(items, Ctx::InOr, cols) {
            Ok((parts, ps)) => {
                let body = join(parts, " OR "@);
                Ok(
                    (
                        if ctx == Ctx::InAnd {
                            "("@ + body + ")"@
                        } else {
                            body
                        },
                        ps,
                    ),
                )
            },
            Err(f) => Err(f),
        },
    }
}

/// The SQL of each of several expressions, and the values that they bind.
pub open spec fn list_sql(
    items: Seq<ExprV>,
    ctx: Ctx,
    cols: Map<Seq<char>, ColumnType>,
) -> Result<(Seq<Seq<char>>, Seq<Seq<char>>), FilterFault>
    decreases items,
{
    if items.len() == 0 {
        Ok((Seq::empty(), Seq::empty()))
    } else {
        match list_sql(items.drop_last(), ctx, cols) {
            Err(f) => Err(f),
            Ok((parts, ps)) => match expr_sql(items.last(), ctx, cols) {
                Err(f) => Err(f),
                Ok((sql, qs)) => Ok((parts.push(sql), ps + qs)),
            },
        }
    }
}

/// The SQL of a whole filter: empty where nothing was asked for.
pub open spec fn filter_sql(tree: Option<ExprV>, cols: Map<Seq<char>, ColumnType>) -> Result<
    (Seq<char>, Seq<Seq<char>>),
    FilterFault,
> {
    match tree {
        None => Ok((Seq::empty(), Seq::empty())),
        Some(e) => expr_sql(e, Ctx::Top, cols),
    }
}

fn value_ok(value: &str, ty: ColumnType) -> (r: bool)
    ensures
        r == value_fits(value@, ty),
{
    match ty {
        ColumnType::Bigint => {
            let t = trimmed(value);
            parse_i64(t.as_str()).is_some()
        },
        ColumnType::Double => {
            let t = trimmed(value);
            float_text_ok(t.as_str())
        },
        _ => true,
    }
}

fn render_clause(c: &Clause, columns: &ColumnWhitelist) -> (r: Result<
    (String, String),
    FilterError,
>)
    ensures
        match r {
            Ok((sql, p)) => clause_sql(c@, columns@) == Ok::<(Seq<char>, Seq<char>), FilterFault>(
                (sql@, p@),
            ),
            Err(f) => clause_sql(c@, columns@) == Err::<(Seq<char>, Seq<char>), FilterFault>(f@),
        },
{
    match c {
        Clause::TextSearch { text, negated } => {
            let sql = if *negated {
                "NOT (message ILIKE ?)".to_owned()
            } else {
                "message ILIKE ?".to_owned()
            };
            Ok((sql, cat3("%", text.as_str(), "%")))
        },
        Clause::Comparison { key, op, value, negated } => {
            let ty = match columns.get(key.as_str()) {
                Some(ty) => ty,
                None => return Err(FilterError::UnknownColumn(key.clone())),
            };
            let numeric_op = matches!(op, Op::Gt | Op::Ge | Op::Lt | Op::Le);
            if numeric_op && !ty.is_numeric() {
                return Err(FilterError::NumericOpOnText { key: key.clone(), op: *op });
            }
            if *op == Op::Like && !ty.is_text() {
                return Err(FilterError::LikeOnNonText(key.clone()));
            }
            if !value_ok(value.as_str(), ty) {
                let expected = if ty == ColumnType::Bigint {
                    "Bigint".to_owned()
                } else {
                    "Double".to_owned()
                };
                return Err(
                    FilterError::ValueParseError { key: key.clone(), value: value.clone(), expected },
                );
            }
            let bound = if *op == Op::Like {
                cat3("%", value.as_str(), "%")
            } else {
                value.clone()
            };
            let mut sql = cat(key.as_str(), " ");
            sql.append(sql_op(*op, *negated));
            sql.append(" ?");
            Ok((sql, bound))
        },
    }
}

/// What a rendering result says.
pub open spec fn sql_view(r: Result<(String, Vec<String>), FilterError>) -> Result<
    (Seq<char>, Seq<Seq<char>>),
    FilterFault,
> {
    match r {
        Ok((sql, ps)) => Ok((sql@, texts(ps@))),
        Err(f) => Err(f@),
    }
}

fn append_strings(v: &mut Vec<String>, w: Vec<String>)
    ensures
        texts(final(v)@) == texts(old(v)@) + texts(w@),
{
    let ghost before = v@;
    let ghost added = w@;
    let mut w = w;
    v.append(&mut w);
    assert(texts(v@) == texts(before) + texts(added));
}

fn render_expr(expr: &Expr, parent: Ctx, columns: &ColumnWhitelist) -> (r: Result<
    (String, Vec<String>),
    FilterError,
>)
    ensures
        sql_view(r) == expr_sql(expr@, parent, columns@),
    decreases expr,
{
    match expr {
        Expr::Term(c) => match render_clause(c, columns) {
            Ok((sql, p)) => {
                let mut ps: Vec<String> = Vec::new();
                ps.push(p);
                assert(texts(ps@) == seq![p@]);
                Ok((sql, ps))
            },
            Err(f) => Err(f),
        },
        Expr::Not(inner) => match render_expr(&**inner, Ctx::InNot, columns) {
            Ok((body, ps)) => Ok((cat3("NOT (", body.as_str(), ")"), ps)),
            Err(f) => Err(f),
        },
        Expr::And(items) => {
            proof {
                lemma_list_view(*items);
            }
            match render_list(items, Ctx::InAnd, columns) {
                Ok((parts, ps)) => {
                    let body = join_with(parts.as_slice(), " AND ");
                    if parent == Ctx::InOr {
                        Ok((cat3("(", body.as_str(), ")"), ps))
                    } else {
                        Ok((body, ps))
                    }
                },
                Err(f) => Err(f),
            }
        },
        Expr::Or(items) => {
            proof {
                lemma_list_view(*items);
            }
            match render_list(items, Ctx::InOr, columns) {
                Ok((parts, ps)) => {
                    let body = join_with(parts.as_slice(), " OR ");
                    if parent == Ctx::InAnd {
                        Ok((cat3("(", body.as_str(), ")"), ps))
                    } else {
                        Ok((body, ps))
                    }
                },
                Err(f) => Err(f),
            }
        },
    }
}

proof fn lemma_list_err(items: Seq<ExprV>, ctx: Ctx, cols: Map<Seq<char>, ColumnType>, n: int)
    requires
        0 <= n <= items.len(),
        list_sql(items.take(n), ctx, cols) is Err,
    ensures
        list_sql(items, ctx, cols) == list_sql(items.take(n), ctx, cols),
    decreases items.len() - n,
{
    if n == items.len() {
        assert(items.take(n) == items);
    } else {
        assert(items.take(n + 1).drop_last() == items.take(n));
        lemma_list_err(items, ctx, cols, n + 1);
    }
}

fn render_list(items: &Vec<Expr>, ctx: Ctx, columns: &ColumnWhitelist) -> (r: Result<
    (Vec<String>, Vec<String>),
    FilterError,
>)
    ensures
        match r {
            Ok((parts, ps)) => list_sql(exprs_view(items@), ctx, columns@) == Ok::<
                (Seq<Seq<char>>, Seq<Seq<char>>),
                FilterFault,
            >((texts(parts@), texts(ps@))),
            Err(f) => list_sql(exprs_view(items@), ctx, columns@) == Err::<
                (Seq<Seq<char>>, Seq<Seq<char>>),
                FilterFault,
            >(f@),
        },
    decreases items,
{
    let mut parts: Vec<String> = Vec::new();
    let mut params: Vec<String> = Vec::new();
    let ghost all = exprs_view(items@);
    assert(texts(parts@) == Seq::<Seq<char>>::empty());
    assert(texts(params@) == Seq::<Seq<char>>::empty());
    for i in 0..items.len()
        invariant
            all == exprs_view(items@),
            list_sql(all.take(i as int), ctx, columns@) == Ok::<
                (Seq<Seq<char>>, Seq<Seq<char>>),
                FilterFault,
            >((texts(parts@), texts(params@))),
    {
        assert(all.take(i + 1).drop_last() == all.take(i as int));
        match render_expr(&items[i], ctx, columns) {
            Ok((sql, ps)) => {
                let ghost before = texts(parts@);
                let ghost text = sql@;
                parts.push(sql);
                assert(texts(parts@) == before.push(text));
                append_strings(&mut params, ps);
            },
            Err(f) => {
                proof {
                    lemma_list_err(all, ctx, columns@, i + 1);
                }
                return Err(f);
            },
        }
    }
    assert(all.take(all.len() as int) == all);
    Ok((parts, params))
}

/// The leaves of a tree, from left to right.
pub open spec fn leaves(e: ExprV) -> Seq<ClauseV>
    decreases e,
{
    match e {
        ExprV::Term(c) => seq![c],
        ExprV::Not(inner) => leaves(*inner),
        ExprV::And(items) => list_leaves(items),
        ExprV::Or(items) => list_leaves(items),
    }
}

/// The leaves of several trees, from left to right.
pub open spec fn list_leaves(items: Seq<ExprV>) -> Seq<ClauseV>
    decreases items,
{
    if items.len() == 0 {
        Seq::empty()
    } else {
        list_leaves(items.drop_last()) + leaves(items.last())
    }
}

/// The leaves of a filter, from left to right.
pub open spec fn terms_of(tree: Option<ExprV>) -> Seq<ClauseV> {
    match tree {
        None => Seq::empty(),
        Some(e) => leaves(e),
    }
}

/// The views of a list of clauses.
pub open spec fn clauses_view(v: Seq<&Clause>) -> Seq<ClauseV> {
    Seq::new(v.len(), |i: int| v[i]@)
}

fn walk<'a>(e: &'a Expr, out: &mut Vec<&'a Clause>)
    ensures
        clauses_view(final(out)@) == clauses_view(old(out)@) + leaves(e@),
    decreases e,
{
    match e {
        Expr::Term(c) => {
            let ghost before = clauses_view(out@);
            out.push(c);
            assert(clauses_view(out@) == before + seq![c@]);
        },
        Expr::Not(inner) => walk(&**inner, out),
        Expr::And(items) => {
            proof {
                lemma_list_view(*items);
            }
            walk_list(items, out)
        },
        Expr::Or(items) => {
            proof {
                lemma_list_view(*items);
            }
            walk_list(items, out)
        },
    }
}

fn walk_list<'a>(items: &'a Vec<Expr>, out: &mut Vec<&'a Clause>)
    ensures
        clauses_view(final(out)@) == clauses_view(old(out)@) + list_leaves(exprs_view(items@)),
    decreases items,
{
    let ghost all = exprs_view(items@);
    let ghost start = clauses_view(out@);
    assert(start == start + list_leaves(all.take(0)));
    for i in 0..items.len()
        invariant
            all == exprs_view(items@),
            clauses_view(out@) == start + list_leaves(all.take(i as int)),
    {
        walk(&items[i], out);
        assert(all.take(i + 1).drop_last() == all.take(i as int));
        assert(start + list_leaves(all.take(i as int)) + leaves(all[i as int]) == start + (
        list_leaves(all.take(i as int)) + leaves(all[i as int])));
    }
    assert(all.take(all.len() as int) == all);
}

impl CompiledFilter {
    /// Whether nothing was asked for.
    pub fn is_empty(&self) -> (r: bool)
        ensures
            r == (self.tree() is None),
    {
        self.root.is_none()
    }

    /// The body of a `WHERE` clause and the values for its placeholders.
    pub fn to_sql(&self, columns: &ColumnWhitelist) -> (r: Result<
        (String, Vec<String>),
        FilterError,
    >)
        ensures
            sql_view(r) == filter_sql(self.tree(), columns@),
    {
        match &self.root {
            None => {
                let params: Vec<String> = Vec::new();
                assert(texts(params@) == Seq::<Seq<char>>::empty());
                Ok((String::new(), params))
            },
            Some(root) => render_expr(root, Ctx::Top, columns),
        }
    }

    /// Every leaf, from left to right, those under a negated group too.
    pub fn terms(&self) -> (r: Vec<&Clause>)
        ensures
            clauses_view(r@) == terms_of(self.tree()),
    {
        let mut out: Vec<&Clause> = Vec::new();
        assert(clauses_view(out@) == Seq::<ClauseV>::empty());
        match &self.root {
            Some(root) => {
                walk(root, &mut out);
                assert(Seq::<ClauseV>::empty() + leaves(root@) == leaves(root@));
            },
            None => {},
        }
        out
    }
}

// ---------------------------------------------------------------------
// Tokens
// ---------------------------------------------------------------------
/// The number of bytes that a text takes.
pub open spec fn byte_len(s: Seq<char>) -> usize {
    encode_utf8(s).len() as usize
}

fn syntax(pos: usize, msg: &str) -> (r: FilterError)
    ensures
        r@ == (FilterFault::Syntax { pos, msg: msg@ }),
{
    FilterError::Syntax { pos, msg: msg.to_owned() }
}

/// The tokens, and after them the word in progress, where there is one.
pub open spec fn with_word(out: Seq<TokenV>, word: Seq<char>) -> Seq<TokenV> {
    if word.len() == 0 {
        out
    } else {
        out.push(TokenV::Word(word))
    }
}

/// Reads tokens from place `i` on, after the tokens `out` and the word in
/// progress. White space ends a word; parentheses stand for themselves; a quoted
/// string runs to the next quote.
pub open spec fn tokens_from(s: Seq<char>, i: int, out: Seq<TokenV>, word: Seq<char>) -> Result<
    Seq<TokenV>,
    FilterFault,
>
    decreases s.len() - i,
{
    if i < 0 || i >= s.len() {
        Ok(with_word(out, word))
    } else if is_space(s[i]) {
        tokens_from(s, i + 1, with_word(out, word), Seq::empty())
    } else if s[i] == '(' {
        tokens_from(s, i + 1, with_word(out, word).push(TokenV::LParen), Seq::empty())
    } else if s[i] == ')' {
        tokens_from(s, i + 1, with_word(out, word).push(TokenV::RParen), Seq::empty())
    } else if s[i] == '"' {
        let rest = s.subrange(i + 1, s.len() as int);
        let n = find_by(rest, just('"'));
        if 0 <= n < rest.len() {
            tokens_from(
                s,
                i + 1 + n + 1,
                with_word(out, word).push(TokenV::Quoted(rest.subrange(0, n))),
                Seq::empty(),
            )
        } else {
            Err(
                FilterFault::Syntax {
                    pos: byte_len(s.take(i)),
                    msg: "unterminated quoted string"@,
                },
            )
        }
    } else {
        tokens_from(s, i + 1, out, word.push(s[i]))
    }
}

/// The tokens of a text.
pub open spec fn tokens_of(s: Seq<char>) -> Result<Seq<TokenV>, FilterFault> {
    tokens_from(s, 0, Seq::empty(), Seq::empty())
}

fn push_token(out: &mut Vec<Token>, t: Token)
    ensures
        tokens_view(final(out)@) == tokens_view(old(out)@).push(t@),
{
    let ghost before = tokens_view(out@);
    let ghost added = t@;
    out.push(t);
    assert(tokens_view(out@) == before.push(added));
}

fn flush_word(out: &mut Vec<Token>, word: &Vec<char>)
    ensures
        tokens_view(final(out)@) == with_word(tokens_view(old(out)@), word@),
{
    if word.len() > 0 {
        push_token(out, Token::Word(string_of(word.as_slice())));
    }
}

/// What a token list or its refusal says.
pub open spec fn tokens_result(r: Result<Vec<Token>, FilterError>) -> Result<
    Seq<TokenV>,
    FilterFault,
> {
    match r {
        Ok(ts) => Ok(tokens_view(ts@)),
        Err(f) => Err(f@),
    }
}

fn tokenize(input: &str) -> (r: Result<Vec<Token>, FilterError>)
    ensures
        tokens_result(r) == tokens_of(input@),
{
    let v = chars_of(input);
    let mut out: Vec<Token> = Vec::new();
    let mut word: Vec<char> = Vec::new();
    let mut i: usize = 0;
    assert(tokens_view(out@) == Seq::<TokenV>::empty());
    while i < v.len()
        invariant
            v@ == input@,
            i <= v@.len(),
            tokens_of(input@) == tokens_from(input@, i as int, tokens_view(out@), word@),
        decreases v@.len() - i,
    {
        let c = v[i];
        if char_is_space(c) {
            flush_word(&mut out, &word);
            word = Vec::new();
            i += 1;
        } else if c == '(' {
            flush_word(&mut out, &word);
            push_token(&mut out, Token::LParen);
            word = Vec::new();
            i += 1;
        } else if c == ')' {
            flush_word(&mut out, &word);
            push_token(&mut out, Token::RParen);
            word = Vec::new();
            i += 1;
        } else if c == '"' {
            flush_word(&mut out, &word);
            let rest = slice_subrange(v.as_slice(), i + 1, v.len());
            let n: usize = find_char(rest, '"');
            if n < rest.len() {
                push_token(&mut out, Token::Quoted(string_between(rest, 0, n)));
                word = Vec::new();
                i = i + 1 + n + 1;
            } else {
                let before = string_between(v.as_slice(), 0, i);
                assert(input@.take(i as int) == before@);
                return Err(syntax(before.as_str().len(), "unterminated quoted string"));
            }
        } else {
            word.push(c);
            i += 1;
        }
    }
    flush_word(&mut out, &word);
    Ok(out)
}

/// The characters that operators are made of.
pub open spec fn is_op_char(c: char) -> bool {
    c == ':' || c == '=' || c == '!' || c == '>' || c == '<' || c == '~'
}

/// The class of the characters that operators are made of.
pub open spec fn op_class() -> spec_fn(char) -> bool {
    |c: char| is_op_char(c)
}

/// Whether a word ends in a character of an operator.
pub open spec fn ends_in_op(w: Seq<char>) -> bool {
    w.len() > 0 && is_op_char(w.last())
}

/// The tokens with each word that ends in an operator glued to the quoted string
/// that follows it.
pub open spec fn glued(ts: Seq<TokenV>) -> Seq<TokenV>
    decreases ts.len(),
{
    if ts.len() == 0 {
        Seq::empty()
    } else {
        match ts[0] {
            TokenV::Word(w) => if ends_in_op(w) && ts.len() > 1 && ts[1] is Quoted {
                seq![TokenV::Word(w + ts[1]->Quoted_0)] + glued(ts.subrange(2, ts.len() as int))
            } else {
                seq![ts[0]] + glued(ts.subrange(1, ts.len() as int))
            },
            _ => seq![ts[0]] + glued(ts.subrange(1, ts.len() as int)),
        }
    }
}

fn char_is_op(c: char) -> (r: bool)
    ensures
        r == is_op_char(c),
{
    c == ':' || c == '=' || c == '!' || c == '>' || c == '<' || c == '~'
}

fn ends_with_operator(s: &str) -> (r: bool)
    ensures
        r == ends_in_op(s@),
{
    let v = chars_of(s);
    v.len() > 0 && char_is_op(v[v.len() - 1])
}

impl Clone for Token {
    fn clone(&self) -> (r: Self)
        ensures
            r@ == self@,
    {
        match self {
            Token::Word(w) => Token::Word(w.clone()),
            Token::Quoted(q) => Token::Quoted(q.clone()),
            Token::LParen => Token::LParen,
            Token::RParen => Token::RParen,
        }
    }
}

fn merge_key_quoted(tokens: &Vec<Token>) -> (r: Vec<Token>)
    ensures
        tokens_view(r@) == glued(tokens_view(tokens@)),
{
    let ghost all = tokens_view(tokens@);
    let mut out: Vec<Token> = Vec::new();
    let mut i: usize = 0;
    proof {
        assert(all.subrange(0, all.len() as int) == all);
        assert(tokens_view(out@) + glued(all) == glued(all));
    }
    while i < tokens.len()
        invariant
            all == tokens_view(tokens@),
            i <= tokens@.len(),
            tokens_view(out@) + glued(all.subrange(i as int, all.len() as int)) == glued(all),
        decreases tokens@.len() - i,
    {
        let ghost rest = all.subrange(i as int, all.len() as int);
        let ghost before = tokens_view(out@);
        assert(rest[0] == tokens@[i as int]@);
        assert(rest.subrange(1, rest.len() as int) == all.subrange(i + 1, all.len() as int));
        let mut joined = false;
        if let Token::Word(w) = &tokens[i] {
            if ends_with_operator(w.as_str()) && i + 1 < tokens.len() {
                assert(rest[1] == tokens@[i + 1]@);
                if let Token::Quoted(q) = &tokens[i + 1] {
                    push_token(&mut out, Token::Word(cat(w.as_str(), q.as_str())));
                    joined = true;
                    assert(rest.subrange(2, rest.len() as int) == all.subrange(
                        i + 2,
                        all.len() as int,
                    ));
                    assert(glued(rest) == seq![TokenV::Word(w@ + q@)] + glued(
                        all.subrange(i + 2, all.len() as int),
                    ));
                    assert(before.push(TokenV::Word(w@ + q@)) + glued(
                        all.subrange(i + 2, all.len() as int),
                    ) == before + glued(rest));
                }
            }
        }
        if joined {
            i += 2;
        } else {
            push_token(&mut out, tokens[i].clone());
            assert(glued(rest) == seq![rest[0]] + glued(all.subrange(i + 1, all.len() as int)));
            assert(before.push(rest[0]) + glued(all.subrange(i + 1, all.len() as int)) == before
                + glued(rest));
            i += 1;
        }
    }
    assert(all.subrange(all.len() as int, all.len() as int) == Seq::<TokenV>::empty());
    assert(tokens_view(out@) + Seq::<TokenV>::empty() == tokens_view(out@));
    out
}

// ---------------------------------------------------------------------
// Clauses
// ---------------------------------------------------------------------
/// The operator that stands at place `i` of a word, and the place behind it.
pub open spec fn op_at(s: Seq<char>, i: int) -> Option<(Op, int)> {
    let wide = i + 1 < s.len() && s[i + 1] == '=';
    if s[i] == '>' {
        if wide {
            Some((Op::Ge, i + 2))
        } else {
            Some((Op::Gt, i + 1))
        }
    } else if s[i] == '<' {
        if wide {
            Some((Op::Le, i + 2))
        } else {
            Some((Op::Lt, i + 1))
        }
    } else if s[i] == '!' {
        if wide {
            Some((Op::Ne, i + 2))
        } else {
            None
        }
    } else if s[i] == '~' {
        Some((Op::Like, i + 1))
    } else {
        Some((Op::Eq, i + 1))
    }
}

/// The clause that a word stands for. A leading `-` negates; the first character
/// of an operator ends the key; without one the word is text to search for.
pub open spec fn clause_of(w: Seq<char>) -> Result<ClauseV, FilterFault> {
    let negated = w.len() > 1 && w[0] == '-';
    let rest = if negated {
        w.drop_first()
    } else {
        w
    };
    let i = find_by(rest, op_class());
    if !(0 <= i < rest.len()) {
        Ok(ClauseV::TextSearch { text: rest, negated })
    } else {
        let key = rest.subrange(0, i);
        match op_at(rest, i) {
            None => Err(
                FilterFault::Syntax { pos: byte_len(key), msg: "expected `!=` after `!`"@ },
            ),
            Some((op, start)) => {
                let value = rest.subrange(start, rest.len() as int);
                if key.len() == 0 || !all_word_chars(key) {
                    Err(FilterFault::Syntax { pos: 0, msg: "invalid column name '"@ + key + "'"@ })
                } else if value.len() == 0 {
                    Err(
                        FilterFault::Syntax {
                            pos: byte_len(rest.subrange(0, start)),
                            msg: "missing value after operator"@,
                        },
                    )
                } else {
                    Ok(ClauseV::Comparison { key, op, value, negated })
                }
            },
        }
    }
}

fn operator_at(v: &[char], i: usize) -> (r: Option<(Op, usize)>)
    requires
        i < v@.len(),
        is_op_char(v@[i as int]),
    ensures
        match r {
            Some((op, start)) => op_at(v@, i as int) == Some((op, start as int)) && i < start
                <= v@.len(),
            None => op_at(v@, i as int) is None,
        },
{
    let n: usize = v.len();
    let wide = i + 1 < n && v[i + 1] == '=';
    let c = v[i];
    if c == '>' {
        if wide {
            Some((Op::Ge, i + 2))
        } else {
            Some((Op::Gt, i + 1))
        }
    } else if c == '<' {
        if wide {
            Some((Op::Le, i + 2))
        } else {
            Some((Op::Lt, i + 1))
        }
    } else if c == '!' {
        if wide {
            Some((Op::Ne, i + 2))
        } else {
            None
        }
    } else if c == '~' {
        Some((Op::Like, i + 1))
    } else {
        Some((Op::Eq, i + 1))
    }
}

fn parse_word(w: &str) -> (r: Result<Clause, FilterError>)
    ensures
        match r {
            Ok(c) => clause_of(w@) == Ok::<ClauseV, FilterFault>(c@),
            Err(f) => clause_of(w@) == Err::<ClauseV, FilterFault>(f@),
        },
{
    let all = chars_of(w);
    let negated = all.len() > 1 && all[0] == '-';
    let rest = if negated {
        assert(all@.subrange(1, all@.len() as int) == w@.drop_first());
        slice_subrange(all.as_slice(), 1, all.len())
    } else {
        all.as_slice()
    };
    let mut i: usize = 0;
    while i < rest.len() && !char_is_op(rest[i])
        invariant
            i <= rest@.len(),
            forall|k: int| 0 <= k < i ==> !op_class()(#[trigger] rest@[k]),
        decreases rest@.len() - i,
    {
        i += 1;
    }
    proof {
        lemma_find_by(rest@, op_class(), i as int);
    }
    if i == rest.len() {
        return Ok(Clause::TextSearch { text: string_of(rest), negated });
    }
    let key = string_between(rest, 0, i);
    let (op, start) = match operator_at(rest, i) {
        Some(found) => found,
        None => {
            return Err(syntax(key.as_str().len(), "expected `!=` after `!`"));
        },
    };
    if i == 0 || !only_word_chars(slice_subrange(rest, 0, i)) {
        let msg = cat3("invalid column name '", key.as_str(), "'");
        return Err(syntax(0, msg.as_str()));
    }
    if start == rest.len() {
        let before = string_between(rest, 0, start);
        return Err(syntax(before.as_str().len(), "missing value after operator"));
    }
    let value = string_between(rest, start, rest.len());
    Ok(Clause::Comparison { key, op, value, negated })
}

// ---------------------------------------------------------------------
// Grammar
// ---------------------------------------------------------------------
/// Whether the token at `p` is a connector, in any case.
pub open spec fn at_word(ts: Seq<TokenV>, p: int, word: Seq<char>) -> bool {
    0 <= p < ts.len() && ts[p] is Word && lower(ts[p]->Word_0) == word
}

/// Whether the token at `p` can begin an operand.
pub open spec fn at_operand(ts: Seq<TokenV>, p: int) -> bool {
    0 <= p < ts.len() && match ts[p] {
        TokenV::Word(w) => lower(w) != "and"@ && lower(w) != "or"@,
        TokenV::Quoted(_) => true,
        TokenV::LParen => true,
        TokenV::RParen => false,
    }
}

pub open spec fn fault(msg: Seq<char>) -> FilterFault {
    FilterFault::Syntax { pos: 0, msg }
}

/// An expression and the place behind it, or the reason why there is none.
pub type Parsed = Result<(ExprV, int), FilterFault>;

/// Operands and the place behind them, or the reason why there are none.
pub type ParsedList = Result<(Seq<ExprV>, int), FilterFault>;

/// The negation of an expression: the flag of a leaf is turned over, a group is
/// wrapped.
pub open spec fn negation(e: ExprV) -> ExprV {
    match e {
        ExprV::Term(ClauseV::Comparison { key, op, value, negated }) => ExprV::Term(
            ClauseV::Comparison { key, op, value, negated: !negated },
        ),
        ExprV::Term(ClauseV::TextSearch { text, negated }) => ExprV::Term(
            ClauseV::TextSearch { text, negated: !negated },
        ),
        other => ExprV::Not(Box::new(other)),
    }
}

/// `or_expr := and_expr ( OR and_expr )*`
pub open spec fn or_expr(ts: Seq<TokenV>, p: int) -> Parsed
    decreases ts.len() - p, 5int,
{
    match and_expr(ts, p) {
        Err(f) => Err(f),
        Ok((e, q)) => if p < q <= ts.len() {
            match or_rest(ts, seq![e], q) {
                Err(f) => Err(f),
                Ok((items, r)) => Ok(
                    (
                        if items.len() == 1 {
                            items[0]
                        } else {
                            ExprV::Or(items)
                        },
                        r,
                    ),
                ),
            }
        } else {
            Err(fault(Seq::empty()))
        },
    }
}

/// `( OR and_expr )*`, after the operands `items`.
pub open spec fn or_rest(ts: Seq<TokenV>, items: Seq<ExprV>, p: int) -> ParsedList
    decreases ts.len() - p, 4int,
{
    if at_word(ts, p, "or"@) {
        match and_expr(ts, p + 1) {
            Err(f) => Err(f),
            Ok((e, q)) => if p < q <= ts.len() {
                or_rest(ts, items.push(e), q)
            } else {
                Err(fault(Seq::empty()))
            },
        }
    } else {
        Ok((items, p))
    }
}

/// `and_expr := unary ( (AND)? unary )*`
pub open spec fn and_expr(ts: Seq<TokenV>, p: int) -> Parsed
    decreases ts.len() - p, 3int,
{
    match unary(ts, p) {
        Err(f) => Err(f),
        Ok((e, q)) => if p < q <= ts.len() {
            match and_rest(ts, seq![e], q) {
                Err(f) => Err(f),
                Ok((items, r)) => Ok(
                    (
                        if items.len() == 1 {
                            items[0]
                        } else {
                            ExprV::And(items)
                        },
                        r,
                    ),
                ),
            }
        } else {
            Err(fault(Seq::empty()))
        },
    }
}

/// `( (AND)? unary )*`, after the operands `items`.
pub open spec fn and_rest(ts: Seq<TokenV>, items: Seq<ExprV>, p: int) -> ParsedList
    decreases ts.len() - p, 2int,
{
    if at_word(ts, p, "and"@) {
        match unary(ts, p + 1) {
            Err(f) => Err(f),
            Ok((e, q)) => if p < q <= ts.len() {
                and_rest(ts, items.push(e), q)
            } else {
                Err(fault(Seq::empty()))
            },
        }
    } else if at_operand(ts, p) {
        match unary(ts, p) {
            Err(f) => Err(f),
            Ok((e, q)) => if p < q <= ts.len() {
                and_rest(ts, items.push(e), q)
            } else {
                Err(fault(Seq::empty()))
            },
        }
    } else {
        Ok((items, p))
    }
}

/// `unary := '-' unary | atom`
pub open spec fn unary(ts: Seq<TokenV>, p: int) -> Parsed
    decreases ts.len() - p, 1int,
{
    if 0 <= p < ts.len() && ts[p] == TokenV::Word("-"@) {
        match unary(ts, p + 1) {
            Err(f) => Err(f),
            Ok((e, q)) => Ok((negation(e), q)),
        }
    } else {
        atom(ts, p)
    }
}

/// `atom := '(' or_expr ')' | clause`
pub open spec fn atom(ts: Seq<TokenV>, p: int) -> Parsed
    decreases ts.len() - p, 0int,
{
    if !(0 <= p < ts.len()) {
        Err(fault("unexpected end of filter"@))
    } else {
        match ts[p] {
            TokenV::LParen => match or_expr(ts, p + 1) {
                Err(f) => Err(f),
                Ok((e, q)) => if 0 <= q < ts.len() && ts[q] is RParen {
                    Ok((e, q + 1))
                } else {
                    Err(fault("unbalanced parentheses: missing ')'"@))
                },
            },
            TokenV::RParen => Err(fault("unexpected ')'"@)),
            TokenV::Quoted(q) => Ok(
                (ExprV::Term(ClauseV::TextSearch { text: q, negated: false }), p + 1),
            ),
            TokenV::Word(w) => if lower(w) == "and"@ {
                Err(fault("unexpected AND"@))
            } else if lower(w) == "or"@ {
                Err(fault("unexpected OR"@))
            } else {
                match clause_of(w) {
                    Ok(c) => Ok((ExprV::Term(c), p + 1)),
                    Err(f) => Err(f),
                }
            },
        }
    }
}

/// The tree of a filter text: none for a blank text.
pub open spec fn filter_of(input: Seq<char>) -> Result<Option<ExprV>, FilterFault> {
    let s = trim(input);
    if s.len() == 0 {
        Ok(None)
    } else {
        match tokens_of(s) {
            Err(f) => Err(f),
            Ok(raw) => {
                let ts = glued(raw);
                match or_expr(ts, 0) {
                    Err(f) => Err(f),
                    Ok((e, q)) => if q == ts.len() {
                        Ok(Some(e))
                    } else {
                        Err(fault("unexpected trailing input"@))
                    },
                }
            },
        }
    }
}

/// What a parse result says.
pub open spec fn parsed(r: Result<(Expr, usize), FilterError>) -> Parsed {
    match r {
        Ok((e, q)) => Ok((e@, q as int)),
        Err(f) => Err(f@),
    }
}

fn at_keyword(ts: &Vec<Token>, p: usize, word: &str) -> (r: bool)
    ensures
        r == at_word(tokens_view(ts@), p as int, word@),
{
    if p < ts.len() {
        if let Token::Word(w) = &ts[p] {
            let l = to_lower(w.as_str());
            return same(l.as_str(), word);
        }
    }
    false
}

fn at_atom_start(ts: &Vec<Token>, p: usize) -> (r: bool)
    ensures
        r == at_operand(tokens_view(ts@), p as int),
{
    if p < ts.len() {
        match &ts[p] {
            Token::Word(w) => {
                let l = to_lower(w.as_str());
                !same(l.as_str(), "and") && !same(l.as_str(), "or")
            },
            Token::Quoted(_) => true,
            Token::LParen => true,
            Token::RParen => false,
        }
    } else {
        false
    }
}

fn push_expr(items: &mut Vec<Expr>, e: Expr)
    ensures
        exprs_view(final(items)@) == exprs_view(old(items)@).push(e@),
        final(items)@.len() == old(items)@.len() + 1,
{
    let ghost before = exprs_view(items@);
    let ghost added = e@;
    items.push(e);
    assert(exprs_view(items@) == before.push(added));
}

fn parse_or(ts: &Vec<Token>, p: usize) -> (r: Result<(Expr, usize), FilterError>)
    requires
        p <= ts@.len(),
    ensures
        parsed(r) == or_expr(tokens_view(ts@), p as int),
        r matches Ok(x) ==> p < x.1 <= ts@.len(),
    decreases ts@.len() - p, 5int,
{
    let ghost all = tokens_view(ts@);
    let (first, q) = match parse_and(ts, p) {
        Ok(x) => x,
        Err(f) => return Err(f),
    };
    let mut pos: usize = q;
    let n: usize = ts.len();
    let ghost goal = or_rest(all, seq![first@], q as int);
    let mut items: Vec<Expr> = Vec::new();
    push_expr(&mut items, first);
    assert(exprs_view(items@) == seq![first@]);
    while at_keyword(ts, pos, "or")
        invariant
            all == tokens_view(ts@),
            n == ts@.len(),
            p < pos <= n,
            items@.len() >= 1,
            or_rest(all, exprs_view(items@), pos as int) == goal,
            or_expr(all, p as int) == (match goal {
                Err(f) => Err::<(ExprV, int), FilterFault>(f),
                Ok((es, r)) => Ok(
                    (
                        if es.len() == 1 {
                            es[0]
                        } else {
                            ExprV::Or(es)
                        },
                        r,
                    ),
                ),
            }),
        decreases ts@.len() - pos,
    {
        match parse_and(ts, pos + 1) {
            Ok((e, q)) => {
                push_expr(&mut items, e);
                pos = q;
            },
            Err(f) => return Err(f),
        }
    }
    if items.len() == 1 {
        let e = items.pop().unwrap();
        Ok((e, pos))
    } else {
        proof {
            lemma_list_view(items);
        }
        Ok((Expr::Or(items), pos))
    }
}

fn parse_and(ts: &Vec<Token>, p: usize) -> (r: Result<(Expr, usize), FilterError>)
    requires
        p <= ts@.len(),
    ensures
        parsed(r) == and_expr(tokens_view(ts@), p as int),
        r matches Ok(x) ==> p < x.1 <= ts@.len(),
    decreases ts@.len() - p, 3int,
{
    let ghost all = tokens_view(ts@);
    let (first, q) = match parse_unary(ts, p) {
        Ok(x) => x,
        Err(f) => return Err(f),
    };
    let mut pos: usize = q;
    let n: usize = ts.len();
    let ghost goal = and_rest(all, seq![first@], q as int);
    let mut items: Vec<Expr> = Vec::new();
    push_expr(&mut items, first);
    assert(exprs_view(items@) == seq![first@]);
    loop
        invariant
            all == tokens_view(ts@),
            n == ts@.len(),
            p < pos <= n,
            items@.len() >= 1,
            and_rest(all, exprs_view(items@), pos as int) == goal,
            and_expr(all, p as int) == (match goal {
                Err(f) => Err::<(ExprV, int), FilterFault>(f),
                Ok((es, r)) => Ok(
                    (
                        if es.len() == 1 {
                            es[0]
                        } else {
                            ExprV::And(es)
                        },
                        r,
                    ),
                ),
            }),
        ensures
            !at_word(all, pos as int, "and"@),
            !at_operand(all, pos as int),
        decreases ts@.len() - pos,
    {
        let from: usize = if at_keyword(ts, pos, "and") {
            pos + 1
        } else if at_atom_start(ts, pos) {
            pos
        } else {
            break;
        };
        match parse_unary(ts, from) {
            Ok((e, q)) => {
                push_expr(&mut items, e);
                pos = q;
            },
            Err(f) => return Err(f),
        }
    }
    if items.len() == 1 {
        let e = items.pop().unwrap();
        Ok((e, pos))
    } else {
        proof {
            lemma_list_view(items);
        }
        Ok((Expr::And(items), pos))
    }
}

fn negate(e: Expr) -> (r: Expr)
    ensures
        r@ == negation(e@),
{
    match e {
        Expr::Term(Clause::Comparison { key, op, value, negated }) => Expr::Term(
            Clause::Comparison { key, op, value, negated: !negated },
        ),
        Expr::Term(Clause::TextSearch { text, negated }) => Expr::Term(
            Clause::TextSearch { text, negated: !negated },
        ),
        other => Expr::Not(Box::new(other)),
    }
}

fn parse_unary(ts: &Vec<Token>, p: usize) -> (r: Result<(Expr, usize), FilterError>)
    requires
        p <= ts@.len(),
    ensures
        parsed(r) == unary(tokens_view(ts@), p as int),
        r matches Ok(x) ==> p < x.1 <= ts@.len(),
    decreases ts@.len() - p, 1int,
{
    let mut dash = false;
    if p < ts.len() {
        if let Token::Word(w) = &ts[p] {
            dash = same(w.as_str(), "-");
        }
    }
    if dash {
        match parse_unary(ts, p + 1) {
            Ok((e, q)) => Ok((negate(e), q)),
            Err(f) => Err(f),
        }
    } else {
        parse_atom(ts, p)
    }
}

fn parse_atom(ts: &Vec<Token>, p: usize) -> (r: Result<(Expr, usize), FilterError>)
    requires
        p <= ts@.len(),
    ensures
        parsed(r) == atom(tokens_view(ts@), p as int),
        r matches Ok(x) ==> p < x.1 <= ts@.len(),
    decreases ts@.len() - p, 0int,
{
    if p >= ts.len() {
        return Err(syntax(0, "unexpected end of filter"));
    }
    match &ts[p] {
        Token::LParen => match parse_or(ts, p + 1) {
            Ok((inner, q)) => {
                if q < ts.len() {
                    if let Token::RParen = &ts[q] {
                        return Ok((inner, q + 1));
                    }
                }
                Err(syntax(0, "unbalanced parentheses: missing ')'"))
            },
            Err(f) => Err(f),
        },
        Token::RParen => Err(syntax(0, "unexpected ')'")),
        Token::Quoted(s) => {
            let c = Clause::TextSearch { text: s.clone(), negated: false };
            Ok((Expr::Term(c), p + 1))
        },
        Token::Word(w) => {
            let l = to_lower(w.as_str());
            if same(l.as_str(), "and") {
                Err(syntax(0, "unexpected AND"))
            } else if same(l.as_str(), "or") {
                Err(syntax(0, "unexpected OR"))
            } else {
                match parse_word(w.as_str()) {
                    Ok(c) => Ok((Expr::Term(c), p + 1)),
                    Err(f) => Err(f),
                }
            }
        },
    }
}

/// Compiles a filter text. A blank text gives the empty filter.
pub fn parse_filter(input: &str) -> (r: Result<CompiledFilter, FilterError>)
    ensures
        match r {
            Ok(f) => filter_of(input@) == Ok::<Option<ExprV>, FilterFault>(f.tree()),
            Err(f) => filter_of(input@) == Err::<Option<ExprV>, FilterFault>(f@),
        },
{
    let s = trimmed(input);
    if s.as_str().is_empty() {
        return Ok(CompiledFilter { root: None });
    }
    let tokens = match tokenize(s.as_str()) {
        Ok(ts) => ts,
        Err(f) => return Err(f),
    };
    let merged = merge_key_quoted(&tokens);
    match parse_or(&merged, 0) {
        Ok((root, q)) => if q == merged.len() {
            Ok(CompiledFilter { root: Some(root) })
        } else {
            Err(syntax(0, "unexpected trailing input"))
        },
        Err(f) => Err(f),
    }
}

// ---------------------------------------------------------------------
// Bound values and messages
// ---------------------------------------------------------------------
/// Whether the bytes look like an ISO-8601 date and time.
pub open spec fn looks_like_timestamp(b: Seq<u8>) -> bool {
    b.len() > 10 && b[4] == 45 && b[10] == 84
}

/// The value that a parameter is bound as: a timestamp as text, a number as a
/// number, anything else as text.
pub open spec fn bound_value(s: Seq<char>) -> BoundValueV {
    if looks_like_timestamp(encode_utf8(s)) {
        BoundValueV::Text(s)
    } else {
        match parse_i64_text(s) {
            Some(i) => BoundValueV::BigInt(i),
            None => if is_float_text(s) {
                BoundValueV::Double(s)
            } else {
                BoundValueV::Text(s)
            },
        }
    }
}

/// The values that a list of parameters is bound as.
pub fn params_as_duck(values: &[String]) -> (r: Vec<BoundValue>)
    ensures
        r@.len() == values@.len(),
        forall|i: int| 0 <= i < r@.len() ==> (#[trigger] r@[i])@ == bound_value(values@[i]@),
{
    let mut out: Vec<BoundValue> = Vec::new();
    for i in 0..values.len()
        invariant
            out@.len() == i,
            forall|j: int| 0 <= j < i ==> (#[trigger] out@[j])@ == bound_value(values@[j]@),
    {
        let s = values[i].as_str();
        let b = s.as_bytes();
        let v = if b.len() > 10 && b[4] == 45 && b[10] == 84 {
            BoundValue::Text(values[i].clone())
        } else {
            match parse_i64(s) {
                Some(n) => BoundValue::BigInt(n),
                None => if float_text_ok(s) {
                    BoundValue::Double(values[i].clone())
                } else {
                    BoundValue::Text(values[i].clone())
                },
            }
        };
        out.push(v);
    }
    out
}

/// The name of an operator.
pub open spec fn op_name(op: Op) -> Seq<char> {
    match op {
        Op::Eq => "Eq"@,
        Op::Ne => "Ne"@,
        Op::Gt => "Gt"@,
        Op::Ge => "Ge"@,
        Op::Lt => "Lt"@,
        Op::Le => "Le"@,
        Op::Like => "Like"@,
    }
}

/// What is shown of a refusal.
pub open spec fn fault_text(f: FilterFault) -> Seq<char> {
    match f {
        FilterFault::Syntax { pos, msg } => "syntax error at position "@ + dec(pos as nat) + ": "@
            + msg,
        FilterFault::UnknownColumn(k) => "unknown column '"@ + k + "' (not in whitelist)"@,
        FilterFault::NumericOpOnText { key, op } => "numeric operator "@ + op_name(op)
            + " not valid for text column '"@ + key + "'"@,
        FilterFault::LikeOnNonText(k) => "ILIKE (~) operator not valid for non-text column '"@ + k
            + "'"@,
        FilterFault::ValueParseError { key, value, expected } => "value '"@ + value
            + "' doesn't parse as "@ + expected + " for column '"@ + key + "'"@,
    }
}

impl Op {
    fn name(&self) -> (r: &'static str)
        ensures
            r@ == op_name(*self),
    {
        match self {
            Op::Eq => "Eq",
            Op::Ne => "Ne",
            Op::Gt => "Gt",
            Op::Ge => "Ge",
            Op::Lt => "Lt",
            Op::Le => "Le",
            Op::Like => "Like",
        }
    }
}

impl FilterError {
    /// What is shown of the refusal.
    pub fn message(&self) -> (r: String)
        ensures
            r@ == fault_text(self@),
    {
        match self {
            FilterError::Syntax { pos, msg } => {
                let p = dec_of(*pos as u64);
                let mut s = cat3("syntax error at position ", p.as_str(), ": ");
                s.append(msg.as_str());
                s
            },
            FilterError::UnknownColumn(k) => cat3(
                "unknown column '",
                k.as_str(),
                "' (not in whitelist)",
            ),
            FilterError::NumericOpOnText { key, op } => cat5(
                "numeric operator ",
                op.name(),
                " not valid for text column '",
                key.as_str(),
                "'",
            ),
            FilterError::LikeOnNonText(k) => cat3(
                "ILIKE (~) operator not valid for non-text column '",
                k.as_str(),
                "'",
            ),
            FilterError::ValueParseError { key, value, expected } => {
                let mut s = cat5(
                    "value '",
                    value.as_str(),
                    "' doesn't parse as ",
                    expected.as_str(),
                    " for column '",
                );
                s.append(key.as_str());
                s.append("'");
                s
            },
        }
    }
}

} // verus!
