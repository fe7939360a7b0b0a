//! Filter and format expressions over the records of a metadata table.

use vstd::prelude::*;

use evalexpr::{Context, ContextWithMutableVariables};

use crate::error::PgenError;
use crate::pvar_parser::{info_entries, PvarParser};
use crate::table::MetadataTable;
use crate::varmap::{pairs_map, VarMap};

verus! {

/// Name of the column whose value is expanded into INFO variables.
pub open spec fn info_column() -> Seq<char> {
    seq!['I', 'N', 'F', 'O']
}

/// The variable name `INFO[key]`.
pub open spec fn info_var(key: Seq<char>) -> Seq<char> {
    seq!['I', 'N', 'F', 'O', '['] + key + seq![']']
}

/// One `INFO[key]` binding for each INFO binding, in order.
pub open spec fn info_vars(es: Seq<(Seq<char>, Seq<char>)>) -> Seq<(Seq<char>, Seq<char>)> {
    es.map_values(|p: (Seq<char>, Seq<char>)| (info_var(p.0), p.1))
}

/// The bindings of the evaluation context of a record, made column by
/// column: for the INFO column first its `INFO[key]` variables, then for
/// every column its own value under its name.
pub open spec fn context_pairs(cols: Seq<Seq<char>>, row: Seq<Seq<char>>, n: int) -> Seq<
    (Seq<char>, Seq<char>),
>
    decreases n,
{
    if n <= 0 {
        Seq::empty()
    } else {
        let before = context_pairs(cols, row, n - 1);
        let with_info = if cols[n - 1] == info_column() {
            before + info_vars(info_entries(row[n - 1]))
        } else {
            before
        };
        with_info.push((cols[n - 1], row[n - 1]))
    }
}

/// The evaluation context of the record `row` of a table with columns `cols`.
pub open spec fn context_of(cols: Seq<Seq<char>>, row: Seq<Seq<char>>) -> Map<Seq<char>, Seq<char>> {
    pairs_map(context_pairs(cols, row, cols.len() as int))
}

/// Builds the evaluation context of the record `row` of a table with
/// columns `columns`: each column's value under its name, and, for a column
/// named `INFO`, each of its bindings under `INFO[key]`.
pub fn build_context(columns: &Vec<String>, row: &Vec<String>) -> (r: VarMap)
    requires
        row@.len() == columns@.len(),
    ensures
        r.pairs() == context_pairs(columns.deep_view(), row.deep_view(), columns@.len() as int),
        r.view() == context_of(columns.deep_view(), row.deep_view()),
{
    let info_name = String::from_str("INFO");
    proof {
        reveal_strlit("INFO");
        assert("INFO"@ =~= info_column());
    }
    let ghost cols = columns.deep_view();
    let ghost vals = row.deep_view();
    let mut ctx = VarMap::new();
    let mut k: usize = 0;
    while k < columns.len()
        invariant
            k <= columns@.len(),
            row@.len() == columns@.len(),
            cols == columns.deep_view(),
            vals == row.deep_view(),
            info_name@ == info_column(),
            ctx.pairs() == context_pairs(cols, vals, k as int),
        decreases columns.len() - k,
    {
        let ghost before = ctx.pairs();
        if columns[k] == info_name {
            let kv = PvarParser::get_info_kv_pairs(row[k].as_str());
            let mut j: usize = 0;
            while j < kv.entries.len()
                invariant
                    j <= kv.entries@.len(),
                    kv.pairs() == info_entries(vals[k as int]),
                    ctx.pairs() == before + info_vars(kv.pairs().take(j as int)),
                decreases kv.entries.len() - j,
            {
                let mut name = String::from_str("INFO[");
                name.append(kv.entries[j].0.as_str());
                name.append("]");
                proof {
                    reveal_strlit("INFO[");
                    reveal_strlit("]");
                    assert(name@ =~= info_var(kv.pairs()[j as int].0));
                }
                ctx.bind(name, kv.entries[j].1.clone());
                assert(kv.pairs().take(j + 1) =~= kv.pairs().take(j as int).push(kv.pairs()[j as int]));
                assert(info_vars(kv.pairs().take(j + 1)) =~= info_vars(kv.pairs().take(j as int)).push(
                    (info_var(kv.pairs()[j as int].0), kv.pairs()[j as int].1),
                ));
                j = j + 1;
            }
            assert(kv.pairs().take(j as int) =~= kv.pairs());
        }
        ctx.bind(columns[k].clone(), row[k].clone());
        k = k + 1;
    }
    ctx
}

/// The longest filter or format expression, in characters, that is handed to
/// the evaluator, which parses and evaluates nesting recursively: the bound
/// keeps the deepest nesting it admits to a fraction of a 2 MiB thread stack.
pub const MAX_EXPR_LEN: usize = 512;

/// Whether the expression `q`, if any, is longer than the evaluator accepts.
pub open spec fn too_long(q: Option<Seq<char>>) -> bool {
    q matches Some(s) && s.len() > MAX_EXPR_LEN
}

/// Whether the expression `q`, if any, is short enough for the evaluator.
pub fn expr_fits(q: Option<&str>) -> (r: bool)
    ensures
        r == !too_long(opt_view(q)),
{
    match q {
        None => true,
        Some(s) => s.unicode_len() <= MAX_EXPR_LEN,
    }
}

/// What evaluating the filter expression `expr` as a boolean yields with the
/// string variables `vars` and no built-in functions (variables, literals,
/// comparisons and boolean operators), or `None` where it fails.
pub uninterp spec fn filter_value(expr: Seq<char>, vars: Map<Seq<char>, Seq<char>>) -> Option<bool>;

/// What evaluating the format expression `expr` as a string yields with the
/// string variables `vars` and no built-in functions (variables, literals and
/// operators such as concatenation), or `None` where it fails.
pub uninterp spec fn format_value(expr: Seq<char>, vars: Map<Seq<char>, Seq<char>>) -> Option<
    Seq<char>,
>;

/// Relies on evalexpr's `eval_boolean_with_context` over a `HashMapContext`
/// that holds the bindings as string values (a later binding replaces an
/// earlier one) and has its built-in functions disabled (some of them panic
/// on some arguments): the result depends on the expression and the
/// variables only. The expression's length is bounded, since the evaluator
/// recurses once for each level of nesting.
#[verifier::external_body]
fn eval_filter(expr: &str, ctx: &VarMap) -> (r: Result<bool, evalexpr::EvalexprError>)
    requires
        expr@.len() <= MAX_EXPR_LEN,
    ensures
        r matches Ok(b) ==> filter_value(expr@, ctx.view()) == Some(b),
        r is Err ==> filter_value(expr@, ctx.view()) is None,
{
    let mut context = evalexpr::HashMapContext::new();
    context.set_builtin_functions_disabled(true)?;
    for (name, value) in ctx.entries.iter() {
        context.set_value(name.clone(), evalexpr::Value::String(value.clone()))?;
    }
    evalexpr::eval_boolean_with_context(expr, &context)
}

/// Relies on evalexpr's `eval_string_with_context` over a `HashMapContext`
/// that holds the bindings as string values (a later binding replaces an
/// earlier one) and has its built-in functions disabled (some of them panic
/// on some arguments): the result depends on the expression and the
/// variables only. The expression's length is bounded, since the evaluator
/// recurses once for each level of nesting.
#[verifier::external_body]
fn eval_format(expr: &str, ctx: &VarMap) -> (r: Result<String, evalexpr::EvalexprError>)
    requires
        expr@.len() <= MAX_EXPR_LEN,
    ensures
        r matches Ok(s) ==> format_value(expr@, ctx.view()) == Some(s@),
        r is Err ==> format_value(expr@, ctx.view()) is None,
{
    let mut context = evalexpr::HashMapContext::new();
    context.set_builtin_functions_disabled(true)?;
    for (name, value) in ctx.entries.iter() {
        context.set_value(name.clone(), evalexpr::Value::String(value.clone()))?;
    }
    evalexpr::eval_string_with_context(expr, &context)
}

/// Whether the record `row` passes the filter `query`: every record passes
/// an absent filter; otherwise the filter's value in the record's context,
/// `None` where evaluation fails.
pub open spec fn passes(cols: Seq<Seq<char>>, row: Seq<Seq<char>>, query: Option<Seq<char>>) -> Option<bool> {
    match query {
        None => Some(true),
        Some(q) => filter_value(q, context_of(cols, row)),
    }
}

/// The records among the first `n` of `rows` that pass `query`, each with
/// its index, in order; `None` where an evaluation fails.
pub open spec fn kept_rows(
    cols: Seq<Seq<char>>,
    rows: Seq<Seq<Seq<char>>>,
    query: Option<Seq<char>>,
    n: int,
) -> Option<Seq<(int, Seq<Seq<char>>)>>
    decreases n,
{
    if n <= 0 {
        Some(Seq::empty())
    } else {
        match kept_rows(cols, rows, query, n - 1) {
            None => None,
            Some(k) => match passes(cols, rows[n - 1], query) {
                None => None,
                Some(true) => Some(k.push((n - 1, rows[n - 1]))),
                Some(false) => Some(k),
            },
        }
    }
}

/// The lines that the query mode prints for the first `n` of `rows`: the
/// format expression's value for each record that passes `query`.
pub open spec fn query_output(
    cols: Seq<Seq<char>>,
    rows: Seq<Seq<Seq<char>>>,
    query: Option<Seq<char>>,
    fstring: Seq<char>,
    n: int,
) -> Option<Seq<Seq<char>>>
    decreases n,
{
    if n <= 0 {
        Some(Seq::empty())
    } else {
        match query_output(cols, rows, query, fstring, n - 1) {
            None => None,
            Some(k) => match passes(cols, rows[n - 1], query) {
                None => None,
                Some(true) => match format_value(fstring, context_of(cols, rows[n - 1])) {
                    None => None,
                    Some(line) => Some(k.push(line)),
                },
                Some(false) => Some(k),
            },
        }
    }
}

/// The view of kept records: each index with the record's values.
pub open spec fn kept_view(v: Seq<(usize, Vec<String>)>) -> Seq<(int, Seq<Seq<char>>)> {
    v.map_values(|p: (usize, Vec<String>)| (p.0 as int, p.1.deep_view()))
}

pub open spec fn opt_view(q: Option<&str>) -> Option<Seq<char>> {
    match q {
        Some(s) => Some(s@),
        None => None,
    }
}

/// Evaluates `query` on the record `row`; every record passes an absent
/// filter.
fn record_passes(columns: &Vec<String>, row: &Vec<String>, query: Option<&str>) -> (r: Result<bool, PgenError>)
    requires
        row@.len() == columns@.len(),
        !too_long(opt_view(query)),
    ensures
        r matches Ok(b) ==> passes(columns.deep_view(), row.deep_view(), opt_view(query)) == Some(b),
        r matches Err(e) ==> e is Query && passes(columns.deep_view(), row.deep_view(), opt_view(query)) is None,
{
    match query {
        None => Ok(true),
        Some(q) => {
            let ctx = build_context(columns, row);
            match eval_filter(q, &ctx) {
                Ok(b) => Ok(b),
                Err(e) => Err(PgenError::Query(e)),
            }
        },
    }
}

/// The records of `table` that pass the filter `query`, each with its index,
/// in table order; every record where `query` is absent. The filter has
/// variables, string literals, comparisons and boolean operators; built-in
/// functions (`len`, `str::to_lowercase`, `if`, ...) are not available and
/// fail as an evaluation error. Fails with `ExpressionTooLong` for a filter
/// longer than `MAX_EXPR_LEN` characters, else at the first record where the
/// filter cannot be evaluated.
pub fn filter_metadata(table: &MetadataTable, query: Option<&str>) -> (r: Result<Vec<(usize, Vec<String>)>, PgenError>)
    requires
        table.wf(),
    ensures
        r is Ok <==> !too_long(opt_view(query)) && kept_rows(
            table.column_names(),
            table.records(),
            opt_view(query),
            table.rows@.len() as int,
        ) is Some,
        r matches Ok(v) ==> Some(kept_view(v@)) == kept_rows(
            table.column_names(),
            table.records(),
            opt_view(query),
            table.rows@.len() as int,
        ),
        r matches Err(e) ==> if too_long(opt_view(query)) {
            e is ExpressionTooLong
        } else {
            e is Query
        },
{
    if !expr_fits(query) {
        return Err(PgenError::ExpressionTooLong);
    }
    let ghost cols = table.column_names();
    let ghost rows = table.records();
    let mut kept: Vec<(usize, Vec<String>)> = Vec::new();
    let mut i: usize = 0;
    while i < table.rows.len()
        invariant
            table.wf(),
            cols == table.column_names(),
            rows == table.records(),
            i <= table.rows@.len(),
            !too_long(opt_view(query)),
            kept_rows(cols, rows, opt_view(query), i as int) == Some(kept_view(kept@)),
        decreases table.rows.len() - i,
    {
        let row = &table.rows[i];
        assert(rows[i as int] == row.deep_view());
        match record_passes(&table.columns, row, query) {
            Ok(true) => {
                let ghost before = kept@;
                kept.push((i, row.clone()));
                proof {
                    assert(kept_view(kept@) =~= kept_view(before).push((i as int, rows[i as int])));
                }
            },
            Ok(false) => {},
            Err(e) => {
                proof {
                    lemma_kept_rows_stays_none(cols, rows, opt_view(query), i as int + 1, table.rows@.len() as int);
                }
                return Err(e);
            },
        }
        i = i + 1;
    }
    Ok(kept)
}

proof fn lemma_kept_rows_stays_none(
    cols: Seq<Seq<char>>,
    rows: Seq<Seq<Seq<char>>>,
    query: Option<Seq<char>>,
    m: int,
    n: int,
)
    requires
        m <= n,
        kept_rows(cols, rows, query, m) is None,
    ensures
        kept_rows(cols, rows, query, n) is None,
    decreases n - m,
{
    if m < n {
        lemma_kept_rows_stays_none(cols, rows, query, m + 1, n);
    }
}

proof fn lemma_query_output_stays_none(
    cols: Seq<Seq<char>>,
    rows: Seq<Seq<Seq<char>>>,
    query: Option<Seq<char>>,
    fstring: Seq<char>,
    m: int,
    n: int,
)
    requires
        m <= n,
        query_output(cols, rows, query, fstring, m) is None,
    ensures
        query_output(cols, rows, query, fstring, n) is None,
    decreases n - m,
{
    if m < n {
        lemma_query_output_stays_none(cols, rows, query, fstring, m + 1, n);
    }
}

/// For each record of `table` that passes `query` (every record where it is
/// absent), in table order, the value of the format expression `f_string` in
/// the record's context. Built-in functions are not available to either
/// expression (see `filter_metadata`). Fails with `ExpressionTooLong` where an
/// expression is longer than `MAX_EXPR_LEN` characters, else at the first
/// record where an expression cannot be evaluated.
pub fn query_lines(table: &MetadataTable, query: Option<&str>, f_string: &str) -> (r: Result<Vec<String>, PgenError>)
    requires
        table.wf(),
    ensures
        r is Ok <==> !too_long(opt_view(query)) && !too_long(Some(f_string@)) && query_output(
            table.column_names(),
            table.records(),
            opt_view(query),
            f_string@,
            table.rows@.len() as int,
        ) is Some,
        r matches Ok(v) ==> Some(v.deep_view()) == query_output(
            table.column_names(),
            table.records(),
            opt_view(query),
            f_string@,
            table.rows@.len() as int,
        ),
        r matches Err(e) ==> if too_long(opt_view(query)) || too_long(Some(f_string@)) {
            e is ExpressionTooLong
        } else {
            e is Query
        },
{
    if !expr_fits(query) || !expr_fits(Some(f_string)) {
        return Err(PgenError::ExpressionTooLong);
    }
    let ghost cols = table.column_names();
    let ghost rows = table.records();
    let mut out: Vec<String> = Vec::new();
    let mut i: usize = 0;
    assert(out.deep_view() =~= Seq::<Seq<char>>::empty());
    while i < table.rows.len()
        invariant
            table.wf(),
            cols == table.column_names(),
            rows == table.records(),
            i <= table.rows@.len(),
            !too_long(opt_view(query)),
            f_string@.len() <= MAX_EXPR_LEN,
            query_output(cols, rows, opt_view(query), f_string@, i as int) == Some(out.deep_view()),
        decreases table.rows.len() - i,
    {
        let row = &table.rows[i];
        assert(rows[i as int] == row.deep_view());
        match record_passes(&table.columns, row, query) {
            Ok(true) => {
                let ctx = build_context(&table.columns, row);
                match eval_format(f_string, &ctx) {
                    Ok(line) => {
                        let ghost before = out.deep_view();
                        out.push(line);
                        assert(out.deep_view() =~= before.push(line@));
                    },
                    Err(e) => {
                        proof {
                            lemma_query_output_stays_none(cols, rows, opt_view(query), f_string@, i as int + 1, table.rows@.len() as int);
                        }
                        return Err(PgenError::Query(e));
                    },
                }
            },
            Ok(false) => {},
            Err(e) => {
                proof {
                    lemma_query_output_stays_none(cols, rows, opt_view(query), f_string@, i as int + 1, table.rows@.len() as int);
                }
                return Err(e);
            },
        }
        i = i + 1;
    }
    Ok(out)
}

/// With no filter, every record is kept, with its index, in table order.
pub proof fn lemma_no_filter_keeps_all(cols: Seq<Seq<char>>, rows: Seq<Seq<Seq<char>>>, n: int)
    requires
        0 <= n <= rows.len(),
    ensures
        kept_rows(cols, rows, None, n) == Some(
            Seq::new(n as nat, |i: int| (i, rows[i])),
        ),
    decreases n,
{
    if n > 0 {
        lemma_no_filter_keeps_all(cols, rows, n - 1);
        assert(Seq::new((n - 1) as nat, |i: int| (i, rows[i])).push((n - 1, rows[n - 1])) =~= Seq::new(
            n as nat,
            |i: int| (i, rows[i]),
        ));
    } else {
        assert(Seq::new(0, |i: int| (i, rows[i])) =~= Seq::<(int, Seq<Seq<char>>)>::empty());
    }
}

proof fn lemma_info_var_injective(k1: Seq<char>, k2: Seq<char>)
    requires
        info_var(k1) == info_var(k2),
    ensures
        k1 == k2,
{
    assert(info_var(k1).len() == k1.len() + 6);
    assert(info_var(k2).len() == k2.len() + 6);
    assert(k1 =~= info_var(k1).subrange(5, 5 + k1.len() as int));
    assert(k2 =~= info_var(k2).subrange(5, 5 + k2.len() as int));
}

proof fn lemma_info_var_not_info(k: Seq<char>)
    ensures
        info_var(k) != info_column(),
{
    assert(info_var(k).len() == k.len() + 6);
}

/// A binding of another name leaves the binding of `x` as it was.
proof fn lemma_push_other(ps: Seq<(Seq<char>, Seq<char>)>, p: (Seq<char>, Seq<char>), x: Seq<char>)
    requires
        p.0 != x,
    ensures
        pairs_map(ps.push(p)).contains_key(x) == pairs_map(ps).contains_key(x),
        pairs_map(ps.push(p))[x] == pairs_map(ps)[x],
{
    assert(ps.push(p).drop_last() =~= ps);
}

proof fn lemma_info_vars_lookup(
    base: Seq<(Seq<char>, Seq<char>)>,
    es: Seq<(Seq<char>, Seq<char>)>,
    k: Seq<char>,
)
    requires
        pairs_map(es).contains_key(k),
    ensures
        pairs_map(base + info_vars(es)).contains_key(info_var(k)),
        pairs_map(base + info_vars(es))[info_var(k)] == pairs_map(es)[k],
    decreases es.len(),
{
    let last = es.last();
    let init = es.drop_last();
    assert(info_vars(es) =~= info_vars(init).push((info_var(last.0), last.1)));
    assert(base + info_vars(es) =~= (base + info_vars(init)).push((info_var(last.0), last.1)));
    assert((base + info_vars(es)).drop_last() =~= base + info_vars(init));
    if last.0 != k {
        if info_var(last.0) == info_var(k) {
            lemma_info_var_injective(last.0, k);
        }
        lemma_push_other(base + info_vars(init), (info_var(last.0), last.1), info_var(k));
        lemma_info_vars_lookup(base, init, k);
    }
}

proof fn lemma_later_columns_keep(
    cols: Seq<Seq<char>>,
    row: Seq<Seq<char>>,
    c: int,
    m: int,
    x: Seq<char>,
)
    requires
        0 <= c < m <= cols.len(),
        forall|j: int| c < j < cols.len() ==> #[trigger] cols[j] != info_column() && cols[j] != x,
    ensures
        pairs_map(context_pairs(cols, row, m)).contains_key(x) == pairs_map(
            context_pairs(cols, row, c + 1),
        ).contains_key(x),
        pairs_map(context_pairs(cols, row, m))[x] == pairs_map(context_pairs(cols, row, c + 1))[x],
    decreases m,
{
    if m > c + 1 {
        lemma_later_columns_keep(cols, row, c, m - 1, x);
        assert(cols[m - 1] != info_column() && cols[m - 1] != x);
        lemma_push_other(context_pairs(cols, row, m - 1), (cols[m - 1], row[m - 1]), x);
    }
}

/// In the evaluation context of a record whose column `c` is named `INFO`,
/// each key `k` of the INFO value is bound under `INFO[k]` to its value, and
/// `INFO` itself stays bound to the raw value, provided no later column is
/// named `INFO` or `INFO[k]`.
pub proof fn lemma_info_context(cols: Seq<Seq<char>>, row: Seq<Seq<char>>, c: int, k: Seq<char>)
    requires
        0 <= c < cols.len(),
        cols[c] == info_column(),
        forall|j: int|
            c < j < cols.len() ==> #[trigger] cols[j] != info_column() && cols[j] != info_var(k),
        pairs_map(info_entries(row[c])).contains_key(k),
    ensures
        context_of(cols, row).contains_key(info_var(k)),
        context_of(cols, row)[info_var(k)] == pairs_map(info_entries(row[c]))[k],
        context_of(cols, row).contains_key(info_column()),
        context_of(cols, row)[info_column()] == row[c],
{
    let n = cols.len() as int;
    let before = context_pairs(cols, row, c) + info_vars(info_entries(row[c]));
    assert(context_pairs(cols, row, c + 1) == before.push((cols[c], row[c])));
    assert(before.push((cols[c], row[c])).drop_last() =~= before);
    lemma_info_var_not_info(k);
    lemma_info_vars_lookup(context_pairs(cols, row, c), info_entries(row[c]), k);
    lemma_push_other(before, (cols[c], row[c]), info_var(k));
    lemma_later_columns_keep(cols, row, c, n, info_var(k));
    lemma_later_columns_keep(cols, row, c, n, info_column());
}

} // verus!
