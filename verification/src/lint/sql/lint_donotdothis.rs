//! Lint rules covering day-to-day SQL parts of PostgreSQL's "Don't Do This"
//! wiki page (<https://wiki.postgresql.org/wiki/Don't_Do_This>).
//!
//! Entries on that page which are more relevant to schemas are schema lints instead.
use super::{
    diagnostic_views, span_fits, span_within, spec_span_within, Diagnostic, DiagnosticRule,
    DiagnosticView, FilePos, ParsedSql, SqlExpr, SqlExprKind, SqlExprKindView, SqlExprView,
};
use crate::text::chars_of;
use vstd::prelude::*;

verus! {

/// The code of `c` with ASCII upper-case letters mapped to lower case.
pub open spec fn ascii_lower(c: char) -> u32 {
    if 'A' <= c && c <= 'Z' {
        (c as u32 + 32) as u32
    } else {
        c as u32
    }
}

/// `str::eq_ignore_ascii_case`: the texts are equal once ASCII letters are
/// put in one case. (ASCII case mapping leaves the other bytes of UTF-8 alone,
/// so comparing characters gives what comparing bytes gives.)
pub open spec fn eq_ignore_ascii_case(a: Seq<char>, b: Seq<char>) -> bool {
    a.len() == b.len() && forall|i: int| 0 <= i < a.len() ==> #[trigger] ascii_lower(a[i]) == ascii_lower(b[i])
}

fn char_ascii_lower(c: char) -> (r: u32)
    ensures
        r == ascii_lower(c),
{
    if 'A' <= c && c <= 'Z' {
        c as u32 + 32
    } else {
        c as u32
    }
}

pub fn str_eq_ignore_ascii_case(a: &str, b: &str) -> (r: bool)
    ensures
        r == eq_ignore_ascii_case(a@, b@),
{
    let av = chars_of(a);
    let bv = chars_of(b);
    if av.len() != bv.len() {
        return false;
    }
    let mut i: usize = 0;
    while i < av.len()
        invariant
            av@ == a@,
            bv@ == b@,
            av.len() == bv.len(),
            i <= av.len(),
            forall|j: int| 0 <= j < i ==> #[trigger] ascii_lower(a@[j]) == ascii_lower(b@[j]),
        decreases av.len() - i,
    {
        if char_ascii_lower(av[i]) != char_ascii_lower(bv[i]) {
            return false;
        }
        i += 1;
    }
    true
}

/// The expression is a call of `CURRENT_TIME` (any case, one-part name).
pub open spec fn is_current_time_call(e: SqlExprView) -> bool {
    match e.kind {
        SqlExprKindView::Function { name_parts } => name_parts.len() == 1 && (
        name_parts[0] matches Some(id) && eq_ignore_ascii_case(id, "CURRENT_TIME"@)),
        _ => false,
    }
}

/// The expression is `x NOT IN (subquery)`.
pub open spec fn is_not_in_subquery(e: SqlExprView) -> bool {
    match e.kind {
        SqlExprKindView::InSubquery { negated } => negated,
        _ => false,
    }
}

/// The rule reports the expression.
pub open spec fn flags(rule: DiagnosticRule, e: SqlExprView) -> bool {
    match rule {
        DiagnosticRule::DontUseCurrentTime => is_current_time_call(e),
        DiagnosticRule::DontUseNotIn => is_not_in_subquery(e),
    }
}

/// The diagnostics of `rule` for the expressions of one statement, in order.
pub open spec fn statement_diagnostics(
    exprs: Seq<SqlExprView>,
    within: (FilePos, FilePos),
    rule: DiagnosticRule,
) -> Seq<DiagnosticView>
    decreases exprs.len(),
{
    if exprs.len() == 0 {
        seq![]
    } else {
        let earlier = statement_diagnostics(exprs.drop_last(), within, rule);
        if flags(rule, exprs.last()) {
            earlier.push(DiagnosticView { span: spec_span_within(exprs.last().span, within), rule })
        } else {
            earlier
        }
    }
}

/// The diagnostics of `rule` for all statements of a query, in order.
pub open spec fn query_diagnostics(
    statements: Seq<Seq<SqlExprView>>,
    within: (FilePos, FilePos),
    rule: DiagnosticRule,
) -> Seq<DiagnosticView>
    decreases statements.len(),
{
    if statements.len() == 0 {
        seq![]
    } else {
        query_diagnostics(statements.drop_last(), within, rule) + statement_diagnostics(
            statements.last(),
            within,
            rule,
        )
    }
}

/// The diagnostic `rule` gives for an expression it reports.
pub open spec fn diagnostic_for(e: SqlExprView, within: (FilePos, FilePos), rule: DiagnosticRule) -> DiagnosticView {
    DiagnosticView { span: spec_span_within(e.span, within), rule }
}

/// Within one statement, every expression that the rule reports gives one
/// diagnostic, in the order of the expressions, and no other expression gives any.
pub proof fn lemma_statement_diagnostics_flagged(
    exprs: Seq<SqlExprView>,
    within: (FilePos, FilePos),
    rule: DiagnosticRule,
)
    ensures
        statement_diagnostics(exprs, within, rule) == exprs.filter(|e: SqlExprView| flags(rule, e)).map_values(
            |e: SqlExprView| diagnostic_for(e, within, rule),
        ),
    decreases exprs.len(),
{
    reveal(Seq::filter);
    let f = |e: SqlExprView| flags(rule, e);
    let d = |e: SqlExprView| diagnostic_for(e, within, rule);
    if exprs.len() == 0 {
        assert(exprs.filter(f) =~= Seq::<SqlExprView>::empty());
        assert(exprs.filter(f).map_values(d) =~= Seq::<DiagnosticView>::empty());
    } else {
        lemma_statement_diagnostics_flagged(exprs.drop_last(), within, rule);
        let earlier = exprs.drop_last().filter(f);
        assert(exprs.filter(f) == if f(exprs.last()) {
            earlier.push(exprs.last())
        } else {
            earlier
        });
        if f(exprs.last()) {
            assert(earlier.push(exprs.last()).map_values(d) =~= earlier.map_values(d).push(d(exprs.last())));
        }
    }
}

/// Diagnostics are per statement and add up: linting a query with one more
/// statement gives the diagnostics of the query followed by those of that
/// statement, whatever the earlier statements gave.
pub proof fn lemma_query_diagnostics_push(
    statements: Seq<Seq<SqlExprView>>,
    s: Seq<SqlExprView>,
    within: (FilePos, FilePos),
    rule: DiagnosticRule,
)
    ensures
        query_diagnostics(statements.push(s), within, rule) == query_diagnostics(statements, within, rule)
            + statement_diagnostics(s, within, rule),
{
    assert(statements.push(s).drop_last() =~= statements);
    assert(statements.push(s).last() == s);
}

/// The diagnostics of two runs of statements one after the other are those
/// of the first run followed by those of the second.
pub proof fn lemma_query_diagnostics_concat(
    a: Seq<Seq<SqlExprView>>,
    b: Seq<Seq<SqlExprView>>,
    within: (FilePos, FilePos),
    rule: DiagnosticRule,
)
    ensures
        query_diagnostics(a + b, within, rule) == query_diagnostics(a, within, rule) + query_diagnostics(
            b,
            within,
            rule,
        ),
    decreases b.len(),
{
    if b.len() == 0 {
        assert(a + b =~= a);
        assert(query_diagnostics(a, within, rule) + query_diagnostics(b, within, rule) =~= query_diagnostics(
            a,
            within,
            rule,
        ));
    } else {
        lemma_query_diagnostics_concat(a, b.drop_last(), within, rule);
        assert((a + b).drop_last() =~= a + b.drop_last());
        assert((a + b).last() == b.last());
        assert(query_diagnostics(a + b, within, rule) =~= query_diagnostics(a, within, rule) + query_diagnostics(
            b,
            within,
            rule,
        ));
    }
}

/// The number of expressions of the statements that the rule reports.
pub open spec fn flagged_count(statements: Seq<Seq<SqlExprView>>, rule: DiagnosticRule) -> nat
    decreases statements.len(),
{
    if statements.len() == 0 {
        0
    } else {
        flagged_count(statements.drop_last(), rule) + statements.last().filter(|e: SqlExprView| flags(rule, e)).len()
    }
}

/// A query gives exactly one diagnostic for each expression, over all its
/// statements, that the rule reports.
pub proof fn lemma_query_diagnostics_count(
    statements: Seq<Seq<SqlExprView>>,
    within: (FilePos, FilePos),
    rule: DiagnosticRule,
)
    ensures
        query_diagnostics(statements, within, rule).len() == flagged_count(statements, rule),
    decreases statements.len(),
{
    if statements.len() > 0 {
        lemma_query_diagnostics_count(statements.drop_last(), within, rule);
        lemma_statement_diagnostics_flagged(statements.last(), within, rule);
    }
}

/// Every expression that `rule` reports has a span that can be placed in the file.
pub open spec fn flagged_spans_fit(
    statements: Seq<Seq<SqlExprView>>,
    within: (FilePos, FilePos),
    rule: DiagnosticRule,
) -> bool {
    forall|i: int, j: int|
        0 <= i < statements.len() && 0 <= j < statements[i].len() && flags(
            rule,
            #[trigger] statements[i][j],
        ) ==> span_fits(statements[i][j].span, within)
}

pub(crate) fn expr_flags(e: &SqlExpr, rule: DiagnosticRule) -> (r: bool)
    ensures
        r == flags(rule, e@),
{
    match rule {
        DiagnosticRule::DontUseCurrentTime => match &e.kind {
            SqlExprKind::Function { name_parts } => {
                if name_parts.len() != 1 {
                    return false;
                }
                match &name_parts[0] {
                    Some(id) => str_eq_ignore_ascii_case(id.as_str(), "CURRENT_TIME"),
                    None => false,
                }
            },
            _ => false,
        },
        DiagnosticRule::DontUseNotIn => match &e.kind {
            SqlExprKind::InSubquery { negated } => *negated,
            _ => false,
        },
    }
}

/// The diagnostics of one rule for a parsed query.
fn lint_rule(sql: &ParsedSql, rule: DiagnosticRule) -> (r: Vec<Diagnostic>)
    requires
        flagged_spans_fit(sql@.statements, sql.source_span, rule),
    ensures
        diagnostic_views(r@) == query_diagnostics(sql@.statements, sql.source_span, rule),
{
    let ghost stmts = sql@.statements;
    let mut diags: Vec<Diagnostic> = Vec::new();
    let mut i: usize = 0;
    while i < sql.statements.len()
        invariant
            stmts == sql@.statements,
            stmts.len() == sql.statements@.len(),
            i <= stmts.len(),
            flagged_spans_fit(stmts, sql.source_span, rule),
            diagnostic_views(diags@) == query_diagnostics(stmts.subrange(0, i as int), sql.source_span, rule),
        decreases sql.statements.len() - i,
    {
        let exprs = &sql.statements[i];
        let ghost before = diagnostic_views(diags@);
        let mut j: usize = 0;
        while j < exprs.len()
            invariant
                stmts == sql@.statements,
                stmts.len() == sql.statements@.len(),
                i < stmts.len(),
                exprs@.map_values(|e: SqlExpr| e@) == stmts[i as int],
                j <= exprs.len(),
                flagged_spans_fit(stmts, sql.source_span, rule),
                diagnostic_views(diags@) == before + statement_diagnostics(stmts[i as int].subrange(0, j as int), sql.source_span, rule),
            decreases exprs.len() - j,
        {
            let e = &exprs[j];
            assert(stmts[i as int][j as int] == e@);
            assert(stmts[i as int].subrange(0, j + 1).drop_last() =~= stmts[i as int].subrange(0, j as int));
            if expr_flags(e, rule) {
                let span = span_within(e.span, sql.source_span);
                let ghost prev = diags@;
                diags.push(Diagnostic { span, rule });
                assert(diagnostic_views(diags@) =~= diagnostic_views(prev).push(DiagnosticView { span, rule }));
            }
            j += 1;
        }
        assert(stmts[i as int].subrange(0, j as int) =~= stmts[i as int]);
        assert(stmts.subrange(0, i + 1).drop_last() =~= stmts.subrange(0, i as int));
        i += 1;
    }
    assert(stmts.subrange(0, i as int) =~= stmts);
    diags
}

/// Reports each call of `CURRENT_TIME`.
pub fn lint_no_current_time(sql: &ParsedSql) -> (r: Vec<Diagnostic>)
    requires
        flagged_spans_fit(sql@.statements, sql.source_span, DiagnosticRule::DontUseCurrentTime),
    ensures
        diagnostic_views(r@) == query_diagnostics(
            sql@.statements,
            sql.source_span,
            DiagnosticRule::DontUseCurrentTime,
        ),
{
    lint_rule(sql, DiagnosticRule::DontUseCurrentTime)
}

/// Reports each `NOT IN (subquery)`.
pub fn lint_dont_use_not_in(sql: &ParsedSql) -> (r: Vec<Diagnostic>)
    requires
        flagged_spans_fit(sql@.statements, sql.source_span, DiagnosticRule::DontUseNotIn),
    ensures
        diagnostic_views(r@) == query_diagnostics(
            sql@.statements,
            sql.source_span,
            DiagnosticRule::DontUseNotIn,
        ),
{
    lint_rule(sql, DiagnosticRule::DontUseNotIn)
}

} // verus!
