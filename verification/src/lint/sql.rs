//! Linting of SQL embedded in code: queries found in Python and Rust
//! sources and in SQL files, parsed by `sqlparser` and checked by the lints
//! of `lint_donotdothis`.
pub mod gather_python;
pub mod gather_rust;
pub mod lint_donotdothis;

use crate::lint::DiagnosticClassification;
use crate::name_map::{
    keys_sorted, lemma_lookup_at, lemma_lookup_some, lemma_sorted_insert_last, lemma_sorted_insert_lookup,
    lemma_sorted_insert_sorted, lookup, map_entry_values, sorted_insert, NameMap,
};
use crate::text::{chars_of, copy_string, ends_with, ends_with_chars, string_views};
use gather_python::{find_queries_in_source, mod_queries, python_module};
use gather_rust::{literal_fits, macros_queries, rust_macro_calls, RustParseError};
use lint_donotdothis::{flagged_spans_fit, query_diagnostics};
use sqlparser::ast::{visit_expressions, Expr, Spanned};
use sqlparser::dialect::PostgreSqlDialect;
use sqlparser::parser::{Parser, ParserError};
use std::ops::ControlFlow;
use vstd::prelude::*;

verus! {

/// A position in a file: 1-based line and column.
#[derive(Copy, Clone, Debug)]
pub struct FilePos {
    pub line: usize,
    pub col: usize,
}

/// SQL that was harvested from a source code file.
pub struct FoundSql {
    pub source_filename: String,
    pub source_span: (FilePos, FilePos),
    pub query: String,
}

pub struct FoundSqlView {
    pub source_filename: Seq<char>,
    pub source_span: (FilePos, FilePos),
    pub query: Seq<char>,
}

impl View for FoundSql {
    type V = FoundSqlView;

    open spec fn view(&self) -> FoundSqlView {
        FoundSqlView {
            source_filename: self.source_filename@,
            source_span: self.source_span,
            query: self.query@,
        }
    }
}

pub open spec fn found_views(v: Seq<FoundSql>) -> Seq<FoundSqlView> {
    v.map_values(|f: FoundSql| f@)
}

/// A position that `sqlparser` gives within a query: 1-based line and
/// column, both 0 for an empty span.
#[derive(Copy, Clone, Debug)]
pub struct SqlLocation {
    pub line: u64,
    pub column: u64,
}

/// The first and the last position of an expression within a query.
#[derive(Copy, Clone, Debug)]
pub struct SqlSpan {
    pub start: SqlLocation,
    pub end: SqlLocation,
}

/// What the lints read of an expression of a parsed query.
pub enum SqlExprKind {
    /// A function call, with the parts of the function's name: the text of
    /// each part that is an identifier, `None` for other parts.
    Function { name_parts: Vec<Option<String>> },
    /// `expr [NOT] IN (subquery)`.
    InSubquery { negated: bool },
    /// Any other expression.
    Other,
}

/// An expression of a parsed query, with its span.
pub struct SqlExpr {
    pub kind: SqlExprKind,
    pub span: SqlSpan,
}

pub enum SqlExprKindView {
    Function { name_parts: Seq<Option<Seq<char>>> },
    InSubquery { negated: bool },
    Other,
}

pub struct SqlExprView {
    pub kind: SqlExprKindView,
    pub span: SqlSpan,
}

pub open spec fn option_string_view(o: Option<String>) -> Option<Seq<char>> {
    match o {
        Some(s) => Some(s@),
        None => None,
    }
}

impl View for SqlExprKind {
    type V = SqlExprKindView;

    open spec fn view(&self) -> SqlExprKindView {
        match self {
            SqlExprKind::Function { name_parts } => SqlExprKindView::Function {
                name_parts: name_parts@.map_values(|p: Option<String>| option_string_view(p)),
            },
            SqlExprKind::InSubquery { negated } => SqlExprKindView::InSubquery { negated: *negated },
            SqlExprKind::Other => SqlExprKindView::Other,
        }
    }
}

impl View for SqlExpr {
    type V = SqlExprView;

    open spec fn view(&self) -> SqlExprView {
        SqlExprView { kind: self.kind@, span: self.span }
    }
}

/// The views of the expressions of each statement.
pub open spec fn statement_views(v: Seq<Vec<SqlExpr>>) -> Seq<Seq<SqlExprView>> {
    v.map_values(|s: Vec<SqlExpr>| s@.map_values(|e: SqlExpr| e@))
}

/// What `sqlparser` makes of `sql` in its PostgreSQL dialect: for each
/// statement, its expressions in the order `visit_expressions` visits them;
/// `None` when the text does not parse.
pub uninterp spec fn postgres_expressions(sql: Seq<char>) -> Option<Seq<Seq<SqlExprView>>>;

#[verifier::external_type_specification]
#[verifier::external_body]
pub struct ExParserError(ParserError);

#[verifier::external_type_specification]
#[verifier::external_body]
pub struct ExExpr(Expr);

/// Parses `sql` with `sqlparser::parser::Parser::parse_sql` in the
/// PostgreSQL dialect and lists the expressions of each statement in the
/// order `sqlparser::ast::visit_expressions` visits them. The contract claims
/// only that the result is `postgres_expressions` of the text.
#[verifier::external_body]
fn parse_postgres_expressions(sql: &str) -> (r: Result<Vec<Vec<SqlExpr>>, ParserError>)
    ensures
        match r {
            Ok(v) => postgres_expressions(sql@) == Some(statement_views(v@)),
            Err(_) => postgres_expressions(sql@) is None,
        },
{
    let statements = Parser::parse_sql(&PostgreSqlDialect {}, sql)?;
    Ok(statements.iter().map(|statement| {
        let mut exprs = Vec::new();
        let _ = visit_expressions(statement, |e| {
            exprs.push(sql_expr_of(e));
            ControlFlow::<()>::Continue(())
        });
        exprs
    }).collect())
}

/// Copies what the lints read out of a `sqlparser` expression: its kind,
/// the identifiers of a called function's name, and its span (`Spanned::span`).
#[verifier::external_body]
fn sql_expr_of(e: &Expr) -> SqlExpr {
    let span = e.span();
    let kind = match e {
        Expr::Function(f) => SqlExprKind::Function {
            name_parts: f.name.0.iter().map(|p| p.as_ident().map(|i| i.value.clone())).collect(),
        },
        Expr::InSubquery { negated, .. } => SqlExprKind::InSubquery { negated: *negated },
        _ => SqlExprKind::Other,
    };
    let start = SqlLocation { line: span.start.line, column: span.start.column };
    let end = SqlLocation { line: span.end.line, column: span.end.column };
    SqlExpr { kind, span: SqlSpan { start, end } }
}

/// The message of a parser error (its `Display`). Nothing is claimed of it.
#[verifier::external_body]
fn parser_error_message(e: &ParserError) -> String {
    e.to_string()
}

/// Why a query could not be parsed.
pub struct SqlParseError {
    pub message: String,
}

/// SQL that has been parsed.
pub struct ParsedSql {
    pub source_filename: String,
    pub source_span: (FilePos, FilePos),
    pub text: String,
    /// The expressions of each statement, in visiting order.
    pub statements: Vec<Vec<SqlExpr>>,
}

pub struct ParsedSqlView {
    pub source_filename: Seq<char>,
    pub source_span: (FilePos, FilePos),
    pub text: Seq<char>,
    pub statements: Seq<Seq<SqlExprView>>,
}

impl View for ParsedSql {
    type V = ParsedSqlView;

    open spec fn view(&self) -> ParsedSqlView {
        ParsedSqlView {
            source_filename: self.source_filename@,
            source_span: self.source_span,
            text: self.text@,
            statements: statement_views(self.statements@),
        }
    }
}

impl ParsedSql {
    /// Parses the query of `value` (`TryFrom<&FoundSql>`).
    pub fn try_from(value: &FoundSql) -> (r: Result<ParsedSql, SqlParseError>)
        ensures
            match r {
                Ok(p) => postgres_expressions(value.query@) == Some(p@.statements) && p@.source_filename
                    == value.source_filename@ && p@.source_span == value.source_span && p@.text
                    == value.query@,
                Err(_) => postgres_expressions(value.query@) is None,
            },
    {
        match parse_postgres_expressions(value.query.as_str()) {
            Ok(statements) => Ok(
                ParsedSql {
                    source_filename: copy_string(&value.source_filename),
                    source_span: value.source_span,
                    text: copy_string(&value.query),
                    statements,
                },
            ),
            Err(e) => Err(SqlParseError { message: parser_error_message(&e) }),
        }
    }
}

/// Where a position within a query lands in the file, the query starting at `onto`.
pub open spec fn location_within(loc: SqlLocation, onto: FilePos) -> FilePos {
    if loc.line == 1 {
        FilePos { line: onto.line, col: (onto.col + loc.column - 1) as usize }
    } else {
        FilePos { line: (onto.line + loc.line - 1) as usize, col: loc.column as usize }
    }
}

/// The position can be placed in the file without leaving `usize`.
pub open spec fn location_fits(loc: SqlLocation, onto: FilePos) -> bool {
    &&& loc.column <= usize::MAX
    &&& loc.line <= usize::MAX
    &&& loc.line == 1 ==> 1 <= onto.col + loc.column <= usize::MAX
    &&& loc.line != 1 ==> 1 <= onto.line + loc.line <= usize::MAX
}

pub open spec fn span_fits(span: SqlSpan, within: (FilePos, FilePos)) -> bool {
    location_fits(span.start, within.0) && location_fits(span.end, within.0)
}

/// Where a span within a query lands in the file.
pub open spec fn spec_span_within(span: SqlSpan, within: (FilePos, FilePos)) -> (FilePos, FilePos) {
    (location_within(span.start, within.0), location_within(span.end, within.0))
}

fn apply_one(loc: SqlLocation, onto: FilePos) -> (r: FilePos)
    requires
        location_fits(loc, onto),
    ensures
        r == location_within(loc, onto),
{
    if loc.line == 1 {
        FilePos { line: onto.line, col: onto.col + loc.column as usize - 1 }
    } else {
        FilePos { line: onto.line + loc.line as usize - 1, col: loc.column as usize }
    }
}

/// Given the span that `sqlparser` gives within a query and the span of the
/// query in its file, the position of the span in the file.
fn span_within(span: SqlSpan, within: (FilePos, FilePos)) -> (r: (FilePos, FilePos))
    requires
        span_fits(span, within),
    ensures
        r == spec_span_within(span, within),
{
    (apply_one(span.start, within.0), apply_one(span.end, within.0))
}

/// A problem found in a query.
#[derive(Debug)]
pub struct Diagnostic {
    pub span: (FilePos, FilePos),
    pub rule: DiagnosticRule,
}

pub struct DiagnosticView {
    pub span: (FilePos, FilePos),
    pub rule: DiagnosticRule,
}

impl View for Diagnostic {
    type V = DiagnosticView;

    open spec fn view(&self) -> DiagnosticView {
        DiagnosticView { span: self.span, rule: self.rule }
    }
}

pub open spec fn diagnostic_views(v: Seq<Diagnostic>) -> Seq<DiagnosticView> {
    v.map_values(|d: Diagnostic| d@)
}

/// A rule of SQL linting.
#[derive(Copy, Clone, Debug, PartialEq, Eq)]
pub enum DiagnosticRule {
    DontUseCurrentTime,
    DontUseNotIn,
}

impl DiagnosticRule {
    pub open spec fn spec_describe(self) -> Seq<char> {
        match self {
            DiagnosticRule::DontUseCurrentTime => "Don't use `CURRENT_TIME`
It returns a `timetz` which is only implemented for SQL compliance and virtually never appropriate.
See: <https://wiki.postgresql.org/wiki/Don't_Do_This#Don.27t_use_CURRENT_TIME>"@,
            DiagnosticRule::DontUseNotIn => "Don't use `NOT IN`
(Or any equivalent combination like `NOT (x IN ...)`)
`NOT IN` behaves in surprising ways if `NULL`s are present, which equivalently
causes `NOT IN (SELECT ...)` to produce slow query plans.
Most of the time, you will prefer `NOT EXISTS (SELECT ...)`.
There can be valid exceptions to this rule.
See: <https://wiki.postgresql.org/wiki/Don't_Do_This#Don.27t_use_NOT_IN>"@,
        }
    }

    /// The rule's description: a title line, then an explanation.
    pub fn describe(self) -> (s: &'static str)
        ensures
            s@ == self.spec_describe(),
    {
        match self {
            DiagnosticRule::DontUseCurrentTime => {
                "Don't use `CURRENT_TIME`
It returns a `timetz` which is only implemented for SQL compliance and virtually never appropriate.
See: <https://wiki.postgresql.org/wiki/Don't_Do_This#Don.27t_use_CURRENT_TIME>"
            },
            DiagnosticRule::DontUseNotIn => {
                "Don't use `NOT IN`
(Or any equivalent combination like `NOT (x IN ...)`)
`NOT IN` behaves in surprising ways if `NULL`s are present, which equivalently
causes `NOT IN (SELECT ...)` to produce slow query plans.
Most of the time, you will prefer `NOT EXISTS (SELECT ...)`.
There can be valid exceptions to this rule.
See: <https://wiki.postgresql.org/wiki/Don't_Do_This#Don.27t_use_NOT_IN>"
            },
        }
    }

    pub open spec fn spec_default_classification(self) -> DiagnosticClassification {
        match self {
            DiagnosticRule::DontUseCurrentTime => DiagnosticClassification::Error,
            DiagnosticRule::DontUseNotIn => DiagnosticClassification::Warning,
        }
    }

    /// How serious a diagnostic of the rule is, unless configured otherwise.
    pub fn default_classification(self) -> (c: DiagnosticClassification)
        ensures
            c == self.spec_default_classification(),
    {
        match self {
            DiagnosticRule::DontUseCurrentTime => DiagnosticClassification::Error,
            DiagnosticRule::DontUseNotIn => DiagnosticClassification::Warning,
        }
    }

    pub open spec fn spec_name(self) -> Seq<char> {
        match self {
            DiagnosticRule::DontUseCurrentTime => "dont_use_current_time"@,
            DiagnosticRule::DontUseNotIn => "dont_use_not_in"@,
        }
    }

    /// The rule's name, in snake case.
    pub fn name(self) -> (s: &'static str)
        ensures
            s@ == self.spec_name(),
    {
        match self {
            DiagnosticRule::DontUseCurrentTime => "dont_use_current_time",
            DiagnosticRule::DontUseNotIn => "dont_use_not_in",
        }
    }

    /// The rule with the name `s`, if any.
    pub fn from_name(s: &str) -> (r: Option<DiagnosticRule>)
        ensures
            match r {
                Some(rule) => rule.spec_name() == s@,
                None => forall|rule: DiagnosticRule| rule.spec_name() != s@,
            },
    {
        if crate::text::str_eq(s, "dont_use_current_time") {
            Some(DiagnosticRule::DontUseCurrentTime)
        } else if crate::text::str_eq(s, "dont_use_not_in") {
            Some(DiagnosticRule::DontUseNotIn)
        } else {
            proof {
                assert forall|rule: DiagnosticRule| rule.spec_name() != s@ by {
                    match rule {
                        DiagnosticRule::DontUseCurrentTime => {},
                        DiagnosticRule::DontUseNotIn => {},
                    }
                }
            }
            None
        }
    }
}

/// Rules are told apart by their names, so that parsing a rule's name
/// (`from_name`) gives that rule back.
pub proof fn lemma_rule_names_distinct(a: DiagnosticRule, b: DiagnosticRule)
    ensures
        a.spec_name() == b.spec_name() ==> a == b,
{
    reveal_strlit("dont_use_current_time");
    reveal_strlit("dont_use_not_in");
    if a != b {
        assert(a.spec_name().len() != b.spec_name().len());
    }
}

/// What kind of source a file is, by its name.
#[derive(Copy, Clone, Debug, PartialEq, Eq)]
pub enum CodeFileKind {
    Python,
    Rust,
    Sql,
    Other,
}

pub open spec fn spec_code_file_kind(path: Seq<char>) -> CodeFileKind {
    if ends_with(path, ".py"@) {
        CodeFileKind::Python
    } else if ends_with(path, ".rs"@) {
        CodeFileKind::Rust
    } else if ends_with(path, ".sql"@) || ends_with(path, ".sql.postgres"@) || ends_with(
        path,
        ".sql.postgresql"@,
    ) {
        CodeFileKind::Sql
    } else {
        CodeFileKind::Other
    }
}

/// Whether a file holds Python, Rust or SQL, going by its name.
pub fn code_file_kind(path: &str) -> (k: CodeFileKind)
    ensures
        k == spec_code_file_kind(path@),
{
    let p = chars_of(path);
    if ends_with_chars(&p, ".py") {
        CodeFileKind::Python
    } else if ends_with_chars(&p, ".rs") {
        CodeFileKind::Rust
    } else if ends_with_chars(&p, ".sql") || ends_with_chars(&p, ".sql.postgres")
        || ends_with_chars(&p, ".sql.postgresql") {
        CodeFileKind::Sql
    } else {
        CodeFileKind::Other
    }
}

/// The contents of a source file, as the search for queries reads them.
pub enum CodeSource {
    /// The text of a Python module.
    Python(String),
    /// The text of a Rust file.
    Rust(String),
    /// The text of an SQL file.
    Sql(String),
}

/// A source file and its contents.
pub struct CodeFile {
    pub path: String,
    pub source: CodeSource,
}

/// The functions whose first argument is taken for SQL in Python code.
pub open spec fn expected_python_functions() -> Seq<Seq<char>> {
    seq!["txn.execute"@, "query"@, "db_pool.execute"@]
}

/// The queries a file holds: the queries found in Python or Rust, or the
/// whole text of an SQL file (placed at line 1, column 1).
pub open spec fn found_in(f: CodeFile) -> Seq<FoundSqlView> {
    match f.source {
        CodeSource::Python(text) => match python_module(text@, f.path@) {
            Some(m) => mod_queries(m, expected_python_functions(), f.path@),
            None => seq![],
        },
        CodeSource::Rust(text) => match rust_macro_calls(text@) {
            Some(ms) => macros_queries(ms, f.path@),
            None => seq![],
        },
        CodeSource::Sql(text) => seq![
            FoundSqlView {
                source_filename: f.path@,
                source_span: (FilePos { line: 1, col: 1 }, FilePos { line: 1, col: 1 }),
                query: text@,
            },
        ],
    }
}

/// Why the queries of a file cannot be gathered.
#[derive(Copy, Clone, Debug, PartialEq, Eq)]
pub enum GatherFailure {
    /// Its Python source does not parse.
    PythonSyntax,
    /// Its Rust source does not parse.
    RustSyntax,
    /// A string literal holding a query in its Rust source has a span that
    /// cannot be moved in past its quotes without leaving `usize`.
    RustSpanOutOfRange,
}

/// Why the queries of `f` cannot be gathered, if they cannot.
pub open spec fn gather_failure(f: CodeFile) -> Option<GatherFailure> {
    match f.source {
        CodeSource::Python(text) => if python_module(text@, f.path@) is Some {
            None
        } else {
            Some(GatherFailure::PythonSyntax)
        },
        CodeSource::Rust(text) => match rust_macro_calls(text@) {
            None => Some(GatherFailure::RustSyntax),
            Some(ms) => if forall|j: int| 0 <= j < ms.len() ==> literal_fits(#[trigger] ms[j]) {
                None
            } else {
                Some(GatherFailure::RustSpanOutOfRange)
            },
        },
        CodeSource::Sql(_) => None,
    }
}

/// The queries of the file can be gathered.
pub open spec fn parses(f: CodeFile) -> bool {
    gather_failure(f) is None
}

/// `i` is the first file whose queries cannot be gathered.
pub open spec fn is_first_failure(files: Seq<CodeFile>, i: int) -> bool {
    &&& 0 <= i < files.len()
    &&& !parses(files[i])
    &&& forall|j: int| 0 <= j < i ==> parses(#[trigger] files[j])
}

/// The queries of every file of `files` can be gathered.
pub open spec fn all_parse(files: Seq<CodeFile>) -> bool {
    forall|i: int| 0 <= i < files.len() ==> parses(#[trigger] files[i])
}

/// The queries that parse, parsed, in order.
pub open spec fn parse_all(found: Seq<FoundSqlView>) -> Seq<ParsedSqlView>
    decreases found.len(),
{
    if found.len() == 0 {
        seq![]
    } else {
        let f = found.last();
        let earlier = parse_all(found.drop_last());
        match postgres_expressions(f.query) {
            Some(statements) => earlier.push(
                ParsedSqlView {
                    source_filename: f.source_filename,
                    source_span: f.source_span,
                    text: f.query,
                    statements,
                },
            ),
            None => earlier,
        }
    }
}

/// The parsed queries of each file, by path (a path met twice keeping its last contents).
pub open spec fn gathered(files: Seq<CodeFile>) -> Seq<(Seq<char>, Seq<ParsedSqlView>)>
    decreases files.len(),
{
    if files.len() == 0 {
        seq![]
    } else {
        let f = files.last();
        sorted_insert(gathered(files.drop_last()), f.path@, parse_all(found_in(f)))
    }
}

/// All diagnostics for a parsed query: those of each lint, lint by lint.
pub open spec fn all_diagnostics(sql: ParsedSqlView) -> Seq<DiagnosticView> {
    query_diagnostics(sql.statements, sql.source_span, DiagnosticRule::DontUseCurrentTime)
        + query_diagnostics(sql.statements, sql.source_span, DiagnosticRule::DontUseNotIn)
}

/// The reported spans of a parsed query can be placed in the file.
pub open spec fn all_spans_fit(sql: ParsedSqlView) -> bool {
    flagged_spans_fit(sql.statements, sql.source_span, DiagnosticRule::DontUseCurrentTime)
        && flagged_spans_fit(sql.statements, sql.source_span, DiagnosticRule::DontUseNotIn)
}

/// The diagnostics for a file's queries, query by query.
pub open spec fn file_diagnostics(sqls: Seq<ParsedSqlView>) -> Seq<DiagnosticView>
    decreases sqls.len(),
{
    if sqls.len() == 0 {
        seq![]
    } else {
        file_diagnostics(sqls.drop_last()) + all_diagnostics(sqls.last())
    }
}

/// The lints run in order: a query's diagnostics are those of
/// `CURRENT_TIME`, then those of `NOT IN`.
pub proof fn lemma_lint_order(sql: ParsedSqlView)
    ensures
        all_diagnostics(sql) == query_diagnostics(
            sql.statements,
            sql.source_span,
            DiagnosticRule::DontUseCurrentTime,
        ) + query_diagnostics(sql.statements, sql.source_span, DiagnosticRule::DontUseNotIn),
{
}

/// Each file is reported under its path, with the diagnostics of its parsed
/// queries one query after the other; a file without any has none.
pub proof fn lemma_linted_files(g: Seq<(Seq<char>, Seq<ParsedSqlView>)>)
    ensures
        linted(g).len() == g.len(),
        forall|i: int|
            0 <= i < g.len() ==> (#[trigger] linted(g)[i]).0 == g[i].0 && linted(g)[i].1 == file_diagnostics(
                g[i].1,
            ),
        forall|sqls: Seq<ParsedSqlView>, s: ParsedSqlView|
            #[trigger] file_diagnostics(sqls.push(s)) == file_diagnostics(sqls) + all_diagnostics(s),
        file_diagnostics(Seq::<ParsedSqlView>::empty()) == Seq::<DiagnosticView>::empty(),
{
    assert forall|sqls: Seq<ParsedSqlView>, s: ParsedSqlView|
        #[trigger] file_diagnostics(sqls.push(s)) == file_diagnostics(sqls) + all_diagnostics(s) by {
        assert(sqls.push(s).drop_last() =~= sqls);
    }
}

/// Runs every lint on a parsed query.
pub fn lint_all(sql: &ParsedSql) -> (r: Vec<Diagnostic>)
    requires
        all_spans_fit(sql@),
    ensures
        diagnostic_views(r@) == all_diagnostics(sql@),
{
    let mut out = lint_donotdothis::lint_no_current_time(sql);
    let mut more = lint_donotdothis::lint_dont_use_not_in(sql);
    let ghost a = diagnostic_views(out@);
    let ghost b = diagnostic_views(more@);
    out.append(&mut more);
    assert(diagnostic_views(out@) =~= a + b);
    out
}

pub open spec fn parsed_views(v: Seq<ParsedSql>) -> Seq<ParsedSqlView> {
    v.map_values(|p: ParsedSql| p@)
}

/// Whether the reported spans of a parsed query can be placed in the file.
fn spans_fit(sql: &ParsedSql) -> (b: bool)
    ensures
        b == all_spans_fit(sql@),
{
    let ghost stmts = sql@.statements;
    let mut i: usize = 0;
    while i < sql.statements.len()
        invariant
            stmts == sql@.statements,
            stmts.len() == sql.statements@.len(),
            i <= stmts.len(),
            forall|a: int, b: int| 0 <= a < i && 0 <= b < stmts[a].len() ==> (
                lint_donotdothis::flags(DiagnosticRule::DontUseCurrentTime, #[trigger] stmts[a][b])
                || lint_donotdothis::flags(DiagnosticRule::DontUseNotIn, stmts[a][b])) ==> span_fits(stmts[a][b].span, sql.source_span),
        decreases sql.statements.len() - i,
    {
        let exprs = &sql.statements[i];
        let mut j: usize = 0;
        while j < exprs.len()
            invariant
                stmts == sql@.statements,
                stmts.len() == sql.statements@.len(),
                i < stmts.len(),
                exprs@.map_values(|e: SqlExpr| e@) == stmts[i as int],
                j <= exprs.len(),
                forall|a: int, b: int| 0 <= a < i && 0 <= b < stmts[a].len() ==> (
                    lint_donotdothis::flags(DiagnosticRule::DontUseCurrentTime, #[trigger] stmts[a][b])
                    || lint_donotdothis::flags(DiagnosticRule::DontUseNotIn, stmts[a][b])) ==> span_fits(stmts[a][b].span, sql.source_span),
                forall|b: int| 0 <= b < j ==> (
                    lint_donotdothis::flags(DiagnosticRule::DontUseCurrentTime, #[trigger] stmts[i as int][b])
                    || lint_donotdothis::flags(DiagnosticRule::DontUseNotIn, stmts[i as int][b])) ==> span_fits(stmts[i as int][b].span, sql.source_span),
            decreases exprs.len() - j,
        {
            let e = &exprs[j];
            assert(stmts[i as int][j as int] == e@);
            if lint_donotdothis::expr_flags(e, DiagnosticRule::DontUseCurrentTime)
                || lint_donotdothis::expr_flags(e, DiagnosticRule::DontUseNotIn) {
                if !location_fits_exec(e.span.start, sql.source_span.0) || !location_fits_exec(e.span.end, sql.source_span.0) {
                    return false;
                }
            }
            j += 1;
        }
        i += 1;
    }
    true
}

fn location_fits_exec(loc: SqlLocation, onto: FilePos) -> (b: bool)
    ensures
        b == location_fits(loc, onto),
{
    if loc.column > usize::MAX as u64 || loc.line > usize::MAX as u64 {
        return false;
    }
    let column = loc.column as usize;
    let line = loc.line as usize;
    if loc.line == 1 {
        onto.col.checked_add(column).is_some() && !(onto.col == 0 && column == 0)
    } else {
        onto.line.checked_add(line).is_some() && !(onto.line == 0 && line == 0)
    }
}

/// The queries of each file, parsed; those that do not parse are left out.
fn gather_sql_from_code(files: Vec<CodeFile>) -> (r: Result<NameMap<Vec<ParsedSql>>, LintSqlError>)
    ensures
        match r {
            Ok(m) => all_parse(files@) && map_entry_values(m@, |w: Seq<ParsedSql>| parsed_views(w))
                == gathered(files@),
            Err(e) => error_failure(e) matches Some(k) && exists|i: int|
                is_first_failure(files@, i) && gather_failure(#[trigger] files@[i]) == Some(k)
                    && files@[i].path@ == error_path(e),
        },
{
    let ghost fs = files@;
    let mut out: NameMap<Vec<ParsedSql>> = NameMap::new();
    let mut pending = crate::name_map::reversed(files);
    let ghost mut done: int = 0;
    while pending.len() > 0
        invariant
            0 <= done,
            done + pending@.len() == fs.len(),
            forall|i: int| 0 <= i < pending@.len() ==> #[trigger] pending@[i] == fs[fs.len() - 1 - i],
            map_entry_values(out@, |w: Seq<ParsedSql>| parsed_views(w)) == gathered(fs.subrange(0, done)),
            all_parse(fs.subrange(0, done)),
            fs == files@,
        decreases pending.len(),
    {
        let file = pending.pop().unwrap();
        assert(file == fs[done]);
        assert(fs.subrange(0, done + 1).drop_last() =~= fs.subrange(0, done));
        assert forall|j: int| 0 <= j < done implies parses(#[trigger] fs[j]) by {
            assert(fs.subrange(0, done)[j] == fs[j]);
        }
        let ghost found_spec = found_in(file);
        let found_sqls: Vec<FoundSql> = match &file.source {
            CodeSource::Python(text) => {
                let mut expected: Vec<String> = Vec::new();
                expected.push(String::from_str("txn.execute"));
                expected.push(String::from_str("query"));
                expected.push(String::from_str("db_pool.execute"));
                assert(string_views(expected@) =~= expected_python_functions());
                match find_queries_in_source(text.as_str(), copy_string(&file.path), expected) {
                    Ok(found) => found,
                    Err(e) => {
                        assert(is_first_failure(fs, done));
                        return Err(LintSqlError::PythonParse { source_filename: e.source_filename });
                    },
                }
            },
            CodeSource::Rust(text) => {
                match gather_rust::find_queries_in_source(text.as_str(), copy_string(&file.path)) {
                    Ok(found) => found,
                    Err(RustParseError::Syntax { source_filename }) => {
                        assert(is_first_failure(fs, done));
                        return Err(LintSqlError::RustParse { source_filename });
                    },
                    Err(RustParseError::SpanOutOfRange { source_filename }) => {
                        assert(is_first_failure(fs, done));
                        return Err(LintSqlError::RustSpanOutOfRange { source_filename });
                    },
                }
            },
            CodeSource::Sql(text) => {
                let mut v: Vec<FoundSql> = Vec::new();
                v.push(
                    FoundSql {
                        source_filename: copy_string(&file.path),
                        source_span: (FilePos { line: 1, col: 1 }, FilePos { line: 1, col: 1 }),
                        query: copy_string(text),
                    },
                );
                assert(found_views(v@) =~= found_spec);
                v
            },
        };
        assert(found_views(found_sqls@) == found_spec);
        let mut parsed_sql: Vec<ParsedSql> = Vec::new();
        let mut k: usize = 0;
        while k < found_sqls.len()
            invariant
                k <= found_sqls.len(),
                found_views(found_sqls@) == found_spec,
                parsed_views(parsed_sql@) == parse_all(found_spec.subrange(0, k as int)),
            decreases found_sqls.len() - k,
        {
            assert(found_spec.subrange(0, k + 1).drop_last() =~= found_spec.subrange(0, k as int));
            assert(found_spec[k as int] == found_sqls@[k as int]@);
            match ParsedSql::try_from(&found_sqls[k]) {
                Ok(parsed) => {
                    let ghost prev = parsed_views(parsed_sql@);
                    let ghost pv = parsed@;
                    parsed_sql.push(parsed);
                    assert(parsed_views(parsed_sql@) =~= prev.push(pv));
                },
                Err(_) => {},
            }
            k += 1;
        }
        assert(found_spec.subrange(0, k as int) =~= found_spec);
        let ghost before = out@;
        let ghost parsed_sql_seq = parsed_sql@;
        let path = copy_string(&file.path);
        out.insert(path, parsed_sql);
        proof {
            crate::name_map::lemma_sorted_insert_map(before, file.path@, parsed_sql_seq, |w: Seq<ParsedSql>| parsed_views(w));
        }
        assert(parses(fs[done]));
        assert forall|i: int| 0 <= i < done + 1 implies parses(#[trigger] fs.subrange(0, done + 1)[i]) by {
            if i < done {
                assert(fs.subrange(0, done + 1)[i] == fs.subrange(0, done)[i]);
            }
        }
        proof { done = done + 1; }
    }
    assert(fs.subrange(0, done) =~= fs);
    Ok(out)
}

/// Why linting could not finish.
pub enum LintSqlError {
    /// The Python source of the file does not parse.
    PythonParse { source_filename: String },
    /// The Rust source of the file does not parse.
    RustParse { source_filename: String },
    /// A string literal holding a query in the Rust file has a span that
    /// cannot be moved in past its quotes.
    RustSpanOutOfRange { source_filename: String },
    /// A reported span of a query in the file lies beyond what a position can hold.
    SpanOutOfRange { source_filename: String },
}

/// What kind of file failure an error reports, if it reports one.
pub open spec fn error_failure(e: LintSqlError) -> Option<GatherFailure> {
    match e {
        LintSqlError::PythonParse { .. } => Some(GatherFailure::PythonSyntax),
        LintSqlError::RustParse { .. } => Some(GatherFailure::RustSyntax),
        LintSqlError::RustSpanOutOfRange { .. } => Some(GatherFailure::RustSpanOutOfRange),
        LintSqlError::SpanOutOfRange { .. } => None,
    }
}

/// The file an error names.
pub open spec fn error_path(e: LintSqlError) -> Seq<char> {
    match e {
        LintSqlError::PythonParse { source_filename } => source_filename@,
        LintSqlError::RustParse { source_filename } => source_filename@,
        LintSqlError::RustSpanOutOfRange { source_filename } => source_filename@,
        LintSqlError::SpanOutOfRange { source_filename } => source_filename@,
    }
}

/// Every parsed query's reported spans can be placed in its file.
pub open spec fn gathered_spans_fit(g: Seq<(Seq<char>, Seq<ParsedSqlView>)>) -> bool {
    forall|i: int, j: int| 0 <= i < g.len() && 0 <= j < g[i].1.len() ==> all_spans_fit(#[trigger] g[i].1[j])
}

/// The diagnostics of each file, by path.
pub open spec fn linted(g: Seq<(Seq<char>, Seq<ParsedSqlView>)>) -> Seq<(Seq<char>, Seq<DiagnosticView>)> {
    map_entry_values(g, |ps: Seq<ParsedSqlView>| file_diagnostics(ps))
}

/// Lints the SQL found in source files: queries in Python and Rust code and
/// the text of SQL files. Gives, for each file, the diagnostics of its
/// queries that parse; a query that does not parse is left out. Fails at
/// the first file, in order, whose Python or Rust source does not parse.
#[verifier::loop_isolation(false)]
pub fn lint_sql_in_code(files: Vec<CodeFile>) -> (r: Result<NameMap<Vec<Diagnostic>>, LintSqlError>)
    ensures
        match r {
            Ok(m) => all_parse(files@) && gathered_spans_fit(gathered(files@)) && map_entry_values(
                m@,
                |d: Seq<Diagnostic>| diagnostic_views(d),
            ) == linted(gathered(files@)),
            Err(e) => match error_failure(e) {
                Some(k) => exists|i: int|
                    is_first_failure(files@, i) && gather_failure(#[trigger] files@[i]) == Some(k)
                        && files@[i].path@ == error_path(e),
                None => all_parse(files@) && !gathered_spans_fit(gathered(files@)),
            },
        },
{
    let ghost g = gathered(files@);
    let ghost fs = files@;
    let parsed_sqls = match gather_sql_from_code(files) {
        Ok(p) => p,
        Err(e) => return Err(e),
    };
    let entries = parsed_sqls.into_entries();
    let ghost ev = entries@.map_values(|e: (String, Vec<ParsedSql>)| (e.0@, e.1@));
    assert(ev == parsed_sqls@);
    assert(map_entry_values(ev, |w: Seq<ParsedSql>| parsed_views(w)) == g);
    let mut out: NameMap<Vec<Diagnostic>> = NameMap::new();
    let mut i: usize = 0;
    while i < entries.len()
        invariant
            i <= entries.len(),
            ev == entries@.map_values(|e: (String, Vec<ParsedSql>)| (e.0@, e.1@)),
            keys_sorted(ev),
            map_entry_values(ev, |w: Seq<ParsedSql>| parsed_views(w)) == g,
            forall|a: int, b: int| 0 <= a < i && 0 <= b < g[a].1.len() ==> all_spans_fit(#[trigger] g[a].1[b]),
            map_entry_values(out@, |d: Seq<Diagnostic>| diagnostic_views(d)) == linted(g).subrange(0, i as int),
            out@.len() == i,
            forall|a: int| 0 <= a < i ==> #[trigger] out@[a].0 == ev[a].0,
        decreases entries.len() - i,
    {
        let file = &entries[i].0;
        let sqls = &entries[i].1;
        let ghost gs = g[i as int].1;
        assert(gs == parsed_views(sqls@));
        let mut diags: Vec<Diagnostic> = Vec::new();
        let mut k: usize = 0;
        while k < sqls.len()
            invariant
                k <= sqls.len(),
                gs == parsed_views(sqls@),
                gs == g[i as int].1,
                forall|b: int| 0 <= b < k ==> all_spans_fit(#[trigger] gs[b]),
                diagnostic_views(diags@) == file_diagnostics(gs.subrange(0, k as int)),
            decreases sqls.len() - k,
        {
            assert(gs[k as int] == sqls@[k as int]@);
            if !spans_fit(&sqls[k]) {
                assert(!all_spans_fit(g[i as int].1[k as int]));
                assert(!gathered_spans_fit(g));
                return Err(LintSqlError::SpanOutOfRange { source_filename: copy_string(file) });
            }
            let mut more = lint_all(&sqls[k]);
            let ghost a = diagnostic_views(diags@);
            let ghost b = diagnostic_views(more@);
            diags.append(&mut more);
            assert(diagnostic_views(diags@) =~= a + b);
            assert(gs.subrange(0, k + 1).drop_last() =~= gs.subrange(0, k as int));
            k += 1;
        }
        assert(gs.subrange(0, k as int) =~= gs);
        let ghost before = out@;
        let ghost dseq = diags@;
        proof {
            assert forall|a: int| 0 <= a < before.len() implies crate::text::chars_lt(#[trigger] before[a].0, file@) by {
                assert(ev[a].0 == before[a].0);
                assert(ev[i as int].0 == file@);
            }
            lemma_sorted_insert_last(before, file@, dseq);
        }
        out.insert(copy_string(file), diags);
        assert(map_entry_values(out@, |d: Seq<Diagnostic>| diagnostic_views(d)) =~= linted(g).subrange(0, i + 1));
        i += 1;
    }
    assert(linted(g).subrange(0, i as int) =~= linted(g));
    Ok(out)
}

proof fn lemma_gathered_sorted(files: Seq<CodeFile>)
    ensures
        keys_sorted(gathered(files)),
    decreases files.len(),
{
    if files.len() > 0 {
        lemma_gathered_sorted(files.drop_last());
        let f = files.last();
        lemma_sorted_insert_sorted(gathered(files.drop_last()), f.path@, parse_all(found_in(f)));
    }
}

proof fn lemma_gathered_has(files: Seq<CodeFile>, i: int)
    requires
        0 <= i < files.len(),
    ensures
        lookup(gathered(files), files[i].path@) is Some,
    decreases files.len(),
{
    let f = files.last();
    let rest = files.drop_last();
    lemma_gathered_sorted(rest);
    lemma_sorted_insert_lookup(gathered(rest), f.path@, parse_all(found_in(f)), files[i].path@);
    if i < files.len() - 1 {
        assert(rest[i] == files[i]);
        lemma_gathered_has(rest, i);
    }
}

/// Every file given to the SQL linter has an entry in what it reports, also
/// one in which no query was found or flagged; and it reports on no other
/// file.
pub proof fn lemma_lint_reports_every_file(files: Seq<CodeFile>, path: Seq<char>)
    ensures
        (exists|k: int| 0 <= k < linted(gathered(files)).len() && #[trigger] linted(gathered(files))[k].0 == path)
            <==> (exists|i: int| 0 <= i < files.len() && #[trigger] files[i].path@ == path),
    decreases files.len(),
{
    let g = gathered(files);
    let l = linted(g);
    assert forall|k: int| 0 <= k < l.len() implies #[trigger] l[k].0 == g[k].0 by {}
    if exists|i: int| 0 <= i < files.len() && #[trigger] files[i].path@ == path {
        let i = choose|i: int| 0 <= i < files.len() && #[trigger] files[i].path@ == path;
        lemma_gathered_has(files, i);
        lemma_lookup_some(g, path);
        let k = choose|k: int| 0 <= k < g.len() && g[k].0 == path;
        assert(l[k].0 == path);
    }
    if exists|k: int| 0 <= k < l.len() && #[trigger] l[k].0 == path {
        let k = choose|k: int| 0 <= k < l.len() && #[trigger] l[k].0 == path;
        assert(g[k].0 == path);
        lemma_gathered_keys(files, k);
    }
}

proof fn lemma_gathered_keys(files: Seq<CodeFile>, k: int)
    requires
        0 <= k < gathered(files).len(),
    ensures
        exists|i: int| 0 <= i < files.len() && #[trigger] files[i].path@ == gathered(files)[k].0,
    decreases files.len(),
{
    let f = files.last();
    let rest = files.drop_last();
    let before = gathered(rest);
    let key = gathered(files)[k].0;
    if key == f.path@ {
        assert(files[files.len() - 1].path@ == key);
    } else {
        lemma_gathered_sorted(rest);
        lemma_sorted_insert_lookup(before, f.path@, parse_all(found_in(f)), key);
        lemma_gathered_sorted(files);
        lemma_lookup_at(gathered(files), k);
        lemma_lookup_some(before, key);
        let k2 = choose|k2: int| 0 <= k2 < before.len() && before[k2].0 == key;
        lemma_gathered_keys(rest, k2);
        let i = choose|i: int| 0 <= i < rest.len() && #[trigger] rest[i].path@ == before[k2].0;
        assert(files[i] == rest[i]);
    }
}

} // verus!
