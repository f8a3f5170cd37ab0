//! SQL queries embedded in Rust source code.
//!
//! Queries are expected within `query!`, `query_as!` and `query_scalar!`
//! macros, bare or under `sqlx::`, as their first argument when it is a
//! string literal (for `query_as!`, the first string literal, after the
//! record type).
//!
//! The search works on the macro invocations of a source file, in the order
//! a `syn` visitor meets them, with what it reads of each: the path, the
//! delimiter, and the arguments once parsed as comma-separated expressions.
//! Source text is parsed by `syn` and brought into this form
//! (`find_queries_in_source`).
use super::{found_views, FilePos, FoundSql, FoundSqlView};
use crate::text::{copy_string, join, join_strings, str_eq, string_views};
use syn::parse::Parser;
use syn::visit::Visit;
use vstd::prelude::*;

verus! {

/// A position in Rust source as `proc_macro2` gives it: 1-based line,
/// 0-based column.
#[derive(Copy, Clone, Debug)]
pub struct LineColumn {
    pub line: usize,
    pub column: usize,
}

/// An argument of a macro invocation.
pub enum RustMacroArg {
    /// A string literal: its value (escapes resolved), and where the literal
    /// starts and ends.
    StrLit { value: String, start: LineColumn, end: LineColumn },
    /// Any other expression.
    Other,
}

/// A macro invocation in expression position.
pub struct RustMacroCall {
    /// The segments of the macro's path (`sqlx`, `query`).
    pub path: Vec<String>,
    /// The arguments are delimited by parentheses.
    pub paren_delimited: bool,
    /// The arguments, when they parse as comma-separated expressions.
    pub args: Option<Vec<RustMacroArg>>,
}

/// The file position of a `proc_macro2` position (`From<LineColumn>`): the
/// column becomes 1-based.
pub open spec fn file_pos(lc: LineColumn) -> FilePos {
    FilePos { line: lc.line, col: (lc.column + 1) as usize }
}

/// The macro paths that hold SQL.
pub open spec fn is_sql_macro_path(p: Seq<char>) -> bool {
    ||| p == "query"@
    ||| p == "sqlx::query"@
    ||| p == "query_as"@
    ||| p == "sqlx::query_as"@
    ||| p == "query_scalar"@
    ||| p == "sqlx::query_scalar"@
}

/// The macro's path, its segments joined with `::`.
pub open spec fn macro_path(m: RustMacroCall) -> Seq<char> {
    join(string_views(m.path@), "::"@)
}

/// `query_as!` takes a record type before its query.
pub open spec fn is_query_as_path(p: Seq<char>) -> bool {
    p == "query_as"@ || p == "sqlx::query_as"@
}

/// `i` is the first argument that is a string literal.
pub open spec fn is_first_str_lit(args: Seq<RustMacroArg>, i: int) -> bool {
    &&& 0 <= i < args.len()
    &&& args[i] is StrLit
    &&& forall|j: int| 0 <= j < i ==> #[trigger] args[j] is Other
}

/// The first string-literal argument, if any.
pub open spec fn first_str_lit(args: Seq<RustMacroArg>) -> Option<int> {
    if exists|i: int| is_first_str_lit(args, i) {
        Some(choose|i: int| is_first_str_lit(args, i))
    } else {
        None
    }
}

/// The argument that holds the query: for `query_as!` the first string
/// literal (after the record type), for the other macros the first argument
/// when it is a string literal.
pub open spec fn query_arg_index(path: Seq<char>, args: Seq<RustMacroArg>) -> Option<int> {
    if is_query_as_path(path) {
        first_str_lit(args)
    } else if args.len() > 0 && args[0] is StrLit {
        Some(0)
    } else {
        None
    }
}

/// The query a macro invocation holds, if any: the string literal argument
/// that holds it (see `query_arg_index`) of an SQL macro with parentheses.
/// The span is moved one column in at each end, past the quotes.
pub open spec fn macro_query(m: RustMacroCall, filename: Seq<char>) -> Seq<FoundSqlView> {
    if is_sql_macro_path(macro_path(m)) && m.paren_delimited {
        match m.args {
            Some(args) => match query_arg_index(macro_path(m), args@) {
                Some(i) => match args@[i] {
                    RustMacroArg::StrLit { value, start, end } => seq![
                        FoundSqlView {
                            source_filename: filename,
                            source_span: (
                                file_pos(LineColumn { line: start.line, column: (start.column + 1) as usize }),
                                file_pos(LineColumn { line: end.line, column: (end.column - 1) as usize }),
                            ),
                            query: value@,
                        },
                    ],
                    RustMacroArg::Other => seq![],
                },
                None => seq![],
            },
            None => seq![],
        }
    } else {
        seq![]
    }
}

/// The queries of a sequence of macro invocations, in order.
pub open spec fn macros_queries(ms: Seq<RustMacroCall>, filename: Seq<char>) -> Seq<FoundSqlView>
    decreases ms.len(),
{
    if ms.len() == 0 {
        seq![]
    } else {
        macros_queries(ms.drop_last(), filename) + macro_query(ms.last(), filename)
    }
}

/// The string literal that holds the query, if any, can have its span moved
/// in without leaving `usize`.
pub open spec fn literal_fits(m: RustMacroCall) -> bool {
    match m.args {
        Some(args) => match query_arg_index(macro_path(m), args@) {
            Some(i) => match args@[i] {
                RustMacroArg::StrLit { start, end, .. } => start.column + 2 <= usize::MAX && end.column >= 1,
                RustMacroArg::Other => true,
            },
            None => true,
        },
        None => true,
    }
}

/// The value and the span of a string literal.
pub fn extract_query_from_expr(expr: &RustMacroArg) -> (r: Option<(String, (LineColumn, LineColumn))>)
    ensures
        match *expr {
            RustMacroArg::StrLit { value, start, end } => r matches Some((v, span)) && v@ == value@
                && span == (start, end),
            RustMacroArg::Other => r is None,
        },
{
    match expr {
        RustMacroArg::StrLit { value, start, end } => Some((copy_string(value), (*start, *end))),
        RustMacroArg::Other => None,
    }
}

fn is_sql_macro(path: &String) -> (b: bool)
    ensures
        b == is_sql_macro_path(path@),
{
    str_eq(path.as_str(), "query") || str_eq(path.as_str(), "sqlx::query") || str_eq(
        path.as_str(),
        "query_as",
    ) || str_eq(path.as_str(), "sqlx::query_as") || str_eq(path.as_str(), "query_scalar")
        || str_eq(path.as_str(), "sqlx::query_scalar")
}

fn is_query_as(path: &String) -> (b: bool)
    ensures
        b == is_query_as_path(path@),
{
    str_eq(path.as_str(), "query_as") || str_eq(path.as_str(), "sqlx::query_as")
}

/// The index of the argument that holds the query (`query_arg_index`).
fn query_arg(path: &String, args: &Vec<RustMacroArg>) -> (r: Option<usize>)
    ensures
        match r {
            Some(i) => query_arg_index(path@, args@) == Some(i as int),
            None => query_arg_index(path@, args@) is None,
        },
{
    if !is_query_as(path) {
        if args.len() > 0 {
            match &args[0] {
                RustMacroArg::StrLit { .. } => return Some(0),
                RustMacroArg::Other => {},
            }
        }
        return None;
    }
    let mut i: usize = 0;
    while i < args.len()
        invariant
            is_query_as_path(path@),
            i <= args.len(),
            forall|j: int| 0 <= j < i ==> #[trigger] args@[j] is Other,
        decreases args.len() - i,
    {
        match &args[i] {
            RustMacroArg::StrLit { .. } => {
                assert(is_first_str_lit(args@, i as int));
                proof {
                    let c = choose|k: int| is_first_str_lit(args@, k);
                    if c < i {
                        assert(args@[c] is Other);
                    } else if i < c {
                        assert(args@[i as int] is Other);
                    }
                    assert(c == i);
                    assert(first_str_lit(args@) == Some(i as int));
                }
                return Some(i);
            },
            RustMacroArg::Other => {},
        }
        i += 1;
    }
    assert(!exists|k: int| is_first_str_lit(args@, k));
    None
}

/// Whether the string literal that holds the macro's query, if any, can have
/// its span moved in without leaving `usize` (`literal_fits`).
pub fn query_literal_fits(m: &RustMacroCall) -> (b: bool)
    ensures
        b == literal_fits(*m),
{
    let path = join_strings(&m.path, "::");
    match &m.args {
        Some(args) => match query_arg(&path, args) {
            Some(i) => match &args[i] {
                RustMacroArg::StrLit { start, end, .. } => start.column <= usize::MAX - 2 && end.column >= 1,
                RustMacroArg::Other => true,
            },
            None => true,
        },
        None => true,
    }
}

/// Collects the SQL queries of the macro invocations it visits.
struct SqlMacroVisitor {
    queries: Vec<FoundSql>,
    source_filename: String,
}

impl SqlMacroVisitor {
    fn visit_expr_macro(&mut self, node: &RustMacroCall)
        requires
            literal_fits(*node),
        ensures
            final(self).source_filename == old(self).source_filename,
            found_views(final(self).queries@) == found_views(old(self).queries@) + macro_query(
                *node,
                old(self).source_filename@,
            ),
    {
        let ghost before = found_views(self.queries@);
        let path = join_strings(&node.path, "::");
        if is_sql_macro(&path) && node.paren_delimited {
            match &node.args {
                Some(exprs) => {
                    if let Some(index) = query_arg(&path, exprs) {
                        match extract_query_from_expr(&exprs[index]) {
                            Some((query, span)) => {
                                let mut span_start = span.0;
                                let mut span_end = span.1;
                                span_start.column += 1;
                                span_end.column -= 1;
                                let found = FoundSql {
                                    source_filename: copy_string(&self.source_filename),
                                    source_span: (
                                        FilePos { line: span_start.line, col: span_start.column + 1 },
                                        FilePos { line: span_end.line, col: span_end.column + 1 },
                                    ),
                                    query,
                                };
                                let ghost fv = found@;
                                self.queries.push(found);
                                assert(found_views(self.queries@) =~= before + seq![fv]);
                                return;
                            },
                            None => {},
                        }
                    }
                },
                None => {},
            }
        }
        assert(found_views(self.queries@) =~= before + Seq::<FoundSqlView>::empty());
    }
}

/// Finds the SQL queries within the macro invocations of a unit of Rust
/// source code, in the order they come.
pub fn find_queries(macro_calls: &Vec<RustMacroCall>, source_filename: String) -> (r: Vec<FoundSql>)
    requires
        forall|i: int| 0 <= i < macro_calls@.len() ==> literal_fits(#[trigger] macro_calls@[i]),
    ensures
        found_views(r@) == macros_queries(macro_calls@, source_filename@),
{
    let mut visitor = SqlMacroVisitor { queries: Vec::new(), source_filename };
    let ghost filename = visitor.source_filename@;
    let mut i: usize = 0;
    assert(found_views(visitor.queries@) =~= macros_queries(macro_calls@.subrange(0, 0), filename));
    while i < macro_calls.len()
        invariant
            i <= macro_calls.len(),
            filename == visitor.source_filename@,
            forall|k: int| 0 <= k < macro_calls@.len() ==> literal_fits(#[trigger] macro_calls@[k]),
            found_views(visitor.queries@) == macros_queries(macro_calls@.subrange(0, i as int), filename),
        decreases macro_calls.len() - i,
    {
        assert(macro_calls@.subrange(0, i + 1).drop_last() =~= macro_calls@.subrange(0, i as int));
        visitor.visit_expr_macro(&macro_calls[i]);
        i += 1;
    }
    assert(macro_calls@.subrange(0, i as int) =~= macro_calls@);
    visitor.queries
}

// ---------------------------------------------------------------------------
// Parsing Rust source with `syn`.

#[verifier::external_type_specification]
#[verifier::external_body]
pub struct ExExprMacro(syn::ExprMacro);

#[verifier::external_type_specification]
#[verifier::external_body]
pub struct ExSynExpr(syn::Expr);

/// The macro invocations in expression position of a Rust file, in the
/// order `syn::visit::Visit` meets them, as `syn::parse_file` parses the
/// source: each with its path's segments, whether it is delimited by
/// parentheses, and its arguments when they parse as comma-separated
/// expressions (`Punctuated::parse_terminated`), a string literal with its
/// value (`LitStr::value`) and the start and end of its span; `None` when the
/// source does not parse.
pub uninterp spec fn rust_macro_calls(source: Seq<char>) -> Option<Seq<RustMacroCall>>;

/// Gathers the macro invocations a `syn` visitor meets.
struct MacroCollector {
    calls: Vec<RustMacroCall>,
}

impl<'ast> Visit<'ast> for MacroCollector {
    /// Records the invocation, then visits what it holds
    /// (`syn::visit::visit_expr_macro`).
    #[verifier::external_body]
    fn visit_expr_macro(&mut self, node: &'ast syn::ExprMacro) {
        self.calls.push(macro_call_of(node));
        syn::visit::visit_expr_macro(self, node);
    }
}

/// Converts a macro invocation: its path, delimiter and arguments, these
/// parsed with `Punctuated::<Expr, Comma>::parse_terminated`.
#[verifier::external_body]
fn macro_call_of(node: &syn::ExprMacro) -> RustMacroCall {
    let args = syn::punctuated::Punctuated::<syn::Expr, syn::token::Comma>::parse_terminated
        .parse2(node.mac.tokens.clone())
        .ok()
        .map(|exprs| exprs.iter().map(macro_arg_of).collect());
    RustMacroCall {
        path: node.mac.path.segments.iter().map(|s| s.ident.to_string()).collect(),
        paren_delimited: matches!(node.mac.delimiter, syn::MacroDelimiter::Paren(_)),
        args,
    }
}

/// Converts a macro argument: a string literal with its value and span, or
/// any other expression.
#[verifier::external_body]
fn macro_arg_of(e: &syn::Expr) -> RustMacroArg {
    match e {
        syn::Expr::Lit(syn::ExprLit { lit: syn::Lit::Str(s), .. }) => {
            let (start, end) = (s.span().start(), s.span().end());
            RustMacroArg::StrLit {
                value: s.value(),
                start: LineColumn { line: start.line, column: start.column },
                end: LineColumn { line: end.line, column: end.column },
            }
        },
        _ => RustMacroArg::Other,
    }
}

/// Parses Rust source with `syn::parse_file` and collects its macro
/// invocations with a `syn::visit::Visit` visitor. The contract claims only
/// that the result is `rust_macro_calls` of the source.
#[verifier::external_body]
fn parse_rust_macro_calls(source: &str) -> (r: Option<Vec<RustMacroCall>>)
    ensures
        match r {
            Some(v) => rust_macro_calls(source@) == Some(v@),
            None => rust_macro_calls(source@) is None,
        },
{
    let file = syn::parse_file(source).ok()?;
    let mut collector = MacroCollector { calls: Vec::new() };
    collector.visit_file(&file);
    Some(collector.calls)
}

/// Why Rust source could not be searched.
pub enum RustParseError {
    /// The source does not parse.
    Syntax { source_filename: String },
    /// A string literal that holds a query has a span that cannot be moved
    /// in past its quotes without leaving `usize`.
    SpanOutOfRange { source_filename: String },
}

/// Finds the SQL queries within a unit of Rust source code: parses it with
/// `syn`, then searches its macro invocations as `find_queries` does.
pub fn find_queries_in_source(source: &str, source_filename: String) -> (r: Result<Vec<FoundSql>, RustParseError>)
    ensures
        match r {
            Ok(v) => rust_macro_calls(source@) matches Some(ms) && (forall|i: int|
                0 <= i < ms.len() ==> literal_fits(#[trigger] ms[i])) && found_views(v@) == macros_queries(
                ms,
                source_filename@,
            ),
            Err(RustParseError::Syntax { source_filename: f }) => rust_macro_calls(source@) is None
                && f@ == source_filename@,
            Err(RustParseError::SpanOutOfRange { source_filename: f }) => rust_macro_calls(source@) matches Some(ms)
                && (exists|i: int| 0 <= i < ms.len() && !literal_fits(#[trigger] ms[i])) && f@ == source_filename@,
        },
{
    let calls = match parse_rust_macro_calls(source) {
        Some(calls) => calls,
        None => return Err(RustParseError::Syntax { source_filename }),
    };
    let mut i: usize = 0;
    while i < calls.len()
        invariant
            rust_macro_calls(source@) == Some(calls@),
            i <= calls.len(),
            forall|k: int| 0 <= k < i ==> literal_fits(#[trigger] calls@[k]),
        decreases calls.len() - i,
    {
        if !query_literal_fits(&calls[i]) {
            let ghost ms = rust_macro_calls(source@).unwrap();
            assert(ms == calls@);
            assert(!literal_fits(ms[i as int]));
            return Err(RustParseError::SpanOutOfRange { source_filename });
        }
        i += 1;
    }
    Ok(find_queries(&calls, source_filename))
}

} // verus!
