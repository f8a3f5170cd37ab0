//! SQL queries embedded in Python source code.
//!
//! The search works on a Python syntax tree that holds what it reads: the
//! statements that contain other statements or values, and the expressions
//! that contain other expressions, calls, names, attributes and constants.
//! Source text is parsed by `rustpython_parser` and brought into this form
//! (`find_queries_in_source`).
//!
//! Only queries passed as a string literal in the first argument of a call
//! of one of the expected functions are found: dynamically generated SQL
//! and formatted strings are not.
use super::{found_views, FilePos, FoundSql, FoundSqlView};
use crate::text::{copy_string, string_views};
use rustpython_parser::ast::{Constant, ExceptHandler, Expr, Mod, Stmt};
use rustpython_parser::source_code::LineIndex;
use rustpython_parser::text_size::{TextRange, TextSize};
use vstd::prelude::*;

verus! {

/// A 1-based position in Python source (row and column).
#[derive(Copy, Clone, Debug)]
pub struct PyLocation {
    pub row: u32,
    pub column: u32,
}

/// A Python module.
pub enum PyMod {
    Module { body: Vec<PyStmt> },
    Expression { expr: PyExpr },
    Other,
}

/// An `except` clause.
pub struct PyExceptHandler {
    pub body: Vec<PyStmt>,
}

/// A Python statement, with the parts the search visits.
pub enum PyStmt {
    FunctionDef { body: Vec<PyStmt> },
    AsyncFunctionDef { body: Vec<PyStmt> },
    ClassDef { body: Vec<PyStmt> },
    If { body: Vec<PyStmt>, orelse: Vec<PyStmt> },
    For { body: Vec<PyStmt>, orelse: Vec<PyStmt> },
    AsyncFor { body: Vec<PyStmt>, orelse: Vec<PyStmt> },
    While { body: Vec<PyStmt>, orelse: Vec<PyStmt> },
    With { body: Vec<PyStmt> },
    AsyncWith { body: Vec<PyStmt> },
    Try { body: Vec<PyStmt>, handlers: Vec<PyExceptHandler>, orelse: Vec<PyStmt>, finalbody: Vec<PyStmt> },
    TryStar {
        body: Vec<PyStmt>,
        handlers: Vec<PyExceptHandler>,
        orelse: Vec<PyStmt>,
        finalbody: Vec<PyStmt>,
    },
    /// `return`, with its value if it has one.
    Return { returned: Option<PyExpr> },
    /// `targets = value`.
    Assign { value: PyExpr },
    /// `target op= value`.
    AugAssign { value: PyExpr },
    /// `target: annotation = value`, with its value if it has one.
    AnnAssign { assigned: Option<PyExpr> },
    Expr { value: PyExpr },
    Other,
}

/// A Python expression, with the parts the search visits.
pub enum PyExpr {
    /// A call; `keywords` holds the values of the keyword arguments.
    Call { func: Box<PyExpr>, args: Vec<PyExpr>, keywords: Vec<PyExpr> },
    BoolOp { values: Vec<PyExpr> },
    BinOp { left: Box<PyExpr>, right: Box<PyExpr> },
    UnaryOp { operand: Box<PyExpr> },
    Lambda { body: Box<PyExpr> },
    IfExp { test: Box<PyExpr>, body: Box<PyExpr>, orelse: Box<PyExpr> },
    /// A dict display; a key is `None` for a `**` unpacking.
    Dict { keys: Vec<Option<PyExpr>>, values: Vec<PyExpr> },
    List { elts: Vec<PyExpr> },
    Tuple { elts: Vec<PyExpr> },
    Attribute { value: Box<PyExpr>, attr: String },
    Name { id: String },
    /// A constant; `text` is its value when it is a string. `start` and
    /// `end` are where it starts and ends in the source.
    Constant { text: Option<String>, start: PyLocation, end: PyLocation },
    Other,
}

/// The dotted name a call's function is written as (`txn.execute`,
/// `db.conn.execute`): an attribute of a name or of such a dotted name.
pub open spec fn function_name(e: PyExpr) -> Option<Seq<char>>
    decreases e,
{
    match e {
        PyExpr::Attribute { value, attr } => match *value {
            PyExpr::Name { id } => Some(id@ + "."@ + attr@),
            PyExpr::Attribute { .. } => match function_name(*value) {
                Some(prefix) => Some(prefix + "."@ + attr@),
                None => None,
            },
            _ => None,
        },
        _ => None,
    }
}

/// The file position of a Python source position (`From<SourceLocation>`).
pub open spec fn file_pos(loc: PyLocation) -> FilePos {
    FilePos { line: loc.row as usize, col: loc.column as usize }
}

/// The query a call holds: its first argument, when the call's function is
/// one of `expected` and that argument is a string constant. The start is
/// moved one column in, past an opening quote.
pub open spec fn call_query(
    func: PyExpr,
    args: Seq<PyExpr>,
    expected: Seq<Seq<char>>,
    filename: Seq<char>,
) -> Seq<FoundSqlView> {
    match function_name(func) {
        Some(name) => if expected.contains(name) && args.len() > 0 {
            match args[0] {
                PyExpr::Constant { text: Some(sql), start, end } => seq![
                    FoundSqlView {
                        source_filename: filename,
                        source_span: (
                            file_pos(
                                PyLocation {
                                    row: start.row,
                                    column: if start.column == u32::MAX {
                                        u32::MAX
                                    } else {
                                        (start.column + 1) as u32
                                    },
                                },
                            ),
                            file_pos(end),
                        ),
                        query: sql@,
                    },
                ],
                _ => seq![],
            }
        } else {
            seq![]
        },
        None => seq![],
    }
}

/// The queries in an expression, depth first: in a call, those of its
/// arguments and keyword values come before the call's own.
pub open spec fn expr_queries(e: PyExpr, expected: Seq<Seq<char>>, filename: Seq<char>) -> Seq<
    FoundSqlView,
>
    decreases e,
{
    match e {
        PyExpr::Call { func, args, keywords } => exprs_queries(args@, expected, filename)
            + exprs_queries(keywords@, expected, filename) + call_query(
            *func,
            args@,
            expected,
            filename,
        ),
        PyExpr::BoolOp { values } => exprs_queries(values@, expected, filename),
        PyExpr::BinOp { left, right } => expr_queries(*left, expected, filename) + expr_queries(
            *right,
            expected,
            filename,
        ),
        PyExpr::UnaryOp { operand } => expr_queries(*operand, expected, filename),
        PyExpr::Lambda { body } => expr_queries(*body, expected, filename),
        PyExpr::IfExp { test, body, orelse } => expr_queries(*test, expected, filename)
            + expr_queries(*body, expected, filename) + expr_queries(*orelse, expected, filename),
        PyExpr::Dict { keys, values } => opt_exprs_queries(keys@, expected, filename)
            + exprs_queries(values@, expected, filename),
        PyExpr::List { elts } => exprs_queries(elts@, expected, filename),
        PyExpr::Tuple { elts } => exprs_queries(elts@, expected, filename),
        _ => seq![],
    }
}

/// The queries in a sequence of expressions, in order.
pub open spec fn exprs_queries(es: Seq<PyExpr>, expected: Seq<Seq<char>>, filename: Seq<char>) -> Seq<
    FoundSqlView,
>
    decreases es,
{
    if es.len() == 0 {
        seq![]
    } else {
        exprs_queries(es.drop_last(), expected, filename) + expr_queries(
            es.last(),
            expected,
            filename,
        )
    }
}

/// The queries in a sequence of expressions that may be absent, in order.
pub open spec fn opt_exprs_queries(
    es: Seq<Option<PyExpr>>,
    expected: Seq<Seq<char>>,
    filename: Seq<char>,
) -> Seq<FoundSqlView>
    decreases es,
{
    if es.len() == 0 {
        seq![]
    } else {
        opt_exprs_queries(es.drop_last(), expected, filename) + match es.last() {
            Some(e) => expr_queries(e, expected, filename),
            None => seq![],
        }
    }
}

/// The queries in a statement, depth first.
pub open spec fn stmt_queries(s: PyStmt, expected: Seq<Seq<char>>, filename: Seq<char>) -> Seq<
    FoundSqlView,
>
    decreases s,
{
    match s {
        PyStmt::FunctionDef { body } => stmts_queries(body@, expected, filename),
        PyStmt::AsyncFunctionDef { body } => stmts_queries(body@, expected, filename),
        PyStmt::ClassDef { body } => stmts_queries(body@, expected, filename),
        PyStmt::If { body, orelse } => stmts_queries(body@, expected, filename) + stmts_queries(
            orelse@,
            expected,
            filename,
        ),
        PyStmt::For { body, orelse } => stmts_queries(body@, expected, filename) + stmts_queries(
            orelse@,
            expected,
            filename,
        ),
        PyStmt::AsyncFor { body, orelse } => stmts_queries(body@, expected, filename)
            + stmts_queries(orelse@, expected, filename),
        PyStmt::While { body, orelse } => stmts_queries(body@, expected, filename) + stmts_queries(
            orelse@,
            expected,
            filename,
        ),
        PyStmt::With { body } => stmts_queries(body@, expected, filename),
        PyStmt::AsyncWith { body } => stmts_queries(body@, expected, filename),
        PyStmt::Try { body, handlers, orelse, finalbody } => stmts_queries(body@, expected, filename)
            + handlers_queries(handlers@, expected, filename) + stmts_queries(
            orelse@,
            expected,
            filename,
        ) + stmts_queries(finalbody@, expected, filename),
        PyStmt::TryStar { body, handlers, orelse, finalbody } => stmts_queries(
            body@,
            expected,
            filename,
        ) + handlers_queries(handlers@, expected, filename) + stmts_queries(
            orelse@,
            expected,
            filename,
        ) + stmts_queries(finalbody@, expected, filename),
        PyStmt::Return { returned } => opt_expr_queries(returned, expected, filename),
        PyStmt::Assign { value } => expr_queries(value, expected, filename),
        PyStmt::AugAssign { value } => expr_queries(value, expected, filename),
        PyStmt::AnnAssign { assigned } => opt_expr_queries(assigned, expected, filename),
        PyStmt::Expr { value } => expr_queries(value, expected, filename),
        PyStmt::Other => seq![],
    }
}

/// The queries in an expression that may be absent.
pub open spec fn opt_expr_queries(e: Option<PyExpr>, expected: Seq<Seq<char>>, filename: Seq<char>) -> Seq<
    FoundSqlView,
> {
    match e {
        Some(e) => expr_queries(e, expected, filename),
        None => seq![],
    }
}

/// The queries in a sequence of statements, in order.
pub open spec fn stmts_queries(ss: Seq<PyStmt>, expected: Seq<Seq<char>>, filename: Seq<char>) -> Seq<
    FoundSqlView,
>
    decreases ss,
{
    if ss.len() == 0 {
        seq![]
    } else {
        stmts_queries(ss.drop_last(), expected, filename) + stmt_queries(
            ss.last(),
            expected,
            filename,
        )
    }
}

/// The queries in the bodies of `except` clauses, in order.
pub open spec fn handlers_queries(
    hs: Seq<PyExceptHandler>,
    expected: Seq<Seq<char>>,
    filename: Seq<char>,
) -> Seq<FoundSqlView>
    decreases hs,
{
    if hs.len() == 0 {
        seq![]
    } else {
        handlers_queries(hs.drop_last(), expected, filename) + stmts_queries(
            hs.last().body@,
            expected,
            filename,
        )
    }
}

/// The queries in a module.
pub open spec fn mod_queries(m: PyMod, expected: Seq<Seq<char>>, filename: Seq<char>) -> Seq<
    FoundSqlView,
> {
    match m {
        PyMod::Module { body } => stmts_queries(body@, expected, filename),
        PyMod::Expression { expr } => expr_queries(expr, expected, filename),
        PyMod::Other => seq![],
    }
}

/// The dotted name of a call's function: an attribute of a name gives
/// `name.attr`, an attribute of a dotted name gives that name, a dot and the
/// attribute; anything else, a bare name included, gives none.
pub proof fn lemma_function_name(e: PyExpr)
    ensures
        match e {
            PyExpr::Attribute { value, attr } => match *value {
                PyExpr::Name { id } => function_name(e) == Some(id@ + "."@ + attr@),
                PyExpr::Attribute { .. } => function_name(e) == match function_name(*value) {
                    Some(p) => Some(p + "."@ + attr@),
                    None => None::<Seq<char>>,
                },
                _ => function_name(e) is None,
            },
            _ => function_name(e) is None,
        },
{
}

/// The queries of a call: those of its arguments, then those of its keyword
/// values, then its own; it has its own only when its function's dotted name
/// is expected and its first argument is a string constant.
pub proof fn lemma_call_queries(
    func: PyExpr,
    args: Vec<PyExpr>,
    keywords: Vec<PyExpr>,
    expected: Seq<Seq<char>>,
    filename: Seq<char>,
)
    ensures
        expr_queries(PyExpr::Call { func: Box::new(func), args, keywords }, expected, filename)
            == exprs_queries(args@, expected, filename) + exprs_queries(keywords@, expected, filename)
            + call_query(func, args@, expected, filename),
        !(function_name(func) matches Some(n) && expected.contains(n) && args@.len() > 0
            && args@[0] matches PyExpr::Constant { text: Some(_), .. }) ==> call_query(
            func,
            args@,
            expected,
            filename,
        ) == Seq::<FoundSqlView>::empty(),
{
}

/// The queries of two blocks of statements one after the other are those of
/// the first block followed by those of the second.
pub proof fn lemma_stmts_queries_concat(
    a: Seq<PyStmt>,
    b: Seq<PyStmt>,
    expected: Seq<Seq<char>>,
    filename: Seq<char>,
)
    ensures
        stmts_queries(a + b, expected, filename) == stmts_queries(a, expected, filename)
            + stmts_queries(b, expected, filename),
    decreases b.len(),
{
    if b.len() == 0 {
        assert(a + b =~= a);
    } else {
        lemma_stmts_queries_concat(a, b.drop_last(), expected, filename);
        assert((a + b).drop_last() =~= a + b.drop_last());
        assert((a + b).last() == b.last());
    }
}

/// Every statement of a block is searched: the queries of the block are
/// those of the statements before the `k`-th, then those of the `k`-th,
/// then those of the statements after it.
pub proof fn lemma_each_statement_searched(
    ss: Seq<PyStmt>,
    k: int,
    expected: Seq<Seq<char>>,
    filename: Seq<char>,
)
    requires
        0 <= k < ss.len(),
    ensures
        stmts_queries(ss, expected, filename) == stmts_queries(ss.take(k), expected, filename)
            + stmt_queries(ss[k], expected, filename) + stmts_queries(ss.skip(k + 1), expected, filename),
{
    lemma_stmts_queries_concat(ss.take(k + 1), ss.skip(k + 1), expected, filename);
    assert(ss.take(k + 1) + ss.skip(k + 1) =~= ss);
    assert(ss.take(k + 1).drop_last() =~= ss.take(k));
    assert(ss.take(k + 1).last() == ss[k]);
}

/// The bodies of compound statements are searched: a class, a function, a
/// `with` block holds the queries of its body, and an `if`, `for` or `while`
/// those of its body followed by those of its `else` block, and a `try`
/// those of its body, its `except` clauses, its `else` and its `finally`
/// blocks, so that wrapping statements in any of them keeps every query they
/// hold, in order.
pub proof fn lemma_nested_bodies_searched(
    body: Vec<PyStmt>,
    handlers: Vec<PyExceptHandler>,
    orelse: Vec<PyStmt>,
    finalbody: Vec<PyStmt>,
    expected: Seq<Seq<char>>,
    filename: Seq<char>,
)
    ensures
        stmt_queries(PyStmt::Try { body, handlers, orelse, finalbody }, expected, filename) == stmts_queries(
            body@,
            expected,
            filename,
        ) + handlers_queries(handlers@, expected, filename) + stmts_queries(orelse@, expected, filename)
            + stmts_queries(finalbody@, expected, filename),
        stmt_queries(PyStmt::TryStar { body, handlers, orelse, finalbody }, expected, filename) == stmts_queries(
            body@,
            expected,
            filename,
        ) + handlers_queries(handlers@, expected, filename) + stmts_queries(orelse@, expected, filename)
            + stmts_queries(finalbody@, expected, filename),
        stmt_queries(PyStmt::ClassDef { body }, expected, filename) == stmts_queries(body@, expected, filename),
        stmt_queries(PyStmt::FunctionDef { body }, expected, filename) == stmts_queries(body@, expected, filename),
        stmt_queries(PyStmt::AsyncFunctionDef { body }, expected, filename) == stmts_queries(
            body@,
            expected,
            filename,
        ),
        stmt_queries(PyStmt::With { body }, expected, filename) == stmts_queries(body@, expected, filename),
        stmt_queries(PyStmt::AsyncWith { body }, expected, filename) == stmts_queries(body@, expected, filename),
        stmt_queries(PyStmt::If { body, orelse }, expected, filename) == stmts_queries(body@, expected, filename)
            + stmts_queries(orelse@, expected, filename),
        stmt_queries(PyStmt::For { body, orelse }, expected, filename) == stmts_queries(body@, expected, filename)
            + stmts_queries(orelse@, expected, filename),
        stmt_queries(PyStmt::AsyncFor { body, orelse }, expected, filename) == stmts_queries(
            body@,
            expected,
            filename,
        ) + stmts_queries(orelse@, expected, filename),
        stmt_queries(PyStmt::While { body, orelse }, expected, filename) == stmts_queries(body@, expected, filename)
            + stmts_queries(orelse@, expected, filename),
{
}

/// The body of every `except` clause is searched: the queries of the
/// clauses are those of the clauses before the `k`-th, then those of the
/// `k`-th clause's body, then those of the clauses after it.
pub proof fn lemma_each_handler_searched(
    hs: Seq<PyExceptHandler>,
    k: int,
    expected: Seq<Seq<char>>,
    filename: Seq<char>,
)
    requires
        0 <= k < hs.len(),
    ensures
        handlers_queries(hs, expected, filename) == handlers_queries(hs.take(k), expected, filename)
            + stmts_queries(hs[k].body@, expected, filename) + handlers_queries(hs.skip(k + 1), expected, filename),
{
    lemma_handlers_queries_concat(hs.take(k + 1), hs.skip(k + 1), expected, filename);
    assert(hs.take(k + 1) + hs.skip(k + 1) =~= hs);
    assert(hs.take(k + 1).drop_last() =~= hs.take(k));
    assert(hs.take(k + 1).last() == hs[k]);
}

proof fn lemma_handlers_queries_concat(
    a: Seq<PyExceptHandler>,
    b: Seq<PyExceptHandler>,
    expected: Seq<Seq<char>>,
    filename: Seq<char>,
)
    ensures
        handlers_queries(a + b, expected, filename) == handlers_queries(a, expected, filename)
            + handlers_queries(b, expected, filename),
    decreases b.len(),
{
    if b.len() == 0 {
        assert(a + b =~= a);
    } else {
        lemma_handlers_queries_concat(a, b.drop_last(), expected, filename);
        assert((a + b).drop_last() =~= a + b.drop_last());
        assert((a + b).last() == b.last());
    }
}

/// A module whose body is one class finds in it every query of the class's
/// body, in order.
pub proof fn lemma_class_in_module_searched(
    module_body: Vec<PyStmt>,
    body: Vec<PyStmt>,
    expected: Seq<Seq<char>>,
    filename: Seq<char>,
)
    requires
        module_body@.len() == 1,
        module_body@[0] == (PyStmt::ClassDef { body }),
    ensures
        mod_queries(PyMod::Module { body: module_body }, expected, filename) == stmts_queries(
            body@,
            expected,
            filename,
        ),
{
    let ss = module_body@;
    assert(ss.drop_last() =~= Seq::<PyStmt>::empty());
    assert(ss.last() == (PyStmt::ClassDef { body }));
    assert(stmts_queries(ss.drop_last(), expected, filename) =~= Seq::<FoundSqlView>::empty());
    assert(stmt_queries(ss.last(), expected, filename) == stmts_queries(body@, expected, filename));
    assert(stmts_queries(ss, expected, filename) == stmts_queries(ss.drop_last(), expected, filename) + stmt_queries(
        ss.last(),
        expected,
        filename,
    ));
    assert(stmts_queries(ss, expected, filename) =~= stmts_queries(body@, expected, filename));
}

/// Whether `s` is one of the strings of `v`.
fn contains_string(v: &Vec<String>, s: &String) -> (r: bool)
    ensures
        r == string_views(v@).contains(s@),
{
    let mut i: usize = 0;
    while i < v.len()
        invariant
            i <= v.len(),
            forall|j: int| 0 <= j < i ==> v@[j]@ != s@,
        decreases v.len() - i,
    {
        if v[i] == *s {
            assert(string_views(v@)[i as int] == s@);
            return true;
        }
        i += 1;
    }
    proof {
        if string_views(v@).contains(s@) {
            let j = choose|j: int| 0 <= j < string_views(v@).len() && string_views(v@)[j] == s@;
            assert(v@[j]@ == s@);
        }
    }
    false
}

/// Traverses a Python syntax tree depth first, collecting the SQL queries
/// passed to the expected functions.
pub struct SqlQueryVisitor {
    /// The dotted names of the functions whose first argument is SQL (e.g. `txn.execute`).
    pub expected_functions: Vec<String>,
    /// The name of the source file.
    pub source_filename: String,
    /// The queries found so far.
    pub queries: Vec<FoundSql>,
}

impl SqlQueryVisitor {
    pub open spec fn expected(&self) -> Seq<Seq<char>> {
        string_views(self.expected_functions@)
    }

    pub fn new(expected_functions: Vec<String>, source_filename: String) -> (v: Self)
        ensures
            v.expected_functions == expected_functions,
            v.source_filename == source_filename,
            v.queries@.len() == 0,
    {
        SqlQueryVisitor { expected_functions, source_filename, queries: Vec::new() }
    }

    /// The dotted name a call's function is written as.
    pub fn extract_function_name(&self, expr: &PyExpr) -> (r: Option<String>)
        ensures
            option_view(r) == function_name(*expr),
        decreases expr,
    {
        match expr {
            PyExpr::Attribute { value, attr } => {
                match &**value {
                    PyExpr::Name { id } => {
                        let mut name = copy_string(id);
                        name.append(".");
                        name.append(attr.as_str());
                        Some(name)
                    },
                    PyExpr::Attribute { .. } => {
                        match self.extract_function_name(&**value) {
                            Some(prefix) => {
                                let mut name = prefix;
                                name.append(".");
                                name.append(attr.as_str());
                                Some(name)
                            },
                            None => None,
                        }
                    },
                    _ => None,
                }
            },
            _ => None,
        }
    }

    pub fn visit_mod(&mut self, node: &PyMod)
        ensures
            final(self).expected_functions == old(self).expected_functions,
            final(self).source_filename == old(self).source_filename,
            found_views(final(self).queries@) == found_views(old(self).queries@) + mod_queries(
                *node,
                old(self).expected(),
                old(self).source_filename@,
            ),
    {
        match node {
            PyMod::Module { body } => self.visit_stmts(body),
            PyMod::Expression { expr } => self.visit_expr(expr),
            PyMod::Other => {
                assert(found_views(self.queries@) =~= found_views(self.queries@) + Seq::<FoundSqlView>::empty());
            },
        }
    }

    pub fn visit_stmts(&mut self, stmts: &Vec<PyStmt>)
        ensures
            final(self).expected_functions == old(self).expected_functions,
            final(self).source_filename == old(self).source_filename,
            found_views(final(self).queries@) == found_views(old(self).queries@) + stmts_queries(
                stmts@,
                old(self).expected(),
                old(self).source_filename@,
            ),
        decreases stmts@, 1int,
    {
        let ghost start = found_views(self.queries@);
        let ghost expected = self.expected();
        let ghost filename = self.source_filename@;
        let mut i: usize = 0;
        while i < stmts.len()
            invariant
                i <= stmts.len(),
                self.expected_functions == old(self).expected_functions,
                self.source_filename == old(self).source_filename,
                expected == self.expected(),
                filename == self.source_filename@,
                found_views(self.queries@) == start + stmts_queries(stmts@.subrange(0, i as int), expected, filename),
            decreases stmts.len() - i,
        {
            assert(stmts@.subrange(0, i + 1).drop_last() =~= stmts@.subrange(0, i as int));
            self.visit_stmt(&stmts[i]);
            i += 1;
        }
        assert(stmts@.subrange(0, i as int) =~= stmts@);
    }

    pub fn visit_handlers(&mut self, handlers: &Vec<PyExceptHandler>)
        ensures
            final(self).expected_functions == old(self).expected_functions,
            final(self).source_filename == old(self).source_filename,
            found_views(final(self).queries@) == found_views(old(self).queries@) + handlers_queries(
                handlers@,
                old(self).expected(),
                old(self).source_filename@,
            ),
        decreases handlers@, 1int,
    {
        let ghost start = found_views(self.queries@);
        let ghost expected = self.expected();
        let ghost filename = self.source_filename@;
        let mut i: usize = 0;
        while i < handlers.len()
            invariant
                i <= handlers.len(),
                self.expected_functions == old(self).expected_functions,
                self.source_filename == old(self).source_filename,
                expected == self.expected(),
                filename == self.source_filename@,
                found_views(self.queries@) == start + handlers_queries(handlers@.subrange(0, i as int), expected, filename),
            decreases handlers.len() - i,
        {
            assert(handlers@.subrange(0, i + 1).drop_last() =~= handlers@.subrange(0, i as int));
            self.visit_stmts(&handlers[i].body);
            i += 1;
        }
        assert(handlers@.subrange(0, i as int) =~= handlers@);
    }

    pub fn visit_stmt(&mut self, node: &PyStmt)
        ensures
            final(self).expected_functions == old(self).expected_functions,
            final(self).source_filename == old(self).source_filename,
            found_views(final(self).queries@) == found_views(old(self).queries@) + stmt_queries(
                *node,
                old(self).expected(),
                old(self).source_filename@,
            ),
        decreases node, 0int,
    {
        let ghost start = found_views(self.queries@);
        match node {
            PyStmt::FunctionDef { body } => self.visit_stmts(body),
            PyStmt::AsyncFunctionDef { body } => self.visit_stmts(body),
            PyStmt::ClassDef { body } => self.visit_stmts(body),
            PyStmt::If { body, orelse } => {
                self.visit_stmts(body);
                self.visit_stmts(orelse);
            },
            PyStmt::For { body, orelse } => {
                self.visit_stmts(body);
                self.visit_stmts(orelse);
            },
            PyStmt::AsyncFor { body, orelse } => {
                self.visit_stmts(body);
                self.visit_stmts(orelse);
            },
            PyStmt::While { body, orelse } => {
                self.visit_stmts(body);
                self.visit_stmts(orelse);
            },
            PyStmt::With { body } => self.visit_stmts(body),
            PyStmt::AsyncWith { body } => self.visit_stmts(body),
            PyStmt::Try { body, handlers, orelse, finalbody } => {
                self.visit_stmts(body);
                self.visit_handlers(handlers);
                self.visit_stmts(orelse);
                self.visit_stmts(finalbody);
            },
            PyStmt::TryStar { body, handlers, orelse, finalbody } => {
                self.visit_stmts(body);
                self.visit_handlers(handlers);
                self.visit_stmts(orelse);
                self.visit_stmts(finalbody);
            },
            PyStmt::Return { returned } => self.visit_opt_expr(returned),
            PyStmt::Assign { value } => self.visit_expr(value),
            PyStmt::AugAssign { value } => self.visit_expr(value),
            PyStmt::AnnAssign { assigned } => self.visit_opt_expr(assigned),
            PyStmt::Expr { value } => self.visit_expr(value),
            PyStmt::Other => {
                assert(found_views(self.queries@) =~= start + Seq::<FoundSqlView>::empty());
            },
        }
    }

    pub fn visit_opt_expr(&mut self, e: &Option<PyExpr>)
        ensures
            final(self).expected_functions == old(self).expected_functions,
            final(self).source_filename == old(self).source_filename,
            found_views(final(self).queries@) == found_views(old(self).queries@) + opt_expr_queries(
                *e,
                old(self).expected(),
                old(self).source_filename@,
            ),
        decreases e, 1int,
    {
        match e {
            Some(e) => self.visit_expr(e),
            None => {
                assert(found_views(self.queries@) =~= found_views(self.queries@) + Seq::<FoundSqlView>::empty());
            },
        }
    }

    pub fn visit_exprs(&mut self, exprs: &Vec<PyExpr>)
        ensures
            final(self).expected_functions == old(self).expected_functions,
            final(self).source_filename == old(self).source_filename,
            found_views(final(self).queries@) == found_views(old(self).queries@) + exprs_queries(
                exprs@,
                old(self).expected(),
                old(self).source_filename@,
            ),
        decreases exprs@, 1int,
    {
        let ghost start = found_views(self.queries@);
        let ghost expected = self.expected();
        let ghost filename = self.source_filename@;
        let mut i: usize = 0;
        while i < exprs.len()
            invariant
                i <= exprs.len(),
                self.expected_functions == old(self).expected_functions,
                self.source_filename == old(self).source_filename,
                expected == self.expected(),
                filename == self.source_filename@,
                found_views(self.queries@) == start + exprs_queries(exprs@.subrange(0, i as int), expected, filename),
            decreases exprs.len() - i,
        {
            assert(exprs@.subrange(0, i + 1).drop_last() =~= exprs@.subrange(0, i as int));
            self.visit_expr(&exprs[i]);
            i += 1;
        }
        assert(exprs@.subrange(0, i as int) =~= exprs@);
    }

    pub fn visit_opt_exprs(&mut self, exprs: &Vec<Option<PyExpr>>)
        ensures
            final(self).expected_functions == old(self).expected_functions,
            final(self).source_filename == old(self).source_filename,
            found_views(final(self).queries@) == found_views(old(self).queries@) + opt_exprs_queries(
                exprs@,
                old(self).expected(),
                old(self).source_filename@,
            ),
        decreases exprs@, 1int,
    {
        let ghost start = found_views(self.queries@);
        let ghost expected = self.expected();
        let ghost filename = self.source_filename@;
        let mut i: usize = 0;
        while i < exprs.len()
            invariant
                i <= exprs.len(),
                self.expected_functions == old(self).expected_functions,
                self.source_filename == old(self).source_filename,
                expected == self.expected(),
                filename == self.source_filename@,
                found_views(self.queries@) == start + opt_exprs_queries(exprs@.subrange(0, i as int), expected, filename),
            decreases exprs.len() - i,
        {
            assert(exprs@.subrange(0, i + 1).drop_last() =~= exprs@.subrange(0, i as int));
            match &exprs[i] {
                Some(e) => self.visit_expr(e),
                None => {
                    assert(found_views(self.queries@) =~= found_views(self.queries@) + Seq::<FoundSqlView>::empty());
                },
            }
            i += 1;
        }
        assert(exprs@.subrange(0, i as int) =~= exprs@);
    }

    /// Records the query of a call, if it holds one.
    pub fn check_call(&mut self, func: &PyExpr, args: &Vec<PyExpr>)
        ensures
            final(self).expected_functions == old(self).expected_functions,
            final(self).source_filename == old(self).source_filename,
            found_views(final(self).queries@) == found_views(old(self).queries@) + call_query(
                *func,
                args@,
                old(self).expected(),
                old(self).source_filename@,
            ),
    {
        let ghost start = found_views(self.queries@);
        if let Some(func_name) = self.extract_function_name(func) {
            if contains_string(&self.expected_functions, &func_name) && args.len() > 0 {
                match &args[0] {
                    PyExpr::Constant { text: Some(sql), start: begin, end } => {
                        let column = begin.column.saturating_add(1);
                        let found = FoundSql {
                            source_filename: copy_string(&self.source_filename),
                            source_span: (
                                FilePos { line: begin.row as usize, col: column as usize },
                                FilePos { line: end.row as usize, col: end.column as usize },
                            ),
                            query: copy_string(sql),
                        };
                        let ghost fv = found@;
                        self.queries.push(found);
                        assert(found_views(self.queries@) =~= start + seq![fv]);
                        return;
                    },
                    _ => {},
                }
            }
        }
        assert(found_views(self.queries@) =~= start + Seq::<FoundSqlView>::empty());
    }

    pub fn visit_expr(&mut self, node: &PyExpr)
        ensures
            final(self).expected_functions == old(self).expected_functions,
            final(self).source_filename == old(self).source_filename,
            found_views(final(self).queries@) == found_views(old(self).queries@) + expr_queries(
                *node,
                old(self).expected(),
                old(self).source_filename@,
            ),
        decreases node, 0int,
    {
        let ghost start = found_views(self.queries@);
        match node {
            PyExpr::Call { func, args, keywords } => {
                self.visit_exprs(args);
                self.visit_exprs(keywords);
                self.check_call(&**func, args);
            },
            PyExpr::BoolOp { values } => self.visit_exprs(values),
            PyExpr::BinOp { left, right } => {
                self.visit_expr(&**left);
                self.visit_expr(&**right);
            },
            PyExpr::UnaryOp { operand } => self.visit_expr(&**operand),
            PyExpr::Lambda { body } => self.visit_expr(&**body),
            PyExpr::IfExp { test, body, orelse } => {
                self.visit_expr(&**test);
                self.visit_expr(&**body);
                self.visit_expr(&**orelse);
            },
            PyExpr::Dict { keys, values } => {
                self.visit_opt_exprs(keys);
                self.visit_exprs(values);
            },
            PyExpr::List { elts } => self.visit_exprs(elts),
            PyExpr::Tuple { elts } => self.visit_exprs(elts),
            _ => {
                assert(found_views(self.queries@) =~= start + Seq::<FoundSqlView>::empty());
            },
        }
    }
}

pub open spec fn option_view(o: Option<String>) -> Option<Seq<char>> {
    match o {
        Some(s) => Some(s@),
        None => None,
    }
}

/// Finds the SQL queries within a module of Python source code: the string
/// literals passed first to a call of one of `expected_query_functions`
/// (dotted names such as `txn.execute`), in depth-first order.
pub fn find_queries(
    module: &PyMod,
    source_filename: String,
    expected_query_functions: Vec<String>,
) -> (r: Vec<FoundSql>)
    ensures
        found_views(r@) == mod_queries(
            *module,
            string_views(expected_query_functions@),
            source_filename@,
        ),
{
    let mut visitor = SqlQueryVisitor::new(expected_query_functions, source_filename);
    assert(found_views(visitor.queries@) =~= Seq::<FoundSqlView>::empty());
    visitor.visit_mod(module);
    assert(found_views(visitor.queries@) =~= Seq::<FoundSqlView>::empty() + mod_queries(
        *module,
        string_views(expected_query_functions@),
        source_filename@,
    ));
    visitor.queries
}

// ---------------------------------------------------------------------------
// Parsing Python source with `rustpython_parser`.

#[verifier::external_type_specification]
#[verifier::external_body]
#[verifier::reject_recursive_types(R)]
pub struct ExPythonMod<R>(Mod<R>);

#[verifier::external_type_specification]
#[verifier::external_body]
#[verifier::reject_recursive_types(R)]
pub struct ExPythonStmt<R>(Stmt<R>);

#[verifier::external_type_specification]
#[verifier::external_body]
#[verifier::reject_recursive_types(R)]
pub struct ExPythonExpr<R>(Expr<R>);

#[verifier::external_type_specification]
#[verifier::external_body]
#[verifier::reject_recursive_types(R)]
pub struct ExPythonExceptHandler<R>(ExceptHandler<R>);

#[verifier::external_type_specification]
#[verifier::external_body]
pub struct ExLineIndex(LineIndex);

#[verifier::external_type_specification]
#[verifier::external_body]
pub struct ExTextRange(TextRange);

#[verifier::external_type_specification]
#[verifier::external_body]
pub struct ExTextSize(TextSize);

/// What `rustpython_parser::parse(source, Mode::Module, path)` gives, in
/// this module's syntax tree: the module's statements and expressions as far
/// as the search reads them, each string constant with the row and column
/// (1-based, from `LineIndex::source_location`) where it starts and ends;
/// `None` when the source does not parse.
pub uninterp spec fn python_module(source: Seq<char>, path: Seq<char>) -> Option<PyMod>;

/// Parses Python source with `rustpython_parser::parse` in module mode and
/// brings the tree into `PyMod` (through the conversions below). The
/// contract claims only that the result is `python_module` of the arguments.
#[verifier::external_body]
fn parse_python_module(source: &str, path: &str) -> (r: Option<PyMod>)
    ensures
        r == python_module(source@, path@),
{
    let ast = rustpython_parser::parse(source, rustpython_parser::Mode::Module, path).ok()?;
    let index = LineIndex::from_source_text(source);
    Some(py_mod_of(&ast, &index, source))
}

/// The start and end of a range as rows and columns (`LineIndex::source_location`).
#[verifier::external_body]
fn py_span_of(range: &TextRange, index: &LineIndex, source: &str) -> (PyLocation, PyLocation) {
    let start = index.source_location(range.start(), source);
    let end = index.source_location(range.end(), source);
    (
        PyLocation { row: start.row.get(), column: start.column.get() },
        PyLocation { row: end.row.get(), column: end.column.get() },
    )
}

/// Converts a parsed module, one variant at a time.
#[verifier::external_body]
fn py_mod_of(m: &Mod, index: &LineIndex, source: &str) -> PyMod {
    match m {
        Mod::Module(module) => PyMod::Module { body: py_stmts_of(&module.body, index, source) },
        Mod::Expression(e) => PyMod::Expression { expr: py_expr_of(&e.body, index, source) },
        _ => PyMod::Other,
    }
}

/// Converts statements one by one.
#[verifier::external_body]
fn py_stmts_of(stmts: &Vec<Stmt>, index: &LineIndex, source: &str) -> Vec<PyStmt> {
    stmts.iter().map(|s| py_stmt_of(s, index, source)).collect()
}

/// Converts the `except` clauses one by one.
#[verifier::external_body]
fn py_handlers_of(handlers: &Vec<ExceptHandler>, index: &LineIndex, source: &str) -> Vec<PyExceptHandler> {
    handlers
        .iter()
        .map(|ExceptHandler::ExceptHandler(h)| PyExceptHandler { body: py_stmts_of(&h.body, index, source) })
        .collect()
}

/// Converts a statement: definitions and `if` here, the rest below.
#[verifier::external_body]
fn py_stmt_of(s: &Stmt, index: &LineIndex, source: &str) -> PyStmt {
    let b = |v: &Vec<Stmt>| py_stmts_of(v, index, source);
    match s {
        Stmt::FunctionDef(f) => PyStmt::FunctionDef { body: b(&f.body) },
        Stmt::AsyncFunctionDef(f) => PyStmt::AsyncFunctionDef { body: b(&f.body) },
        Stmt::ClassDef(c) => PyStmt::ClassDef { body: b(&c.body) },
        Stmt::If(i) => PyStmt::If { body: b(&i.body), orelse: b(&i.orelse) },
        _ => py_loop_stmt_of(s, index, source),
    }
}

/// Converts loops and `with` statements; the rest below.
#[verifier::external_body]
fn py_loop_stmt_of(s: &Stmt, index: &LineIndex, source: &str) -> PyStmt {
    let b = |v: &Vec<Stmt>| py_stmts_of(v, index, source);
    match s {
        Stmt::For(f) => PyStmt::For { body: b(&f.body), orelse: b(&f.orelse) },
        Stmt::AsyncFor(f) => PyStmt::AsyncFor { body: b(&f.body), orelse: b(&f.orelse) },
        Stmt::While(w) => PyStmt::While { body: b(&w.body), orelse: b(&w.orelse) },
        Stmt::With(w) => PyStmt::With { body: b(&w.body) },
        Stmt::AsyncWith(w) => PyStmt::AsyncWith { body: b(&w.body) },
        _ => py_try_stmt_of(s, index, source),
    }
}

/// Converts `try` statements; the rest below.
#[verifier::external_body]
fn py_try_stmt_of(s: &Stmt, index: &LineIndex, source: &str) -> PyStmt {
    let b = |v: &Vec<Stmt>| py_stmts_of(v, index, source);
    let h = |v: &Vec<ExceptHandler>| py_handlers_of(v, index, source);
    match s {
        Stmt::Try(t) => PyStmt::Try { body: b(&t.body), handlers: h(&t.handlers), orelse: b(&t.orelse), finalbody: b(&t.finalbody) },
        Stmt::TryStar(t) => PyStmt::TryStar { body: b(&t.body), handlers: h(&t.handlers), orelse: b(&t.orelse), finalbody: b(&t.finalbody) },
        _ => py_simple_stmt_of(s, index, source),
    }
}

/// Converts the statements that hold values.
#[verifier::external_body]
fn py_simple_stmt_of(s: &Stmt, index: &LineIndex, source: &str) -> PyStmt {
    let e = |v: &Expr| py_expr_of(v, index, source);
    match s {
        Stmt::Return(r) => PyStmt::Return { returned: r.value.as_deref().map(e) },
        Stmt::Assign(a) => PyStmt::Assign { value: e(&a.value) },
        Stmt::AugAssign(a) => PyStmt::AugAssign { value: e(&a.value) },
        Stmt::AnnAssign(a) => PyStmt::AnnAssign { assigned: a.value.as_deref().map(e) },
        Stmt::Expr(x) => PyStmt::Expr { value: e(&x.value) },
        _ => PyStmt::Other,
    }
}

/// Converts expressions one by one.
#[verifier::external_body]
fn py_exprs_of(exprs: &Vec<Expr>, index: &LineIndex, source: &str) -> Vec<PyExpr> {
    exprs.iter().map(|e| py_expr_of(e, index, source)).collect()
}

/// Converts an expression: calls and operators here, the rest below.
#[verifier::external_body]
fn py_expr_of(x: &Expr, index: &LineIndex, source: &str) -> PyExpr {
    let e = |v: &Expr| Box::new(py_expr_of(v, index, source));
    let es = |v: &Vec<Expr>| py_exprs_of(v, index, source);
    match x {
        Expr::Call(c) => PyExpr::Call {
            func: e(&c.func),
            args: es(&c.args),
            keywords: c.keywords.iter().map(|k| py_expr_of(&k.value, index, source)).collect(),
        },
        Expr::BoolOp(b) => PyExpr::BoolOp { values: es(&b.values) },
        Expr::BinOp(b) => PyExpr::BinOp { left: e(&b.left), right: e(&b.right) },
        _ => py_other_expr_of(x, index, source),
    }
}

/// Converts unary operators, lambdas, conditionals and lists; the rest below.
#[verifier::external_body]
fn py_other_expr_of(x: &Expr, index: &LineIndex, source: &str) -> PyExpr {
    let e = |v: &Expr| Box::new(py_expr_of(v, index, source));
    match x {
        Expr::UnaryOp(u) => PyExpr::UnaryOp { operand: e(&u.operand) },
        Expr::Lambda(l) => PyExpr::Lambda { body: e(&l.body) },
        Expr::IfExp(i) => PyExpr::IfExp { test: e(&i.test), body: e(&i.body), orelse: e(&i.orelse) },
        Expr::List(l) => PyExpr::List { elts: py_exprs_of(&l.elts, index, source) },
        _ => py_name_expr_of(x, index, source),
    }
}

/// Converts tuples, attributes and names; the rest below.
#[verifier::external_body]
fn py_name_expr_of(x: &Expr, index: &LineIndex, source: &str) -> PyExpr {
    match x {
        Expr::Tuple(t) => PyExpr::Tuple { elts: py_exprs_of(&t.elts, index, source) },
        Expr::Attribute(a) => PyExpr::Attribute {
            value: Box::new(py_expr_of(&a.value, index, source)),
            attr: a.attr.to_string(),
        },
        Expr::Name(n) => PyExpr::Name { id: n.id.to_string() },
        _ => py_leaf_expr_of(x, index, source),
    }
}

/// Converts dict displays and constants.
#[verifier::external_body]
fn py_leaf_expr_of(x: &Expr, index: &LineIndex, source: &str) -> PyExpr {
    match x {
        Expr::Dict(d) => PyExpr::Dict {
            keys: d.keys.iter().map(|k| k.as_ref().map(|k| py_expr_of(k, index, source))).collect(),
            values: py_exprs_of(&d.values, index, source),
        },
        Expr::Constant(c) => {
            let (start, end) = py_span_of(&c.range, index, source);
            let text = match &c.value { Constant::Str(s) => Some(s.clone()), _ => None };
            PyExpr::Constant { text, start, end }
        },
        _ => PyExpr::Other,
    }
}

/// Why Python source could not be searched.
pub struct PythonParseError {
    /// The file that does not parse.
    pub source_filename: String,
}

/// Finds the SQL queries within a module of Python source code: parses it
/// with `rustpython_parser`, then searches the tree as `find_queries` does.
/// Fails where the source does not parse.
pub fn find_queries_in_source(
    source: &str,
    source_filename: String,
    expected_query_functions: Vec<String>,
) -> (r: Result<Vec<FoundSql>, PythonParseError>)
    ensures
        match r {
            Ok(v) => python_module(source@, source_filename@) matches Some(m) && found_views(v@)
                == mod_queries(m, string_views(expected_query_functions@), source_filename@),
            Err(e) => python_module(source@, source_filename@) is None && e.source_filename@
                == source_filename@,
        },
{
    match parse_python_module(source, source_filename.as_str()) {
        Some(module) => Ok(find_queries(&module, source_filename, expected_query_functions)),
        None => Err(PythonParseError { source_filename }),
    }
}

} // verus!
