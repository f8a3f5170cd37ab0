//! The search for queries in Python code: on source text, and on syntax
//! trees written out by hand for the sources given in a test's comment.
use pgcrab::lint::sql::gather_python::{find_queries, find_queries_in_source, SqlQueryVisitor, PyExpr, PyLocation, PyMod, PyStmt};
use pgcrab::lint::sql::FoundSql;

fn loc(row: u32, column: u32) -> PyLocation {
    PyLocation { row, column }
}

fn name(id: &str) -> PyExpr {
    PyExpr::Name { id: id.to_owned() }
}

fn attribute(value: PyExpr, attr: &str) -> PyExpr {
    PyExpr::Attribute { value: Box::new(value), attr: attr.to_owned() }
}

/// `obj.method`
fn method(obj: &str, method_name: &str) -> PyExpr {
    attribute(name(obj), method_name)
}

/// A string constant written in double quotes on one line, starting at
/// `(row, column)`.
fn string(text: &str, row: u32, column: u32) -> PyExpr {
    let width = text.chars().count() as u32 + 2;
    PyExpr::Constant { text: Some(text.to_owned()), start: loc(row, column), end: loc(row, column + width) }
}

fn call(func: PyExpr, args: Vec<PyExpr>) -> PyExpr {
    PyExpr::Call { func: Box::new(func), args, keywords: vec![] }
}

/// An expression statement calling `func` with one string at `(row, column)`.
fn call_stmt(func: PyExpr, sql: &str, row: u32, column: u32) -> PyStmt {
    PyStmt::Expr { value: call(func, vec![string(sql, row, column)]) }
}

fn module(body: Vec<PyStmt>) -> PyMod {
    PyMod::Module { body }
}

fn default_expected() -> Vec<String> {
    vec!["txn.execute".to_string()]
}

fn find(module: &PyMod, expected_functions: Vec<String>) -> Vec<FoundSql> {
    find_queries(module, "test.py".to_owned(), expected_functions)
}

fn find_queries_in(source: &str, expected_functions: Vec<String>) -> Vec<FoundSql> {
    let cleaned_source = source.trim_start().replace("\n    ", "\n");

    match find_queries_in_source(&cleaned_source, "test.py".to_owned(), expected_functions) {
        Ok(v) => v,
        Err(e) => panic!("failed to parse Python in {}", e.source_filename),
    }
}

#[test]
fn test_basic_query() {
    let source = r#"
    def test_function():
        txn.execute("SELECT * FROM users WHERE id = 1")
        return True
    "#;

    let queries = find_queries_in(source, default_expected());

    assert_eq!(queries.len(), 1);
    assert_eq!(queries[0].query, "SELECT * FROM users WHERE id = 1");
    assert_eq!(queries[0].source_filename, "test.py");
    assert_eq!(queries[0].source_span.0.line, 2);
}

#[test]
fn test_multiple_queries() {
    let source = r#"
    def test_function():
        txn.execute("SELECT * FROM users")

        other_function()

        db.query("SELECT * FROM products")

        # This one shouldn't be picked up
        not_db.query("NOT SQL")
    "#;

    let expected_functions = vec!["txn.execute".to_string(), "db.query".to_string()];

    let queries = find_queries_in(source, expected_functions);

    assert_eq!(queries.len(), 2);
    assert_eq!(queries[0].query, "SELECT * FROM users");
    assert_eq!(queries[0].source_span.0.line, 2);
    assert_eq!(queries[1].query, "SELECT * FROM products");
    assert_eq!(queries[1].source_span.0.line, 6);
}

#[test]
fn test_nested_queries() {
    let source = r#"
    def outer_function():
        def inner_function():
            txn.execute("SELECT * FROM inner_table")

        txn.execute("SELECT * FROM outer_table")
        inner_function()
    "#;

    let queries = find_queries_in(source, default_expected());

    assert_eq!(queries.len(), 2);
    assert_eq!(queries[0].query, "SELECT * FROM inner_table");
    assert_eq!(queries[1].query, "SELECT * FROM outer_table");
}

#[test]
fn test_complex_structures() {
    let source = r#"
    def test_function():
        if condition:
            txn.execute("SELECT * FROM users WHERE condition = TRUE")
        else:
            txn.execute("SELECT * FROM users WHERE condition = FALSE")

        for item in items:
            txn.execute("SELECT * FROM items WHERE id = 1")

        with context_manager:
            txn.execute("SELECT * FROM contexts")

        try:
            txn.execute("SELECT * FROM try_table")
        except Exception:
            txn.execute("SELECT * FROM except_table")
        finally:
            txn.execute("SELECT * FROM finally_table")
    "#;

    let queries = find_queries_in(source, default_expected());

    assert_eq!(queries.len(), 7);
}

#[test]
fn assignments_and_returns_are_searched() {
    let source = "q = txn.execute(\"SELECT 1\")\nn += txn.execute(\"SELECT 2\")\nr: int = txn.execute(\"SELECT 3\")\ndef f():\n    return txn.execute(\"SELECT 4\")\n";
    let queries = match find_queries_in_source(source, "test.py".to_owned(), default_expected()) {
        Ok(v) => v,
        Err(_) => panic!("the source should parse"),
    };
    let texts: Vec<&str> = queries.iter().map(|q| q.query.as_str()).collect();
    assert_eq!(texts, vec!["SELECT 1", "SELECT 2", "SELECT 3", "SELECT 4"]);
    assert_eq!(queries[0].source_span.0.line, 1);
    // The string starts at column 17 (1-based); the query one column further.
    assert_eq!(queries[0].source_span.0.col, 18);
    assert_eq!(queries[3].source_span.0.line, 5);
}

#[test]
fn unparsable_python_is_an_error() {
    let r = find_queries_in_source("def (:\n", "bad.py".to_owned(), default_expected());
    match r {
        Ok(_) => panic!("expected a parse error"),
        Err(e) => assert_eq!(e.source_filename, "bad.py"),
    }
}

#[test]
fn query_span_starts_inside_the_quotes() {
    // txn.execute("SELECT 1")
    let m = module(vec![call_stmt(method("txn", "execute"), "SELECT 1", 1, 13)]);
    let queries = find(&m, default_expected());
    assert_eq!(queries.len(), 1);
    assert_eq!((queries[0].source_span.0.line, queries[0].source_span.0.col), (1, 14));
    assert_eq!((queries[0].source_span.1.line, queries[0].source_span.1.col), (1, 23));
}

#[test]
fn dotted_function_names_and_nested_calls() {
    // db.conn.execute(txn.execute("SELECT inner"), "not first")
    let inner = call(method("txn", "execute"), vec![string("SELECT inner", 1, 29)]);
    let outer = call(
        attribute(method("db", "conn"), "execute"),
        vec![inner, string("not first", 1, 46)],
    );
    let m = module(vec![PyStmt::Expr { value: outer }]);
    let queries = find(&m, vec!["db.conn.execute".to_owned(), "txn.execute".to_owned()]);
    // The inner call's query comes first; the outer call's first argument is
    // not a string, so it has none.
    assert_eq!(queries.len(), 1);
    assert_eq!(queries[0].query, "SELECT inner");
}

#[test]
fn a_bare_function_name_is_not_matched() {
    // query("SELECT 1")
    let m = module(vec![PyStmt::Expr { value: call(name("query"), vec![string("SELECT 1", 1, 7)]) }]);
    assert_eq!(find(&m, vec!["query".to_owned()]).len(), 0);
}

#[test]
fn expression_modules_are_searched() {
    let m = PyMod::Expression { expr: call(method("txn", "execute"), vec![string("SELECT 2", 1, 13)]) };
    let queries = find(&m, default_expected());
    assert_eq!(queries.len(), 1);
    assert_eq!(queries[0].query, "SELECT 2");
    assert_eq!(find(&PyMod::Other, default_expected()).len(), 0);
}

#[test]
fn the_visitor_records_a_call_after_its_arguments() {
    // txn.execute("SELECT outer", txn.execute("SELECT inner"))
    let inner = call(method("txn", "execute"), vec![string("SELECT inner", 1, 30)]);
    let outer = call(method("txn", "execute"), vec![string("SELECT outer", 1, 13), inner]);
    let mut v = SqlQueryVisitor::new(default_expected(), "t.py".to_owned());
    v.visit_expr(&outer);
    let texts: Vec<&str> = v.queries.iter().map(|q| q.query.as_str()).collect();
    assert_eq!(texts, vec!["SELECT inner", "SELECT outer"]);
    assert_eq!(v.extract_function_name(&attribute(method("db", "conn"), "execute")), Some("db.conn.execute".to_owned()));
    assert_eq!(v.extract_function_name(&name("query")), None);
}
