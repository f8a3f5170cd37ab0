//! The search for queries in Rust code: on source text, and on macro
//! invocations written out by hand as `syn` and `proc_macro2` report them
//! (1-based lines, 0-based columns, literal spans covering the quotes).
use pgcrab::lint::sql::gather_rust::{
    extract_query_from_expr, find_queries, find_queries_in_source, query_literal_fits, LineColumn, RustMacroArg,
    RustMacroCall, RustParseError,
};
use pgcrab::lint::sql::FoundSql;

fn lc(line: usize, column: usize) -> LineColumn {
    LineColumn { line, column }
}

/// A string literal whose source text takes `width` columns on one line.
fn lit(value: &str, line: usize, column: usize, width: usize) -> RustMacroArg {
    RustMacroArg::StrLit { value: value.to_owned(), start: lc(line, column), end: lc(line, column + width) }
}

fn macro_call(path: &[&str], args: Vec<RustMacroArg>) -> RustMacroCall {
    RustMacroCall {
        path: path.iter().map(|s| s.to_string()).collect(),
        paren_delimited: true,
        args: Some(args),
    }
}

fn find(calls: &Vec<RustMacroCall>) -> Vec<FoundSql> {
    find_queries(calls, "test".to_owned())
}

fn find_queries_in(rust_src: &str) -> Vec<FoundSql> {
    match find_queries_in_source(rust_src, "test".to_owned()) {
        Ok(v) => v,
        Err(_) => panic!("the source should parse"),
    }
}

#[test]
fn test_find_queries_simple() {
    let source = r#"
            fn example() {
                let q = query!("SELECT * FROM users");
            }
        "#;

    let result = find_queries_in(source);
    assert_eq!(result.len(), 1);
    assert_eq!(result[0].query, "SELECT * FROM users");
}

#[test]
fn test_find_queries_raw_strings() {
    let source = r##"
            fn example() {
                let q = query!(r#"SELECT * FROM\nusers"#);
            }
        "##;

    let result = find_queries_in(source);
    assert_eq!(result.len(), 1);
    assert_eq!(result[0].query, "SELECT * FROM\\nusers");
}

#[test]
fn test_find_queries_escaped_strings() {
    let source = r#"
            fn example() {
                let q = query!("SELECT * FROM\nusers");
            }
        "#;

    let result = find_queries_in(source);
    assert_eq!(result.len(), 1);
    assert_eq!(
        result[0].query,
        "SELECT * FROM
users"
    );
}

#[test]
fn test_find_queries_with_namespace() {
    let source = r#"
            fn example() {
                let q = sqlx::query!("SELECT * FROM users");
            }
        "#;

    let result = find_queries_in(source);
    assert_eq!(result.len(), 1);
    assert_eq!(result[0].query, "SELECT * FROM users");
}

#[test]
fn test_find_queries_as_and_scalar() {
    let source = r#"
            fn example() {
                let q1 = query_as!("SELECT id, name FROM users");
                let q2 = sqlx::query_scalar!("SELECT COUNT(*) FROM users");
            }
        "#;

    let result = find_queries_in(source);
    assert_eq!(result.len(), 2);
    assert_eq!(result[0].query, "SELECT id, name FROM users");
    assert_eq!(result[1].query, "SELECT COUNT(*) FROM users");
}

#[test]
fn test_find_queries_with_params() {
    let source = r#"
            fn example() {
                let id = 42;
                let q = query!("SELECT * FROM users WHERE id = $1", id);
            }
        "#;

    let result = find_queries_in(source);
    assert_eq!(result.len(), 1);
    assert_eq!(result[0].query, "SELECT * FROM users WHERE id = $1");
}

#[test]
fn test_find_queries_multiline() {
    let source = r#"
            fn example() {
                let q = query!(
                    "SELECT *
                    FROM users
                    WHERE active = true"
                );
            }
        "#;

    let result = find_queries_in(source);
    assert_eq!(result.len(), 1);
    assert_eq!(
        result[0].query,
        "SELECT *
                    FROM users
                    WHERE active = true"
    );
}

#[test]
fn test_parse_comma_separated_args() {
    let source = r#"
            fn example() {
                let q = query!("SELECT * FROM users", id, name);
            }
        "#;

    let result = find_queries_in(source);
    assert_eq!(result.len(), 1);
    assert_eq!(result[0].query, "SELECT * FROM users");
}

#[test]
fn test_extract_query_from_expr() {
    // "SELECT * FROM users"
    let expr = lit("SELECT * FROM users", 1, 0, 21);
    assert_eq!(
        extract_query_from_expr(&expr).unwrap().0.as_str(),
        "SELECT * FROM users"
    );
}

#[test]
fn test_escaped_quotes_in_query() {
    let source = r#"
            fn example() {
                let q = query!("SELECT * FROM \"table\" WHERE id = $1", id);
            }
        "#;

    let result = find_queries_in(source);
    assert_eq!(result.len(), 1);
    assert_eq!(result[0].query, r#"SELECT * FROM "table" WHERE id = $1"#);
}

#[test]
fn spans_and_lines_of_parsed_literals() {
    let result = find_queries_in(
        r#"
            fn example() {
                let q = query!("SELECT * FROM \"table\"\nWHERE id = $1", id);
                let r = query!(
                    "SELECT *
                    FROM users"
                );
            }
        "#,
    );
    assert_eq!(result.len(), 2);
    assert_eq!(result[0].query, "SELECT * FROM \"table\"\nWHERE id = $1");
    // The literal starts at 0-based column 31 of line 3: the query at 1-based column 33.
    assert_eq!((result[0].source_span.0.line, result[0].source_span.0.col), (3, 33));
    assert_eq!(result[1].source_span.0.line, 5);
    assert_eq!(result[1].source_span.1.line, 6);
}

#[test]
fn query_as_with_a_record_type_in_source() {
    let result = find_queries_in(r#"fn f() { let u = sqlx::query_as!(User, "SELECT id FROM users"); }"#);
    assert_eq!(result.len(), 1);
    assert_eq!(result[0].query, "SELECT id FROM users");
}

#[test]
fn unparsable_rust_is_an_error() {
    match find_queries_in_source("fn (", "bad.rs".to_owned()) {
        Err(RustParseError::Syntax { source_filename }) => assert_eq!(source_filename, "bad.rs"),
        _ => panic!("expected a syntax error"),
    }
}

#[test]
fn literal_span_is_moved_inside_the_quotes() {
    //     query!("SELECT 1")
    let calls = vec![macro_call(&["query"], vec![lit("SELECT 1", 1, 11, 10)])];
    let result = find(&calls);
    assert_eq!(result.len(), 1);
    // Column 11 (0-based) is the opening quote; the query starts one column
    // further, at 1-based column 13. The end is the closing quote, 1-based.
    assert_eq!((result[0].source_span.0.line, result[0].source_span.0.col), (1, 13));
    assert_eq!((result[0].source_span.1.line, result[0].source_span.1.col), (1, 21));
    assert_eq!(result[0].source_filename, "test");
}

#[test]
fn other_macros_and_delimiters_are_skipped() {
    let mut braces = macro_call(&["query"], vec![lit("SELECT 1", 1, 7, 10)]);
    braces.paren_delimited = false;
    let calls = vec![
        macro_call(&["println"], vec![lit("SELECT 1", 1, 9, 10)]),
        braces,
        RustMacroCall { path: vec!["query".to_owned()], paren_delimited: true, args: None },
        macro_call(&["query"], vec![]),
        macro_call(&["query"], vec![RustMacroArg::Other]),
        macro_call(&["other", "query"], vec![lit("SELECT 1", 1, 14, 10)]),
    ];
    assert_eq!(find(&calls).len(), 0);
    assert!(extract_query_from_expr(&RustMacroArg::Other).is_none());
}

#[test]
fn query_as_takes_the_literal_after_the_record_type() {
    //     let users = sqlx::query_as!(User, "SELECT id FROM users");
    let calls = vec![
        macro_call(&["sqlx", "query_as"], vec![RustMacroArg::Other, lit("SELECT id FROM users", 1, 38, 22)]),
        // Other macros still look only at their first argument.
        macro_call(&["query"], vec![RustMacroArg::Other, lit("SELECT 2", 2, 20, 10)]),
    ];
    let result = find(&calls);
    assert_eq!(result.len(), 1);
    assert_eq!(result[0].query, "SELECT id FROM users");
    assert_eq!((result[0].source_span.0.line, result[0].source_span.0.col), (1, 40));
}

#[test]
fn literal_spans_that_cannot_be_moved_in_are_detected() {
    let ok = macro_call(&["query"], vec![lit("SELECT 1", 1, 7, 10)]);
    assert!(query_literal_fits(&ok));
    let bad = macro_call(
        &["query"],
        vec![RustMacroArg::StrLit { value: "x".to_owned(), start: lc(1, usize::MAX), end: lc(1, 0) }],
    );
    assert!(!query_literal_fits(&bad));
    let not_sql = macro_call(&["query"], vec![RustMacroArg::Other]);
    assert!(query_literal_fits(&not_sql));
}
