use pgcrab::lint::sql::lint_donotdothis::{lint_dont_use_not_in, lint_no_current_time};
use pgcrab::lint::sql::{
    code_file_kind, lint_sql_in_code, CodeFile, CodeFileKind, CodeSource, Diagnostic, DiagnosticRule, FilePos,
    FoundSql, LintSqlError, ParsedSql,
};
use pgcrab::lint::DiagnosticClassification;

fn parse(sql: &str) -> ParsedSql {
    match ParsedSql::try_from(&FoundSql {
        source_filename: "test.sql".to_owned(),
        source_span: (FilePos { line: 1, col: 1 }, FilePos { line: 1, col: 1 }),
        query: sql.to_owned(),
    }) {
        Ok(parsed) => parsed,
        Err(e) => panic!("could not parse {sql:?}: {}", e.message),
    }
}

fn assert_lint_fail(sql: &str, linter: fn(&ParsedSql) -> Vec<Diagnostic>) {
    let parsed = parse(sql);
    let diagnostics = linter(&parsed);
    assert!(
        !diagnostics.is_empty(),
        "expected lint fail, but no diagnostics produced"
    );
}

fn assert_lint_ok(sql: &str, linter: fn(&ParsedSql) -> Vec<Diagnostic>) {
    let parsed = parse(sql);
    let diagnostics = linter(&parsed);
    assert!(
        diagnostics.is_empty(),
        "unexpected lint fail: {diagnostics:#?}"
    );
}

#[test]
fn test_no_current_time() {
    assert_lint_ok(
        "SELECT CURRENT_TIMESTAMP, username FROM users;",
        lint_no_current_time,
    );
    assert_lint_fail(
        "SELECT CURRENT_TIME, username FROM users;",
        lint_no_current_time,
    );
    assert_lint_fail(
        "SELECT current_time, username FROM users;",
        lint_no_current_time,
    );
}

#[test]
fn test_dont_use_not_in() {
    assert_lint_ok(
        "SELECT a FROM tbl WHERE a IN (SELECT a FROM tbl2)",
        lint_dont_use_not_in,
    );

    assert_lint_fail(
        "SELECT a FROM tbl WHERE a NOT IN (SELECT a FROM tbl2)",
        lint_dont_use_not_in,
    );

    // Not caught (yet): the negation is outside the `IN`.
    assert_lint_ok(
        "SELECT a FROM tbl WHERE NOT (a IN (SELECT a FROM tbl2))",
        lint_dont_use_not_in,
    );
}

#[test]
fn current_time_diagnostic_has_rule_and_span() {
    let parsed = parse("SELECT CURRENT_TIME, username FROM users;");
    let diagnostics = lint_no_current_time(&parsed);
    assert_eq!(diagnostics.len(), 1);
    assert!(matches!(diagnostics[0].rule, DiagnosticRule::DontUseCurrentTime));
    assert_eq!(diagnostics[0].span.0.line, 1);
    assert_eq!(diagnostics[0].span.0.col, 8);
}

#[test]
fn unparsable_query_is_an_error() {
    let r = ParsedSql::try_from(&FoundSql {
        source_filename: "bad.sql".to_owned(),
        source_span: (FilePos { line: 1, col: 1 }, FilePos { line: 1, col: 1 }),
        query: "SELEC nonsense FROM".to_owned(),
    });
    assert!(r.is_err());
}

fn sql_file(path: &str, text: &str) -> CodeFile {
    CodeFile { path: path.to_owned(), source: CodeSource::Sql(text.to_owned()) }
}

#[test]
fn sql_files_are_linted_whole() {
    let files = vec![
        sql_file("b.sql", "SELECT CURRENT_TIME;\nSELECT a FROM t WHERE a NOT IN (SELECT b FROM u);"),
        sql_file("a.sql", "SELECT 1;"),
        sql_file("c.sql", "this does not parse"),
    ];
    let result = match lint_sql_in_code(files) {
        Ok(r) => r,
        Err(LintSqlError::SpanOutOfRange { source_filename }) => panic!("span out of range in {source_filename}"),
        Err(LintSqlError::PythonParse { source_filename })
        | Err(LintSqlError::RustParse { source_filename })
        | Err(LintSqlError::RustSpanOutOfRange { source_filename }) => panic!("failed to parse {source_filename}"),
    };
    // Every file has an entry, in the order of the paths.
    assert_eq!(result.len(), 3);
    assert_eq!(result.key_at(0), "a.sql");
    assert!(result.value_at(0).is_empty());
    assert_eq!(result.key_at(1), "b.sql");
    let b = result.value_at(1);
    assert_eq!(b.len(), 2);
    assert!(matches!(b[0].rule, DiagnosticRule::DontUseCurrentTime));
    assert_eq!((b[0].span.0.line, b[0].span.0.col), (1, 8));
    assert!(matches!(b[1].rule, DiagnosticRule::DontUseNotIn));
    assert_eq!(b[1].span.0.line, 2);
    assert_eq!(result.key_at(2), "c.sql");
    assert!(result.value_at(2).is_empty());
}

#[test]
fn queries_in_code_are_placed_in_their_file() {
    let python = CodeFile {
        path: "app.py".to_owned(),
        source: CodeSource::Python("def f():\n    pass\n    txn.execute(\"SELECT CURRENT_TIME\")\n".to_owned()),
    };
    //     let q = sqlx::query!("SELECT a FROM t WHERE a NOT IN (SELECT b FROM u)");  on line 10
    let rust = CodeFile {
        path: "db.rs".to_owned(),
        source: CodeSource::Rust(
            "fn f() {\n\n\n\n\n\n\n\n\n    let q = sqlx::query!(\"SELECT a FROM t WHERE a NOT IN (SELECT b FROM u)\");\n}\n"
                .to_owned(),
        ),
    };
    let result = match lint_sql_in_code(vec![python, rust]) {
        Ok(r) => r,
        Err(_) => panic!("unexpected error"),
    };
    assert_eq!(result.len(), 2);
    assert_eq!(result.key_at(0), "app.py");
    let py = result.value_at(0);
    assert_eq!(py.len(), 1);
    // The query starts at column 18; `CURRENT_TIME` is its 8th character.
    assert_eq!((py[0].span.0.line, py[0].span.0.col), (3, 25));
    assert_eq!(result.key_at(1), "db.rs");
    let rs = result.value_at(1);
    assert_eq!(rs.len(), 1);
    assert!(matches!(rs[0].rule, DiagnosticRule::DontUseNotIn));
    assert_eq!(rs[0].span.0.line, 10);
}

#[test]
fn file_kinds_go_by_name() {
    assert_eq!(code_file_kind("x/app.py"), CodeFileKind::Python);
    assert_eq!(code_file_kind("src/lib.rs"), CodeFileKind::Rust);
    assert_eq!(code_file_kind("m/001.sql"), CodeFileKind::Sql);
    assert_eq!(code_file_kind("m/001.sql.postgres"), CodeFileKind::Sql);
    assert_eq!(code_file_kind("m/001.sql.postgresql"), CodeFileKind::Sql);
    assert_eq!(code_file_kind("README.md"), CodeFileKind::Other);
}

#[test]
fn rules_and_classifications_by_name() {
    for rule in [DiagnosticRule::DontUseCurrentTime, DiagnosticRule::DontUseNotIn] {
        assert!(matches!(DiagnosticRule::from_name(rule.name()), Some(r) if r == rule));
    }
    assert_eq!(DiagnosticRule::DontUseCurrentTime.name(), "dont_use_current_time");
    assert!(DiagnosticRule::from_name("dont_use_money").is_none());
    assert_eq!(DiagnosticRule::DontUseCurrentTime.default_classification(), DiagnosticClassification::Error);
    assert_eq!(DiagnosticRule::DontUseNotIn.default_classification(), DiagnosticClassification::Warning);
    assert!(DiagnosticRule::DontUseNotIn.describe().starts_with("Don't use `NOT IN`\n"));
    for c in [DiagnosticClassification::Note, DiagnosticClassification::Warning, DiagnosticClassification::Error] {
        assert_eq!(DiagnosticClassification::from_name(c.name()), Some(c));
    }
    assert!(DiagnosticClassification::Note < DiagnosticClassification::Warning);
    assert!(DiagnosticClassification::Warning < DiagnosticClassification::Error);
}

#[test]
fn unparsable_python_stops_linting() {
    let files = vec![
        sql_file("a.sql", "SELECT 1;"),
        CodeFile { path: "bad.py".to_owned(), source: CodeSource::Python("def (:\n".to_owned()) },
    ];
    match lint_sql_in_code(files) {
        Err(LintSqlError::PythonParse { source_filename }) => assert_eq!(source_filename, "bad.py"),
        _ => panic!("expected a parse error"),
    }
}

#[test]
fn the_first_failing_file_is_named() {
    let files = vec![
        CodeFile { path: "ok.rs".to_owned(), source: CodeSource::Rust("fn f() {}".to_owned()) },
        CodeFile { path: "bad.rs".to_owned(), source: CodeSource::Rust("fn (".to_owned()) },
        CodeFile { path: "bad.py".to_owned(), source: CodeSource::Python("def (:\n".to_owned()) },
    ];
    match lint_sql_in_code(files) {
        Err(LintSqlError::RustParse { source_filename }) => assert_eq!(source_filename, "bad.rs"),
        _ => panic!("expected the Rust file to be named"),
    }
}

#[test]
fn all_lints_run_in_order() {
    let parsed = parse("SELECT a FROM t WHERE a NOT IN (SELECT CURRENT_TIME)");
    let diagnostics = pgcrab::lint::sql::lint_all(&parsed);
    assert_eq!(diagnostics.len(), 2);
    assert!(matches!(diagnostics[0].rule, DiagnosticRule::DontUseCurrentTime));
    assert!(matches!(diagnostics[1].rule, DiagnosticRule::DontUseNotIn));
}
