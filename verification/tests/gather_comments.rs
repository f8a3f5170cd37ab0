use std::sync::Arc;

use pgcrab::doc::gather_comments::{
    harvest_from_sources, harvest_lines, harvest_sql_file, is_sql_file_path, ColumnInfo, DocComment, HarvestedFile,
    LineMatches,
};

fn harvest_sql(sql: &str) -> HarvestedFile {
    harvest_sql_file(sql, Arc::new("test.sql".to_owned()))
}

fn assert_doc(doc: &Option<DocComment>, comment: &str, line_number: usize) {
    match doc {
        Some(d) => {
            assert_eq!(d.comment, comment);
            assert_eq!(d.line_number, line_number);
        }
        None => panic!("expected the doc comment {comment:?}"),
    }
}

fn assert_column(c: &ColumnInfo, name: &str, table_name: &str, comment: &str, line_number: usize) {
    assert_eq!(c.name, name);
    assert_eq!(c.table_name, table_name);
    assert_doc(&c.doc_comment, comment, line_number);
}

#[test]
fn test_harvest() {
    let h = harvest_sql(
        r#"
-- Stores users
-- Does not include magic users.
CREATE TABLE users (
    -- ID from the auth system
    sub_id UUID NOT NULL,

    -- Hash of user's password,
    -- or null if no password is set.
    -- We use Argon2 in the PHC format
    password_hash TEXT
);

ALTER TABLE users
    -- whether the user is barred from logging in
    ADD COLUMN locked BOOLEAN DEFAULT FALSE;

-- whether the user is all powerful
-- and able to do anything they want
ALTER TABLE users ADD COLUMN admin BOOLEAN DEFAULT FALSE;
        "#,
    );

    // tables:
    //   - name: users
    //     doc_comment: { comment: "Stores users\nDoes not include magic users.", line_number: 2 }
    //     columns:
    //       password_hash: { doc_comment: { comment: "Hash of user's password,\n...", line_number: 8 } }
    //       sub_id: { doc_comment: { comment: ID from the auth system, line_number: 5 } }
    // alter_columns:
    //   - locked: { comment: whether the user is barred from logging in, line_number: 15 }
    //   - admin: { comment: "whether the user is all powerful\n...", line_number: 18 }
    assert_eq!(h.tables.len(), 1);
    let users = &h.tables[0];
    assert_eq!(users.name, "users");
    assert_doc(&users.doc_comment, "Stores users\nDoes not include magic users.", 2);
    assert_eq!(users.columns.len(), 2);
    assert_eq!(users.columns.key_at(0), "password_hash");
    assert_column(
        users.columns.value_at(0),
        "password_hash",
        "users",
        "Hash of user's password,\nor null if no password is set.\nWe use Argon2 in the PHC format",
        8,
    );
    assert_eq!(users.columns.key_at(1), "sub_id");
    assert_column(users.columns.value_at(1), "sub_id", "users", "ID from the auth system", 5);

    assert_eq!(h.alter_columns.len(), 2);
    assert_column(
        &h.alter_columns[0],
        "locked",
        "users",
        "whether the user is barred from logging in",
        15,
    );
    assert_column(
        &h.alter_columns[1],
        "admin",
        "users",
        "whether the user is all powerful\nand able to do anything they want",
        18,
    );
}

#[test]
fn constraint_lines_are_not_columns() {
    let h = harvest_sql(
        "CREATE TABLE t (\n    id INT,\n    -- the key\n    PRIMARY KEY (id),\n    constraint c CHECK (id > 0)\n);\n",
    );
    assert_eq!(h.tables.len(), 1);
    assert_eq!(h.tables[0].name, "t");
    assert!(h.tables[0].doc_comment.is_none());
    assert_eq!(h.tables[0].columns.len(), 1);
    assert_eq!(h.tables[0].columns.key_at(0), "id");
    assert!(h.tables[0].columns.value_at(0).doc_comment.is_none());
}

#[test]
fn sql_file_paths() {
    assert!(is_sql_file_path("migrations/001_users.sql"));
    assert!(is_sql_file_path("a.sql.postgres"));
    assert!(!is_sql_file_path("schema.rs"));
}

#[test]
fn later_sources_override_earlier_comments() {
    let total = harvest_from_sources(vec![
        ("1.sql".to_owned(), "-- first\nCREATE TABLE t (\n    -- old\n    a INT\n);\n".to_owned()),
        ("2.sql".to_owned(), "-- second\nCREATE TABLE t (\n    b INT\n);\n".to_owned()),
        ("3.sql".to_owned(), "ALTER TABLE t\n    -- added\n    ADD COLUMN c INT;\n".to_owned()),
    ]);
    assert_eq!(total.tables.len(), 1);
    let t = match total.tables.get("t") {
        Some(t) => t,
        None => panic!("table t was not harvested"),
    };
    assert_doc(&t.doc_comment, "second", 1);
    assert_eq!(*t.file_path, "2.sql");
    // The second CREATE TABLE replaced the first, columns and all; the ALTER
    // added a column to it.
    assert_eq!(t.columns.len(), 2);
    assert_eq!(t.columns.key_at(0), "b");
    assert_eq!(t.columns.key_at(1), "c");
    assert_doc(&t.columns.value_at(1).doc_comment, "added", 2);
    assert_eq!(*t.columns.value_at(1).file_path, "3.sql");
}

fn no_matches(upper: &str) -> LineMatches {
    LineMatches {
        comment: None,
        is_comment: false,
        create_table: None,
        alter_table: None,
        add_column: None,
        column: None,
        alter_add: (None, None),
        upper: upper.to_owned(),
        upper_trimmed: upper.trim().to_owned(),
    }
}

#[test]
fn harvest_from_given_line_matches() {
    // -- Accounts
    // CREATE TABLE acct (
    //     id INT
    // );
    let lines: Vec<String> =
        vec!["-- Accounts".to_owned(), "CREATE TABLE acct (".to_owned(), "    id INT".to_owned(), ");".to_owned()];
    let mut comment = no_matches("-- ACCOUNTS");
    comment.comment = Some("Accounts".to_owned());
    comment.is_comment = true;
    let mut create = no_matches("CREATE TABLE ACCT (");
    create.create_table = Some("acct".to_owned());
    let mut column = no_matches("    ID INT");
    column.column = Some("id".to_owned());
    let matches = vec![comment, create, column, no_matches(");")];
    let h = harvest_lines(&lines, &matches, Arc::new("m.sql".to_owned()));
    assert_eq!(h.tables.len(), 1);
    assert_eq!(h.tables[0].name, "acct");
    assert_doc(&h.tables[0].doc_comment, "Accounts", 1);
    assert_eq!(h.tables[0].columns.len(), 1);
    assert_eq!(h.tables[0].columns.key_at(0), "id");
    assert!(h.alter_columns.is_empty());
}
