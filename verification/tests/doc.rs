use std::sync::Arc;

use pgcrab::doc::combine::combine_harvested_comments_into_schema;
use pgcrab::doc::comment_on::{comment_literal, comment_on_statements, free_dollar_quote};
use pgcrab::doc::gather_comments::{harvest_from_sources, harvest_sql_file, TotalHarvest};
use pgcrab::doc::gather_database::{gather_schema, gather_table, qualified_table_name, SCHEMA_NAME};
use pgcrab::doc::uncommented::uncommented_items;
use pgcrab::intermediate::{IntermediateSchema, Table};
use pgcrab::render::linkify_schema_elements_markdown;

fn column_row(name: &str, data_type: &str, nullable: &str, comment: &str) -> (String, String, String, String) {
    (name.to_owned(), data_type.to_owned(), nullable.to_owned(), comment.to_owned())
}

fn users_table(comment: &str, email_comment: &str) -> Table {
    gather_table(
        "users",
        comment.to_owned(),
        vec![
            column_row("id", "integer", "NO", ""),
            column_row("email", "text", "YES", email_comment),
        ],
        vec![("users_pkey".to_owned(), "PRIMARY KEY (id)".to_owned())],
        vec![],
        vec![(
            "orders_user_fk".to_owned(),
            "FOREIGN KEY (user_id) REFERENCES users(id)".to_owned(),
            "orders".to_owned(),
        )],
    )
}

fn schema_with(tables: Vec<Table>) -> IntermediateSchema {
    gather_schema(tables.into_iter().map(|t| (t.name.clone(), t)).collect())
}

fn harvest(migrations: &[(&str, &str)]) -> TotalHarvest {
    harvest_from_sources(migrations.iter().map(|(p, s)| (p.to_string(), s.to_string())).collect())
}

#[test]
fn gathered_tables_keep_their_rows() {
    let t = users_table("People", "");
    assert_eq!(t.name, "users");
    assert_eq!(t.comment, "People");
    assert_eq!(t.columns.len(), 2);
    assert!(t.columns[0].not_null);
    assert!(!t.columns[1].not_null);
    assert_eq!(t.columns[1].data_type, "text");
    assert_eq!(t.indices[0].def, "PRIMARY KEY (id)");
    assert!(t.foreign_keys.is_empty());
    assert_eq!(t.foreign_key_backlinks[0].referrer_table, "orders");
    assert_eq!(t.foreign_key_backlinks[0].referee_table, "users");
}

#[test]
fn schema_tables_are_ordered_by_name() {
    let orders = gather_table("orders", String::new(), vec![], vec![], vec![], vec![]);
    let s = schema_with(vec![users_table("", ""), orders]);
    assert_eq!(s.tables.len(), 2);
    assert_eq!(s.tables.key_at(0), "orders");
    assert_eq!(s.tables.key_at(1), "users");
    assert!(s.tables.get("users").is_some());
    assert!(s.tables.get("nobody").is_none());
}

#[test]
fn qualified_names_are_in_the_public_schema() {
    assert_eq!(SCHEMA_NAME, "public");
    assert_eq!(qualified_table_name("users"), "public.users");
}

#[test]
fn harvested_comments_fill_in_empty_ones() {
    let mut s = schema_with(vec![users_table("", "Kept")]);
    let h = harvest(&[(
        "001.sql",
        "-- Registered people\nCREATE TABLE users (\n    -- Surrogate key\n    id INT,\n    -- Contact\n    email TEXT\n);\n",
    )]);
    combine_harvested_comments_into_schema(&mut s, &h, false);
    let t = s.tables.get("users").unwrap();
    assert_eq!(t.comment, "Registered people");
    assert_eq!(t.columns[0].comment, "Surrogate key");
    assert_eq!(t.columns[1].comment, "Kept");
}

#[test]
fn harvested_comments_can_take_priority() {
    let mut s = schema_with(vec![users_table("Old", "Kept")]);
    let h = harvest(&[("001.sql", "-- New\nCREATE TABLE users (\n    -- Contact\n    email TEXT\n);\n")]);
    combine_harvested_comments_into_schema(&mut s, &h, true);
    let t = s.tables.get("users").unwrap();
    assert_eq!(t.comment, "New");
    assert_eq!(t.columns[0].comment, "");
    assert_eq!(t.columns[1].comment, "Contact");
}

#[test]
fn combining_twice_changes_nothing_more() {
    let h = harvest(&[("001.sql", "-- T\nCREATE TABLE users (\n    -- C\n    id INT\n);\n")]);
    let mut once = schema_with(vec![users_table("", "")]);
    combine_harvested_comments_into_schema(&mut once, &h, false);
    let mut twice = schema_with(vec![users_table("", "")]);
    combine_harvested_comments_into_schema(&mut twice, &h, false);
    combine_harvested_comments_into_schema(&mut twice, &h, false);
    let a = once.tables.get("users").unwrap();
    let b = twice.tables.get("users").unwrap();
    assert_eq!(a.comment, b.comment);
    assert_eq!(a.columns[0].comment, b.columns[0].comment);
    assert_eq!(a.columns[1].comment, b.columns[1].comment);
}

#[test]
fn uncommented_tables_and_columns_are_listed() {
    let orders = gather_table(
        "orders",
        "Purchases".to_owned(),
        vec![column_row("total", "money", "NO", "")],
        vec![],
        vec![],
        vec![],
    );
    let s = schema_with(vec![users_table("", "Contact"), orders]);
    assert_eq!(uncommented_items(&s), vec!["COLUMN orders.total", "TABLE users", "COLUMN users.id"]);
}

#[test]
fn dollar_quotes_avoid_the_comment_text() {
    assert_eq!(free_dollar_quote("plain words"), "$$");
    assert_eq!(free_dollar_quote("costs $$5"), "$1$");
    assert_eq!(free_dollar_quote("$$ and $1$"), "$2$");
    assert_eq!(free_dollar_quote("$$ $1$ $2$ $3$ $4$ $5$ $6$ $7$ $8$ $9$"), "$10$");
    assert_eq!(comment_literal("it's $$ here"), "    $1$it's $$ here$1$;");
}

#[test]
fn comment_on_statements_for_a_harvest() {
    let h = harvest(&[
        (
            "001.sql",
            "-- People\nCREATE TABLE users (\n    -- Login\n    email TEXT,\n    age INT\n);\nCREATE TABLE empty (\n    x INT\n);\n",
        ),
        ("002.sql", "ALTER TABLE users\n    -- Costs $$\n    ADD COLUMN balance MONEY;\n"),
    ]);
    assert_eq!(
        comment_on_statements(&h),
        vec![
            "COMMENT ON TABLE users IS",
            "    $$People$$;",
            "COMMENT ON COLUMN users.balance IS",
            "    $1$Costs $$$1$;",
            "COMMENT ON COLUMN users.email IS",
            "    $$Login$$;",
            "",
        ]
    );
}

#[test]
fn single_file_harvest_has_no_tables_for_plain_sql() {
    let h = harvest_sql_file("SELECT 1;\n", Arc::new("q.sql".to_owned()));
    assert!(h.tables.is_empty());
    assert!(h.alter_columns.is_empty());
    assert_eq!(*h.file_path, "q.sql");
}

#[test]
fn code_names_are_taken_out_of_markdown() {
    let s = schema_with(vec![]);
    assert_eq!(
        linkify_schema_elements_markdown("See `users` and `orders`.".to_owned(), &s),
        "See  and ."
    );
    assert_eq!(linkify_schema_elements_markdown("No code here".to_owned(), &s), "No code here");
}

#[test]
fn a_comment_ending_in_a_dollar_keeps_the_plain_quote() {
    // `$$` does not occur in `a$`, so it is chosen, although the literal then
    // holds `$$` right after the comment's last character.
    assert_eq!(comment_literal("a$"), "    $$a$$$;");
}

#[test]
fn harvested_comments_take_tables_off_the_uncommented_list() {
    let mut s = schema_with(vec![users_table("", "Contact")]);
    assert_eq!(uncommented_items(&s), vec!["TABLE users", "COLUMN users.id"]);
    let h = harvest(&[("001.sql", "-- Registered people\nCREATE TABLE users (\n    id INT\n);\n")]);
    combine_harvested_comments_into_schema(&mut s, &h, false);
    assert_eq!(uncommented_items(&s), vec!["COLUMN users.id"]);
}

#[test]
fn a_quoted_comment_reads_back_up_to_the_closing_quote() {
    let comment = "pay $$ or $1$";
    let literal = comment_literal(comment);
    let quote = free_dollar_quote(comment);
    assert_eq!(quote, "$2$");
    let body = &literal["    ".len() + quote.len()..];
    let end = body.find(quote.as_str()).unwrap();
    assert_eq!(&body[..end], comment);
    assert_eq!(&body[end..], "$2$;");
}

#[test]
fn templates_render_the_schema() {
    let s = schema_with(vec![users_table("People", "Contact")]);
    let out = pgcrab::render::render_schema(
        "{{ tables.users.comment }}|{{ tables.users.columns[0].name }}:{{ tables.users.columns[0].type }}|{{ tables.users.foreign_key_backlinks[0].referrer_table }}|{{ 'see `users` now' | linkify_schema_elements_markdown }}",
        &s,
    );
    match out {
        Ok(text) => assert_eq!(text, "People|id:integer|orders|see  now"),
        Err(e) => panic!("rendering failed: {}", e.message),
    }
}

#[test]
fn broken_templates_are_an_error() {
    let s = schema_with(vec![]);
    assert!(pgcrab::render::render_schema("{% for %}", &s).is_err());
}

#[test]
fn a_duplicated_schema_is_equal() {
    let s = schema_with(vec![users_table("People", "Contact")]);
    let d = s.duplicate();
    let t = d.tables.get("users").unwrap();
    assert_eq!(t.comment, "People");
    assert_eq!(t.columns[1].comment, "Contact");
    assert_eq!(t.indices[0].name, "users_pkey");
}
