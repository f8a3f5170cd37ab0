//! Rendering the schema documentation with a Jinja template, and the text
//! filters offered to the templates.
use crate::intermediate::{Column, ForeignKey, Index, IntermediateSchema, Table, TableView};
use std::sync::Arc;
use vstd::prelude::*;

verus! {

/// What `regex::Regex::new(pattern)` then `replace_all(text, replacement)`
/// gives: `text` with every non-overlapping match of the regular expression
/// `pattern`, leftmost-first, replaced by `replacement` (its `$` group
/// references expanded); `text` unchanged where the pattern does not compile.
pub uninterp spec fn regex_replaced(pattern: Seq<char>, text: Seq<char>, replacement: Seq<char>) -> Seq<char>;

/// Runs the `regex` crate: compiles `pattern` and replaces all its matches in
/// `text` by `replacement`. The contract claims only that the result is
/// `regex_replaced` of the arguments.
#[verifier::external_body]
fn regex_replace_all(pattern: &str, text: &str, replacement: &str) -> (r: String)
    ensures
        r@ == regex_replaced(pattern@, text@, replacement@),
{
    match regex::Regex::new(pattern) {
        Ok(re) => re.replace_all(text, replacement).into_owned(),
        Err(_) => text.to_owned(),
    }
}

/// A schema element's name written as code in Markdown (`` `name` ``), with
/// word boundaries around it; group 1 is the name.
pub open spec fn schema_element_code_re() -> Seq<char> {
    r#"\b{start-half}`([a-zA-Z0-9-_]+)`\b{end-half}"#@
}

/// The Markdown filter for schema element names in comments: every name
/// written as code is taken out of the text, whatever the schema holds.
pub fn linkify_schema_elements_markdown(text: String, schema: &IntermediateSchema) -> (r: String)
    ensures
        r@ == regex_replaced(schema_element_code_re(), text@, ""@),
{
    regex_replace_all(r#"\b{start-half}`([a-zA-Z0-9-_]+)`\b{end-half}"#, text.as_str(), "")
}

#[verifier::external_type_specification]
#[verifier::external_body]
pub struct ExJinjaValue(minijinja::Value);

#[verifier::external_type_specification]
#[verifier::external_body]
pub struct ExJinjaError(minijinja::Error);

/// What `minijinja` renders from the template text `template` with the
/// schema as its context: the tables by name, each with `name`, `comment`,
/// `columns` (`name`, `type`, `not_null`, `comment`), `indices` (`name`,
/// `def`), `foreign_keys` and `foreign_key_backlinks` (`name`,
/// `referrer_table`, `referee_table`, `def`), and the filter
/// `linkify_schema_elements_markdown`; `None` where the template does not
/// parse or does not render.
pub uninterp spec fn rendered_schema(template: Seq<char>, schema: Seq<(Seq<char>, TableView)>) -> Option<
    Seq<char>,
>;

/// The context value of a column.
#[verifier::external_body]
fn column_value(c: &Column) -> minijinja::Value {
    minijinja::Value::from_pairs([
        ("name", minijinja::Value::from(c.name.as_str())),
        ("type", minijinja::Value::from(c.data_type.as_str())),
        ("not_null", minijinja::Value::from(c.not_null)),
        ("comment", minijinja::Value::from(c.comment.as_str())),
    ])
}

/// The context value of an index.
#[verifier::external_body]
fn index_value(i: &Index) -> minijinja::Value {
    minijinja::Value::from_pairs([
        ("name", minijinja::Value::from(i.name.as_str())),
        ("def", minijinja::Value::from(i.def.as_str())),
    ])
}

/// The context value of a foreign key.
#[verifier::external_body]
fn foreign_key_value(f: &ForeignKey) -> minijinja::Value {
    minijinja::Value::from_pairs([
        ("name", minijinja::Value::from(f.name.as_str())),
        ("referrer_table", minijinja::Value::from(f.referrer_table.as_str())),
        ("referee_table", minijinja::Value::from(f.referee_table.as_str())),
        ("def", minijinja::Value::from(f.def.as_str())),
    ])
}

/// The context value of a table.
#[verifier::external_body]
fn table_value(t: &Table) -> minijinja::Value {
    let fks = |v: &Vec<ForeignKey>| minijinja::Value::from(v.iter().map(foreign_key_value).collect::<Vec<_>>());
    minijinja::Value::from_pairs([
        ("name", minijinja::Value::from(t.name.as_str())),
        ("comment", minijinja::Value::from(t.comment.as_str())),
        ("columns", minijinja::Value::from(t.columns.iter().map(column_value).collect::<Vec<_>>())),
        ("indices", minijinja::Value::from(t.indices.iter().map(index_value).collect::<Vec<_>>())),
        ("foreign_keys", fks(&t.foreign_keys)),
        ("foreign_key_backlinks", fks(&t.foreign_key_backlinks)),
    ])
}

/// The context value of the schema: its tables by name.
#[verifier::external_body]
fn schema_value(schema: &IntermediateSchema) -> minijinja::Value {
    let tables = (0..schema.tables.len())
        .map(|i| (schema.tables.key_at(i).clone(), table_value(schema.tables.value_at(i))));
    minijinja::Value::from_pairs([("tables", minijinja::Value::from_pairs(tables))])
}

/// Renders with `minijinja`: adds `template` (`Environment::add_template`)
/// and the filter `linkify_schema_elements_markdown`, which calls the
/// function of that name with `filter_schema`, and renders it
/// (`Template::render`) with the schema's context value. The contract
/// claims only that the result is `rendered_schema` of the template and
/// the schema.
#[verifier::external_body]
fn render_template(
    template: &str,
    schema: &IntermediateSchema,
    filter_schema: IntermediateSchema,
) -> (r: Result<String, minijinja::Error>)
    requires
        filter_schema@ == schema@,
    ensures
        match r {
            Ok(s) => rendered_schema(template@, schema@) == Some(s@),
            Err(_) => rendered_schema(template@, schema@) is None,
        },
{
    let mut jinja = minijinja::Environment::new();
    jinja.add_template("schema.md", template)?;
    let filter_schema = Arc::new(filter_schema);
    jinja.add_filter("linkify_schema_elements_markdown", move |text: String| {
        linkify_schema_elements_markdown(text, &filter_schema)
    });
    jinja.get_template("schema.md")?.render(schema_value(schema))
}

/// The message of a rendering error (its `Display`). Nothing is claimed of it.
#[verifier::external_body]
fn render_error_message(e: &minijinja::Error) -> String {
    e.to_string()
}

/// Why the documentation could not be rendered.
pub struct RenderError {
    pub message: String,
}

/// Renders the schema's documentation with the Jinja template `template`.
/// Fails where the template does not parse or does not render.
pub fn render_schema(template: &str, schema: &IntermediateSchema) -> (r: Result<String, RenderError>)
    ensures
        match r {
            Ok(s) => rendered_schema(template@, schema@) == Some(s@),
            Err(_) => rendered_schema(template@, schema@) is None,
        },
{
    match render_template(template, schema, schema.duplicate()) {
        Ok(s) => Ok(s),
        Err(e) => Err(RenderError { message: render_error_message(&e) }),
    }
}

} // verus!
