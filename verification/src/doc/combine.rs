//! Comments harvested from SQL migrations, brought into a schema.
use crate::doc::gather_comments::{DocCommentView, TableInfoView, TotalHarvest};
use crate::intermediate::{ColumnView, IntermediateSchema, Table, TableView};
use crate::name_map::lookup;
use crate::text::copy_string;
use vstd::prelude::*;

verus! {

/// The comment an object keeps: the harvested one where there is one and
/// either the object has none or harvested comments take priority.
pub open spec fn combined_comment(
    current: Seq<char>,
    harvested: Option<DocCommentView>,
    harvest_higher_priority: bool,
) -> Seq<char> {
    match harvested {
        Some(d) => if current.len() == 0 || harvest_higher_priority {
            d.comment
        } else {
            current
        },
        None => current,
    }
}

/// A column after the comments of its harvested table are brought in.
pub open spec fn combine_column(c: ColumnView, ht: TableInfoView, harvest_higher_priority: bool) -> ColumnView {
    match lookup(ht.columns, c.name) {
        Some(hc) => ColumnView {
            name: c.name,
            data_type: c.data_type,
            not_null: c.not_null,
            comment: combined_comment(c.comment, hc.doc_comment, harvest_higher_priority),
        },
        None => c,
    }
}

/// The table stored under `name` after the harvest's comments are brought in.
pub open spec fn combine_table(
    name: Seq<char>,
    t: TableView,
    harvest: Seq<(Seq<char>, TableInfoView)>,
    harvest_higher_priority: bool,
) -> TableView {
    match lookup(harvest, name) {
        None => t,
        Some(ht) => TableView {
            name: t.name,
            comment: combined_comment(t.comment, ht.doc_comment, harvest_higher_priority),
            columns: t.columns.map_values(|c: ColumnView| combine_column(c, ht, harvest_higher_priority)),
            indices: t.indices,
            foreign_keys: t.foreign_keys,
            foreign_key_backlinks: t.foreign_key_backlinks,
        },
    }
}

/// The schema's tables after the harvest's comments are brought in.
pub open spec fn combined_schema(
    schema: Seq<(Seq<char>, TableView)>,
    harvest: Seq<(Seq<char>, TableInfoView)>,
    harvest_higher_priority: bool,
) -> Seq<(Seq<char>, TableView)> {
    schema.map_values(
        |e: (Seq<char>, TableView)| (e.0, combine_table(e.0, e.1, harvest, harvest_higher_priority)),
    )
}

/// Augments `schema` with the comments harvested from SQL files.
///
/// If `harvest_higher_priority` is true, the comments harvested from SQL
/// files override those found in the schema itself; otherwise they only fill
/// in empty ones.
pub fn combine_harvested_comments_into_schema(
    schema: &mut IntermediateSchema,
    harvest: &TotalHarvest,
    harvest_higher_priority: bool,
)
    ensures
        final(schema)@ == combined_schema(old(schema)@, harvest@, harvest_higher_priority),
{
    let ghost orig = schema@;
    let ghost hv = harvest@;
    let n = schema.tables.len();
    let mut i: usize = 0;
    while i < n
        invariant
            n == orig.len(),
            i <= n,
            schema@.len() == n,
            forall|j: int| 0 <= j < i ==> #[trigger] schema@[j] == (orig[j].0, combine_table(orig[j].0, orig[j].1, hv, harvest_higher_priority)),
            forall|j: int| i <= j < n ==> #[trigger] schema@[j] == orig[j],
            hv == harvest@,
        decreases n - i,
    {
        let mut table = schema.tables.replace_value_at(i, Table::empty());
        let ghost tv = table@;
        let key = copy_string(schema.tables.key_at(i));
        assert(key@ == orig[i as int].0);
        match harvest.tables.get(key.as_str()) {
            None => {},
            Some(harvest_table) => {
                let ghost htv = harvest_table@;
                match &harvest_table.doc_comment {
                    Some(harvest_tbl_comment) => {
                        if table.comment.as_str().is_empty() || harvest_higher_priority {
                            table.comment = copy_string(&harvest_tbl_comment.comment);
                        }
                    },
                    None => {},
                }
                let ghost comment_now = table.comment@;
                assert(comment_now == combined_comment(tv.comment, htv.doc_comment, harvest_higher_priority));
                let m = table.columns.len();
                let mut j: usize = 0;
                while j < m
                    invariant
                        m == tv.columns.len(),
                        j <= m,
                        table.columns@.len() == m,
                        htv == harvest_table@,
                        table@.name == tv.name,
                        table@.comment == comment_now,
                        table@.indices == tv.indices,
                        table@.foreign_keys == tv.foreign_keys,
                        table@.foreign_key_backlinks == tv.foreign_key_backlinks,
                        forall|k: int| 0 <= k < j ==> (#[trigger] table.columns@[k])@ == combine_column(tv.columns[k], htv, harvest_higher_priority),
                        forall|k: int| j <= k < m ==> (#[trigger] table.columns@[k])@ == tv.columns[k],
                    decreases m - j,
                {
                    match harvest_table.columns.get(table.columns[j].name.as_str()) {
                        None => {},
                        Some(harvest_column) => {
                            match &harvest_column.doc_comment {
                                Some(harvest_col_comment) => {
                                    if table.columns[j].comment.as_str().is_empty() || harvest_higher_priority {
                                        table.columns[j].comment = copy_string(&harvest_col_comment.comment);
                                    }
                                },
                                None => {},
                            }
                        },
                    }
                    j += 1;
                }
                proof {
                    assert(crate::intermediate::column_views(table.columns@) =~= tv.columns.map_values(
                        |c: ColumnView| combine_column(c, htv, harvest_higher_priority),
                    ));
                }
            },
        }
        let ghost new_tv = table@;
        assert(new_tv == combine_table(orig[i as int].0, orig[i as int].1, hv, harvest_higher_priority));
        schema.tables.replace_value_at(i, table);
        i += 1;
    }
    assert(schema@ =~= combined_schema(orig, hv, harvest_higher_priority));
}

/// Bringing comments in keeps every table under its name, and keeps each
/// table's name, columns (names, types, nullability), indices and foreign keys.
pub proof fn lemma_combine_keeps_shape(
    schema: Seq<(Seq<char>, TableView)>,
    harvest: Seq<(Seq<char>, TableInfoView)>,
    harvest_higher_priority: bool,
)
    ensures
        ({
            let c = combined_schema(schema, harvest, harvest_higher_priority);
            &&& c.len() == schema.len()
            &&& forall|i: int| 0 <= i < c.len() ==> {
                let (k, t) = #[trigger] c[i];
                let (k0, t0) = schema[i];
                &&& k == k0
                &&& t.name == t0.name
                &&& t.indices == t0.indices
                &&& t.foreign_keys == t0.foreign_keys
                &&& t.foreign_key_backlinks == t0.foreign_key_backlinks
                &&& t.columns.len() == t0.columns.len()
                &&& forall|j: int| 0 <= j < t.columns.len() ==> {
                    &&& (#[trigger] t.columns[j]).name == t0.columns[j].name
                    &&& t.columns[j].data_type == t0.columns[j].data_type
                    &&& t.columns[j].not_null == t0.columns[j].not_null
                }
            }
        }),
{
}

/// Unless harvested comments take priority, a comment the schema already has
/// is never replaced, on a table or on a column.
pub proof fn lemma_combine_keeps_existing_comments(
    schema: Seq<(Seq<char>, TableView)>,
    harvest: Seq<(Seq<char>, TableInfoView)>,
)
    ensures
        ({
            let c = combined_schema(schema, harvest, false);
            forall|i: int| 0 <= i < schema.len() ==> {
                &&& (schema[i].1.comment.len() > 0 ==> (#[trigger] c[i]).1.comment == schema[i].1.comment)
                &&& forall|j: int| 0 <= j < schema[i].1.columns.len() && (#[trigger] schema[i].1.columns[j]).comment.len() > 0
                    ==> c[i].1.columns[j].comment == schema[i].1.columns[j].comment
            }
        }),
{
}

/// When harvested comments take priority, every table and column that has
/// a harvested comment ends up with it.
pub proof fn lemma_combine_priority(
    schema: Seq<(Seq<char>, TableView)>,
    harvest: Seq<(Seq<char>, TableInfoView)>,
)
    ensures
        ({
            let c = combined_schema(schema, harvest, true);
            forall|i: int| 0 <= i < schema.len() ==> (lookup(harvest, schema[i].0) matches Some(ht) ==> {
                &&& (ht.doc_comment matches Some(d) ==> (#[trigger] c[i]).1.comment == d.comment)
                &&& forall|j: int| 0 <= j < schema[i].1.columns.len() ==> (
                    lookup(ht.columns, (#[trigger] schema[i].1.columns[j]).name) matches Some(hc) ==> (
                    hc.doc_comment matches Some(d) ==> c[i].1.columns[j].comment == d.comment))
            })
        }),
{
}

/// Bringing the same comments in a second time changes nothing.
pub proof fn lemma_combine_idempotent(
    schema: Seq<(Seq<char>, TableView)>,
    harvest: Seq<(Seq<char>, TableInfoView)>,
    harvest_higher_priority: bool,
)
    ensures
        combined_schema(combined_schema(schema, harvest, harvest_higher_priority), harvest, harvest_higher_priority)
            == combined_schema(schema, harvest, harvest_higher_priority),
{
    let once = combined_schema(schema, harvest, harvest_higher_priority);
    let twice = combined_schema(once, harvest, harvest_higher_priority);
    assert forall|i: int| 0 <= i < once.len() implies #[trigger] twice[i] == once[i] by {
        let (k, t) = schema[i];
        match lookup(harvest, k) {
            None => {},
            Some(ht) => {
                let t1 = once[i].1;
                let t2 = twice[i].1;
                assert(t2.columns =~= t1.columns);
            },
        }
    }
    assert(twice =~= once);
}

} // verus!
