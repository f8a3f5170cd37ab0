//! The items of a schema that have no comment.
use super::comment_on::{line_views, push_line};
use super::combine::combined_schema;
use super::gather_comments::TableInfoView;
use crate::intermediate::{ColumnView, IntermediateSchema, TableView};
use crate::name_map::{keys_sorted, lookup};
use crate::text::{chars_lt, lemma_chars_lt_irreflexive};
use vstd::prelude::*;

verus! {

/// A line for each column of `columns` without a comment: `COLUMN t.c`.
pub open spec fn uncommented_columns(table_name: Seq<char>, columns: Seq<ColumnView>) -> Seq<Seq<char>>
    decreases columns.len(),
{
    if columns.len() == 0 {
        seq![]
    } else {
        uncommented_columns(table_name, columns.drop_last()) + if columns.last().comment.len() == 0 {
            seq!["COLUMN "@ + table_name + "."@ + columns.last().name]
        } else {
            seq![]
        }
    }
}

/// The lines for one table: `TABLE t` if it has no comment, then its
/// uncommented columns in their order.
pub open spec fn uncommented_in_table(name: Seq<char>, t: TableView) -> Seq<Seq<char>> {
    (if t.comment.len() == 0 {
        seq!["TABLE "@ + name]
    } else {
        seq![]
    }) + uncommented_columns(name, t.columns)
}

/// The lines for every table, in the order of their names.
pub open spec fn uncommented(tables: Seq<(Seq<char>, TableView)>) -> Seq<Seq<char>>
    decreases tables.len(),
{
    if tables.len() == 0 {
        seq![]
    } else {
        uncommented(tables.drop_last()) + uncommented_in_table(tables.last().0, tables.last().1)
    }
}

/// The tables and columns of `schema` that have no comment, one line each
/// (`TABLE t`, `COLUMN t.c`), tables in the order of their names and each
/// table before its columns.
pub fn uncommented_items(schema: &IntermediateSchema) -> (lines: Vec<String>)
    ensures
        line_views(lines@) == uncommented(schema@),
{
    let ghost tables = schema@;
    let mut out: Vec<String> = Vec::new();
    let n = schema.tables.len();
    let mut i: usize = 0;
    assert(line_views(out@) =~= uncommented(tables.subrange(0, 0)));
    while i < n
        invariant
            n == tables.len(),
            tables == schema@,
            i <= n,
            line_views(out@) == uncommented(tables.subrange(0, i as int)),
        decreases n - i,
    {
        let name = schema.tables.key_at(i);
        let table = schema.tables.value_at(i);
        assert(tables.subrange(0, i + 1).drop_last() =~= tables.subrange(0, i as int));
        let ghost start = line_views(out@);
        if table.comment.as_str().is_empty() {
            let mut line = String::new();
            line.append("TABLE ");
            line.append(name.as_str());
            push_line(&mut out, line);
        }
        let ghost own = line_views(out@).subrange(start.len() as int, line_views(out@).len() as int);
        assert(line_views(out@) =~= start + own);
        let ghost columns = table@.columns;
        let mut j: usize = 0;
        while j < table.columns.len()
            invariant
                columns == table@.columns,
                columns.len() == table.columns@.len(),
                j <= columns.len(),
                line_views(out@) == start + own + uncommented_columns(name@, columns.subrange(0, j as int)),
            decreases table.columns.len() - j,
        {
            let column = &table.columns[j];
            assert(columns[j as int] == column@);
            assert(columns.subrange(0, j + 1).drop_last() =~= columns.subrange(0, j as int));
            let ghost before = line_views(out@);
            if column.comment.as_str().is_empty() {
                let mut line = String::new();
                line.append("COLUMN ");
                line.append(name.as_str());
                line.append(".");
                line.append(column.name.as_str());
                push_line(&mut out, line);
                assert(columns.subrange(0, j + 1).last() == columns[j as int]);
            }
            assert(line_views(out@) =~= start + own + uncommented_columns(name@, columns.subrange(0, j + 1)));
            j += 1;
        }
        assert(columns.subrange(0, j as int) =~= columns);
        assert(line_views(out@) =~= start + uncommented_in_table(name@, table@));
        i += 1;
    }
    assert(tables.subrange(0, n as int) =~= tables);
    out
}

proof fn lemma_column_lines_start_with_c(table_name: Seq<char>, columns: Seq<ColumnView>)
    ensures
        forall|k: int|
            0 <= k < uncommented_columns(table_name, columns).len() ==> (#[trigger] uncommented_columns(
                table_name,
                columns,
            )[k]).len() > 0 && uncommented_columns(table_name, columns)[k][0] == 'C',
    decreases columns.len(),
{
    reveal_strlit("COLUMN ");
    if columns.len() > 0 {
        lemma_column_lines_start_with_c(table_name, columns.drop_last());
        let before = uncommented_columns(table_name, columns.drop_last());
        let all = uncommented_columns(table_name, columns);
        assert forall|k: int| 0 <= k < all.len() implies (#[trigger] all[k]).len() > 0 && all[k][0] == 'C' by {
            if k < before.len() {
                assert(all[k] == before[k]);
            } else {
                assert(all[k] == "COLUMN "@ + table_name + "."@ + columns.last().name);
            }
        }
    }
}

/// A `TABLE` line of the listing names a table without a comment.
proof fn lemma_table_lines(tables: Seq<(Seq<char>, TableView)>, line: Seq<char>)
    requires
        uncommented(tables).contains(line),
        line.len() > 0,
        line[0] == 'T',
    ensures
        exists|j: int|
            0 <= j < tables.len() && (#[trigger] tables[j]).1.comment.len() == 0 && line == "TABLE "@
                + tables[j].0,
    decreases tables.len(),
{
    reveal_strlit("TABLE ");
    let before = uncommented(tables.drop_last());
    let (name, t) = tables.last();
    let own = if t.comment.len() == 0 {
        seq!["TABLE "@ + name]
    } else {
        Seq::<Seq<char>>::empty()
    };
    let columns = uncommented_columns(name, t.columns);
    assert(uncommented(tables) == before + (own + columns));
    let k = choose|k: int| 0 <= k < uncommented(tables).len() && uncommented(tables)[k] == line;
    if k < before.len() {
        assert(before[k] == line);
        lemma_table_lines(tables.drop_last(), line);
        let j = choose|j: int|
            0 <= j < tables.drop_last().len() && (#[trigger] tables.drop_last()[j]).1.comment.len() == 0
                && line == "TABLE "@ + tables.drop_last()[j].0;
        assert(tables[j] == tables.drop_last()[j]);
    } else if k < before.len() + own.len() {
        assert(tables[tables.len() - 1] == (name, t));
    } else {
        lemma_column_lines_start_with_c(name, t.columns);
        assert(columns[k - before.len() - own.len()] == line);
    }
}

/// Harvested comments supplement the database's: after they are brought in,
/// a table whose harvested comment is not empty is not listed as uncommented.
pub proof fn lemma_harvested_comment_clears_table(
    schema: Seq<(Seq<char>, TableView)>,
    harvest: Seq<(Seq<char>, TableInfoView)>,
    harvest_higher_priority: bool,
    i: int,
)
    requires
        keys_sorted(schema),
        0 <= i < schema.len(),
        lookup(harvest, schema[i].0) matches Some(ht) && ht.doc_comment matches Some(d)
            && d.comment.len() > 0,
    ensures
        !uncommented(combined_schema(schema, harvest, harvest_higher_priority)).contains(
            "TABLE "@ + schema[i].0,
        ),
{
    reveal_strlit("TABLE ");
    let c = combined_schema(schema, harvest, harvest_higher_priority);
    let line = "TABLE "@ + schema[i].0;
    assert(c[i].1.comment.len() > 0);
    if uncommented(c).contains(line) {
        lemma_table_lines(c, line);
        let j = choose|j: int| 0 <= j < c.len() && (#[trigger] c[j]).1.comment.len() == 0 && line == "TABLE "@ + c[j].0;
        assert(c[j].0 == schema[j].0);
        assert(schema[j].0 =~= line.subrange(6, line.len() as int));
        assert(schema[i].0 =~= line.subrange(6, line.len() as int));
        if i < j {
            assert(chars_lt(schema[i].0, schema[j].0));
        } else if j < i {
            assert(chars_lt(schema[j].0, schema[i].0));
        }
        lemma_chars_lt_irreflexive(schema[i].0);
    }
}

} // verus!
