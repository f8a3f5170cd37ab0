//! The schema as the database describes it. The queries are run by the
//! caller; the rows they give are turned into tables here.
use crate::intermediate::{
    Column, ColumnView, ForeignKey, ForeignKeyView, Index, IndexView, IntermediateSchema, Table,
    TableView,
};
use crate::name_map::{sorted_insert, NameMap};
use crate::text::{copy_string, str_eq};
use vstd::prelude::*;

verus! {

/// The only PostgreSQL schema that is documented.
pub const SCHEMA_NAME: &'static str = "public";

/// The schema-qualified name of a table, to cast it to a `regclass` without
/// any risk of clashing names.
pub fn qualified_table_name(table_name: &str) -> (q: String)
    ensures
        q@ == "public."@ + table_name@,
{
    let mut q = String::from_str("public.");
    q.append(table_name);
    q
}

/// A row of the columns query: name, data type, `is_nullable` (`YES`/`NO`), comment.
pub type ColumnRow = (String, String, String, String);

/// A row of the indices query: name and definition.
pub type IndexRow = (String, String);

/// A row of a foreign-key query: constraint name, definition, and the name
/// of the table at the other end.
pub type ForeignKeyRow = (String, String, String);

pub open spec fn column_of_row(r: (Seq<char>, Seq<char>, Seq<char>, Seq<char>)) -> ColumnView {
    ColumnView { name: r.0, data_type: r.1, not_null: r.2 == "NO"@, comment: r.3 }
}

pub open spec fn column_row_views(v: Seq<ColumnRow>) -> Seq<ColumnView> {
    v.map_values(|r: ColumnRow| column_of_row((r.0@, r.1@, r.2@, r.3@)))
}

pub open spec fn index_row_views(v: Seq<IndexRow>) -> Seq<IndexView> {
    v.map_values(|r: IndexRow| IndexView { name: r.0@, def: r.1@ })
}

/// Foreign keys from the table `table` to others.
pub open spec fn foreign_key_row_views(table: Seq<char>, v: Seq<ForeignKeyRow>) -> Seq<ForeignKeyView> {
    v.map_values(
        |r: ForeignKeyRow|
            ForeignKeyView { name: r.0@, referrer_table: table, referee_table: r.2@, def: r.1@ },
    )
}

/// Foreign keys from others to the table `table`.
pub open spec fn backlink_row_views(table: Seq<char>, v: Seq<ForeignKeyRow>) -> Seq<ForeignKeyView> {
    v.map_values(
        |r: ForeignKeyRow|
            ForeignKeyView { name: r.0@, referrer_table: r.2@, referee_table: table, def: r.1@ },
    )
}

/// Builds a table from its comment and the rows of its column, index,
/// foreign-key and back-link queries, keeping their order.
pub fn gather_table(
    table_name: &str,
    comment: String,
    column_rows: Vec<ColumnRow>,
    index_rows: Vec<IndexRow>,
    foreign_key_rows: Vec<ForeignKeyRow>,
    backlink_rows: Vec<ForeignKeyRow>,
) -> (t: Table)
    ensures
        t@ == (TableView {
            name: table_name@,
            comment: comment@,
            columns: column_row_views(column_rows@),
            indices: index_row_views(index_rows@),
            foreign_keys: foreign_key_row_views(table_name@, foreign_key_rows@),
            foreign_key_backlinks: backlink_row_views(table_name@, backlink_rows@),
        }),
{
    let mut columns: Vec<Column> = Vec::new();
    let mut i: usize = 0;
    while i < column_rows.len()
        invariant
            i <= column_rows.len(),
            crate::intermediate::column_views(columns@) == column_row_views(column_rows@).subrange(0, i as int),
        decreases column_rows.len() - i,
    {
        let row = &column_rows[i];
        let c = Column {
            name: copy_string(&row.0),
            data_type: copy_string(&row.1),
            not_null: str_eq(row.2.as_str(), "NO"),
            comment: copy_string(&row.3),
        };
        let ghost prev_columns = columns@;
        columns.push(c);
        assert(crate::intermediate::column_views(columns@) =~= crate::intermediate::column_views(columns@.drop_last()).push(crate::intermediate::column_views(columns@).last()));
        assert(columns@.drop_last() =~= prev_columns);
        assert(column_row_views(column_rows@).subrange(0, i + 1) =~= column_row_views(column_rows@).subrange(0, i as int).push(column_row_views(column_rows@)[i as int]));
        assert(crate::intermediate::column_views(columns@) =~= column_row_views(column_rows@).subrange(0, i + 1));
        i += 1;
    }
    let mut indices: Vec<Index> = Vec::new();
    let mut i: usize = 0;
    while i < index_rows.len()
        invariant
            i <= index_rows.len(),
            crate::intermediate::index_views(indices@) == index_row_views(index_rows@).subrange(0, i as int),
        decreases index_rows.len() - i,
    {
        let row = &index_rows[i];
        let ghost prev_indices = indices@;
        indices.push(Index { name: copy_string(&row.0), def: copy_string(&row.1) });
        assert(crate::intermediate::index_views(indices@) =~= crate::intermediate::index_views(indices@.drop_last()).push(crate::intermediate::index_views(indices@).last()));
        assert(indices@.drop_last() =~= prev_indices);
        assert(index_row_views(index_rows@).subrange(0, i + 1) =~= index_row_views(index_rows@).subrange(0, i as int).push(index_row_views(index_rows@)[i as int]));
        assert(crate::intermediate::index_views(indices@) =~= index_row_views(index_rows@).subrange(0, i + 1));
        i += 1;
    }
    let mut foreign_keys: Vec<ForeignKey> = Vec::new();
    let mut i: usize = 0;
    while i < foreign_key_rows.len()
        invariant
            i <= foreign_key_rows.len(),
            crate::intermediate::foreign_key_views(foreign_keys@) == foreign_key_row_views(table_name@, foreign_key_rows@).subrange(0, i as int),
        decreases foreign_key_rows.len() - i,
    {
        let row = &foreign_key_rows[i];
        let ghost prev_foreign_keys = foreign_keys@;
        foreign_keys.push(
            ForeignKey {
                name: copy_string(&row.0),
                referrer_table: String::from_str(table_name),
                referee_table: copy_string(&row.2),
                def: copy_string(&row.1),
            },
        );
        assert(crate::intermediate::foreign_key_views(foreign_keys@) =~= crate::intermediate::foreign_key_views(foreign_keys@.drop_last()).push(crate::intermediate::foreign_key_views(foreign_keys@).last()));
        assert(foreign_keys@.drop_last() =~= prev_foreign_keys);
        assert(foreign_key_row_views(table_name@, foreign_key_rows@).subrange(0, i + 1) =~= foreign_key_row_views(table_name@, foreign_key_rows@).subrange(0, i as int).push(foreign_key_row_views(table_name@, foreign_key_rows@)[i as int]));
        assert(crate::intermediate::foreign_key_views(foreign_keys@) =~= foreign_key_row_views(table_name@, foreign_key_rows@).subrange(0, i + 1));
        i += 1;
    }
    let mut foreign_key_backlinks: Vec<ForeignKey> = Vec::new();
    let mut i: usize = 0;
    while i < backlink_rows.len()
        invariant
            i <= backlink_rows.len(),
            crate::intermediate::foreign_key_views(foreign_key_backlinks@) == backlink_row_views(table_name@, backlink_rows@).subrange(0, i as int),
        decreases backlink_rows.len() - i,
    {
        let row = &backlink_rows[i];
        let ghost prev_foreign_key_backlinks = foreign_key_backlinks@;
        foreign_key_backlinks.push(
            ForeignKey {
                name: copy_string(&row.0),
                referrer_table: copy_string(&row.2),
                referee_table: String::from_str(table_name),
                def: copy_string(&row.1),
            },
        );
        assert(crate::intermediate::foreign_key_views(foreign_key_backlinks@) =~= crate::intermediate::foreign_key_views(foreign_key_backlinks@.drop_last()).push(crate::intermediate::foreign_key_views(foreign_key_backlinks@).last()));
        assert(foreign_key_backlinks@.drop_last() =~= prev_foreign_key_backlinks);
        assert(backlink_row_views(table_name@, backlink_rows@).subrange(0, i + 1) =~= backlink_row_views(table_name@, backlink_rows@).subrange(0, i as int).push(backlink_row_views(table_name@, backlink_rows@)[i as int]));
        assert(crate::intermediate::foreign_key_views(foreign_key_backlinks@) =~= backlink_row_views(table_name@, backlink_rows@).subrange(0, i + 1));
        i += 1;
    }
    assert(column_row_views(column_rows@).subrange(0, column_rows@.len() as int) == column_row_views(column_rows@));
    assert(index_row_views(index_rows@).subrange(0, index_rows@.len() as int) == index_row_views(index_rows@));
    assert(foreign_key_row_views(table_name@, foreign_key_rows@).subrange(0, foreign_key_rows@.len() as int) == foreign_key_row_views(table_name@, foreign_key_rows@));
    assert(backlink_row_views(table_name@, backlink_rows@).subrange(0, backlink_rows@.len() as int) == backlink_row_views(table_name@, backlink_rows@));
    Table {
        name: String::from_str(table_name),
        comment,
        columns,
        indices,
        foreign_keys,
        foreign_key_backlinks,
    }
}

/// The tables set by name, later ones winning.
pub open spec fn tables_by_name(tables: Seq<(Seq<char>, TableView)>) -> Seq<(Seq<char>, TableView)>
    decreases tables.len(),
{
    if tables.len() == 0 {
        seq![]
    } else {
        sorted_insert(tables_by_name(tables.drop_last()), tables.last().0, tables.last().1)
    }
}

/// The schema made of the gathered tables, each under the name it was listed by.
pub fn gather_schema(tables: Vec<(String, Table)>) -> (s: IntermediateSchema)
    ensures
        s@ == tables_by_name(tables@.map_values(|e: (String, Table)| (e.0@, e.1@))),
{
    let ghost tv = tables@.map_values(|e: (String, Table)| (e.0@, e.1@));
    let mut out: NameMap<Table> = NameMap::new();
    let mut pending = crate::name_map::reversed(tables);
    let ghost mut done: int = 0;
    while pending.len() > 0
        invariant
            0 <= done,
            done + pending@.len() == tv.len(),
            forall|i: int| 0 <= i < pending@.len() ==> (#[trigger] pending@[i].0@, pending@[i].1@) == tv[tv.len() - 1 - i],
            out@ == tables_by_name(tv.subrange(0, done)),
        decreases pending.len(),
    {
        let (name, table) = pending.pop().unwrap();
        assert((name@, table@) == tv[done]);
        assert(tv.subrange(0, done + 1).drop_last() =~= tv.subrange(0, done));
        out.insert(name, table);
        proof { done = done + 1; }
    }
    assert(tv.subrange(0, done) =~= tv);
    IntermediateSchema { tables: out }
}

} // verus!
