//! The schema as the documentation sees it: tables with their comments,
//! columns, indices and foreign keys.
use crate::name_map::{keys_sorted, lemma_sorted_insert_last, NameMap};
use crate::text::copy_string;
use vstd::prelude::*;

verus! {

/// The tables of a schema, by name.
pub struct IntermediateSchema {
    pub tables: NameMap<Table>,
}

pub struct Table {
    pub name: String,
    pub comment: String,
    pub columns: Vec<Column>,
    pub indices: Vec<Index>,
    pub foreign_keys: Vec<ForeignKey>,
    pub foreign_key_backlinks: Vec<ForeignKey>,
}

pub struct Column {
    pub name: String,
    /// The column's SQL type (`type` in the rendered schema).
    pub data_type: String,
    pub not_null: bool,
    pub comment: String,
}

/// An index on a table.
pub struct Index {
    pub name: String,
    /// The SQL that creates it, as `pg_get_constraintdef` or `pg_get_indexdef` give it.
    pub def: String,
}

pub struct ForeignKey {
    pub name: String,
    pub referrer_table: String,
    pub referee_table: String,
    /// The definition as `pg_get_constraintdef` gives it.
    pub def: String,
}

pub struct ColumnView {
    pub name: Seq<char>,
    pub data_type: Seq<char>,
    pub not_null: bool,
    pub comment: Seq<char>,
}

pub struct IndexView {
    pub name: Seq<char>,
    pub def: Seq<char>,
}

pub struct ForeignKeyView {
    pub name: Seq<char>,
    pub referrer_table: Seq<char>,
    pub referee_table: Seq<char>,
    pub def: Seq<char>,
}

pub struct TableView {
    pub name: Seq<char>,
    pub comment: Seq<char>,
    pub columns: Seq<ColumnView>,
    pub indices: Seq<IndexView>,
    pub foreign_keys: Seq<ForeignKeyView>,
    pub foreign_key_backlinks: Seq<ForeignKeyView>,
}

impl View for Column {
    type V = ColumnView;

    open spec fn view(&self) -> ColumnView {
        ColumnView {
            name: self.name@,
            data_type: self.data_type@,
            not_null: self.not_null,
            comment: self.comment@,
        }
    }
}

impl View for Index {
    type V = IndexView;

    open spec fn view(&self) -> IndexView {
        IndexView { name: self.name@, def: self.def@ }
    }
}

impl View for ForeignKey {
    type V = ForeignKeyView;

    open spec fn view(&self) -> ForeignKeyView {
        ForeignKeyView {
            name: self.name@,
            referrer_table: self.referrer_table@,
            referee_table: self.referee_table@,
            def: self.def@,
        }
    }
}

pub open spec fn column_views(v: Seq<Column>) -> Seq<ColumnView> {
    v.map_values(|c: Column| c@)
}

pub open spec fn index_views(v: Seq<Index>) -> Seq<IndexView> {
    v.map_values(|i: Index| i@)
}

pub open spec fn foreign_key_views(v: Seq<ForeignKey>) -> Seq<ForeignKeyView> {
    v.map_values(|f: ForeignKey| f@)
}

impl View for Table {
    type V = TableView;

    open spec fn view(&self) -> TableView {
        TableView {
            name: self.name@,
            comment: self.comment@,
            columns: column_views(self.columns@),
            indices: index_views(self.indices@),
            foreign_keys: foreign_key_views(self.foreign_keys@),
            foreign_key_backlinks: foreign_key_views(self.foreign_key_backlinks@),
        }
    }
}

impl View for IntermediateSchema {
    type V = Seq<(Seq<char>, TableView)>;

    open spec fn view(&self) -> Seq<(Seq<char>, TableView)> {
        self.tables@
    }
}

impl Table {
    /// A table with no name, comment, columns or keys.
    pub(crate) fn empty() -> (t: Table)
        ensures
            t@.name.len() == 0,
            t@.comment.len() == 0,
            t@.columns.len() == 0,
            t@.indices.len() == 0,
            t@.foreign_keys.len() == 0,
            t@.foreign_key_backlinks.len() == 0,
    {
        Table {
            name: String::new(),
            comment: String::new(),
            columns: Vec::new(),
            indices: Vec::new(),
            foreign_keys: Vec::new(),
            foreign_key_backlinks: Vec::new(),
        }
    }
}

impl Column {
    /// A copy of the column.
    pub fn duplicate(&self) -> (c: Column)
        ensures
            c@ == self@,
    {
        Column {
            name: copy_string(&self.name),
            data_type: copy_string(&self.data_type),
            not_null: self.not_null,
            comment: copy_string(&self.comment),
        }
    }
}

impl Index {
    /// A copy of the index.
    pub fn duplicate(&self) -> (i: Index)
        ensures
            i@ == self@,
    {
        Index { name: copy_string(&self.name), def: copy_string(&self.def) }
    }
}

impl ForeignKey {
    /// A copy of the foreign key.
    pub fn duplicate(&self) -> (f: ForeignKey)
        ensures
            f@ == self@,
    {
        ForeignKey {
            name: copy_string(&self.name),
            referrer_table: copy_string(&self.referrer_table),
            referee_table: copy_string(&self.referee_table),
            def: copy_string(&self.def),
        }
    }
}

fn duplicate_columns(v: &Vec<Column>) -> (r: Vec<Column>)
    ensures
        column_views(r@) == column_views(v@),
{
    let mut r: Vec<Column> = Vec::new();
    let mut i: usize = 0;
    while i < v.len()
        invariant
            i <= v.len(),
            column_views(r@) == column_views(v@).subrange(0, i as int),
        decreases v.len() - i,
    {
        let ghost prev = column_views(r@);
        r.push(v[i].duplicate());
        assert(column_views(r@) =~= prev.push(v@[i as int]@));
        assert(column_views(v@).subrange(0, i + 1) =~= prev.push(v@[i as int]@));
        i += 1;
    }
    assert(column_views(v@).subrange(0, i as int) =~= column_views(v@));
    r
}

fn duplicate_indices(v: &Vec<Index>) -> (r: Vec<Index>)
    ensures
        index_views(r@) == index_views(v@),
{
    let mut r: Vec<Index> = Vec::new();
    let mut i: usize = 0;
    while i < v.len()
        invariant
            i <= v.len(),
            index_views(r@) == index_views(v@).subrange(0, i as int),
        decreases v.len() - i,
    {
        let ghost prev = index_views(r@);
        r.push(v[i].duplicate());
        assert(index_views(r@) =~= prev.push(v@[i as int]@));
        assert(index_views(v@).subrange(0, i + 1) =~= prev.push(v@[i as int]@));
        i += 1;
    }
    assert(index_views(v@).subrange(0, i as int) =~= index_views(v@));
    r
}

fn duplicate_foreign_keys(v: &Vec<ForeignKey>) -> (r: Vec<ForeignKey>)
    ensures
        foreign_key_views(r@) == foreign_key_views(v@),
{
    let mut r: Vec<ForeignKey> = Vec::new();
    let mut i: usize = 0;
    while i < v.len()
        invariant
            i <= v.len(),
            foreign_key_views(r@) == foreign_key_views(v@).subrange(0, i as int),
        decreases v.len() - i,
    {
        let ghost prev = foreign_key_views(r@);
        r.push(v[i].duplicate());
        assert(foreign_key_views(r@) =~= prev.push(v@[i as int]@));
        assert(foreign_key_views(v@).subrange(0, i + 1) =~= prev.push(v@[i as int]@));
        i += 1;
    }
    assert(foreign_key_views(v@).subrange(0, i as int) =~= foreign_key_views(v@));
    r
}

impl Table {
    /// A copy of the table.
    pub fn duplicate(&self) -> (t: Table)
        ensures
            t@ == self@,
    {
        Table {
            name: copy_string(&self.name),
            comment: copy_string(&self.comment),
            columns: duplicate_columns(&self.columns),
            indices: duplicate_indices(&self.indices),
            foreign_keys: duplicate_foreign_keys(&self.foreign_keys),
            foreign_key_backlinks: duplicate_foreign_keys(&self.foreign_key_backlinks),
        }
    }
}

impl IntermediateSchema {
    /// A copy of the schema (`Clone`).
    pub fn duplicate(&self) -> (s: IntermediateSchema)
        ensures
            s@ == self@,
    {
        let ghost orig = self@;
        let n = self.tables.len();
        let mut out: NameMap<Table> = NameMap::new();
        let mut i: usize = 0;
        while i < n
            invariant
                n == orig.len(),
                orig == self@,
                keys_sorted(orig),
                i <= n,
                out@ == orig.subrange(0, i as int),
            decreases n - i,
        {
            let key = copy_string(self.tables.key_at(i));
            let table = self.tables.value_at(i).duplicate();
            proof {
                assert forall|k: int| 0 <= k < out@.len() implies crate::text::chars_lt(#[trigger] out@[k].0, key@) by {
                    assert(out@[k] == orig[k]);
                }
                lemma_sorted_insert_last(out@, key@, table@);
            }
            out.insert(key, table);
            assert(out@ =~= orig.subrange(0, i + 1));
            i += 1;
        }
        assert(orig.subrange(0, n as int) =~= orig);
        IntermediateSchema { tables: out }
    }
}

} // verus!
