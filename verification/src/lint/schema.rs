//! The rules that schema linting applies to the database.
use vstd::prelude::*;

verus! {

/// A rule of schema linting.
#[derive(Copy, Clone, Debug, PartialEq, Eq, PartialOrd, Ord, Hash)]
pub enum SchemaDiagnosticRule {
    DontUseTimestampWithoutTimeZone,
    DontUseMoney,
    DontUseSerial,
    DontUseVarcharNByDefault,
    ColumnRequiresQuotation,
    ObjectRequiresQuotation,
    TableWithoutReplicaIdentity,
    PossibleObjectNameTruncation,
    DuplicateIndexes,
    DuplicateForeignKeys,
    ForeignKeyWithoutIndex,
    ForeignKeyWithUnmatchedColumnType,
    IndexWithRedundantWhereClause,
    OverlappingIndexes,
    OverlappingForeignKeys,
    TableWithoutPrimaryKey,
    BtreeIndexOnArrayColumn,
    IndexWithBoolean,
}

impl SchemaDiagnosticRule {
    /// The name of the rule, in snake case; concessions name rules by it.
    pub open spec fn spec_name(self) -> Seq<char> {
        match self {
            SchemaDiagnosticRule::DontUseTimestampWithoutTimeZone => "dont_use_timestamp_without_time_zone"@,
            SchemaDiagnosticRule::DontUseMoney => "dont_use_money"@,
            SchemaDiagnosticRule::DontUseSerial => "dont_use_serial"@,
            SchemaDiagnosticRule::DontUseVarcharNByDefault => "dont_use_varchar_n_by_default"@,
            SchemaDiagnosticRule::ColumnRequiresQuotation => "column_requires_quotation"@,
            SchemaDiagnosticRule::ObjectRequiresQuotation => "object_requires_quotation"@,
            SchemaDiagnosticRule::TableWithoutReplicaIdentity => "table_without_replica_identity"@,
            SchemaDiagnosticRule::PossibleObjectNameTruncation => "possible_object_name_truncation"@,
            SchemaDiagnosticRule::DuplicateIndexes => "duplicate_indexes"@,
            SchemaDiagnosticRule::DuplicateForeignKeys => "duplicate_foreign_keys"@,
            SchemaDiagnosticRule::ForeignKeyWithoutIndex => "foreign_key_without_index"@,
            SchemaDiagnosticRule::ForeignKeyWithUnmatchedColumnType => "foreign_key_with_unmatched_column_type"@,
            SchemaDiagnosticRule::IndexWithRedundantWhereClause => "index_with_redundant_where_clause"@,
            SchemaDiagnosticRule::OverlappingIndexes => "overlapping_indexes"@,
            SchemaDiagnosticRule::OverlappingForeignKeys => "overlapping_foreign_keys"@,
            SchemaDiagnosticRule::TableWithoutPrimaryKey => "table_without_primary_key"@,
            SchemaDiagnosticRule::BtreeIndexOnArrayColumn => "btree_index_on_array_column"@,
            SchemaDiagnosticRule::IndexWithBoolean => "index_with_boolean"@,
        }
    }

    /// The name of the rule, in snake case.
    pub fn name(self) -> (s: &'static str)
        ensures
            s@ == self.spec_name(),
    {
        match self {
            SchemaDiagnosticRule::DontUseTimestampWithoutTimeZone => "dont_use_timestamp_without_time_zone",
            SchemaDiagnosticRule::DontUseMoney => "dont_use_money",
            SchemaDiagnosticRule::DontUseSerial => "dont_use_serial",
            SchemaDiagnosticRule::DontUseVarcharNByDefault => "dont_use_varchar_n_by_default",
            SchemaDiagnosticRule::ColumnRequiresQuotation => "column_requires_quotation",
            SchemaDiagnosticRule::ObjectRequiresQuotation => "object_requires_quotation",
            SchemaDiagnosticRule::TableWithoutReplicaIdentity => "table_without_replica_identity",
            SchemaDiagnosticRule::PossibleObjectNameTruncation => "possible_object_name_truncation",
            SchemaDiagnosticRule::DuplicateIndexes => "duplicate_indexes",
            SchemaDiagnosticRule::DuplicateForeignKeys => "duplicate_foreign_keys",
            SchemaDiagnosticRule::ForeignKeyWithoutIndex => "foreign_key_without_index",
            SchemaDiagnosticRule::ForeignKeyWithUnmatchedColumnType => "foreign_key_with_unmatched_column_type",
            SchemaDiagnosticRule::IndexWithRedundantWhereClause => "index_with_redundant_where_clause",
            SchemaDiagnosticRule::OverlappingIndexes => "overlapping_indexes",
            SchemaDiagnosticRule::OverlappingForeignKeys => "overlapping_foreign_keys",
            SchemaDiagnosticRule::TableWithoutPrimaryKey => "table_without_primary_key",
            SchemaDiagnosticRule::BtreeIndexOnArrayColumn => "btree_index_on_array_column",
            SchemaDiagnosticRule::IndexWithBoolean => "index_with_boolean",
        }
    }
}

/// Every schema rule, in the order they are declared.
pub open spec fn all_schema_rules() -> Seq<SchemaDiagnosticRule> {
    seq![
        SchemaDiagnosticRule::DontUseTimestampWithoutTimeZone,
        SchemaDiagnosticRule::DontUseMoney,
        SchemaDiagnosticRule::DontUseSerial,
        SchemaDiagnosticRule::DontUseVarcharNByDefault,
        SchemaDiagnosticRule::ColumnRequiresQuotation,
        SchemaDiagnosticRule::ObjectRequiresQuotation,
        SchemaDiagnosticRule::TableWithoutReplicaIdentity,
        SchemaDiagnosticRule::PossibleObjectNameTruncation,
        SchemaDiagnosticRule::DuplicateIndexes,
        SchemaDiagnosticRule::DuplicateForeignKeys,
        SchemaDiagnosticRule::ForeignKeyWithoutIndex,
        SchemaDiagnosticRule::ForeignKeyWithUnmatchedColumnType,
        SchemaDiagnosticRule::IndexWithRedundantWhereClause,
        SchemaDiagnosticRule::OverlappingIndexes,
        SchemaDiagnosticRule::OverlappingForeignKeys,
        SchemaDiagnosticRule::TableWithoutPrimaryKey,
        SchemaDiagnosticRule::BtreeIndexOnArrayColumn,
        SchemaDiagnosticRule::IndexWithBoolean,
    ]
}

/// Every schema rule, in the order they are declared.
pub fn schema_rules() -> (v: Vec<SchemaDiagnosticRule>)
    ensures
        v@ == all_schema_rules(),
{
    let v = vec![
        SchemaDiagnosticRule::DontUseTimestampWithoutTimeZone,
        SchemaDiagnosticRule::DontUseMoney,
        SchemaDiagnosticRule::DontUseSerial,
        SchemaDiagnosticRule::DontUseVarcharNByDefault,
        SchemaDiagnosticRule::ColumnRequiresQuotation,
        SchemaDiagnosticRule::ObjectRequiresQuotation,
        SchemaDiagnosticRule::TableWithoutReplicaIdentity,
        SchemaDiagnosticRule::PossibleObjectNameTruncation,
        SchemaDiagnosticRule::DuplicateIndexes,
        SchemaDiagnosticRule::DuplicateForeignKeys,
        SchemaDiagnosticRule::ForeignKeyWithoutIndex,
        SchemaDiagnosticRule::ForeignKeyWithUnmatchedColumnType,
        SchemaDiagnosticRule::IndexWithRedundantWhereClause,
        SchemaDiagnosticRule::OverlappingIndexes,
        SchemaDiagnosticRule::OverlappingForeignKeys,
        SchemaDiagnosticRule::TableWithoutPrimaryKey,
        SchemaDiagnosticRule::BtreeIndexOnArrayColumn,
        SchemaDiagnosticRule::IndexWithBoolean,
    ];
    assert(v@ =~= all_schema_rules());
    v
}

/// Every rule is in the list of rules.
pub proof fn lemma_all_schema_rules_complete(r: SchemaDiagnosticRule)
    ensures
        all_schema_rules().contains(r),
{
    match r {
        SchemaDiagnosticRule::DontUseTimestampWithoutTimeZone => { assert(all_schema_rules()[0] == r); },
        SchemaDiagnosticRule::DontUseMoney => { assert(all_schema_rules()[1] == r); },
        SchemaDiagnosticRule::DontUseSerial => { assert(all_schema_rules()[2] == r); },
        SchemaDiagnosticRule::DontUseVarcharNByDefault => { assert(all_schema_rules()[3] == r); },
        SchemaDiagnosticRule::ColumnRequiresQuotation => { assert(all_schema_rules()[4] == r); },
        SchemaDiagnosticRule::ObjectRequiresQuotation => { assert(all_schema_rules()[5] == r); },
        SchemaDiagnosticRule::TableWithoutReplicaIdentity => { assert(all_schema_rules()[6] == r); },
        SchemaDiagnosticRule::PossibleObjectNameTruncation => { assert(all_schema_rules()[7] == r); },
        SchemaDiagnosticRule::DuplicateIndexes => { assert(all_schema_rules()[8] == r); },
        SchemaDiagnosticRule::DuplicateForeignKeys => { assert(all_schema_rules()[9] == r); },
        SchemaDiagnosticRule::ForeignKeyWithoutIndex => { assert(all_schema_rules()[10] == r); },
        SchemaDiagnosticRule::ForeignKeyWithUnmatchedColumnType => { assert(all_schema_rules()[11] == r); },
        SchemaDiagnosticRule::IndexWithRedundantWhereClause => { assert(all_schema_rules()[12] == r); },
        SchemaDiagnosticRule::OverlappingIndexes => { assert(all_schema_rules()[13] == r); },
        SchemaDiagnosticRule::OverlappingForeignKeys => { assert(all_schema_rules()[14] == r); },
        SchemaDiagnosticRule::TableWithoutPrimaryKey => { assert(all_schema_rules()[15] == r); },
        SchemaDiagnosticRule::BtreeIndexOnArrayColumn => { assert(all_schema_rules()[16] == r); },
        SchemaDiagnosticRule::IndexWithBoolean => { assert(all_schema_rules()[17] == r); },
    }
}

/// Schema rules are told apart by their names, the names that concessions
/// in the configuration match.
pub proof fn lemma_schema_rule_names_distinct(a: SchemaDiagnosticRule, b: SchemaDiagnosticRule)
    ensures
        a.spec_name() == b.spec_name() ==> a == b,
{
    reveal_strlit("dont_use_timestamp_without_time_zone");
    reveal_strlit("dont_use_money");
    reveal_strlit("dont_use_serial");
    reveal_strlit("dont_use_varchar_n_by_default");
    reveal_strlit("column_requires_quotation");
    reveal_strlit("object_requires_quotation");
    reveal_strlit("table_without_replica_identity");
    reveal_strlit("possible_object_name_truncation");
    reveal_strlit("duplicate_indexes");
    reveal_strlit("duplicate_foreign_keys");
    reveal_strlit("foreign_key_without_index");
    reveal_strlit("foreign_key_with_unmatched_column_type");
    reveal_strlit("index_with_redundant_where_clause");
    reveal_strlit("overlapping_indexes");
    reveal_strlit("overlapping_foreign_keys");
    reveal_strlit("table_without_primary_key");
    reveal_strlit("btree_index_on_array_column");
    reveal_strlit("index_with_boolean");
    if a != b {
        assert(a.spec_name().len() != b.spec_name().len() || a.spec_name()[0] != b.spec_name()[0]);
    }
}

} // verus!
