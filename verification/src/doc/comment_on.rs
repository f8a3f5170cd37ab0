//! `COMMENT ON` statements for harvested comments, each comment written as a
//! dollar-quoted string literal whose tag does not occur in it.
use super::gather_comments::{ColumnInfo, ColumnInfoView, TableInfo, TableInfoView, TotalHarvest};
use crate::text::{
    chars_of, contains, contains_chars, copy_string, decimal, ends_with, lemma_decimal_digits, lemma_decimal_injective,
    occurs_at, push_decimal,
};
use vstd::prelude::*;
use vstd::relations::injective_on;
use vstd::set_lib::{lemma_int_range, lemma_len_subset, lemma_map_size, set_int_range};

verus! {

/// The tag of the `n`-th dollar quote: none for the first, then `1`, `2`, ...
pub open spec fn dollar_tag(n: nat) -> Seq<char> {
    if n == 0 {
        seq![]
    } else {
        decimal(n)
    }
}

/// The `n`-th dollar quote: `$$`, `$1$`, `$2$`, ...
pub open spec fn dollar_quote(n: nat) -> Seq<char> {
    seq!['$'] + dollar_tag(n) + seq!['$']
}

/// `n` is the first dollar quote that does not occur in `text`.
pub open spec fn is_first_free_quote(text: Seq<char>, n: nat) -> bool {
    &&& !contains(text, dollar_quote(n))
    &&& forall|m: nat| m < n ==> contains(text, #[trigger] dollar_quote(m))
}

/// The first dollar quote that does not occur in `text`.
pub open spec fn first_free_quote(text: Seq<char>) -> nat {
    choose|n: nat| is_first_free_quote(text, n)
}

/// The literal line for a comment: `$tag$comment$tag$;`, indented, with the
/// first tag whose quote the comment does not hold.
pub open spec fn quoted_comment(comment: Seq<char>) -> Seq<char> {
    let q = dollar_quote(first_free_quote(comment));
    "    "@ + q + comment + q + ";"@
}

/// Two dollar quotes found at the same place are the same quote: a tag
/// holds no `$`, and distinct numbers have distinct tags.
proof fn lemma_quotes_at_same_place(text: Seq<char>, a: nat, b: nat, p: int)
    requires
        occurs_at(text, dollar_quote(a), p),
        occurs_at(text, dollar_quote(b), p),
    ensures
        a == b,
{
    let qa = dollar_quote(a);
    let qb = dollar_quote(b);
    lemma_decimal_digits(a);
    lemma_decimal_digits(b);
    assert(forall|i: int| 0 <= i < qa.len() ==> #[trigger] qa[i] == text[p + i]) by {
        assert forall|i: int| 0 <= i < qa.len() implies #[trigger] qa[i] == text[p + i] by {
            assert(text.subrange(p, p + qa.len())[i] == text[p + i]);
        }
    }
    assert(forall|i: int| 0 <= i < qb.len() ==> #[trigger] qb[i] == text[p + i]) by {
        assert forall|i: int| 0 <= i < qb.len() implies #[trigger] qb[i] == text[p + i] by {
            assert(text.subrange(p, p + qb.len())[i] == text[p + i]);
        }
    }
    if qa.len() < qb.len() {
        let i = qa.len() - 1;
        assert(qa[i] == '$');
        assert(qb[i] == dollar_tag(b)[i - 1]);
        assert(false);
    } else if qb.len() < qa.len() {
        let i = qb.len() - 1;
        assert(qb[i] == '$');
        assert(qa[i] == dollar_tag(a)[i - 1]);
        assert(false);
    } else {
        assert(qa =~= qb);
        assert(dollar_tag(a) =~= qa.subrange(1, qa.len() - 1));
        assert(dollar_tag(b) =~= qb.subrange(1, qb.len() - 1));
        if a != 0 && b != 0 {
            lemma_decimal_injective(a, b);
        }
    }
}

/// If the first `k` quotes all occur in `text`, they occur at `k` distinct
/// places, so `k` is at most the length of `text`.
proof fn lemma_occurring_quotes_bounded(text: Seq<char>, k: nat)
    requires
        forall|m: nat| m < k ==> contains(text, #[trigger] dollar_quote(m)),
    ensures
        k <= text.len(),
{
    let place = |m: int| choose|p: int| #[trigger] occurs_at(text, dollar_quote(m as nat), p);
    let x = set_int_range(0, k as int);
    let y = x.map(place);
    lemma_int_range(0, k as int);
    lemma_int_range(0, text.len() as int);
    assert forall|m: int| x.contains(m) implies occurs_at(text, dollar_quote(m as nat), #[trigger] place(m)) by {
        assert(contains(text, dollar_quote(m as nat)));
    }
    assert(injective_on(place, x)) by {
        assert forall|m1: int, m2: int| x.contains(m1) && x.contains(m2) && #[trigger] place(m1) == #[trigger] place(
            m2,
        ) implies m1 == m2 by {
            lemma_quotes_at_same_place(text, m1 as nat, m2 as nat, place(m1));
        }
    }
    lemma_map_size(x, y, place);
    assert(y.subset_of(set_int_range(0, text.len() as int))) by {
        assert forall|p: int| y.contains(p) implies set_int_range(0, text.len() as int).contains(p) by {
            let m = choose|m: int| x.contains(m) && place(m) == p;
            assert(occurs_at(text, dollar_quote(m as nat), place(m)));
        }
    }
    lemma_len_subset(y, set_int_range(0, text.len() as int));
}

proof fn lemma_first_free_quote(text: Seq<char>, n: nat)
    requires
        is_first_free_quote(text, n),
    ensures
        first_free_quote(text) == n,
{
    let c = first_free_quote(text);
    assert(is_first_free_quote(text, c));
    if c < n {
        assert(contains(text, dollar_quote(c)));
    } else if n < c {
        assert(contains(text, dollar_quote(n)));
    }
}

/// Writes the dollar quote `n` onto `out`.
fn push_dollar_quote(out: &mut String, n: u64)
    ensures
        final(out)@ == old(out)@ + dollar_quote(n as nat),
{
    proof {
        reveal_strlit("$");
    }
    out.append("$");
    if n > 0 {
        push_decimal(out, n);
    }
    out.append("$");
    assert(out@ =~= old(out)@ + dollar_quote(n as nat));
}

/// The first dollar quote (`$$`, `$1$`, `$2$`, ...) that does not occur in
/// `comment`, so that the comment can stand between two of them unchanged.
pub fn free_dollar_quote(comment: &str) -> (q: String)
    ensures
        q@ == dollar_quote(first_free_quote(comment@)),
        !contains(comment@, q@),
{
    let text = chars_of(comment);
    let len = text.len();
    let mut n: usize = 0;
    let mut quote = String::new();
    push_dollar_quote(&mut quote, 0);
    while contains_chars(&text, quote.as_str())
        invariant
            text@ == comment@,
            quote@ == dollar_quote(n as nat),
            forall|m: nat| m < n ==> contains(comment@, #[trigger] dollar_quote(m)),
            len == text@.len(),
            n <= len,
        decreases len - n,
    {
        assert forall|m: nat| m < n + 1 implies contains(comment@, #[trigger] dollar_quote(m)) by {}
        proof {
            lemma_occurring_quotes_bounded(comment@, (n + 1) as nat);
        }
        n = n + 1;
        quote = String::new();
        push_dollar_quote(&mut quote, n as u64);
    }
    proof {
        lemma_first_free_quote(comment@, n as nat);
    }
    quote
}

/// The indented, dollar-quoted literal of a comment, ending the statement.
pub fn comment_literal(comment: &str) -> (line: String)
    ensures
        line@ == quoted_comment(comment@),
{
    let q = free_dollar_quote(comment);
    let mut line = String::new();
    line.append("    ");
    line.append(q.as_str());
    line.append(comment);
    line.append(q.as_str());
    line.append(";");
    line
}

/// The statement lines for the columns of `table_name`, in the order of
/// their names: for each column with a comment, `COMMENT ON COLUMN t.c IS`
/// and the quoted comment.
pub open spec fn column_statements(table_name: Seq<char>, columns: Seq<(Seq<char>, ColumnInfoView)>) -> Seq<
    Seq<char>,
>
    decreases columns.len(),
{
    if columns.len() == 0 {
        seq![]
    } else {
        let (name, c) = columns.last();
        column_statements(table_name, columns.drop_last()) + match c.doc_comment {
            Some(d) => seq![
                "COMMENT ON COLUMN "@ + table_name + "."@ + name + " IS"@,
                quoted_comment(d.comment),
            ],
            None => seq![],
        }
    }
}

/// The statement lines for one table: its own comment, then its columns',
/// then an empty line if there was any.
pub open spec fn table_statements(name: Seq<char>, t: TableInfoView) -> Seq<Seq<char>> {
    let own = match t.doc_comment {
        Some(d) => seq!["COMMENT ON TABLE "@ + name + " IS"@, quoted_comment(d.comment)],
        None => seq![],
    };
    let all = own + column_statements(name, t.columns);
    if all.len() > 0 {
        all.push(seq![])
    } else {
        all
    }
}

/// The statement lines for every table, in the order of their names.
pub open spec fn harvest_statements(tables: Seq<(Seq<char>, TableInfoView)>) -> Seq<Seq<char>>
    decreases tables.len(),
{
    if tables.len() == 0 {
        seq![]
    } else {
        harvest_statements(tables.drop_last()) + table_statements(tables.last().0, tables.last().1)
    }
}

pub open spec fn line_views(v: Seq<String>) -> Seq<Seq<char>> {
    v.map_values(|s: String| s@)
}

pub(crate) fn push_line(out: &mut Vec<String>, line: String)
    ensures
        line_views(final(out)@) == line_views(old(out)@).push(line@),
{
    out.push(line);
    assert(line_views(out@) =~= line_views(old(out)@).push(line@));
}

fn push_statement(out: &mut Vec<String>, head: String, comment: &str)
    ensures
        line_views(final(out)@) == line_views(old(out)@) + seq![head@, quoted_comment(comment@)],
{
    push_line(out, head);
    push_line(out, comment_literal(comment));
    assert(line_views(out@) =~= line_views(old(out)@) + seq![head@, quoted_comment(comment@)]);
}

fn push_table_statements(out: &mut Vec<String>, name: &String, table: &TableInfo)
    ensures
        line_views(final(out)@) == line_views(old(out)@) + table_statements(name@, table@),
{
    let ghost start = line_views(out@);
    let mut emitted = false;
    match &table.doc_comment {
        Some(d) => {
            let mut head = String::new();
            head.append("COMMENT ON TABLE ");
            head.append(name.as_str());
            head.append(" IS");
            push_statement(out, head, d.comment.as_str());
            emitted = true;
        },
        None => {},
    }
    let ghost own = line_views(out@).subrange(start.len() as int, line_views(out@).len() as int);
    assert(line_views(out@) =~= start + own);
    let ghost columns = table@.columns;
    let n = table.columns.len();
    let mut i: usize = 0;
    while i < n
        invariant
            n == columns.len(),
            columns == table@.columns,
            i <= n,
            line_views(out@) == start + own + column_statements(name@, columns.subrange(0, i as int)),
            emitted <==> (own + column_statements(name@, columns.subrange(0, i as int))).len() > 0,
        decreases n - i,
    {
        let column_name = table.columns.key_at(i);
        let column: &ColumnInfo = table.columns.value_at(i);
        assert(columns.subrange(0, i + 1).drop_last() =~= columns.subrange(0, i as int));
        let ghost before = line_views(out@);
        match &column.doc_comment {
            Some(d) => {
                let mut head = String::new();
                head.append("COMMENT ON COLUMN ");
                head.append(name.as_str());
                head.append(".");
                head.append(column_name.as_str());
                head.append(" IS");
                push_statement(out, head, d.comment.as_str());
                emitted = true;
            },
            None => {},
        }
        assert(line_views(out@) =~= start + own + column_statements(name@, columns.subrange(0, i + 1)));
        i += 1;
    }
    assert(columns.subrange(0, n as int) =~= columns);
    if emitted {
        push_line(out, String::new());
        assert(line_views(out@) =~= start + table_statements(name@, table@));
    } else {
        assert(line_views(out@) =~= start + table_statements(name@, table@));
    }
}

/// The `COMMENT ON` statements, one line each, that give the database the
/// harvested comments: tables in the order of their names, each table's
/// comment before its columns', an empty line after each table that had any.
pub fn comment_on_statements(harvest: &TotalHarvest) -> (lines: Vec<String>)
    ensures
        line_views(lines@) == harvest_statements(harvest@),
{
    let mut out: Vec<String> = Vec::new();
    let ghost tables = harvest@;
    let n = harvest.tables.len();
    let mut i: usize = 0;
    assert(line_views(out@) =~= harvest_statements(tables.subrange(0, 0)));
    while i < n
        invariant
            n == tables.len(),
            tables == harvest@,
            i <= n,
            line_views(out@) == harvest_statements(tables.subrange(0, i as int)),
        decreases n - i,
    {
        let name = harvest.tables.key_at(i);
        let table: &TableInfo = harvest.tables.value_at(i);
        assert(tables.subrange(0, i + 1).drop_last() =~= tables.subrange(0, i as int));
        push_table_statements(&mut out, name, table);
        i += 1;
    }
    assert(tables.subrange(0, n as int) =~= tables);
    out
}

/// Searching upward from `start`, past quotes that occur, reaches a free one.
proof fn lemma_first_free_quote_exists(text: Seq<char>, start: nat)
    requires
        forall|m: nat| m < start ==> contains(text, #[trigger] dollar_quote(m)),
    ensures
        is_first_free_quote(text, first_free_quote(text)),
    decreases text.len() + 1 - start,
{
    if !contains(text, dollar_quote(start)) {
        assert(is_first_free_quote(text, start));
    } else {
        assert forall|m: nat| m < start + 1 implies contains(text, #[trigger] dollar_quote(m)) by {}
        lemma_occurring_quotes_bounded(text, start + 1);
        lemma_first_free_quote_exists(text, start + 1);
    }
}

/// A comment written between two copies of its dollar quote reads back
/// unchanged: after the opening quote, the quote occurs first right after
/// the comment. This holds unless the comment ends with the beginning of the
/// quote (a comment ending in `$`, say).
pub proof fn lemma_quoted_comment_reads_back(comment: Seq<char>)
    requires
        forall|k: int|
            1 <= k < dollar_quote(first_free_quote(comment)).len() ==> !ends_with(
                comment,
                #[trigger] dollar_quote(first_free_quote(comment)).take(k),
            ),
    ensures
        ({
            let q = dollar_quote(first_free_quote(comment));
            let literal = q + comment + q;
            &&& occurs_at(literal, q, (q.len() + comment.len()) as int)
            &&& forall|i: int|
                q.len() <= i < q.len() + comment.len() ==> !#[trigger] occurs_at(literal, q, i)
        }),
{
    lemma_first_free_quote_exists(comment, 0);
    let q = dollar_quote(first_free_quote(comment));
    let literal = q + comment + q;
    let ql = q.len() as int;
    let cl = comment.len() as int;
    assert(literal.subrange(ql + cl, ql + cl + ql) =~= q);
    assert forall|i: int| ql <= i < ql + cl implies !#[trigger] occurs_at(literal, q, i) by {
        if occurs_at(literal, q, i) {
            if i + ql <= ql + cl {
                assert(comment.subrange(i - ql, i - ql + ql) =~= literal.subrange(i, i + ql));
                assert(occurs_at(comment, q, i - ql));
                assert(contains(comment, q));
            } else {
                let k = ql + cl - i;
                assert(1 <= k < ql);
                assert(comment.subrange(cl - k, cl) =~= q.take(k)) by {
                    assert forall|j: int| 0 <= j < k implies comment.subrange(cl - k, cl)[j] == q.take(k)[j] by {
                        assert(literal.subrange(i, i + ql)[j] == q[j]);
                        assert(literal[i + j] == comment[i - ql + j]);
                    }
                }
                assert(ends_with(comment, q.take(k)));
            }
        }
    }
}

} // verus!
